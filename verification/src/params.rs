use vstd::prelude::*;

verus! {

/// An ordered list of key/value pairs, each string taken by its characters.
pub type Pairs = Seq<(Seq<char>, Seq<char>)>;

/// No key occurs at two places of `pairs`.
pub open spec fn distinct_keys(pairs: Pairs) -> bool {
    forall|i: int, j: int|
        0 <= i < pairs.len() && 0 <= j < pairs.len() && i != j ==> pairs[i].0 != pairs[j].0
}

/// `key` is the key of one of `pairs`.
pub open spec fn has_key(pairs: Pairs, key: Seq<char>) -> bool {
    exists|i: int| 0 <= i < pairs.len() && #[trigger] pairs[i].0 == key
}

/// A place in `pairs` at which `key` stands, where there is one.
pub open spec fn index_of_key(pairs: Pairs, key: Seq<char>) -> int {
    choose|i: int| 0 <= i < pairs.len() && #[trigger] pairs[i].0 == key
}

/// The mapping that `pairs` spells out.
pub open spec fn pairs_to_map(pairs: Pairs) -> Map<Seq<char>, Seq<char>> {
    Map::new(
        |key: Seq<char>| has_key(pairs, key),
        |key: Seq<char>| pairs[index_of_key(pairs, key)].1,
    )
}

/// With distinct keys, the pair at place `i` is what the mapping holds for its key.
pub proof fn lemma_pair_in_map(pairs: Pairs, i: int)
    requires
        distinct_keys(pairs),
        0 <= i < pairs.len(),
    ensures
        pairs_to_map(pairs).contains_key(pairs[i].0),
        pairs_to_map(pairs)[pairs[i].0] == pairs[i].1,
{
    let key = pairs[i].0;
    assert(has_key(pairs, key));
    let j = index_of_key(pairs, key);
    assert(0 <= j < pairs.len() && pairs[j].0 == key);
    assert(j == i);
}

/// With distinct keys, the mapping has as many entries as there are pairs.
pub proof fn lemma_map_size(pairs: Pairs)
    requires
        distinct_keys(pairs),
    ensures
        pairs_to_map(pairs).dom().finite(),
        pairs_to_map(pairs).dom().len() == pairs.len(),
    decreases pairs.len(),
{
    if pairs.len() == 0 {
        assert(pairs_to_map(pairs).dom() =~= Set::<Seq<char>>::empty());
    } else {
        let front = pairs.drop_last();
        let last = pairs.last();
        assert(distinct_keys(front)) by {
            assert forall|i: int, j: int|
                0 <= i < front.len() && 0 <= j < front.len() && i != j implies front[i].0
                != front[j].0 by {
                assert(front[i] == pairs[i] && front[j] == pairs[j]);
            }
        }
        lemma_map_size(front);
        assert(!has_key(front, last.0)) by {
            if has_key(front, last.0) {
                let j = index_of_key(front, last.0);
                assert(pairs[j].0 == pairs[pairs.len() - 1].0);
            }
        }
        assert(pairs =~= front.push(last));
        lemma_push_is_insert(front, last.0, last.1);
        assert(pairs_to_map(pairs).dom() =~= pairs_to_map(front).dom().insert(last.0));
        assert(!pairs_to_map(front).dom().contains(last.0));
    }
}

/// A mapping from strings to strings: keys are unique, and the order in which
/// the entries were inserted carries no meaning.
#[derive(Debug)]
pub struct StringMap {
    entries: Vec<(String, String)>,
}

impl StringMap {
    #[verifier::type_invariant]
    spec fn keys_are_unique(self) -> bool {
        distinct_keys(self.pairs())
    }

    /// The entries in the order in which they are stored.
    pub closed spec fn pairs(self) -> Pairs {
        Seq::new(self.entries@.len(), |i: int| (self.entries@[i].0@, self.entries@[i].1@))
    }

    /// The mapping that this value stands for.
    pub open spec fn view(self) -> Map<Seq<char>, Seq<char>> {
        pairs_to_map(self.pairs())
    }

    /// The empty mapping.
    pub fn new() -> (result: StringMap)
        ensures
            result.pairs() == Pairs::empty(),
            result@ == Map::<Seq<char>, Seq<char>>::empty(),
    {
        let result = StringMap { entries: Vec::new() };
        assert(result.pairs() =~= Pairs::empty());
        assert(result@ =~= Map::<Seq<char>, Seq<char>>::empty());
        result
    }

    /// The number of entries, none of which repeats a key.
    pub fn len(&self) -> (result: usize)
        ensures
            result == self.pairs().len(),
            distinct_keys(self.pairs()),
            self@.dom().finite(),
            result == self@.len(),
    {
        proof {
            use_type_invariant(self);
            lemma_map_size(self.pairs());
        }
        self.entries.len()
    }

    /// The key of the entry at place `index`.
    pub fn key_at(&self, index: usize) -> (result: &String)
        requires
            index < self.pairs().len(),
        ensures
            result@ == self.pairs()[index as int].0,
    {
        &self.entries[index].0
    }

    /// The value of the entry at place `index`.
    pub fn value_at(&self, index: usize) -> (result: &String)
        requires
            index < self.pairs().len(),
        ensures
            result@ == self.pairs()[index as int].1,
    {
        &self.entries[index].1
    }

    /// The place at which `key` is stored, if it is stored at all.
    fn position(&self, key: &String) -> (result: Option<usize>)
        ensures
            match result {
                Some(i) => i < self.pairs().len() && self.pairs()[i as int].0 == key@,
                None => !has_key(self.pairs(), key@),
            },
    {
        let mut i: usize = 0;
        while i < self.entries.len()
            invariant
                i <= self.entries@.len(),
                forall|j: int| 0 <= j < i ==> (#[trigger] self.pairs()[j]).0 != key@,
            decreases self.entries@.len() - i,
        {
            if self.entries[i].0 == *key {
                return Some(i);
            }
            i += 1;
        }
        None
    }

    /// The value stored for `key`, if there is one.
    pub fn get(&self, key: &str) -> (result: Option<&String>)
        ensures
            match result {
                Some(value) => self@.contains_key(key@) && value@ == self@[key@],
                None => !self@.contains_key(key@),
            },
    {
        let owned = key.to_owned();
        match self.position(&owned) {
            Some(i) => {
                proof {
                    use_type_invariant(self);
                    lemma_pair_in_map(self.pairs(), i as int);
                }
                Some(&self.entries[i].1)
            },
            None => None,
        }
    }

    /// Whether a value is stored for `key`.
    pub fn contains_key(&self, key: &str) -> (result: bool)
        ensures
            result == self@.contains_key(key@),
    {
        let owned = key.to_owned();
        self.position(&owned).is_some()
    }

    /// Stores `value` for `key`, in place of what was stored for it before.
    pub fn insert(&mut self, key: String, value: String)
        ensures
            final(self)@ == old(self)@.insert(key@, value@),
            has_key(old(self).pairs(), key@) ==> final(self).pairs() == old(self).pairs().update(
                index_of_key(old(self).pairs(), key@),
                (key@, value@),
            ),
            !has_key(old(self).pairs(), key@) ==> final(self).pairs() == old(self).pairs().push(
                (key@, value@),
            ),
    {
        proof {
            use_type_invariant(&*self);
        }
        let ghost before = self.pairs();
        let ghost k = key@;
        let ghost v = value@;
        let found = self.position(&key);
        let mut entries: Vec<(String, String)> = Vec::new();
        std::mem::swap(&mut entries, &mut self.entries);
        match found {
            Some(i) => {
                entries[i] = (key, value);
            },
            None => {
                entries.push((key, value));
            },
        }
        let ghost after: Pairs = Seq::new(
            entries@.len(),
            |i: int| (entries@[i].0@, entries@[i].1@),
        );
        proof {
            match found {
                Some(i) => {
                    assert(has_key(before, k));
                    assert(index_of_key(before, k) == i);
                    assert(after =~= before.update(i as int, (k, v)));
                    lemma_update_is_insert(before, i as int, v);
                },
                None => {
                    assert(after =~= before.push((k, v)));
                    lemma_push_is_insert(before, k, v);
                },
            }
        }
        self.entries = entries;
        assert(self.pairs() =~= after);
    }

    /// Stores every entry of `other`, in place of what was stored for its key
    /// before; the entries under other keys stay as they are.
    pub fn extend(&mut self, other: &StringMap)
        ensures
            final(self)@ == old(self)@.union_prefer_right(other@),
    {
        let ghost start = self@;
        let mut i: usize = 0;
        let count = other.len();
        proof {
            assert(pairs_to_map(other.pairs().take(0)) =~= Map::<Seq<char>, Seq<char>>::empty());
            assert(self@ =~= start.union_prefer_right(pairs_to_map(other.pairs().take(0))));
        }
        while i < count
            invariant
                i <= other.pairs().len(),
                count == other.pairs().len(),
                distinct_keys(other.pairs()),
                self@ == start.union_prefer_right(pairs_to_map(other.pairs().take(i as int))),
            decreases other.pairs().len() - i,
        {
            let key = other.key_at(i).clone();
            let value = other.value_at(i).clone();
            self.insert(key, value);
            proof {
                let done = other.pairs().take(i as int);
                let next = other.pairs().take(i + 1);
                assert(next =~= done.push(other.pairs()[i as int]));
                assert(distinct_keys(done));
                assert(!has_key(done, key@)) by {
                    if has_key(done, key@) {
                        let j = index_of_key(done, key@);
                        assert(other.pairs()[j].0 == other.pairs()[i as int].0);
                    }
                }
                lemma_push_is_insert(done, key@, value@);
                assert(self@ =~= start.union_prefer_right(pairs_to_map(next)));
            }
            i += 1;
        }
        assert(other.pairs().take(i as int) =~= other.pairs());
    }
}

impl Clone for StringMap {
    fn clone(&self) -> (result: StringMap)
        ensures
            result.pairs() == self.pairs(),
            result@ == self@,
    {
        proof {
            use_type_invariant(self);
        }
        let mut entries: Vec<(String, String)> = Vec::new();
        let mut i: usize = 0;
        while i < self.entries.len()
            invariant
                i <= self.entries@.len(),
                entries@.len() == i,
                forall|j: int|
                    0 <= j < i ==> (#[trigger] entries@[j]).0@ == self.entries@[j].0@
                        && entries@[j].1@ == self.entries@[j].1@,
            decreases self.entries@.len() - i,
        {
            entries.push((self.entries[i].0.clone(), self.entries[i].1.clone()));
            i += 1;
        }
        assert(Seq::new(entries@.len(), |i: int| (entries@[i].0@, entries@[i].1@))
            =~= self.pairs());
        StringMap { entries }
    }
}

/// The entries of `parameters`, none where there is no mapping.
pub open spec fn optional_pairs(parameters: Option<StringMap>) -> Pairs {
    match parameters {
        Some(p) => p.pairs(),
        None => Pairs::empty(),
    }
}

/// Replacing the value at place `i` is an insertion under that place's key.
pub proof fn lemma_update_is_insert(pairs: Pairs, i: int, value: Seq<char>)
    requires
        distinct_keys(pairs),
        0 <= i < pairs.len(),
    ensures
        distinct_keys(pairs.update(i, (pairs[i].0, value))),
        pairs_to_map(pairs.update(i, (pairs[i].0, value))) == pairs_to_map(pairs).insert(
            pairs[i].0,
            value,
        ),
{
    let key = pairs[i].0;
    let after = pairs.update(i, (key, value));
    assert forall|a: int, b: int|
        0 <= a < after.len() && 0 <= b < after.len() && a != b implies after[a].0 != after[b].0 by {
        assert(after[a].0 == pairs[a].0);
        assert(after[b].0 == pairs[b].0);
    }
    let want = pairs_to_map(pairs).insert(key, value);
    assert forall|q: Seq<char>| pairs_to_map(after).contains_key(q) <==> want.contains_key(q) by {
        if has_key(after, q) {
            let j = index_of_key(after, q);
            assert(pairs[j].0 == q);
        }
        if has_key(pairs, q) {
            let j = index_of_key(pairs, q);
            assert(after[j].0 == q);
        }
        assert(after[i].0 == key);
    }
    assert forall|q: Seq<char>| pairs_to_map(after).contains_key(q) implies pairs_to_map(after)[q]
        == want[q] by {
        let j = index_of_key(after, q);
        lemma_pair_in_map(after, j);
        if j != i {
            assert(pairs[j] == after[j]);
            lemma_pair_in_map(pairs, j);
        }
    }
    assert(pairs_to_map(after) =~= want);
}

/// Appending a pair under a new key is an insertion.
pub proof fn lemma_push_is_insert(pairs: Pairs, key: Seq<char>, value: Seq<char>)
    requires
        distinct_keys(pairs),
        !has_key(pairs, key),
    ensures
        distinct_keys(pairs.push((key, value))),
        pairs_to_map(pairs.push((key, value))) == pairs_to_map(pairs).insert(key, value),
{
    let after = pairs.push((key, value));
    let n = pairs.len() as int;
    assert forall|a: int, b: int|
        0 <= a < after.len() && 0 <= b < after.len() && a != b implies after[a].0 != after[b].0 by {
        if a < n {
            assert(after[a].0 == pairs[a].0);
        }
        if b < n {
            assert(after[b].0 == pairs[b].0);
        }
    }
    let want = pairs_to_map(pairs).insert(key, value);
    assert forall|q: Seq<char>| pairs_to_map(after).contains_key(q) <==> want.contains_key(q) by {
        if has_key(after, q) {
            let j = index_of_key(after, q);
            if j < n {
                assert(pairs[j].0 == q);
            }
        }
        if has_key(pairs, q) {
            let j = index_of_key(pairs, q);
            assert(after[j].0 == q);
        }
        assert(after[n].0 == key);
    }
    assert forall|q: Seq<char>| pairs_to_map(after).contains_key(q) implies pairs_to_map(after)[q]
        == want[q] by {
        let j = index_of_key(after, q);
        lemma_pair_in_map(after, j);
        if j < n {
            assert(pairs[j] == after[j]);
            lemma_pair_in_map(pairs, j);
        }
    }
    assert(pairs_to_map(after) =~= want);
}

} // verus!
