use crate::messages::{
    finalization, is_finalized, is_key_data_of, lemma_finalization_shape,
    lemma_finalized_ends_ready, outstanding_salt, parameter_statuses,
    Authentication, AuthenticationView, MessageView, PgWireBackendMessage, READY_STATUS_IDLE,
};
use crate::params::{distinct_keys, optional_pairs, Pairs, StringMap};
use vstd::prelude::*;

verus! {

/// How far the handshake of a connection has come.
#[derive(Clone, Copy, Debug, PartialEq, Eq, Structural)]
pub enum PgWireConnectionState {
    AwaitingStartup,
    AuthenticationInProgress,
    ReadyForQuery,
}

impl PgWireConnectionState {
    /// The place of a state on the way to ready for query.
    pub open spec fn rank(self) -> nat {
        match self {
            PgWireConnectionState::AwaitingStartup => 0,
            PgWireConnectionState::AuthenticationInProgress => 1,
            PgWireConnectionState::ReadyForQuery => 2,
        }
    }
}

/// One client connection during its handshake: the peer's host, the process
/// identifier that the server reports, the session metadata, the state, and
/// every message written to the outbound channel so far, in order.
#[derive(Clone, Debug)]
pub struct Connection {
    host: String,
    process_id: i32,
    metadata: StringMap,
    state: PgWireConnectionState,
    outbound: Vec<PgWireBackendMessage>,
}

impl Connection {
    /// The peer's host.
    pub closed spec fn host_view(self) -> Seq<char> {
        self.host@
    }

    /// The process identifier.
    pub closed spec fn spec_process_id(&self) -> i32 {
        self.process_id
    }

    /// The session metadata.
    pub closed spec fn spec_metadata(self) -> StringMap {
        self.metadata
    }

    /// The state.
    pub closed spec fn spec_state(&self) -> PgWireConnectionState {
        self.state
    }

    /// The messages written to the outbound channel so far, oldest first.
    pub closed spec fn log(self) -> Seq<MessageView> {
        Seq::new(self.outbound@.len(), |i: int| self.outbound@[i]@)
    }

    /// The connection is ready for query exactly when its outbound channel
    /// ends with a complete closing sequence.
    pub open spec fn wf(self) -> bool {
        self.spec_state() is ReadyForQuery <==> is_finalized(self.log())
    }

    /// `self` is `before` with nothing but messages added and the state changed.
    pub open spec fn same_session_as(self, before: Connection) -> bool {
        &&& self.host_view() == before.host_view()
        &&& self.spec_process_id() == before.spec_process_id()
        &&& self.spec_metadata() == before.spec_metadata()
    }

    /// `self` is `before` after one closing sequence, and is ready for query.
    pub open spec fn finalized_from(self, before: Connection) -> bool {
        &&& self.same_session_as(before)
        &&& self.spec_state() is ReadyForQuery
        &&& exists|pairs: Pairs, secret_key: i32|
            distinct_keys(pairs) && self.log() == before.log() + #[trigger] finalization(
                pairs,
                before.spec_process_id(),
                secret_key,
            )
    }

    /// `self` is `before` after the closing sequence with these parameters
    /// and some secret key, and is ready for query.
    pub open spec fn closed_with(self, before: Connection, pairs: Pairs) -> bool {
        &&& self.same_session_as(before)
        &&& self.spec_state() is ReadyForQuery
        &&& exists|secret_key: i32|
            self.log() == before.log() + #[trigger] finalization(
                pairs,
                before.spec_process_id(),
                secret_key,
            )
    }

    /// `self` is `before` with `parameters` merged into the metadata and
    /// `challenge` written, the authentication in progress.
    pub open spec fn challenged(
        self,
        before: Connection,
        parameters: Map<Seq<char>, Seq<char>>,
        challenge: AuthenticationView,
    ) -> bool {
        &&& self.host_view() == before.host_view()
        &&& self.spec_process_id() == before.spec_process_id()
        &&& self.spec_metadata()@ == before.spec_metadata()@.union_prefer_right(parameters)
        &&& self.spec_state() is AuthenticationInProgress
        &&& self.log() == before.log().push(MessageView::Authentication(challenge))
    }

    /// A connection from `host` that has sent nothing and awaits the startup message.
    pub fn new(host: String, process_id: i32) -> (result: Connection)
        ensures
            result.wf(),
            result.host_view() == host@,
            result.spec_process_id() == process_id,
            result.spec_metadata()@ == Map::<Seq<char>, Seq<char>>::empty(),
            result.spec_state() is AwaitingStartup,
            result.log() == Seq::<MessageView>::empty(),
    {
        let result = Connection {
            host,
            process_id,
            metadata: StringMap::new(),
            state: PgWireConnectionState::AwaitingStartup,
            outbound: Vec::new(),
        };
        proof {
            assert(result.log() =~= Seq::<MessageView>::empty());
            if is_finalized(result.log()) {
                lemma_finalized_ends_ready(result.log());
            }
        }
        result
    }

    /// The peer's host.
    pub fn host(&self) -> (result: &String)
        ensures
            result@ == self.host_view(),
    {
        &self.host
    }

    #[verifier::when_used_as_spec(spec_process_id)]
    pub fn process_id(&self) -> (result: i32)
        ensures
            result == self.spec_process_id(),
    {
        self.process_id
    }

    /// The session metadata.
    pub fn metadata(&self) -> (result: &StringMap)
        ensures
            *result == self.spec_metadata(),
    {
        &self.metadata
    }

    #[verifier::when_used_as_spec(spec_state)]
    pub fn state(&self) -> (result: PgWireConnectionState)
        ensures
            result == self.spec_state(),
    {
        self.state
    }

    /// The messages written to the outbound channel so far, oldest first.
    pub fn outbound(&self) -> (result: &Vec<PgWireBackendMessage>)
        ensures
            result@.len() == self.log().len(),
            forall|i: int| 0 <= i < result@.len() ==> (#[trigger] result@[i])@ == self.log()[i],
    {
        &self.outbound
    }

    /// The salt of the salted-hash challenge that was written last, if the
    /// last message written is such a challenge.
    pub fn pending_salt(&self) -> (result: Option<&Vec<u8>>)
        ensures
            match result {
                Some(salt) => outstanding_salt(self.log()) == Some(salt@),
                None => outstanding_salt(self.log()) is None,
            },
    {
        let count = self.outbound.len();
        if count == 0 {
            return None;
        }
        assert(self.log().last() == self.outbound@[count - 1]@);
        match &self.outbound[count - 1] {
            PgWireBackendMessage::Authentication(Authentication::MD5Password(salt)) => Some(salt),
            _ => None,
        }
    }

    /// `self` is `before` after more of the handshake: the same peer and
    /// process, the messages of `before` and perhaps more after them, and a
    /// state that is no earlier.
    pub open spec fn extends(self, before: Connection) -> bool {
        &&& self.host_view() == before.host_view()
        &&& self.spec_process_id() == before.spec_process_id()
        &&& before.log().is_prefix_of(self.log())
        &&& before.spec_state().rank() <= self.spec_state().rank()
    }

    /// Copies every entry of `parameters` into the metadata, over what was
    /// stored under its key; entries under other keys stay.
    pub fn merge_metadata(&mut self, parameters: &StringMap)
        ensures
            final(self).spec_metadata()@ == old(self).spec_metadata()@.union_prefer_right(
                parameters@,
            ),
            final(self).host_view() == old(self).host_view(),
            final(self).spec_process_id() == old(self).spec_process_id(),
            final(self).spec_state() == old(self).spec_state(),
            final(self).log() == old(self).log(),
            old(self).wf() ==> final(self).wf(),
    {
        self.metadata.extend(parameters);
    }

    fn push(&mut self, message: PgWireBackendMessage)
        ensures
            final(self).log() == old(self).log().push(message@),
            final(self).same_session_as(*old(self)),
            final(self).spec_state() == old(self).spec_state(),
    {
        self.outbound.push(message);
        assert(self.log() =~= old(self).log().push(message@));
    }

    /// Writes an authentication message that asks the client for more, and
    /// marks the authentication as in progress.
    pub fn send_challenge(&mut self, challenge: Authentication)
        requires
            old(self).wf(),
            !(old(self).spec_state() is ReadyForQuery),
        ensures
            final(self).wf(),
            final(self).same_session_as(*old(self)),
            final(self).extends(*old(self)),
            final(self).spec_state() is AuthenticationInProgress,
            final(self).log() == old(self).log().push(MessageView::Authentication(challenge@)),
    {
        self.push(PgWireBackendMessage::Authentication(challenge));
        self.state = PgWireConnectionState::AuthenticationInProgress;
        proof {
            if is_finalized(self.log()) {
                lemma_finalized_ends_ready(self.log());
            }
        }
    }

    /// Writes the closing sequence of the handshake (the success indicator,
    /// one parameter status for each entry of `parameters`, the key data with
    /// `secret_key`, ready for query) and then marks the connection as ready
    /// for query.
    pub fn finish_with(&mut self, parameters: Option<StringMap>, secret_key: i32)
        requires
            old(self).wf(),
            !(old(self).spec_state() is ReadyForQuery),
        ensures
            final(self).wf(),
            final(self).finalized_from(*old(self)),
            final(self).extends(*old(self)),
            final(self).log() == old(self).log() + finalization(
                optional_pairs(parameters),
                old(self).spec_process_id(),
                secret_key,
            ),
    {
        let ghost pairs = optional_pairs(parameters);
        let ghost start = self.log();
        let ghost success = MessageView::Authentication(AuthenticationView::Success);
        self.push(PgWireBackendMessage::Authentication(Authentication::Success));
        if let Some(p) = parameters {
            let count = p.len();
            let mut i: usize = 0;
            while i < count
                invariant
                    i <= count,
                    count == p.pairs().len(),
                    self.same_session_as(*old(self)),
                    self.spec_state() == old(self).spec_state(),
                    self.log() == start.push(success) + parameter_statuses(
                        p.pairs().take(i as int),
                    ),
                decreases count - i,
            {
                let name = p.key_at(i).clone();
                let value = p.value_at(i).clone();
                self.push(PgWireBackendMessage::ParameterStatus(name, value));
                proof {
                    assert(parameter_statuses(p.pairs().take(i + 1)) =~= parameter_statuses(
                        p.pairs().take(i as int),
                    ).push(MessageView::ParameterStatus(name@, value@)));
                    assert(self.log() =~= start.push(success) + parameter_statuses(
                        p.pairs().take(i + 1),
                    ));
                }
                i += 1;
            }
            assert(p.pairs().take(i as int) =~= p.pairs());
        } else {
            assert(self.log() =~= start.push(success) + parameter_statuses(Pairs::empty()));
        }
        let process_id = self.process_id;
        self.push(PgWireBackendMessage::BackendKeyData(process_id, secret_key));
        self.push(PgWireBackendMessage::ReadyForQuery(READY_STATUS_IDLE));
        self.state = PgWireConnectionState::ReadyForQuery;
        proof {
            assert(self.log() =~= start + finalization(pairs, process_id, secret_key));
            assert(is_finalized(self.log()));
        }
    }
}

/// A connection is ready for query exactly when the whole closing sequence
/// has been written to it, and then as the last thing written: the messages
/// end with the key data and ready for query.
pub proof fn lemma_ready_exactly_when_finalized(connection: Connection)
    requires
        connection.wf(),
    ensures
        connection.spec_state() is ReadyForQuery <==> is_finalized(connection.log()),
        connection.spec_state() is ReadyForQuery ==> connection.log().len() >= 3
            && connection.log().last() == MessageView::ReadyForQuery(READY_STATUS_IDLE),
        !(connection.spec_state() is ReadyForQuery) ==> !is_finalized(connection.log()),
{
    if is_finalized(connection.log()) {
        lemma_finalized_ends_ready(connection.log());
    }
}

/// Whatever the connection had written before, a closing sequence adds one
/// message for each parameter and three more, in a fixed order: the success
/// indicator, the parameter statuses in the order of the parameters, the key
/// data with the connection's process identifier, and ready for query.
pub proof fn lemma_closing_order(before: Connection, after: Connection, pairs: Pairs)
    requires
        after.closed_with(before, pairs),
    ensures
        after.log().len() == before.log().len() + pairs.len() + 3,
        before.log().is_prefix_of(after.log()),
        after.log()[before.log().len() as int] == MessageView::Authentication(
            AuthenticationView::Success,
        ),
        forall|i: int|
            0 <= i < pairs.len() ==> #[trigger] after.log()[before.log().len() + 1 + i]
                == MessageView::ParameterStatus(pairs[i].0, pairs[i].1),
        is_key_data_of(
            after.log()[before.log().len() as int + pairs.len() + 1],
            before.spec_process_id(),
        ),
        after.log().last() == MessageView::ReadyForQuery(READY_STATUS_IDLE),
{
    let secret_key = choose|secret_key: i32|
        after.log() == before.log() + #[trigger] finalization(
            pairs,
            before.spec_process_id(),
            secret_key,
        );
    let closing = finalization(pairs, before.spec_process_id(), secret_key);
    lemma_finalization_shape(pairs, before.spec_process_id(), secret_key);
    let n = before.log().len() as int;
    assert(after.log()[n] == closing[0]);
    assert forall|i: int| 0 <= i < pairs.len() implies #[trigger] after.log()[n + 1 + i]
        == MessageView::ParameterStatus(pairs[i].0, pairs[i].1) by {
        assert(after.log()[n + 1 + i] == closing[i + 1]);
    }
    assert(after.log()[n + pairs.len() + 1] == closing[pairs.len() as int + 1]);
    assert(after.log().last() == closing[pairs.len() as int + 2]);
}

/// A step that extends a connection never takes it out of ready for query.
pub proof fn lemma_ready_is_final(before: Connection, after: Connection)
    requires
        after.extends(before),
        before.spec_state() is ReadyForQuery,
    ensures
        after.spec_state() is ReadyForQuery,
{
}

} // verus!
