use crate::params::{
    distinct_keys, index_of_key, lemma_pair_in_map, pairs_to_map, Pairs, StringMap,
};
use vstd::prelude::*;

verus! {

/// The transaction status that a fresh session reports: idle.
pub const READY_STATUS_IDLE: u8 = 73;

/// The number of bytes in the salt of a salted-hash challenge.
pub const SALT_LEN: usize = 4;

/// The first message of a client.
#[derive(Clone, Debug)]
pub struct Startup {
    /// The connection parameters, such as `user` and `database`.
    pub parameters: StringMap,
}

impl Startup {
    pub fn new(parameters: StringMap) -> (result: Startup)
        ensures
            result.parameters == parameters,
    {
        Startup { parameters }
    }

    pub fn parameters(&self) -> (result: &StringMap)
        ensures
            *result == self.parameters,
    {
        &self.parameters
    }
}

/// A message from the client.
#[derive(Clone, Debug)]
pub enum PgWireFrontendMessage {
    /// The first message, with the connection parameters.
    Startup(Startup),
    /// The answer to a password challenge: the password, or its digest.
    Password(String),
    /// Any other message, by its tag.
    Other(u8),
}

/// The authentication messages of the server.
#[derive(Clone, Debug, PartialEq, Eq)]
pub enum Authentication {
    /// Authentication succeeded.
    Success,
    /// The client is asked for its password in clear text.
    CleartextPassword,
    /// The client is asked for a digest of its password and this salt.
    MD5Password(Vec<u8>),
}

/// A message to the client.
#[derive(Clone, Debug, PartialEq, Eq)]
pub enum PgWireBackendMessage {
    Authentication(Authentication),
    /// A session parameter: name, then value.
    ParameterStatus(String, String),
    /// The process identifier, then the secret key that authorizes a cancel request.
    BackendKeyData(i32, i32),
    /// The server takes queries; the byte is the transaction status.
    ReadyForQuery(u8),
}

/// What an [`Authentication`] says, strings and bytes taken as sequences.
pub enum AuthenticationView {
    Success,
    CleartextPassword,
    MD5Password(Seq<u8>),
}

/// What a [`PgWireBackendMessage`] says, strings and bytes taken as sequences.
pub enum MessageView {
    Authentication(AuthenticationView),
    ParameterStatus(Seq<char>, Seq<char>),
    BackendKeyData(i32, i32),
    ReadyForQuery(u8),
}

impl View for Authentication {
    type V = AuthenticationView;

    open spec fn view(&self) -> AuthenticationView {
        match self {
            Authentication::Success => AuthenticationView::Success,
            Authentication::CleartextPassword => AuthenticationView::CleartextPassword,
            Authentication::MD5Password(salt) => AuthenticationView::MD5Password(salt@),
        }
    }
}

impl View for PgWireBackendMessage {
    type V = MessageView;

    open spec fn view(&self) -> MessageView {
        match self {
            PgWireBackendMessage::Authentication(a) => MessageView::Authentication(a@),
            PgWireBackendMessage::ParameterStatus(name, value) => MessageView::ParameterStatus(
                name@,
                value@,
            ),
            PgWireBackendMessage::BackendKeyData(pid, secret) => MessageView::BackendKeyData(
                *pid,
                *secret,
            ),
            PgWireBackendMessage::ReadyForQuery(status) => MessageView::ReadyForQuery(*status),
        }
    }
}

/// The salt of the salted-hash challenge that `log` ends with, if it ends with one.
pub open spec fn outstanding_salt(log: Seq<MessageView>) -> Option<Seq<u8>> {
    if log.len() > 0 {
        match log.last() {
            MessageView::Authentication(AuthenticationView::MD5Password(salt)) => Some(salt),
            _ => None,
        }
    } else {
        None
    }
}

/// One parameter-status message for each of `pairs`, in their order.
pub open spec fn parameter_statuses(pairs: Pairs) -> Seq<MessageView> {
    Seq::new(pairs.len(), |i: int| MessageView::ParameterStatus(pairs[i].0, pairs[i].1))
}

/// The messages that close a handshake, in the order in which they are sent:
/// the success indicator, the parameters, the key data, ready for query.
pub open spec fn finalization(pairs: Pairs, process_id: i32, secret_key: i32) -> Seq<MessageView> {
    seq![MessageView::Authentication(AuthenticationView::Success)] + parameter_statuses(pairs)
        + seq![
        MessageView::BackendKeyData(process_id, secret_key),
        MessageView::ReadyForQuery(READY_STATUS_IDLE),
    ]
}

/// `log` ends with a complete closing sequence whose parameters repeat no name.
pub open spec fn is_finalized(log: Seq<MessageView>) -> bool {
    exists|head: Seq<MessageView>, pairs: Pairs, process_id: i32, secret_key: i32|
        distinct_keys(pairs) && log == #[trigger] (head + finalization(
            pairs,
            process_id,
            secret_key,
        ))
}

/// A closing sequence has one message for each parameter and three more, and
/// it ends with the key data and ready for query.
pub proof fn lemma_finalization_shape(pairs: Pairs, process_id: i32, secret_key: i32)
    ensures
        finalization(pairs, process_id, secret_key).len() == pairs.len() + 3,
        finalization(pairs, process_id, secret_key)[0] == MessageView::Authentication(
            AuthenticationView::Success,
        ),
        forall|i: int|
            0 <= i < pairs.len() ==> #[trigger] finalization(pairs, process_id, secret_key)[i + 1]
                == MessageView::ParameterStatus(pairs[i].0, pairs[i].1),
        finalization(pairs, process_id, secret_key)[pairs.len() as int + 1]
            == MessageView::BackendKeyData(process_id, secret_key),
        finalization(pairs, process_id, secret_key)[pairs.len() as int + 2]
            == MessageView::ReadyForQuery(READY_STATUS_IDLE),
{
}

/// `message` is the key data of the process `process_id`, with some secret key.
pub open spec fn is_key_data_of(message: MessageView, process_id: i32) -> bool {
    match message {
        MessageView::BackendKeyData(reported, _) => reported == process_id,
        _ => false,
    }
}

/// `message` is a parameter status under `name`.
pub open spec fn reports(message: MessageView, name: Seq<char>) -> bool {
    match message {
        MessageView::ParameterStatus(reported, _) => reported == name,
        _ => false,
    }
}

/// In a closing sequence every entry of the mapping that its parameters
/// spell out has one parameter status, with the entry's name and value, and
/// no second one under that name.
pub proof fn lemma_each_parameter_once(
    pairs: Pairs,
    process_id: i32,
    secret_key: i32,
    name: Seq<char>,
)
    requires
        distinct_keys(pairs),
        pairs_to_map(pairs).contains_key(name),
    ensures
        0 <= index_of_key(pairs, name) < pairs.len(),
        finalization(pairs, process_id, secret_key)[index_of_key(pairs, name) + 1]
            == MessageView::ParameterStatus(name, pairs_to_map(pairs)[name]),
        forall|j: int|
            0 <= j < pairs.len() + 3 && #[trigger] reports(
                finalization(pairs, process_id, secret_key)[j],
                name,
            ) ==> j == index_of_key(pairs, name) + 1,
{
    let i = index_of_key(pairs, name);
    lemma_pair_in_map(pairs, i);
    lemma_finalization_shape(pairs, process_id, secret_key);
    let closing = finalization(pairs, process_id, secret_key);
    assert forall|j: int| 0 <= j < pairs.len() + 3 && #[trigger] reports(closing[j], name) implies j
        == i + 1 by {
        if 1 <= j <= pairs.len() {
            assert(closing[(j - 1) + 1] == MessageView::ParameterStatus(
                pairs[j - 1].0,
                pairs[j - 1].1,
            ));
            assert(pairs[j - 1].0 == name);
        }
    }
}

/// Every parameter status of a closing sequence reports an entry of the
/// mapping that its parameters spell out.
pub proof fn lemma_parameter_statuses_are_entries(
    pairs: Pairs,
    process_id: i32,
    secret_key: i32,
    j: int,
)
    requires
        distinct_keys(pairs),
        0 <= j < pairs.len() + 3,
        finalization(pairs, process_id, secret_key)[j] is ParameterStatus,
    ensures
        1 <= j <= pairs.len(),
        pairs_to_map(pairs).contains_key(pairs[j - 1].0),
        finalization(pairs, process_id, secret_key)[j] == MessageView::ParameterStatus(
            pairs[j - 1].0,
            pairs_to_map(pairs)[pairs[j - 1].0],
        ),
{
    lemma_finalization_shape(pairs, process_id, secret_key);
    if 1 <= j <= pairs.len() {
        lemma_pair_in_map(pairs, j - 1);
        assert(finalization(pairs, process_id, secret_key)[(j - 1) + 1]
            == MessageView::ParameterStatus(pairs[j - 1].0, pairs[j - 1].1));
    }
}

/// A log that ends with a closing sequence ends with ready for query.
pub proof fn lemma_finalized_ends_ready(log: Seq<MessageView>)
    requires
        is_finalized(log),
    ensures
        log.len() >= 3,
        log.last() == MessageView::ReadyForQuery(READY_STATUS_IDLE),
{
    let (head, pairs, process_id, secret_key) = choose|
        head: Seq<MessageView>,
        pairs: Pairs,
        process_id: i32,
        secret_key: i32,
    |
        distinct_keys(pairs) && log == #[trigger] (head + finalization(
            pairs,
            process_id,
            secret_key,
        ));
    lemma_finalization_shape(pairs, process_id, secret_key);
}

} // verus!
