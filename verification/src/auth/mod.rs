use crate::connection::{Connection, PgWireConnectionState};
use crate::error::{PgWireError, PgWireResult};
use crate::messages::{PgWireFrontendMessage, Startup};
use crate::params::{optional_pairs, StringMap};
use crate::random::random_secret_key;
use vstd::prelude::*;

pub mod cleartext;
pub mod md5pass;
pub mod noop;

verus! {

/// The metadata key under which the user's name is stored.
pub const METADATA_USER: &'static str = "user";

/// The metadata key under which the database's name is stored.
pub const METADATA_DATABASE: &'static str = "database";

/// Handles the client's messages until the connection is ready for query.
pub trait StartupHandler {
    /// Handles one message of the client. Whatever a handler does, the
    /// connection only moves forward: messages are added, none is taken
    /// back, the state never falls back, and the connection is ready for
    /// query only with the whole closing sequence written.
    fn on_startup(&self, client: &mut Connection, message: &PgWireFrontendMessage) -> (result:
        PgWireResult<()>)
        requires
            old(client).wf(),
        ensures
            final(client).wf(),
            final(client).extends(*old(client)),
    ;
}

/// Supplies the session parameters that the server reports once the client
/// is authenticated.
pub trait ServerParameterProvider {
    fn server_parameters(&self, client: &Connection) -> Option<StringMap>;
}

/// The provider that has nothing to report.
pub struct NoopServerParameterProvider;

impl ServerParameterProvider for NoopServerParameterProvider {
    fn server_parameters(&self, _client: &Connection) -> (result: Option<StringMap>)
        ensures
            result is None,
    {
        None
    }
}

/// A digest of the password together with the salt that went into it.
#[derive(Debug)]
pub struct HashedPassword<'a> {
    salt: &'a [u8],
    hashed_password: &'a String,
}

impl<'a> HashedPassword<'a> {
    pub closed spec fn salt_view(self) -> Seq<u8> {
        self.salt@
    }

    pub closed spec fn hashed_password_view(self) -> Seq<char> {
        self.hashed_password@
    }

    pub fn new(salt: &'a [u8], hashed_password: &'a String) -> (result: HashedPassword<'a>)
        ensures
            result.salt_view() == salt@,
            result.hashed_password_view() == hashed_password@,
    {
        HashedPassword { salt, hashed_password }
    }

    pub fn salt(&self) -> (result: &&'a [u8])
        ensures
            result@ == self.salt_view(),
    {
        &self.salt
    }

    pub fn hashed_password(&self) -> (result: &&'a String)
        ensures
            result@ == self.hashed_password_view(),
    {
        &self.hashed_password
    }
}

/// What a client presented as its credential.
#[derive(Debug)]
pub enum Password<'a> {
    ClearText(&'a String),
    Hashed(HashedPassword<'a>),
}

/// What a [`Password`] holds, strings and bytes taken as sequences.
pub enum PasswordView {
    ClearText(Seq<char>),
    Hashed(Seq<u8>, Seq<char>),
}

impl<'a> View for Password<'a> {
    type V = PasswordView;

    open spec fn view(&self) -> PasswordView {
        match self {
            Password::ClearText(password) => PasswordView::ClearText(password@),
            Password::Hashed(hashed) => PasswordView::Hashed(
                hashed.salt_view(),
                hashed.hashed_password_view(),
            ),
        }
    }
}

/// What a [`LoginInfo`] holds, strings taken as sequences.
pub struct LoginInfoView {
    pub user: Option<Seq<char>>,
    pub database: Option<Seq<char>>,
    pub host: Seq<char>,
}

/// `metadata` holds `value` under `key`.
pub open spec fn stores(
    metadata: Map<Seq<char>, Seq<char>>,
    key: Seq<char>,
    value: Seq<char>,
) -> bool {
    metadata.contains_key(key) && metadata[key] == value
}

/// `after` holds every entry of `parameters`, every entry of `before` under
/// a key that `parameters` lacks, and nothing else.
pub open spec fn merged(
    before: Map<Seq<char>, Seq<char>>,
    parameters: Map<Seq<char>, Seq<char>>,
    after: Map<Seq<char>, Seq<char>>,
) -> bool {
    &&& forall|key: Seq<char>| #[trigger]
        parameters.contains_key(key) ==> stores(after, key, parameters[key])
    &&& forall|key: Seq<char>|
        before.contains_key(key) && !parameters.contains_key(key) ==> #[trigger] stores(
            after,
            key,
            before[key],
        )
    &&& forall|key: Seq<char>| #[trigger]
        after.contains_key(key) ==> before.contains_key(key) || parameters.contains_key(key)
}

/// The value stored under `key`, if there is one.
pub open spec fn lookup(metadata: Map<Seq<char>, Seq<char>>, key: Seq<char>) -> Option<Seq<char>> {
    if metadata.contains_key(key) {
        Some(metadata[key])
    } else {
        None
    }
}

/// The login context of a connection with this metadata and this peer.
pub open spec fn login_view(metadata: Map<Seq<char>, Seq<char>>, host: Seq<char>) -> LoginInfoView {
    LoginInfoView {
        user: lookup(metadata, METADATA_USER@),
        database: lookup(metadata, METADATA_DATABASE@),
        host,
    }
}

/// The characters of an optional string.
pub open spec fn optional_view(value: Option<&String>) -> Option<Seq<char>> {
    match value {
        Some(s) => Some(s@),
        None => None,
    }
}

/// Who tries to log in, to what, and from where.
#[derive(Debug)]
pub struct LoginInfo<'a> {
    user: Option<&'a String>,
    database: Option<&'a String>,
    host: String,
}

impl<'a> View for LoginInfo<'a> {
    type V = LoginInfoView;

    closed spec fn view(&self) -> LoginInfoView {
        LoginInfoView {
            user: optional_view(self.user),
            database: optional_view(self.database),
            host: self.host@,
        }
    }
}

impl<'a> LoginInfo<'a> {
    pub fn new(user: Option<&'a String>, database: Option<&'a String>, host: String) -> (result:
        LoginInfo<'a>)
        ensures
            result@ == (LoginInfoView {
                user: optional_view(user),
                database: optional_view(database),
                host: host@,
            }),
    {
        LoginInfo { user, database, host }
    }

    pub fn user(&self) -> (result: &Option<&'a String>)
        ensures
            optional_view(*result) == self@.user,
    {
        &self.user
    }

    pub fn database(&self) -> (result: &Option<&'a String>)
        ensures
            optional_view(*result) == self@.database,
    {
        &self.database
    }

    pub fn host(&self) -> (result: &String)
        ensures
            result@ == self@.host,
    {
        &self.host
    }

    /// The login context of `client` as it is now: the user and the database
    /// are what the metadata holds under `user` and `database`, each absent
    /// where the metadata has no such entry, and the host is the peer's.
    pub fn from_client_info(client: &'a Connection) -> (result: LoginInfo<'a>)
        ensures
            result@ == login_view(client.spec_metadata()@, client.host_view()),
    {
        let user = client.metadata().get(METADATA_USER);
        let database = client.metadata().get(METADATA_DATABASE);
        LoginInfo { user, database, host: client.host().clone() }
    }
}

/// Two connections with the same metadata and the same peer have the same
/// login context; so has one connection, asked twice.
pub proof fn lemma_login_info_is_a_function(first: Connection, second: Connection)
    requires
        first.spec_metadata()@ == second.spec_metadata()@,
        first.host_view() == second.host_view(),
    ensures
        login_view(first.spec_metadata()@, first.host_view()) == login_view(
            second.spec_metadata()@,
            second.host_view(),
        ),
{
}

/// Checks a presented credential against what the server knows.
pub trait PasswordVerifier {
    /// `Ok(true)` accepts, `Ok(false)` rejects, and an error says that the
    /// check itself could not be made.
    fn verify_password<'a>(&self, ctx: LoginInfo<'a>, pwd: Password<'a>) -> PgWireResult<bool>;
}

/// Copies the parameters of the startup message into the metadata of
/// `client`: every parameter is stored, over what was stored under its name,
/// and what was stored under other names stays.
pub fn save_startup_parameters_to_metadata(client: &mut Connection, startup_message: &Startup)
    ensures
        final(client).spec_metadata()@ == old(client).spec_metadata()@.union_prefer_right(
            startup_message.parameters@,
        ),
        merged(
            old(client).spec_metadata()@,
            startup_message.parameters@,
            final(client).spec_metadata()@,
        ),
        final(client).host_view() == old(client).host_view(),
        final(client).spec_process_id() == old(client).spec_process_id(),
        final(client).spec_state() == old(client).spec_state(),
        final(client).log() == old(client).log(),
        old(client).wf() ==> final(client).wf(),
{
    client.merge_metadata(startup_message.parameters());
}

/// Merging the same parameters a second time changes nothing.
pub proof fn lemma_merge_is_idempotent(
    metadata: Map<Seq<char>, Seq<char>>,
    parameters: Map<Seq<char>, Seq<char>>,
)
    ensures
        metadata.union_prefer_right(parameters).union_prefer_right(parameters)
            == metadata.union_prefer_right(parameters),
{
    assert(metadata.union_prefer_right(parameters).union_prefer_right(parameters)
        =~= metadata.union_prefer_right(parameters));
}

/// Closes the handshake of `client` with the given session parameters:
/// writes the success indicator, one parameter status for each entry of
/// `parameters` in their stored order, the key data with a fresh secret key,
/// and ready for query, and then marks the connection as ready for query.
pub fn finish_with_parameters(client: &mut Connection, parameters: Option<StringMap>)
    requires
        old(client).wf(),
        !(old(client).spec_state() is ReadyForQuery),
    ensures
        final(client).wf(),
        final(client).closed_with(*old(client), optional_pairs(parameters)),
        final(client).finalized_from(*old(client)),
        final(client).extends(*old(client)),
{
    let secret_key = random_secret_key();
    client.finish_with(parameters, secret_key);
}

/// `after` is `before` closed with the session parameters that `provider`
/// reported when it was asked about `before`.
pub open spec fn closed_by_provider<P: ServerParameterProvider>(
    provider: &P,
    before: Connection,
    after: Connection,
) -> bool {
    exists|parameters: Option<StringMap>| #[trigger]
        call_ensures(P::server_parameters, (provider, &before), parameters) && after.closed_with(
            before,
            optional_pairs(parameters),
        )
}

/// Closes the handshake of `client`: asks the provider for the session
/// parameters and writes the success indicator, one parameter status for
/// each entry that the provider reported, the key data with a fresh secret
/// key, and ready for query, in this order, and then marks the connection as
/// ready for query.
pub fn finish_authentication<P: ServerParameterProvider>(
    client: &mut Connection,
    server_parameter_provider: &P,
)
    requires
        old(client).wf(),
        !(old(client).spec_state() is ReadyForQuery),
    ensures
        final(client).wf(),
        closed_by_provider(server_parameter_provider, *old(client), *final(client)),
        final(client).finalized_from(*old(client)),
        final(client).extends(*old(client)),
{
    let parameters = server_parameter_provider.server_parameters(client);
    finish_with_parameters(client, parameters);
}

/// What a handler does with the verifier's answer: it closes the handshake
/// with what `provider` reports where the credential was accepted, and
/// otherwise changes nothing and says why.
pub open spec fn verification_concluded<P: ServerParameterProvider>(
    provider: &P,
    before: Connection,
    after: Connection,
    outcome: PgWireResult<bool>,
    result: PgWireResult<()>,
) -> bool {
    match outcome {
        Ok(true) => result is Ok && closed_by_provider(provider, before, after)
            && after.finalized_from(before),
        Ok(false) => result == Err::<(), PgWireError>(PgWireError::InvalidCredentials) && after
            == before,
        Err(_) => result == Err::<(), PgWireError>(PgWireError::VerifierFailure) && after == before,
    }
}

/// What a message asks of a handler, given the state of its connection.
#[derive(Debug)]
pub enum Round<'a> {
    /// The startup message of a connection that awaits it.
    Begin(&'a Startup),
    /// The client's answer to a challenge, while the authentication is in progress.
    Answer(&'a String),
    /// A message that the state does not allow.
    Unexpected,
}

/// Tells which round of the handshake `message` belongs to: a startup
/// message begins it while the connection awaits startup, a password answers
/// a challenge while the authentication is in progress, and nothing else is
/// expected.
pub fn next_round<'a>(state: PgWireConnectionState, message: &'a PgWireFrontendMessage) -> (result:
    Round<'a>)
    ensures
        match result {
            Round::Begin(startup) => state is AwaitingStartup && *message
                == PgWireFrontendMessage::Startup(*startup),
            Round::Answer(password) => state is AuthenticationInProgress && *message
                == PgWireFrontendMessage::Password(*password),
            Round::Unexpected => !(message is Startup && state is AwaitingStartup) && !(
            message is Password && state is AuthenticationInProgress),
        },
{
    match message {
        PgWireFrontendMessage::Startup(startup) => match state {
            PgWireConnectionState::AwaitingStartup => Round::Begin(startup),
            _ => Round::Unexpected,
        },
        PgWireFrontendMessage::Password(password) => match state {
            PgWireConnectionState::AuthenticationInProgress => Round::Answer(password),
            _ => Round::Unexpected,
        },
        PgWireFrontendMessage::Other(_) => Round::Unexpected,
    }
}

/// What a handler does with a message that no round of it expects.
pub open spec fn refused(before: Connection, after: Connection, result: PgWireResult<()>) -> bool {
    result == Err::<(), PgWireError>(PgWireError::MalformedMessage) && after == before
}

/// What a handler does with a credential: it asks `verifier` about this
/// login context and this credential, and acts on the answer that came back.
pub open spec fn verification_attempted<V: PasswordVerifier, P: ServerParameterProvider>(
    verifier: &V,
    provider: &P,
    login: LoginInfoView,
    presented: PasswordView,
    before: Connection,
    after: Connection,
    result: PgWireResult<()>,
) -> bool {
    exists|ctx: LoginInfo, pwd: Password, outcome: PgWireResult<bool>|
        ctx@ == login && pwd@ == presented && #[trigger] call_ensures(
            V::verify_password,
            (verifier, ctx, pwd),
            outcome,
        ) && verification_concluded(provider, before, after, outcome, result)
}

/// The parameters that a startup message carries; none for another message.
pub open spec fn startup_parameters(message: PgWireFrontendMessage) -> Map<Seq<char>, Seq<char>> {
    match message {
        PgWireFrontendMessage::Startup(startup) => startup.parameters@,
        _ => Map::empty(),
    }
}

/// Acts on the verifier's answer: closes the handshake where the credential
/// was accepted; where it was rejected, or the verifier failed, leaves the
/// connection as it is and reports which of the two happened.
pub fn complete_verification<P: ServerParameterProvider>(
    client: &mut Connection,
    server_parameter_provider: &P,
    outcome: PgWireResult<bool>,
) -> (result: PgWireResult<()>)
    requires
        old(client).wf(),
        !(old(client).spec_state() is ReadyForQuery),
    ensures
        final(client).wf(),
        final(client).extends(*old(client)),
        verification_concluded(
            server_parameter_provider,
            *old(client),
            *final(client),
            outcome,
            result,
        ),
{
    match outcome {
        Ok(true) => {
            finish_authentication(client, server_parameter_provider);
            Ok(())
        },
        Ok(false) => Err(PgWireError::InvalidCredentials),
        Err(_) => Err(PgWireError::VerifierFailure),
    }
}

} // verus!
