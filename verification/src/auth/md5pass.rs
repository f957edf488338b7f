use crate::auth::{
    complete_verification, next_round, refused, save_startup_parameters_to_metadata,
    login_view, startup_parameters, verification_attempted, HashedPassword, LoginInfo, Password,
    PasswordVerifier, PasswordView, Round, ServerParameterProvider, StartupHandler,
};
use crate::connection::Connection;
use crate::error::{PgWireError, PgWireResult};
use crate::messages::{
    outstanding_salt, Authentication, AuthenticationView, MessageView, PgWireFrontendMessage,
    Startup, SALT_LEN,
};
use crate::random::random_salt;
use vstd::prelude::*;

verus! {

/// The handler that asks for a digest of the password and a fresh salt.
pub struct Md5PasswordAuthStartupHandler<V: PasswordVerifier, P: ServerParameterProvider> {
    verifier: V,
    parameter_provider: P,
}

/// What the salted-hash handler does with one message.
pub open spec fn md5_step<V: PasswordVerifier, P: ServerParameterProvider>(
    handler: Md5PasswordAuthStartupHandler<V, P>,
    before: Connection,
    after: Connection,
    message: PgWireFrontendMessage,
    result: PgWireResult<()>,
) -> bool {
    if message is Startup && before.spec_state() is AwaitingStartup {
        &&& result is Ok
        &&& exists|salt: Seq<u8>|
            salt.len() == SALT_LEN && #[trigger] after.challenged(
                before,
                startup_parameters(message),
                AuthenticationView::MD5Password(salt),
            )
    } else if message is Password && before.spec_state() is AuthenticationInProgress
        && outstanding_salt(before.log()) is Some {
        verification_attempted(
            &handler.password_verifier(),
            &handler.parameter_provider(),
            login_view(before.spec_metadata()@, before.host_view()),
            PasswordView::Hashed(outstanding_salt(before.log())->Some_0, message->Password_0@),
            before,
            after,
            result,
        )
    } else {
        refused(before, after, result)
    }
}

/// `after` is `before` with a salted-hash challenge written, its salt of the
/// length that the protocol asks for, and the authentication in progress.
pub open spec fn salted_challenge_sent(before: Connection, after: Connection) -> bool {
    &&& after.same_session_as(before)
    &&& after.spec_state() is AuthenticationInProgress
    &&& exists|salt: Seq<u8>|
        salt.len() == SALT_LEN && after.log() == #[trigger] before.log().push(
            MessageView::Authentication(AuthenticationView::MD5Password(salt)),
        )
}

/// Draws a fresh salt and writes the salted-hash challenge that carries it.
pub fn send_salted_challenge(client: &mut Connection)
    requires
        old(client).wf(),
        !(old(client).spec_state() is ReadyForQuery),
    ensures
        final(client).wf(),
        final(client).extends(*old(client)),
        salted_challenge_sent(*old(client), *final(client)),
{
    let salt = random_salt();
    let ghost salt_view = salt@;
    client.send_challenge(Authentication::MD5Password(salt));
    assert(client.log() == old(client).log().push(
        MessageView::Authentication(AuthenticationView::MD5Password(salt_view)),
    ));
}

/// The opening round: stores the parameters of the startup message and
/// sends a salted-hash challenge with a fresh salt.
pub fn begin_salted(client: &mut Connection, startup: &Startup)
    requires
        old(client).wf(),
        !(old(client).spec_state() is ReadyForQuery),
    ensures
        final(client).wf(),
        final(client).extends(*old(client)),
        exists|salt: Seq<u8>|
            salt.len() == SALT_LEN && #[trigger] final(client).challenged(
                *old(client),
                startup.parameters@,
                AuthenticationView::MD5Password(salt),
            ),
{
    save_startup_parameters_to_metadata(client, startup);
    let ghost merged = *client;
    send_salted_challenge(client);
    proof {
        let salt = choose|salt: Seq<u8>|
            salt.len() == SALT_LEN && client.log() == #[trigger] merged.log().push(
                MessageView::Authentication(AuthenticationView::MD5Password(salt)),
            );
        assert(client.challenged(
            *old(client),
            startup.parameters@,
            AuthenticationView::MD5Password(salt),
        ));
    }
}

/// What the verifier is asked about a digest: the login context of `client`
/// as it is now, and the digest together with the salt of the challenge that
/// `client` was sent last. There is nothing to ask where the last message
/// sent is no salted-hash challenge.
pub fn hashed_attempt<'a>(client: &'a Connection, digest: &'a String) -> (result: Option<
    (LoginInfo<'a>, Password<'a>),
>)
    ensures
        match result {
            Some(attempt) => {
                &&& attempt.0@ == login_view(client.spec_metadata()@, client.host_view())
                &&& outstanding_salt(client.log()) is Some
                &&& attempt.1@ == PasswordView::Hashed(
                    outstanding_salt(client.log())->Some_0,
                    digest@,
                )
            },
            None => outstanding_salt(client.log()) is None,
        },
{
    match client.pending_salt() {
        Some(salt) => {
            let hashed = HashedPassword::new(salt.as_slice(), digest);
            Some((LoginInfo::from_client_info(client), Password::Hashed(hashed)))
        },
        None => None,
    }
}

impl<V: PasswordVerifier, P: ServerParameterProvider> Md5PasswordAuthStartupHandler<V, P> {
    /// The verifier that this handler asks.
    pub closed spec fn password_verifier(self) -> V {
        self.verifier
    }

    /// The provider of the session parameters that this handler reports.
    pub closed spec fn parameter_provider(self) -> P {
        self.parameter_provider
    }

    pub fn new(verifier: V, parameter_provider: P) -> (result: Self)
        ensures
            result.password_verifier() == verifier,
            result.parameter_provider() == parameter_provider,
    {
        Md5PasswordAuthStartupHandler { verifier, parameter_provider }
    }
}

impl<V, P> StartupHandler for Md5PasswordAuthStartupHandler<V, P> where
    V: PasswordVerifier,
    P: ServerParameterProvider,
 {
    /// On the startup message of a connection that awaits it: stores the
    /// parameters and sends a challenge with a fresh salt. On the answer,
    /// while the authentication is in progress and that challenge is the
    /// last message sent: hands the verifier the salt of the challenge and
    /// the client's digest, closes the handshake if it accepts, and
    /// otherwise reports the rejection or the verifier's failure and sends
    /// nothing. Anything else is refused.
    fn on_startup(&self, client: &mut Connection, message: &PgWireFrontendMessage) -> (result:
        PgWireResult<()>)
        ensures
            md5_step(*self, *old(client), *final(client), *message, result),
    {
        match next_round(client.state(), message) {
            Round::Begin(startup) => {
                begin_salted(client, startup);
                proof {
                    let salt = choose|salt: Seq<u8>|
                        salt.len() == SALT_LEN && #[trigger] client.challenged(
                            *old(client),
                            startup.parameters@,
                            AuthenticationView::MD5Password(salt),
                        );
                    assert(client.challenged(
                        *old(client),
                        startup_parameters(*message),
                        AuthenticationView::MD5Password(salt),
                    ));
                }
                Ok(())
            },
            Round::Answer(digest) => {
                let (login_info, presented) = match hashed_attempt(client, digest) {
                    Some(attempt) => attempt,
                    None => {
                        return Err(PgWireError::MalformedMessage);
                    },
                };
                let ghost ctx = login_info;
                let ghost pwd = presented;
                let outcome = self.verifier.verify_password(login_info, presented);
                let result = complete_verification(client, &self.parameter_provider, outcome);
                proof {
                    assert(call_ensures(V::verify_password, (&self.verifier, ctx, pwd), outcome));
                }
                result
            },
            Round::Unexpected => Err(PgWireError::MalformedMessage),
        }
    }
}

} // verus!
