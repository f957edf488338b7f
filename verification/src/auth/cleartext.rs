use crate::auth::{
    complete_verification, next_round, refused, save_startup_parameters_to_metadata,
    login_view, startup_parameters, verification_attempted, LoginInfo, Password, PasswordVerifier,
    PasswordView, Round, ServerParameterProvider, StartupHandler,
};
use crate::connection::Connection;
use crate::error::{PgWireError, PgWireResult};
use crate::messages::{Authentication, AuthenticationView, PgWireFrontendMessage, Startup};
use vstd::prelude::*;

verus! {

/// The handler that asks for the password in clear text.
pub struct CleartextPasswordAuthStartupHandler<V: PasswordVerifier, P: ServerParameterProvider> {
    verifier: V,
    parameter_provider: P,
}

/// What the clear-text handler does with one message.
pub open spec fn cleartext_step<V: PasswordVerifier, P: ServerParameterProvider>(
    handler: CleartextPasswordAuthStartupHandler<V, P>,
    before: Connection,
    after: Connection,
    message: PgWireFrontendMessage,
    result: PgWireResult<()>,
) -> bool {
    if message is Startup && before.spec_state() is AwaitingStartup {
        result is Ok && after.challenged(
            before,
            startup_parameters(message),
            AuthenticationView::CleartextPassword,
        )
    } else if message is Password && before.spec_state() is AuthenticationInProgress {
        verification_attempted(
            &handler.password_verifier(),
            &handler.parameter_provider(),
            login_view(before.spec_metadata()@, before.host_view()),
            PasswordView::ClearText(message->Password_0@),
            before,
            after,
            result,
        )
    } else {
        refused(before, after, result)
    }
}

/// The opening round: stores the parameters of the startup message and asks
/// the client for its password in clear text.
pub fn begin_cleartext(client: &mut Connection, startup: &Startup)
    requires
        old(client).wf(),
        !(old(client).spec_state() is ReadyForQuery),
    ensures
        final(client).wf(),
        final(client).extends(*old(client)),
        final(client).challenged(
            *old(client),
            startup.parameters@,
            AuthenticationView::CleartextPassword,
        ),
{
    save_startup_parameters_to_metadata(client, startup);
    client.send_challenge(Authentication::CleartextPassword);
}

/// What the verifier is asked about a clear-text password: the login context
/// of `client` as it is now, and the password as the client sent it.
pub fn cleartext_attempt<'a>(client: &'a Connection, password: &'a String) -> (result: (
    LoginInfo<'a>,
    Password<'a>,
))
    ensures
        result.0@ == login_view(client.spec_metadata()@, client.host_view()),
        result.1@ == PasswordView::ClearText(password@),
{
    (LoginInfo::from_client_info(client), Password::ClearText(password))
}

impl<V: PasswordVerifier, P: ServerParameterProvider> CleartextPasswordAuthStartupHandler<V, P> {
    /// The verifier that this handler asks.
    pub closed spec fn password_verifier(self) -> V {
        self.verifier
    }

    /// The provider of the session parameters that this handler reports.
    pub closed spec fn parameter_provider(self) -> P {
        self.parameter_provider
    }

    pub fn new(verifier: V, parameter_provider: P) -> (result: Self)
        ensures
            result.password_verifier() == verifier,
            result.parameter_provider() == parameter_provider,
    {
        CleartextPasswordAuthStartupHandler { verifier, parameter_provider }
    }
}

impl<V, P> StartupHandler for CleartextPasswordAuthStartupHandler<V, P> where
    V: PasswordVerifier,
    P: ServerParameterProvider,
 {
    /// On the startup message of a connection that awaits it: stores the
    /// parameters and asks for the password. On the password, while the
    /// authentication is in progress: asks the verifier, closes the
    /// handshake if it accepts, and otherwise reports the rejection or the
    /// verifier's failure and sends nothing. Anything else is refused.
    fn on_startup(&self, client: &mut Connection, message: &PgWireFrontendMessage) -> (result:
        PgWireResult<()>)
        ensures
            cleartext_step(*self, *old(client), *final(client), *message, result),
    {
        match next_round(client.state(), message) {
            Round::Begin(startup) => {
                begin_cleartext(client, startup);
                Ok(())
            },
            Round::Answer(password) => {
                let (login_info, presented) = cleartext_attempt(client, password);
                let ghost ctx = login_info;
                let ghost pwd = presented;
                let outcome = self.verifier.verify_password(login_info, presented);
                let result = complete_verification(client, &self.parameter_provider, outcome);
                proof {
                    assert(call_ensures(V::verify_password, (&self.verifier, ctx, pwd), outcome));
                }
                result
            },
            Round::Unexpected => Err(PgWireError::MalformedMessage),
        }
    }
}

} // verus!
