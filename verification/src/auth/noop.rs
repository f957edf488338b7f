use crate::auth::{
    finish_authentication, next_round, refused, save_startup_parameters_to_metadata,
    startup_parameters, NoopServerParameterProvider, Round, StartupHandler,
};
use crate::connection::Connection;
use crate::error::{PgWireError, PgWireResult};
use crate::messages::{finalization, PgWireFrontendMessage};
use crate::params::Pairs;
use vstd::prelude::*;

verus! {

/// The handler that asks for no credential.
pub struct NoopStartupHandler;

/// What the handler without authentication does with one message.
pub open spec fn noop_step(
    before: Connection,
    after: Connection,
    message: PgWireFrontendMessage,
    result: PgWireResult<()>,
) -> bool {
    if message is Startup && before.spec_state() is AwaitingStartup {
        &&& result is Ok
        &&& after.host_view() == before.host_view()
        &&& after.spec_process_id() == before.spec_process_id()
        &&& after.spec_metadata()@ == before.spec_metadata()@.union_prefer_right(
            startup_parameters(message),
        )
        &&& after.spec_state() is ReadyForQuery
        &&& exists|secret_key: i32|
            after.log() == before.log() + #[trigger] finalization(
                Pairs::empty(),
                before.spec_process_id(),
                secret_key,
            )
    } else {
        refused(before, after, result)
    }
}

impl StartupHandler for NoopStartupHandler {
    /// On the startup message of a connection that awaits it: stores the
    /// parameters and closes the handshake at once, with no session
    /// parameters. Any other message, or a startup message at another time,
    /// is refused and changes nothing.
    fn on_startup(&self, client: &mut Connection, message: &PgWireFrontendMessage) -> (result:
        PgWireResult<()>)
        ensures
            noop_step(*old(client), *final(client), *message, result),
    {
        match next_round(client.state(), message) {
            Round::Begin(startup) => {
                save_startup_parameters_to_metadata(client, startup);
                finish_authentication(client, &NoopServerParameterProvider);
                Ok(())
            },
            _ => Err(PgWireError::MalformedMessage),
        }
    }
}

} // verus!
