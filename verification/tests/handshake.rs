use std::cell::RefCell;

use pgauth::auth::cleartext::{
    begin_cleartext, cleartext_attempt, CleartextPasswordAuthStartupHandler,
};
use pgauth::auth::md5pass::{
    begin_salted, hashed_attempt, send_salted_challenge, Md5PasswordAuthStartupHandler,
};
use pgauth::auth::noop::NoopStartupHandler;
use pgauth::auth::{
    complete_verification, finish_authentication, finish_with_parameters, next_round,
    save_startup_parameters_to_metadata, HashedPassword, LoginInfo, NoopServerParameterProvider,
    Password, PasswordVerifier, Round, ServerParameterProvider, StartupHandler,
    METADATA_DATABASE, METADATA_USER,
};
use pgauth::connection::{Connection, PgWireConnectionState};
use pgauth::error::{PgWireError, PgWireResult};
use pgauth::messages::{
    Authentication, PgWireBackendMessage, PgWireFrontendMessage, Startup, READY_STATUS_IDLE,
    SALT_LEN,
};
use pgauth::params::StringMap;

fn string_map(pairs: &[(&str, &str)]) -> StringMap {
    let mut map = StringMap::new();
    for (key, value) in pairs {
        map.insert(key.to_string(), value.to_string());
    }
    map
}

fn startup(pairs: &[(&str, &str)]) -> PgWireFrontendMessage {
    PgWireFrontendMessage::Startup(Startup { parameters: string_map(pairs) })
}

fn password(text: &str) -> PgWireFrontendMessage {
    PgWireFrontendMessage::Password(text.to_string())
}

fn connection() -> Connection {
    Connection::new("127.0.0.1".to_string(), 4242)
}

/// Accepts one clear-text password for one user.
struct OnePassword {
    user: String,
    password: String,
}

impl PasswordVerifier for OnePassword {
    fn verify_password<'a>(&self, ctx: LoginInfo<'a>, pwd: Password<'a>) -> PgWireResult<bool> {
        match pwd {
            Password::ClearText(text) => {
                Ok(*ctx.user() == Some(&self.user) && *text == self.password)
            }
            Password::Hashed(_) => Ok(false),
        }
    }
}

/// A verifier whose backend is down.
struct Broken;

impl PasswordVerifier for Broken {
    fn verify_password<'a>(&self, _ctx: LoginInfo<'a>, _pwd: Password<'a>) -> PgWireResult<bool> {
        Err(PgWireError::TransportFailure)
    }
}

/// Accepts one digest and records the salt it was handed.
struct OneDigest {
    digest: String,
    seen_salt: RefCell<Vec<u8>>,
}

impl PasswordVerifier for OneDigest {
    fn verify_password<'a>(&self, _ctx: LoginInfo<'a>, pwd: Password<'a>) -> PgWireResult<bool> {
        match pwd {
            Password::ClearText(_) => Ok(false),
            Password::Hashed(hashed) => {
                *self.seen_salt.borrow_mut() = hashed.salt().to_vec();
                Ok(**hashed.hashed_password() == self.digest)
            }
        }
    }
}

struct TwoParameters;

impl ServerParameterProvider for TwoParameters {
    fn server_parameters(&self, _client: &Connection) -> Option<StringMap> {
        Some(string_map(&[("server_version", "15.0"), ("client_encoding", "UTF8")]))
    }
}

struct OneParameter;

impl ServerParameterProvider for OneParameter {
    fn server_parameters(&self, _client: &Connection) -> Option<StringMap> {
        Some(string_map(&[("server_version", "15.0")]))
    }
}

fn assert_closing_sequence(messages: &[PgWireBackendMessage], process_id: i32, parameters: usize) {
    assert_eq!(messages.len(), parameters + 3);
    assert_eq!(messages[0], PgWireBackendMessage::Authentication(Authentication::Success));
    for message in &messages[1..parameters + 1] {
        assert!(matches!(message, PgWireBackendMessage::ParameterStatus(_, _)));
    }
    match &messages[parameters + 1] {
        PgWireBackendMessage::BackendKeyData(pid, _) => assert_eq!(*pid, process_id),
        other => panic!("expected key data, found {:?}", other),
    }
    assert_eq!(messages[parameters + 2], PgWireBackendMessage::ReadyForQuery(READY_STATUS_IDLE));
}

#[test]
fn scenario_noauth_startup_finishes_handshake() {
    let mut client = connection();
    let result = NoopStartupHandler.on_startup(&mut client, &startup(&[("user", "alice")]));
    assert_eq!(result, Ok(()));
    assert_eq!(client.state(), PgWireConnectionState::ReadyForQuery);
    assert_eq!(client.metadata().get("user"), Some(&"alice".to_string()));
    assert_closing_sequence(client.outbound(), 4242, 0);
}

#[test]
fn scenario_cleartext_success() {
    let handler = CleartextPasswordAuthStartupHandler::new(
        OnePassword { user: "alice".to_string(), password: "secret".to_string() },
        OneParameter,
    );
    let mut client = connection();
    assert_eq!(handler.on_startup(&mut client, &startup(&[("user", "alice")])), Ok(()));
    assert_eq!(client.state(), PgWireConnectionState::AuthenticationInProgress);
    assert_eq!(
        client.outbound().as_slice(),
        &[PgWireBackendMessage::Authentication(Authentication::CleartextPassword)]
    );
    assert_eq!(handler.on_startup(&mut client, &password("secret")), Ok(()));
    assert_eq!(client.state(), PgWireConnectionState::ReadyForQuery);
    assert_eq!(client.outbound().len(), 5);
    assert_eq!(
        client.outbound()[0],
        PgWireBackendMessage::Authentication(Authentication::CleartextPassword)
    );
    assert_closing_sequence(&client.outbound()[1..], 4242, 1);
    assert_eq!(
        client.outbound()[2],
        PgWireBackendMessage::ParameterStatus("server_version".to_string(), "15.0".to_string())
    );
}

#[test]
fn scenario_cleartext_failure() {
    let handler = CleartextPasswordAuthStartupHandler::new(
        OnePassword { user: "alice".to_string(), password: "secret".to_string() },
        NoopServerParameterProvider,
    );
    let mut client = connection();
    assert_eq!(handler.on_startup(&mut client, &startup(&[("user", "alice")])), Ok(()));
    let result = handler.on_startup(&mut client, &password("wrong"));
    assert_eq!(result, Err(PgWireError::InvalidCredentials));
    assert_eq!(client.state(), PgWireConnectionState::AuthenticationInProgress);
    assert_eq!(
        client.outbound().as_slice(),
        &[PgWireBackendMessage::Authentication(Authentication::CleartextPassword)]
    );
    for message in client.outbound() {
        assert!(!matches!(message, PgWireBackendMessage::BackendKeyData(_, _)));
        assert!(!matches!(message, PgWireBackendMessage::ReadyForQuery(_)));
    }
}

fn challenge_salt(client: &Connection) -> Vec<u8> {
    match client.outbound().last() {
        Some(PgWireBackendMessage::Authentication(Authentication::MD5Password(salt))) => {
            salt.clone()
        }
        other => panic!("expected a salted challenge, found {:?}", other),
    }
}

#[test]
fn scenario_salted_hash_uses_fresh_salts() {
    let handler = Md5PasswordAuthStartupHandler::new(
        OneDigest { digest: "md5abc".to_string(), seen_salt: RefCell::new(Vec::new()) },
        NoopServerParameterProvider,
    );
    let mut salts: Vec<Vec<u8>> = Vec::new();
    for _ in 0..8 {
        let mut client = connection();
        assert_eq!(handler.on_startup(&mut client, &startup(&[("user", "alice")])), Ok(()));
        assert_eq!(client.state(), PgWireConnectionState::AuthenticationInProgress);
        assert_eq!(client.outbound().len(), 1);
        let salt = challenge_salt(&client);
        assert_eq!(salt.len(), SALT_LEN);
        salts.push(salt);
    }
    let first = salts[0].clone();
    assert!(salts.iter().any(|salt| *salt != first));
}

#[test]
fn salted_hash_hands_the_challenge_salt_to_the_verifier() {
    let handler = Md5PasswordAuthStartupHandler::new(
        OneDigest { digest: "md5abc".to_string(), seen_salt: RefCell::new(Vec::new()) },
        TwoParameters,
    );
    let mut client = connection();
    assert_eq!(handler.on_startup(&mut client, &startup(&[("user", "alice")])), Ok(()));
    let salt = challenge_salt(&client);
    assert_eq!(client.pending_salt(), Some(&salt));
    assert_eq!(handler.on_startup(&mut client, &password("md5abc")), Ok(()));
    assert_eq!(client.state(), PgWireConnectionState::ReadyForQuery);
    assert_eq!(client.pending_salt(), None);
    assert_closing_sequence(&client.outbound()[1..], 4242, 2);
}

#[test]
fn salted_hash_rejects_a_wrong_digest() {
    let verifier = OneDigest { digest: "md5abc".to_string(), seen_salt: RefCell::new(Vec::new()) };
    let handler = Md5PasswordAuthStartupHandler::new(verifier, NoopServerParameterProvider);
    let mut client = connection();
    assert_eq!(handler.on_startup(&mut client, &startup(&[("user", "alice")])), Ok(()));
    let result = handler.on_startup(&mut client, &password("md5xyz"));
    assert_eq!(result, Err(PgWireError::InvalidCredentials));
    assert_eq!(client.outbound().len(), 1);
    assert_eq!(client.state(), PgWireConnectionState::AuthenticationInProgress);
}

#[test]
fn salted_hash_refuses_an_answer_without_its_challenge() {
    let cleartext = CleartextPasswordAuthStartupHandler::new(Broken, NoopServerParameterProvider);
    let handler = Md5PasswordAuthStartupHandler::new(Broken, NoopServerParameterProvider);
    let mut client = connection();
    assert_eq!(cleartext.on_startup(&mut client, &startup(&[])), Ok(()));
    let result = handler.on_startup(&mut client, &password("md5abc"));
    assert_eq!(result, Err(PgWireError::MalformedMessage));
    assert_eq!(client.outbound().len(), 1);
}

#[test]
fn verifier_failure_is_not_a_rejection() {
    let handler = CleartextPasswordAuthStartupHandler::new(Broken, NoopServerParameterProvider);
    let mut client = connection();
    assert_eq!(handler.on_startup(&mut client, &startup(&[("user", "alice")])), Ok(()));
    let result = handler.on_startup(&mut client, &password("secret"));
    assert_eq!(result, Err(PgWireError::VerifierFailure));
    assert_eq!(client.outbound().len(), 1);
    assert_eq!(client.state(), PgWireConnectionState::AuthenticationInProgress);
}

#[test]
fn unexpected_messages_are_refused_and_change_nothing() {
    let handler = CleartextPasswordAuthStartupHandler::new(Broken, NoopServerParameterProvider);
    let mut client = connection();
    assert_eq!(
        handler.on_startup(&mut client, &password("secret")),
        Err(PgWireError::MalformedMessage)
    );
    assert_eq!(
        handler.on_startup(&mut client, &PgWireFrontendMessage::Other(b'Q')),
        Err(PgWireError::MalformedMessage)
    );
    assert_eq!(client.state(), PgWireConnectionState::AwaitingStartup);
    assert_eq!(client.outbound().len(), 0);
    assert_eq!(client.metadata().len(), 0);
    assert_eq!(handler.on_startup(&mut client, &startup(&[("user", "alice")])), Ok(()));
    assert_eq!(
        handler.on_startup(&mut client, &startup(&[("user", "bob")])),
        Err(PgWireError::MalformedMessage)
    );
    assert_eq!(client.metadata().get("user"), Some(&"alice".to_string()));
    assert_eq!(client.outbound().len(), 1);
}

#[test]
fn noauth_refuses_everything_after_the_handshake() {
    let mut client = connection();
    assert_eq!(NoopStartupHandler.on_startup(&mut client, &startup(&[])), Ok(()));
    assert_eq!(
        NoopStartupHandler.on_startup(&mut client, &startup(&[])),
        Err(PgWireError::MalformedMessage)
    );
    assert_eq!(
        NoopStartupHandler.on_startup(&mut client, &password("x")),
        Err(PgWireError::MalformedMessage)
    );
    assert_eq!(client.state(), PgWireConnectionState::ReadyForQuery);
    assert_eq!(client.outbound().len(), 3);
}

#[test]
fn next_round_goes_by_state_and_message() {
    let first = startup(&[("user", "alice")]);
    let answer = password("secret");
    let other = PgWireFrontendMessage::Other(b'X');
    assert!(matches!(
        next_round(PgWireConnectionState::AwaitingStartup, &first),
        Round::Begin(_)
    ));
    assert!(matches!(
        next_round(PgWireConnectionState::AuthenticationInProgress, &first),
        Round::Unexpected
    ));
    assert!(matches!(
        next_round(PgWireConnectionState::ReadyForQuery, &first),
        Round::Unexpected
    ));
    match next_round(PgWireConnectionState::AuthenticationInProgress, &answer) {
        Round::Answer(text) => assert_eq!(text, "secret"),
        round => panic!("expected an answer, found {:?}", round),
    }
    assert!(matches!(
        next_round(PgWireConnectionState::AwaitingStartup, &answer),
        Round::Unexpected
    ));
    assert!(matches!(
        next_round(PgWireConnectionState::ReadyForQuery, &answer),
        Round::Unexpected
    ));
    assert!(matches!(
        next_round(PgWireConnectionState::AwaitingStartup, &other),
        Round::Unexpected
    ));
    assert!(matches!(
        next_round(PgWireConnectionState::AuthenticationInProgress, &other),
        Round::Unexpected
    ));
}

#[test]
fn merge_overwrites_shared_keys_and_keeps_the_rest() {
    let mut client = connection();
    let first = Startup { parameters: string_map(&[("user", "alice"), ("application_name", "psql")]) };
    save_startup_parameters_to_metadata(&mut client, &first);
    let second = Startup { parameters: string_map(&[("user", "bob"), ("database", "sales")]) };
    save_startup_parameters_to_metadata(&mut client, &second);
    assert_eq!(client.metadata().len(), 3);
    assert_eq!(client.metadata().get("user"), Some(&"bob".to_string()));
    assert_eq!(client.metadata().get("database"), Some(&"sales".to_string()));
    assert_eq!(client.metadata().get("application_name"), Some(&"psql".to_string()));
    assert_eq!(client.metadata().get("options"), None);
    assert_eq!(client.state(), PgWireConnectionState::AwaitingStartup);
    assert_eq!(client.outbound().len(), 0);
}

#[test]
fn merging_twice_is_merging_once() {
    let message = Startup::new(string_map(&[("user", "alice"), ("database", "sales")]));
    assert_eq!(message.parameters().len(), 2);
    let mut client = connection();
    save_startup_parameters_to_metadata(&mut client, &message);
    save_startup_parameters_to_metadata(&mut client, &message);
    assert_eq!(client.metadata().len(), 2);
    assert_eq!(client.metadata().get("user"), Some(&"alice".to_string()));
    assert_eq!(client.metadata().get("database"), Some(&"sales".to_string()));
}

#[test]
fn merge_of_nothing_changes_nothing() {
    let mut client = connection();
    save_startup_parameters_to_metadata(&mut client, &Startup { parameters: string_map(&[("user", "alice")]) });
    save_startup_parameters_to_metadata(&mut client, &Startup { parameters: StringMap::new() });
    assert_eq!(client.metadata().len(), 1);
    assert_eq!(client.metadata().get("user"), Some(&"alice".to_string()));
}

#[test]
fn login_info_follows_the_metadata() {
    assert_eq!(METADATA_USER, "user");
    assert_eq!(METADATA_DATABASE, "database");
    let mut client = connection();
    {
        let info = LoginInfo::from_client_info(&client);
        assert_eq!(*info.user(), None);
        assert_eq!(*info.database(), None);
        assert_eq!(info.host(), "127.0.0.1");
    }
    save_startup_parameters_to_metadata(&mut client, &Startup { parameters: string_map(&[("user", "alice")]) });
    {
        let info = LoginInfo::from_client_info(&client);
        assert_eq!(*info.user(), Some(&"alice".to_string()));
        assert_eq!(*info.database(), None);
    }
    save_startup_parameters_to_metadata(&mut client, &Startup { parameters: string_map(&[("database", "sales")]) });
    let first = LoginInfo::from_client_info(&client);
    let second = LoginInfo::from_client_info(&client);
    assert_eq!(*first.user(), Some(&"alice".to_string()));
    assert_eq!(*first.database(), Some(&"sales".to_string()));
    assert_eq!(first.user(), second.user());
    assert_eq!(first.database(), second.database());
    assert_eq!(first.host(), second.host());
}

#[test]
fn login_info_and_password_hold_what_they_were_given() {
    let user = "alice".to_string();
    let info = LoginInfo::new(Some(&user), None, "10.0.0.1".to_string());
    assert_eq!(*info.user(), Some(&user));
    assert_eq!(*info.database(), None);
    assert_eq!(info.host(), "10.0.0.1");
    let salt = [1u8, 2, 3, 4];
    let digest = "md5abc".to_string();
    let hashed = HashedPassword::new(&salt, &digest);
    assert_eq!(*hashed.salt(), &salt[..]);
    assert_eq!(*hashed.hashed_password(), &digest);
}

#[test]
fn finish_with_writes_the_exact_sequence() {
    let mut client = connection();
    let parameters = string_map(&[("server_version", "15.0"), ("client_encoding", "UTF8")]);
    client.finish_with(Some(parameters), 99);
    assert_eq!(
        client.outbound().as_slice(),
        &[
            PgWireBackendMessage::Authentication(Authentication::Success),
            PgWireBackendMessage::ParameterStatus("server_version".to_string(), "15.0".to_string()),
            PgWireBackendMessage::ParameterStatus("client_encoding".to_string(), "UTF8".to_string()),
            PgWireBackendMessage::BackendKeyData(4242, 99),
            PgWireBackendMessage::ReadyForQuery(b'I'),
        ]
    );
    assert_eq!(client.state(), PgWireConnectionState::ReadyForQuery);
}

#[test]
fn finish_with_no_parameters_writes_three_messages() {
    let mut client = connection();
    client.finish_with(None, -5);
    assert_eq!(
        client.outbound().as_slice(),
        &[
            PgWireBackendMessage::Authentication(Authentication::Success),
            PgWireBackendMessage::BackendKeyData(4242, -5),
            PgWireBackendMessage::ReadyForQuery(READY_STATUS_IDLE),
        ]
    );
    let mut other = connection();
    other.finish_with(Some(StringMap::new()), 0);
    assert_eq!(other.outbound().len(), 3);
}

#[test]
fn finish_authentication_sends_each_parameter_once() {
    let mut client = connection();
    finish_authentication(&mut client, &TwoParameters);
    assert_eq!(client.state(), PgWireConnectionState::ReadyForQuery);
    assert_closing_sequence(client.outbound(), 4242, 2);
    let version = PgWireBackendMessage::ParameterStatus("server_version".to_string(), "15.0".to_string());
    let encoding = PgWireBackendMessage::ParameterStatus("client_encoding".to_string(), "UTF8".to_string());
    assert_eq!(client.outbound().iter().filter(|m| **m == version).count(), 1);
    assert_eq!(client.outbound().iter().filter(|m| **m == encoding).count(), 1);
}

#[test]
fn finish_authentication_with_noop_provider_sends_no_parameters() {
    let mut client = connection();
    finish_authentication(&mut client, &NoopServerParameterProvider);
    assert_closing_sequence(client.outbound(), 4242, 0);
    assert!(NoopServerParameterProvider.server_parameters(&client).is_none());
    let mut other = connection();
    finish_with_parameters(&mut other, None);
    assert_closing_sequence(other.outbound(), 4242, 0);
}

#[test]
fn ready_for_query_only_after_the_closing_sequence() {
    let handler = CleartextPasswordAuthStartupHandler::new(
        OnePassword { user: "alice".to_string(), password: "secret".to_string() },
        TwoParameters,
    );
    let mut client = connection();
    assert_eq!(client.state(), PgWireConnectionState::AwaitingStartup);
    let _ = handler.on_startup(&mut client, &password("secret"));
    assert_ne!(client.state(), PgWireConnectionState::ReadyForQuery);
    let _ = handler.on_startup(&mut client, &startup(&[("user", "alice")]));
    assert_ne!(client.state(), PgWireConnectionState::ReadyForQuery);
    let _ = handler.on_startup(&mut client, &password("wrong"));
    assert_ne!(client.state(), PgWireConnectionState::ReadyForQuery);
    assert!(!client.outbound().iter().any(|m| matches!(m, PgWireBackendMessage::ReadyForQuery(_))));
    let _ = handler.on_startup(&mut client, &password("secret"));
    assert_eq!(client.state(), PgWireConnectionState::ReadyForQuery);
    assert_closing_sequence(&client.outbound()[1..], 4242, 2);
}

#[test]
fn complete_verification_acts_on_each_outcome() {
    let mut client = connection();
    client.send_challenge(Authentication::CleartextPassword);
    assert_eq!(
        complete_verification(&mut client, &NoopServerParameterProvider, Ok(false)),
        Err(PgWireError::InvalidCredentials)
    );
    assert_eq!(client.outbound().len(), 1);
    assert_eq!(
        complete_verification(
            &mut client,
            &NoopServerParameterProvider,
            Err(PgWireError::TransportFailure)
        ),
        Err(PgWireError::VerifierFailure)
    );
    assert_eq!(client.outbound().len(), 1);
    assert_eq!(client.state(), PgWireConnectionState::AuthenticationInProgress);
    assert_eq!(complete_verification(&mut client, &NoopServerParameterProvider, Ok(true)), Ok(()));
    assert_eq!(client.outbound().len(), 4);
    assert_eq!(client.state(), PgWireConnectionState::ReadyForQuery);
}

#[test]
fn secret_keys_vary_between_handshakes() {
    let mut secrets: Vec<i32> = Vec::new();
    for _ in 0..16 {
        let mut client = connection();
        finish_authentication(&mut client, &NoopServerParameterProvider);
        match &client.outbound()[1] {
            PgWireBackendMessage::BackendKeyData(_, secret) => secrets.push(*secret),
            other => panic!("expected key data, found {:?}", other),
        }
    }
    let first = secrets[0];
    assert!(secrets.iter().any(|secret| *secret != first));
}

#[test]
fn new_connection_is_empty() {
    let client = Connection::new("db.example".to_string(), -1);
    assert_eq!(client.host(), "db.example");
    assert_eq!(client.process_id(), -1);
    assert_eq!(client.state(), PgWireConnectionState::AwaitingStartup);
    assert_eq!(client.metadata().len(), 0);
    assert!(client.outbound().is_empty());
    assert_eq!(client.pending_salt(), None);
}

#[test]
fn string_map_insert_get_and_overwrite() {
    let mut map = StringMap::new();
    assert_eq!(map.len(), 0);
    assert_eq!(map.get("user"), None);
    assert!(!map.contains_key("user"));
    map.insert("user".to_string(), "alice".to_string());
    map.insert("database".to_string(), "sales".to_string());
    assert_eq!(map.len(), 2);
    assert_eq!(map.get("user"), Some(&"alice".to_string()));
    map.insert("user".to_string(), "bob".to_string());
    assert_eq!(map.len(), 2);
    assert_eq!(map.get("user"), Some(&"bob".to_string()));
    assert_eq!(map.get("database"), Some(&"sales".to_string()));
    assert!(map.contains_key("database"));
    assert_eq!(map.key_at(0), "user");
    assert_eq!(map.value_at(0), "bob");
    assert_eq!(map.key_at(1), "database");
    assert_eq!(map.value_at(1), "sales");
}

#[test]
fn string_map_extend_and_clone() {
    let mut map = string_map(&[("a", "1"), ("b", "2")]);
    let other = string_map(&[("b", "20"), ("c", "30")]);
    map.extend(&other);
    assert_eq!(map.len(), 3);
    assert_eq!(map.get("a"), Some(&"1".to_string()));
    assert_eq!(map.get("b"), Some(&"20".to_string()));
    assert_eq!(map.get("c"), Some(&"30".to_string()));
    let copy = map.clone();
    map.insert("a".to_string(), "100".to_string());
    assert_eq!(copy.len(), 3);
    assert_eq!(copy.get("a"), Some(&"1".to_string()));
    assert_eq!(other.len(), 2);
    assert_eq!(other.get("b"), Some(&"20".to_string()));
}

#[test]
fn cleartext_attempt_carries_the_context_and_the_password() {
    let mut client = connection();
    save_startup_parameters_to_metadata(
        &mut client,
        &Startup { parameters: string_map(&[("user", "alice"), ("database", "sales")]) },
    );
    let presented = "secret".to_string();
    let (ctx, pwd) = cleartext_attempt(&client, &presented);
    assert_eq!(*ctx.user(), Some(&"alice".to_string()));
    assert_eq!(*ctx.database(), Some(&"sales".to_string()));
    assert_eq!(ctx.host(), "127.0.0.1");
    match pwd {
        Password::ClearText(text) => assert_eq!(text, "secret"),
        other => panic!("expected a clear-text password, found {:?}", other),
    }
}

#[test]
fn hashed_attempt_needs_an_outstanding_salted_challenge() {
    let digest = "md5abc".to_string();
    let mut client = connection();
    assert!(hashed_attempt(&client, &digest).is_none());
    client.send_challenge(Authentication::CleartextPassword);
    assert!(hashed_attempt(&client, &digest).is_none());
    client.send_challenge(Authentication::MD5Password(vec![9, 8, 7, 6]));
    match hashed_attempt(&client, &digest) {
        Some((ctx, Password::Hashed(hashed))) => {
            assert_eq!(*ctx.user(), None);
            assert_eq!(*hashed.salt(), &[9u8, 8, 7, 6][..]);
            assert_eq!(*hashed.hashed_password(), &digest);
        }
        other => panic!("expected a hashed password, found {:?}", other.map(|a| a.1)),
    }
}

#[test]
fn send_salted_challenge_writes_one_challenge() {
    let mut client = connection();
    send_salted_challenge(&mut client);
    assert_eq!(client.state(), PgWireConnectionState::AuthenticationInProgress);
    assert_eq!(client.outbound().len(), 1);
    assert_eq!(challenge_salt(&client).len(), 4);
    assert_eq!(client.metadata().len(), 0);
    assert_eq!(client.host(), "127.0.0.1");
    assert_eq!(client.process_id(), 4242);
}

#[test]
fn begin_cleartext_merges_then_asks_for_the_password() {
    let mut client = connection();
    begin_cleartext(&mut client, &Startup::new(string_map(&[("user", "alice")])));
    assert_eq!(client.metadata().get("user"), Some(&"alice".to_string()));
    assert_eq!(client.state(), PgWireConnectionState::AuthenticationInProgress);
    assert_eq!(
        client.outbound().as_slice(),
        &[PgWireBackendMessage::Authentication(Authentication::CleartextPassword)]
    );
}

#[test]
fn begin_salted_merges_then_sends_a_salt() {
    let mut client = connection();
    begin_salted(&mut client, &Startup::new(string_map(&[("database", "sales")])));
    assert_eq!(client.metadata().get("database"), Some(&"sales".to_string()));
    assert_eq!(client.state(), PgWireConnectionState::AuthenticationInProgress);
    assert_eq!(client.outbound().len(), 1);
    assert_eq!(challenge_salt(&client).len(), SALT_LEN);
}

#[test]
fn a_copy_of_a_connection_goes_its_own_way() {
    let mut client = connection();
    begin_cleartext(&mut client, &Startup::new(string_map(&[("user", "alice")])));
    let mut staged = client.clone();
    finish_authentication(&mut staged, &OneParameter);
    assert_eq!(staged.state(), PgWireConnectionState::ReadyForQuery);
    assert_eq!(staged.outbound().len(), 5);
    assert_eq!(staged.metadata().get("user"), Some(&"alice".to_string()));
    assert_eq!(client.state(), PgWireConnectionState::AuthenticationInProgress);
    assert_eq!(client.outbound().len(), 1);
    assert_eq!(staged.outbound()[0], client.outbound()[0]);
}

#[test]
fn finish_authentication_reports_what_the_provider_returned() {
    let mut client = connection();
    finish_authentication(&mut client, &OneParameter);
    assert_eq!(client.outbound().len(), 4);
    assert_eq!(client.outbound()[0], PgWireBackendMessage::Authentication(Authentication::Success));
    assert_eq!(
        client.outbound()[1],
        PgWireBackendMessage::ParameterStatus("server_version".to_string(), "15.0".to_string())
    );
    assert!(matches!(client.outbound()[2], PgWireBackendMessage::BackendKeyData(4242, _)));
    assert_eq!(client.outbound()[3], PgWireBackendMessage::ReadyForQuery(READY_STATUS_IDLE));
    assert_eq!(client.state(), PgWireConnectionState::ReadyForQuery);
}
