use inspektor::config::PostgresConfig;
use inspektor::handler::ProtocolHandler;
use inspektor::handshake::{Action, Event, Handshake, HandshakeError};
use inspektor::message::{BackendMessage, FrontendMessage};
use inspektor::params::Params;

fn config(username: Option<&str>, password: Option<&str>) -> PostgresConfig {
    PostgresConfig {
        target_addr: Some("localhost:5432".to_string()),
        target_username: username.map(|u| u.to_string()),
        target_password: password.map(|p| p.to_string()),
    }
}

fn client_params() -> Params {
    let mut params = Params::new();
    params.insert("user".to_string(), "client".to_string());
    params.insert("database".to_string(), "shop".to_string());
    params
}

fn begin() -> Handshake {
    let (handshake, action) = Handshake::new(config(Some("postgres"), Some("secret")), client_params());
    match action {
        Action::Connect { addr } => assert_eq!(addr, "localhost:5432"),
        _ => panic!("no connection"),
    }
    handshake
}

fn started() -> Handshake {
    let mut handshake = begin();
    handshake.step(Event::Connected { secured: true });
    assert!(matches!(handshake.step(Event::Sent), Action::Receive));
    handshake
}

fn assert_startup(action: Action) {
    match action {
        Action::Send {
            message: FrontendMessage::Startup { params, version },
        } => {
            assert_eq!(version, 196608);
            assert_eq!(params.len(), 4);
            let pair = |k: &str, v: &str| (k.to_string(), v.to_string());
            let expected = [
                pair("database", "shop"),
                pair("user", "postgres"),
                pair("client_encoding", "UTF8"),
                pair("application_name", "inspektor"),
            ];
            for i in 0..4 {
                assert_eq!(params.entry(i), (&expected[i].0, &expected[i].1));
            }
        }
        _ => panic!("no startup message"),
    }
}

#[test]
fn tls_is_used_where_the_target_agrees() {
    let mut handshake = begin();
    assert!(matches!(
        handshake.step(Event::Connected { secured: false }),
        Action::Send {
            message: FrontendMessage::SslRequest
        }
    ));
    assert!(matches!(handshake.step(Event::Sent), Action::ReadSslReply));
    assert!(matches!(
        handshake.step(Event::SslReply { answer: b'S' }),
        Action::Upgrade
    ));
    assert!(!handshake.accepts(&Event::Sent));
    assert_startup(handshake.step(Event::Upgraded));
}

#[test]
fn a_new_connection_is_made_where_the_target_refuses_tls() {
    let mut handshake = begin();
    handshake.step(Event::Connected { secured: false });
    handshake.step(Event::Sent);
    match handshake.step(Event::SslReply { answer: b'N' }) {
        Action::Connect { addr } => assert_eq!(addr, "localhost:5432"),
        _ => panic!("no connection"),
    }
    assert_startup(handshake.step(Event::Connected { secured: false }));
}

#[test]
fn a_secured_connection_is_left_as_it_is() {
    let mut handshake = begin();
    assert_startup(handshake.step(Event::Connected { secured: true }));
    assert!(!handshake.accepts(&Event::SslReply { answer: b'S' }));
    assert!(!handshake.accepts(&Event::Upgraded));
    assert!(matches!(handshake.step(Event::Sent), Action::Receive));
}

#[test]
fn a_clear_password_is_sent_when_it_is_asked_for() {
    let mut handshake = started();
    match handshake.step(Event::Received {
        message: BackendMessage::AuthenticationCleartextPassword,
    }) {
        Action::Send {
            message: FrontendMessage::PasswordMessage { password },
        } => assert_eq!(password, "secret"),
        _ => panic!("no password"),
    }
    assert!(matches!(handshake.step(Event::Sent), Action::Receive));
}

#[test]
fn a_hashed_password_is_sent_when_it_is_asked_for() {
    let mut handshake = started();
    match handshake.step(Event::Received {
        message: BackendMessage::AuthenticationMD5Password {
            salt: vec![1, 2, 3, 4],
        },
    }) {
        Action::Send {
            message: FrontendMessage::PasswordMessage { password },
        } => assert_eq!(password, "md5bb41a296aab6baccb36ff243a562abff"),
        _ => panic!("no password"),
    }
}

#[test]
fn the_client_is_told_and_the_session_opens() {
    let mut handshake = started();
    match handshake.step(Event::Received {
        message: BackendMessage::AuthenticationOk,
    }) {
        Action::Notify { reply } => {
            assert_eq!(reply.encode().unwrap(), vec![b'R', 0, 0, 0, 8, 0, 0, 0, 0])
        }
        _ => panic!("not told"),
    }
    assert!(matches!(handshake.step(Event::Sent), Action::Open));
    assert!(!handshake.accepts(&Event::Failed));
    let handler = ProtocolHandler::initialize(handshake, vec![7], vec!["dev".to_string()]);
    assert_eq!(handler.connected_db, "shop");
    assert_eq!(handler.policy, vec![7]);
    assert_eq!(handler.groups, vec!["dev".to_string()]);
    assert_eq!(
        handler.connection_string(),
        "host=localhost port=5432 user=postgres dbname = shop password = secret"
    );
}

#[test]
fn an_unexpected_message_ends_the_handshake() {
    let mut handshake = started();
    let action = handshake.step(Event::Received {
        message: BackendMessage::Other {
            tag: b'E',
            body: vec![],
        },
    });
    match action {
        Action::Fail { error } => {
            assert_eq!(error, HandshakeError::UnexpectedMessage);
            assert_eq!(
                error.description(),
                Some("unexpected backend message from target")
            );
        }
        _ => panic!("no failure"),
    }
    assert!(!handshake.accepts(&Event::Failed));
}

fn failure_after(events: Vec<Event>) -> HandshakeError {
    let mut handshake = begin();
    for event in events {
        assert!(handshake.accepts(&event));
        handshake.step(event);
    }
    assert!(handshake.accepts(&Event::Failed));
    match handshake.step(Event::Failed) {
        Action::Fail { error } => error,
        _ => panic!("no failure"),
    }
}

#[test]
fn every_failed_step_has_its_error() {
    let plain = || Event::Connected { secured: false };
    let secured = || Event::Connected { secured: true };
    let ok = || Event::Received {
        message: BackendMessage::AuthenticationOk,
    };
    let ask = || Event::Received {
        message: BackendMessage::AuthenticationCleartextPassword,
    };
    assert_eq!(failure_after(vec![]), HandshakeError::Connect);
    assert_eq!(failure_after(vec![plain()]), HandshakeError::SslRequest);
    assert_eq!(
        failure_after(vec![plain(), Event::Sent]),
        HandshakeError::SslReply
    );
    assert_eq!(
        failure_after(vec![plain(), Event::Sent, Event::SslReply { answer: b'S' }]),
        HandshakeError::SslUpgrade
    );
    assert_eq!(
        failure_after(vec![plain(), Event::Sent, Event::SslReply { answer: b'N' }]),
        HandshakeError::Connect
    );
    assert_eq!(failure_after(vec![secured()]), HandshakeError::Startup);
    assert_eq!(
        failure_after(vec![secured(), Event::Sent]),
        HandshakeError::Receive
    );
    assert_eq!(
        failure_after(vec![secured(), Event::Sent, ask()]),
        HandshakeError::Password
    );
    assert_eq!(
        failure_after(vec![secured(), Event::Sent, ok()]),
        HandshakeError::Notify
    );
}

#[test]
fn errors_say_what_went_wrong() {
    assert_eq!(
        HandshakeError::Connect.description(),
        Some("unable to connect to target postgres server")
    );
    assert_eq!(
        HandshakeError::SslRequest.description(),
        Some("unable to send ssl upgrade request")
    );
    assert_eq!(
        HandshakeError::SslReply.description(),
        Some("error while reading response message after ssl request")
    );
    assert_eq!(
        HandshakeError::SslUpgrade.description(),
        Some("error while upgrading target connection to ssl stream")
    );
    assert_eq!(HandshakeError::Startup.description(), None);
}

#[test]
fn missing_settings_are_seen_before_they_are_needed() {
    let (handshake, _) = Handshake::new(config(None, Some("secret")), client_params());
    assert!(handshake.accepts(&Event::Connected { secured: false }));
    assert!(!handshake.accepts(&Event::Connected { secured: true }));
    let (handshake, _) = Handshake::new(config(Some("postgres"), None), Params::new());
    assert!(!handshake.accepts(&Event::Connected { secured: true }));
    let (mut handshake, _) = Handshake::new(config(Some("postgres"), None), client_params());
    handshake.step(Event::Connected { secured: true });
    handshake.step(Event::Sent);
    assert!(!handshake.accepts(&Event::Received {
        message: BackendMessage::AuthenticationCleartextPassword
    }));
    assert!(handshake.accepts(&Event::Received {
        message: BackendMessage::AuthenticationOk
    }));
}
