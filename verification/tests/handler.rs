use inspektor::config::PostgresConfig;
use inspektor::handler::{ProtocolHandler, RelayAction, RelayEvent};
use inspektor::message::FrontendMessage;
use inspektor::tables::TableInfo;
use sqlparser::ast::Statement;

fn handler() -> ProtocolHandler {
    ProtocolHandler {
        policy: vec![0],
        groups: vec!["dev".to_string()],
        config: PostgresConfig {
            target_addr: None,
            target_username: Some("u".to_string()),
            target_password: Some("p".to_string()),
        },
        connected_db: "db".to_string(),
    }
}

fn keep(statements: Vec<Statement>, _tables: &TableInfo) -> Result<Vec<Statement>, String> {
    Ok(statements)
}

fn deny(_statements: Vec<Statement>, _tables: &TableInfo) -> Result<Vec<Statement>, String> {
    Err("denied".to_string())
}

fn allow(_message: &FrontendMessage, _policy: &Vec<u8>, _groups: &Vec<String>) -> bool {
    true
}

/// Allows everything but the messages whose tag the policy lists.
fn by_policy(message: &FrontendMessage, policy: &Vec<u8>, _groups: &Vec<String>) -> bool {
    match message {
        FrontendMessage::Query { .. } => !policy.contains(&b'Q'),
        FrontendMessage::Other { tag, .. } => !policy.contains(tag),
        _ => true,
    }
}

fn turn(handler: &mut ProtocolHandler, event: RelayEvent) -> RelayAction {
    handler
        .serve(event, &TableInfo::new(), by_policy, keep)
        .unwrap()
}

#[test]
fn the_target_bytes_go_to_the_client() {
    let mut handler = handler();
    let mut sent: Vec<u8> = vec![];
    for part in [vec![1, 2], vec![3], vec![4, 5]] {
        match turn(&mut handler, RelayEvent::TargetRead { bytes: Some(part) }) {
            RelayAction::SendToClient { bytes } => sent.extend_from_slice(&bytes),
            _ => panic!("not sent"),
        }
        assert!(matches!(
            turn(&mut handler, RelayEvent::Sent { done: true }),
            RelayAction::Wait
        ));
    }
    assert_eq!(sent, vec![1, 2, 3, 4, 5]);
}

#[test]
fn the_session_ends_with_its_sides() {
    let mut handler = handler();
    for event in [
        RelayEvent::TargetRead { bytes: None },
        RelayEvent::TargetRead {
            bytes: Some(vec![]),
        },
        RelayEvent::ClientMessage { message: None },
        RelayEvent::Sent { done: false },
    ] {
        assert!(matches!(turn(&mut handler, event), RelayAction::Stop));
    }
}

#[test]
fn the_latest_policy_is_in_force() {
    let mut handler = handler();
    for policy in [vec![1], vec![2, 2]] {
        match turn(
            &mut handler,
            RelayEvent::PolicyChanged {
                policy: Some(policy.clone()),
            },
        ) {
            RelayAction::LoadPolicy { policy: loaded } => assert_eq!(loaded, policy),
            _ => panic!("not loaded"),
        }
        assert_eq!(handler.policy, policy);
    }
    assert!(matches!(
        turn(&mut handler, RelayEvent::PolicyChanged { policy: None }),
        RelayAction::Wait
    ));
    assert_eq!(handler.policy, vec![2, 2]);
    assert_eq!(handler.connected_db, "db");
}

fn client(message: FrontendMessage) -> RelayEvent {
    RelayEvent::ClientMessage {
        message: Some(message),
    }
}

fn query(text: &str) -> FrontendMessage {
    FrontendMessage::Query {
        query_string: text.to_string(),
    }
}

fn to_target(action: RelayAction) -> FrontendMessage {
    match action {
        RelayAction::SendToTarget { message } => message,
        _ => panic!("not sent"),
    }
}

#[test]
fn a_query_reaches_the_target_rewritten() {
    let mut handler = handler();
    let message = to_target(turn(&mut handler, client(query("select  1"))));
    assert_eq!(message.encode().unwrap(), b"Q\0\0\0\x0eSELECT 1;\0".to_vec());
}

#[test]
fn other_messages_reach_the_target_unchanged() {
    let mut handler = handler();
    let message = to_target(turn(
        &mut handler,
        client(FrontendMessage::Other {
            tag: b'X',
            body: vec![],
        }),
    ));
    assert_eq!(message.encode().unwrap(), vec![b'X', 0, 0, 0, 4]);
    let message = to_target(turn(&mut handler, client(query("no sql"))));
    assert_eq!(message.encode().unwrap(), b"Q\0\0\0\x0bno sql\0".to_vec());
}

#[test]
fn a_failed_rewrite_is_handed_on() {
    let mut handler = handler();
    let result = handler.serve(client(query("select 1")), &TableInfo::new(), allow, deny);
    assert_eq!(result.err(), Some("denied".to_string()));
    let result = handler.serve(client(query("no sql")), &TableInfo::new(), allow, deny);
    assert!(result.is_ok());
    let mut message = query("select 1");
    let result = handler.handle_frontend_message(&mut message, &TableInfo::new(), deny);
    assert_eq!(result, Err("denied".to_string()));
    assert!(matches!(&message, FrontendMessage::Query { query_string } if query_string == "select 1"));
}

#[test]
fn the_rewriter_is_given_the_tables() {
    let mut handler = handler();
    let mut tables = TableInfo::new();
    tables.add_column("users".to_string(), "id".to_string());
    let result: Result<RelayAction, String> =
        handler.serve(client(query("select 1")), &tables, allow, |statements, t| {
            assert_eq!(statements.len(), 1);
            assert!(t.get(&"users".to_string()).is_some());
            Ok(vec![])
        });
    let message = to_target(result.unwrap());
    assert_eq!(message.encode().unwrap(), b"Q\0\0\0\x05\0".to_vec());
}

fn change_policy(handler: &mut ProtocolHandler, policy: &[u8]) {
    let event = RelayEvent::PolicyChanged {
        policy: Some(policy.to_vec()),
    };
    assert!(matches!(
        turn(handler, event),
        RelayAction::LoadPolicy { .. }
    ));
}

#[test]
fn a_denied_message_is_withheld() {
    let mut handler = handler();
    change_policy(&mut handler, b"X");
    let other = FrontendMessage::Other {
        tag: b'X',
        body: vec![],
    };
    assert!(matches!(
        turn(&mut handler, client(other)),
        RelayAction::Wait
    ));
    to_target(turn(&mut handler, client(query("select 1"))));
}

#[test]
fn the_policy_in_force_decides() {
    let mut handler = handler();
    to_target(turn(&mut handler, client(query("select 1"))));
    change_policy(&mut handler, b"Q");
    assert!(matches!(
        turn(&mut handler, client(query("select 1"))),
        RelayAction::Wait
    ));
    assert!(matches!(
        turn(&mut handler, RelayEvent::PolicyChanged { policy: None }),
        RelayAction::Wait
    ));
    assert!(matches!(
        turn(&mut handler, client(query("select 1"))),
        RelayAction::Wait
    ));
    change_policy(&mut handler, b"");
    to_target(turn(&mut handler, client(query("select 1"))));
}

#[test]
fn the_policy_is_asked_about_the_message_as_it_came() {
    let mut handler = handler();
    let result: Result<RelayAction, String> = handler.serve(
        client(query("select  1")),
        &TableInfo::new(),
        |message, policy, groups| {
            assert!(
                matches!(message, FrontendMessage::Query { query_string } if query_string == "select  1")
            );
            assert_eq!(policy, &vec![0]);
            assert_eq!(groups, &vec!["dev".to_string()]);
            true
        },
        keep,
    );
    to_target(result.unwrap());
}

#[test]
fn a_denied_query_is_not_rewritten() {
    let mut handler = handler();
    let result: Result<RelayAction, String> = handler.serve(
        client(query("select 1")),
        &TableInfo::new(),
        |_, _, _| false,
        |_, _| panic!("rewritten"),
    );
    assert!(matches!(result, Ok(RelayAction::Wait)));
}

#[test]
fn the_policy_does_not_decide_about_the_target() {
    let mut handler = handler();
    let result: Result<RelayAction, String> = handler.serve(
        RelayEvent::TargetRead {
            bytes: Some(vec![1]),
        },
        &TableInfo::new(),
        |_, _, _| panic!("asked"),
        keep,
    );
    assert!(matches!(result, Ok(RelayAction::SendToClient { bytes }) if bytes == vec![1]));
}

#[test]
fn the_target_gets_the_allowed_messages_in_order() {
    let mut handler = handler();
    change_policy(&mut handler, b"D");
    let mut sent: Vec<u8> = vec![];
    for event in [
        client(query("select  1")),
        client(FrontendMessage::Other {
            tag: b'D',
            body: vec![9],
        }),
        RelayEvent::TargetRead {
            bytes: Some(vec![7]),
        },
        client(FrontendMessage::Other {
            tag: b'X',
            body: vec![],
        }),
    ] {
        if let RelayAction::SendToTarget { message } = turn(&mut handler, event) {
            sent.extend_from_slice(&message.encode().unwrap());
        }
    }
    assert_eq!(sent, b"Q\0\0\0\x0eSELECT 1;\0X\0\0\0\x04".to_vec());
}

#[test]
fn queries_of_the_same_statements_leave_alike() {
    let mut texts: Vec<Vec<u8>> = vec![];
    for text in ["select a from t", "SELECT  a /* all */ FROM t -- end", "\nselect a\nfrom t;"] {
        let mut message = query(text);
        handler()
            .handle_frontend_message(&mut message, &TableInfo::new(), keep)
            .unwrap();
        texts.push(message.encode().unwrap());
    }
    assert_eq!(texts[0], b"Q\0\0\0\x15SELECT a FROM t;\0".to_vec());
    assert_eq!(texts[1], texts[0]);
    assert_eq!(texts[2], texts[0]);
}

#[test]
fn other_sessions_make_the_same_of_a_message() {
    let mut other = handler();
    other.policy = b"Q".to_vec();
    other.groups = vec![];
    other.config.target_username = None;
    other.connected_db = "another".to_string();
    let mut first = query("select 1");
    let mut second = query("select 1");
    handler()
        .handle_frontend_message(&mut first, &TableInfo::new(), keep)
        .unwrap();
    other
        .handle_frontend_message(&mut second, &TableInfo::new(), keep)
        .unwrap();
    assert_eq!(first.encode().unwrap(), second.encode().unwrap());
}

#[test]
fn only_statements_are_rewritten() {
    let mut handler = handler();
    for message in [
        FrontendMessage::Other {
            tag: b'X',
            body: vec![],
        },
        query("no sql"),
    ] {
        let result: Result<RelayAction, String> = handler.serve(
            client(message),
            &TableInfo::new(),
            allow,
            |_, _| panic!("rewritten"),
        );
        to_target(result.unwrap());
    }
}
