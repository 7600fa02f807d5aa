use inspektor::policy::{watch_policies, PolicyAction, PolicyEvent};

#[test]
fn a_policy_is_told() {
    let action = watch_policies(PolicyEvent::Received {
        policy: Some(vec![1, 2]),
    });
    match action {
        PolicyAction::Broadcast { policy } => assert_eq!(policy, vec![1, 2]),
        _ => panic!("not told"),
    }
}

#[test]
fn the_watch_goes_on() {
    for event in [
        PolicyEvent::Received { policy: None },
        PolicyEvent::Reopened { done: true },
        PolicyEvent::Broadcast { done: true },
        PolicyEvent::Broadcast { done: false },
    ] {
        assert!(matches!(watch_policies(event), PolicyAction::Receive));
    }
}

#[test]
fn a_failed_stream_is_reopened_until_it_is_there() {
    assert!(matches!(
        watch_policies(PolicyEvent::ReceiveFailed),
        PolicyAction::Reopen
    ));
    assert!(matches!(
        watch_policies(PolicyEvent::Reopened { done: false }),
        PolicyAction::Reopen
    ));
}
