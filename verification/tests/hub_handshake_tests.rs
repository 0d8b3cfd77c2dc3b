use mdopen::handshake::{
    convert_websocket_key, encode_frame, conn_step, upgrade_decision, ConnAction, ConnInput,
    ConnState, UpgradeDecision,
};
use mdopen::hub::{should_broadcast, ChangeKind, Event, Hub};

#[test]
fn websocket_accept_rfc_vector() {
    // The sample key/accept pair given in RFC 6455.
    assert_eq!(
        convert_websocket_key("dGhlIHNhbXBsZSBub25jZQ=="),
        "s3pPLMBiTxaQ9kYGzzhZRbK+xOo="
    );
}

#[test]
fn frame_is_header_length_payload() {
    let frame = encode_frame("reload");
    let mut expected = vec![0x81u8, 6];
    expected.extend_from_slice(b"reload");
    assert_eq!(frame, expected);
}

#[test]
fn upgrade_rejects_without_upgrade_header() {
    match upgrade_decision(false, Some("key")) {
        UpgradeDecision::RejectNoUpgrade => {}
        _ => panic!("expected RejectNoUpgrade"),
    }
}

#[test]
fn upgrade_rejects_without_key() {
    match upgrade_decision(true, None) {
        UpgradeDecision::RejectNoKey => {}
        _ => panic!("expected RejectNoKey"),
    }
}

#[test]
fn upgrade_accepts_with_key() {
    match upgrade_decision(true, Some("dGhlIHNhbXBsZSBub25jZQ==")) {
        UpgradeDecision::Accept(a) => assert_eq!(a, "s3pPLMBiTxaQ9kYGzzhZRbK+xOo="),
        _ => panic!("expected Accept"),
    }
}

#[test]
fn connection_happy_path_sends_one_frame_then_closes() {
    let (st, act) = conn_step(
        ConnState::AwaitingUpgrade,
        ConnInput::Request(true, Some("dGhlIHNhbXBsZSBub25jZQ==")),
    );
    assert!(matches!(st, ConnState::Open));
    match act {
        ConnAction::RespondSwitching(a) => assert_eq!(a, "s3pPLMBiTxaQ9kYGzzhZRbK+xOo="),
        _ => panic!("expected RespondSwitching"),
    }
    let (st, act) = conn_step(st, ConnInput::Notice(Event::Reload));
    assert!(matches!(st, ConnState::Closed));
    match act {
        ConnAction::SendFrame(f) => {
            let mut expected = vec![0x81u8, 6];
            expected.extend_from_slice(b"reload");
            assert_eq!(f, expected);
        }
        _ => panic!("expected SendFrame"),
    }
    // The channel is spent: a second notice changes nothing.
    let (st, act) = conn_step(st, ConnInput::Notice(Event::Reload));
    assert!(matches!(st, ConnState::Closed));
    assert!(matches!(act, ConnAction::CloseQuiet));
}

#[test]
fn connection_bad_requests_close() {
    let (st, act) = conn_step(ConnState::AwaitingUpgrade, ConnInput::Request(false, None));
    assert!(matches!(st, ConnState::Closed));
    assert!(matches!(act, ConnAction::RespondBadRequest(_)));
    let (st, act) = conn_step(ConnState::AwaitingUpgrade, ConnInput::Request(true, None));
    assert!(matches!(st, ConnState::Closed));
    assert!(matches!(act, ConnAction::RespondBadRequest(_)));
}

#[test]
fn connection_channel_error_closes_quietly() {
    let (st, act) = conn_step(ConnState::Open, ConnInput::ChannelError);
    assert!(matches!(st, ConnState::Closed));
    assert!(matches!(act, ConnAction::CloseQuiet));
}

#[test]
fn broadcast_filter() {
    assert!(should_broadcast(ChangeKind::Create));
    assert!(should_broadcast(ChangeKind::Modify));
    assert!(should_broadcast(ChangeKind::Remove));
    assert!(!should_broadcast(ChangeKind::Access));
    assert!(!should_broadcast(ChangeKind::Any));
    assert!(!should_broadcast(ChangeKind::Other));
}

#[test]
fn hub_one_shot_delivery() {
    let mut hub = Hub::new(8);
    let id = hub.subscribe();
    assert_eq!(id, 0);
    hub.publish(Event::Reload);
    assert_eq!(hub.recv_one(id), Some(Event::Reload));
    // The subscription is consumed: nothing more arrives on it.
    assert_eq!(hub.recv_one(id), None);
    hub.publish(Event::Reload);
    assert_eq!(hub.recv_one(id), None);
}

#[test]
fn hub_no_replay_for_late_subscriber() {
    let mut hub = Hub::new(8);
    hub.publish(Event::Reload);
    let id = hub.subscribe();
    assert_eq!(hub.recv_one(id), None);
}

#[test]
fn hub_fanout_reaches_every_subscriber() {
    let mut hub = Hub::new(8);
    let a = hub.subscribe();
    let b = hub.subscribe();
    let c = hub.subscribe();
    hub.publish(Event::Shutdown);
    assert_eq!(hub.recv_one(a), Some(Event::Shutdown));
    assert_eq!(hub.recv_one(b), Some(Event::Shutdown));
    assert_eq!(hub.recv_one(c), Some(Event::Shutdown));
}

#[test]
fn hub_full_queue_drops_only_for_that_subscriber() {
    let mut hub = Hub::new(1);
    let slow = hub.subscribe();
    let fresh = hub.subscribe();
    hub.publish(Event::Reload);
    // `slow` has a full queue now; the second notice is dropped for it only.
    assert_eq!(hub.recv_one(fresh), Some(Event::Reload));
    let fresh2 = hub.subscribe();
    hub.publish(Event::Shutdown);
    assert_eq!(hub.recv_one(slow), Some(Event::Reload), "the first notice survived");
    assert_eq!(hub.recv_one(fresh2), Some(Event::Shutdown));
}

#[test]
fn hub_closed_subscription_ignores_publishes() {
    let mut hub = Hub::new(8);
    let id = hub.subscribe();
    hub.close(id);
    hub.publish(Event::Reload);
    assert_eq!(hub.recv_one(id), None);
}

#[test]
fn hub_counts_subscribers() {
    let mut hub = Hub::new(4);
    assert_eq!(hub.subscriber_count(), 0);
    hub.subscribe();
    hub.subscribe();
    assert_eq!(hub.subscriber_count(), 2);
}
