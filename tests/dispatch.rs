use w3b2_connector::dispatcher::{
    extract_pubkeys_from_event, Dispatcher, Registration, RegistrationRequest,
};
use w3b2_connector::events::{
    AdminCommandDispatched, AdminProfileClosed, BridgeEvent, CommandDispatched, HttpActionLogged,
    SyncedEvent, UserProfileCreated,
};
use w3b2_connector::pubkey::Pubkey;

fn key(n: u8) -> Pubkey {
    Pubkey::new_from_array([n; 32])
}

fn created(authority: Pubkey, target_admin: Pubkey) -> BridgeEvent {
    BridgeEvent::UserProfileCreated(UserProfileCreated {
        authority,
        target_admin,
        communication_pubkey: key(99),
        ts: 7,
    })
}

fn closed(authority: Pubkey) -> BridgeEvent {
    BridgeEvent::AdminProfileClosed(AdminProfileClosed { authority, ts: 1 })
}

fn reg(owner: Pubkey, k: Pubkey, channel: usize) -> Registration<usize> {
    Registration { owner, key: k, channel }
}

#[test]
fn relevance_of_each_kind() {
    let (a, b) = (key(1), key(2));
    assert_eq!(extract_pubkeys_from_event(&created(a, b)), vec![a, b]);
    assert_eq!(extract_pubkeys_from_event(&closed(a)), vec![a]);
    let cmd = BridgeEvent::UserCommandDispatched(CommandDispatched {
        sender: a,
        target_admin_authority: b,
        command_id: 3,
        price_paid: 10,
        payload: vec![1, 2],
        ts: 0,
    });
    assert_eq!(extract_pubkeys_from_event(&cmd), vec![a, b]);
    let admin_cmd = BridgeEvent::AdminCommandDispatched(AdminCommandDispatched {
        sender: b,
        target_user_authority: a,
        command_id: 3,
        payload: vec![],
        ts: 0,
    });
    assert_eq!(extract_pubkeys_from_event(&admin_cmd), vec![b, a]);
    let log = BridgeEvent::OffChainActionLogged(HttpActionLogged { actor: b, session_id: 4, action_code: 200, ts: 0 });
    assert_eq!(extract_pubkeys_from_event(&log), vec![b]);
    assert!(extract_pubkeys_from_event(&BridgeEvent::Unknown).is_empty());
}

#[test]
fn event_reaches_registered_key_only() {
    // Registrations for A and B; the event is relevant to A and C.
    let (a, b, c) = (key(1), key(2), key(3));
    let d = Dispatcher::new(vec![reg(a, a, 10), reg(b, b, 20)]);
    let t = d.targets(&created(a, c));
    assert_eq!(t, vec![0]);
    assert_eq!(d.registration(t[0]).channel, 10);
    assert_eq!(d.len(), 2);
}

#[test]
fn unknown_event_reaches_nobody() {
    let a = key(1);
    let d = Dispatcher::new(vec![reg(a, a, 10)]);
    assert!(d.targets(&BridgeEvent::Unknown).is_empty());
}

#[test]
fn full_channel_is_dropped_others_still_served() {
    let (a, b) = (key(1), key(2));
    let mut d = Dispatcher::new(vec![reg(a, a, 10), reg(b, b, 20)]);
    let event = BridgeEvent::UserProfileCreated(UserProfileCreated {
        authority: a,
        target_admin: b,
        communication_pubkey: key(9),
        ts: 0,
    });
    let t = d.targets(&event);
    assert_eq!(t, vec![0, 1]);
    // The send to A's channel failed: one attempt is enough to remove it.
    d.drop_failed(&vec![0]);
    assert_eq!(d.len(), 1);
    assert_eq!(d.registration(0).key, b);
    assert_eq!(d.registration(0).channel, 20);
    assert_eq!(d.targets(&event), vec![0]);
    assert!(d.targets(&closed(a)).is_empty());
}

#[test]
fn unsubscribe_never_subscribed_is_noop() {
    let (a, b) = (key(1), key(2));
    let mut d = Dispatcher::new(vec![reg(a, a, 10)]);
    d.unsubscribe(&b);
    assert_eq!(d.len(), 1);
    assert_eq!(d.registration(0).channel, 10);
    d.unsubscribe(&b);
    assert_eq!(d.len(), 1);
}

#[test]
fn unsubscribe_removes_all_of_owner() {
    let (u, s1, s2, other) = (key(1), key(5), key(6), key(7));
    let mut d: Dispatcher<usize> = Dispatcher::new(Vec::new());
    d.handle(RegistrationRequest::Subscribe(reg(u, u, 1)));
    d.handle(RegistrationRequest::Subscribe(reg(other, other, 2)));
    d.handle(RegistrationRequest::Subscribe(reg(u, s1, 1)));
    d.handle(RegistrationRequest::Subscribe(reg(u, s2, 1)));
    assert_eq!(d.len(), 4);
    assert_eq!(d.targets(&closed(s1)), vec![2]);
    d.handle(RegistrationRequest::Unsubscribe(u));
    assert_eq!(d.len(), 1);
    assert_eq!(d.registration(0).owner, other);
    assert!(d.targets(&closed(s1)).is_empty());
}

#[test]
fn per_key_order_follows_stream_order() {
    let (a, b) = (key(1), key(2));
    let mut d = Dispatcher::new(vec![reg(a, a, 0), reg(b, b, 1)]);
    let stream = vec![
        SyncedEvent { id: "s1".to_string(), slot: 10, index: 0, event: closed(a) },
        SyncedEvent { id: "s2".to_string(), slot: 10, index: 1, event: created(b, a) },
        SyncedEvent { id: "s3".to_string(), slot: 11, index: 0, event: closed(b) },
        SyncedEvent { id: "s4".to_string(), slot: 12, index: 0, event: closed(a) },
    ];
    let mut received: Vec<Vec<(u64, u32)>> = vec![Vec::new(), Vec::new()];
    for e in &stream {
        for i in d.targets(&e.event) {
            received[d.registration(i).channel].push((e.slot, e.index));
        }
    }
    assert_eq!(received[0], vec![(10, 0), (10, 1), (12, 0)]);
    assert_eq!(received[1], vec![(10, 1), (11, 0)]);
    d.drop_failed(&vec![]);
    assert_eq!(d.len(), 2);
}

#[test]
fn gateway_config_defaults() {
    let g = w3b2_connector::config::GatewaySpecificConfig::default();
    assert_eq!(g.db_path, "./w3b2_gateway.db");
    assert_eq!(g.grpc.host, "127.0.0.1");
    assert_eq!(g.grpc.port, 50051);
}
