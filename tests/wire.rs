use w3b2_connector::events::{AdminPricesUpdated, BridgeEvent, CommandDispatched, HttpActionLogged};
use w3b2_connector::pubkey::Pubkey;
use w3b2_connector::wire::{convert_event_to_proto, ProtoEventKind};

const ZERO_KEY_TEXT: &str = "11111111111111111111111111111111";

#[test]
fn key_text_is_base58() {
    assert_eq!(Pubkey::new_from_array([0; 32]).to_string(), ZERO_KEY_TEXT);
    let t = Pubkey::new_from_array([255; 32]).to_string();
    assert_eq!(t, "JEKNVnkbo3jma5nREBBJCDoXFVeKkD56V3xKrvRmWxFG");
}

#[test]
fn command_converts_field_by_field() {
    let e = BridgeEvent::UserCommandDispatched(CommandDispatched {
        sender: Pubkey::new_from_array([0; 32]),
        target_admin_authority: Pubkey::new_from_array([255; 32]),
        command_id: (1u64 << 32) + 7,
        price_paid: 250,
        payload: vec![1, 2, 3],
        ts: 99,
    });
    match convert_event_to_proto(e).event {
        Some(ProtoEventKind::UserCommandDispatched(m)) => {
            assert_eq!(m.sender, ZERO_KEY_TEXT);
            assert_eq!(m.target_admin_authority, "JEKNVnkbo3jma5nREBBJCDoXFVeKkD56V3xKrvRmWxFG");
            assert_eq!(m.command_id, 7);
            assert_eq!(m.price_paid, 250);
            assert_eq!(m.payload, vec![1, 2, 3]);
            assert_eq!(m.ts, 99);
        }
        _ => panic!("wrong message kind"),
    }
}

#[test]
fn prices_and_logs_convert() {
    let e = BridgeEvent::AdminPricesUpdated(AdminPricesUpdated {
        authority: Pubkey::new_from_array([0; 32]),
        new_prices: vec![(1, 1000), (2, 2500)],
        ts: 5,
    });
    match convert_event_to_proto(e).event {
        Some(ProtoEventKind::AdminPricesUpdated(m)) => {
            assert_eq!(m.new_prices.len(), 2);
            assert_eq!((m.new_prices[1].command_id, m.new_prices[1].price), (2, 2500));
        }
        _ => panic!("wrong message kind"),
    }
    let log = BridgeEvent::OffChainActionLogged(HttpActionLogged {
        actor: Pubkey::new_from_array([0; 32]),
        session_id: 77,
        action_code: 404,
        ts: 1,
    });
    match convert_event_to_proto(log).event {
        Some(ProtoEventKind::OffChainActionLogged(m)) => {
            assert_eq!(m.actor, ZERO_KEY_TEXT);
            assert_eq!((m.session_id, m.action_code), (77, 404));
        }
        _ => panic!("wrong message kind"),
    }
}

#[test]
fn unknown_has_no_message() {
    assert!(convert_event_to_proto(BridgeEvent::Unknown).event.is_none());
}
