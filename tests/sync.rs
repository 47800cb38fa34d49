use w3b2_connector::config;
use w3b2_connector::events::{AdminProfileClosed, BridgeEvent, SyncedEvent};
use w3b2_connector::pubkey::Pubkey;
use w3b2_connector::storage::{commit, cursor_after, decode_slot, load_cursor, Cursor, MemoryStorage, Storage, StorageError};
use w3b2_connector::synchronizer::{
    backoff_delay_ms, on_source_error, order_page, PageRequest, RetryDecision, SourceError, Synchronizer,
};

fn ev(id: &str, slot: u64) -> SyncedEvent {
    SyncedEvent {
        id: id.to_string(),
        slot,
        index: 0,
        event: BridgeEvent::AdminProfileClosed(AdminProfileClosed {
            authority: Pubkey::new_from_array([1; 32]),
            ts: slot as i64,
        }),
    }
}

fn ids(v: &[SyncedEvent]) -> Vec<String> {
    v.iter().map(|e| e.id.clone()).collect()
}

fn settings(depth: Option<u64>, page: usize) -> config::Synchronizer {
    config::Synchronizer { max_catchup_depth: depth, poll_interval_secs: 3, max_signature_fetch: page }
}

fn fresh_cursor(slot: u64) -> Cursor {
    Cursor { last_slot: slot, last_sig: None }
}

#[test]
fn default_settings() {
    let s = config::Synchronizer::default();
    assert_eq!(s.max_catchup_depth, None);
    assert_eq!(s.poll_interval_secs, 3);
    assert_eq!(s.max_signature_fetch, 1000);
}

#[test]
fn seam_drops_duplicate_from_live_buffer() {
    let mut s = Synchronizer::new(&fresh_cursor(10), 11, &settings(None, 100));
    assert_eq!(s.catchup_request(), Some(PageRequest { from_slot: 10, to_slot: 11 }));
    // Live buffers e2 and e3 before the seam.
    assert!(s.on_live_event(ev("e2", 11)).is_none());
    assert!(s.on_live_event(ev("e3", 12)).is_none());
    let out = s.on_catchup_page(vec![ev("e1", 10), ev("e2", 11)]);
    assert_eq!(ids(&out), vec!["e1", "e2", "e3"]);
    assert!(s.is_live());
    assert_eq!(s.catchup_request(), None);
}

#[test]
fn each_identifier_published_once_across_seam() {
    let mut s = Synchronizer::new(&fresh_cursor(0), 5, &settings(None, 3));
    let mut published: Vec<SyncedEvent> = Vec::new();
    assert!(s.on_live_event(ev("c", 4)).is_none());
    assert!(s.on_live_event(ev("d", 6)).is_none());
    assert!(s.on_live_event(ev("d", 6)).is_none());
    assert_eq!(s.catchup_request(), Some(PageRequest { from_slot: 0, to_slot: 2 }));
    published.extend(s.on_catchup_page(vec![ev("a", 1), ev("b", 2), ev("a", 1)]));
    assert!(!s.is_live());
    assert_eq!(s.catchup_request(), Some(PageRequest { from_slot: 3, to_slot: 5 }));
    published.extend(s.on_catchup_page(vec![ev("c", 4)]));
    assert!(s.is_live());
    if let Some(e) = s.on_live_event(ev("d", 6)) {
        published.push(e);
    }
    if let Some(e) = s.on_live_event(ev("e", 7)) {
        published.push(e);
    }
    assert_eq!(ids(&published), vec!["a", "b", "c", "d", "e"]);
}

#[test]
fn lookback_limit_raises_start() {
    let s = Synchronizer::new(&fresh_cursor(5), 100, &settings(Some(10), 1000));
    assert_eq!(s.catchup_request(), Some(PageRequest { from_slot: 90, to_slot: 100 }));
    let s = Synchronizer::new(&fresh_cursor(95), 100, &settings(Some(10), 1000));
    assert_eq!(s.catchup_request(), Some(PageRequest { from_slot: 95, to_slot: 100 }));
}

#[test]
fn zero_page_size_reads_one_slot() {
    let mut s = Synchronizer::new(&fresh_cursor(7), 8, &settings(None, 0));
    assert_eq!(s.catchup_request(), Some(PageRequest { from_slot: 7, to_slot: 7 }));
    assert!(s.on_catchup_page(Vec::new()).is_empty());
    assert_eq!(s.catchup_request(), Some(PageRequest { from_slot: 8, to_slot: 8 }));
}

#[test]
fn cursor_past_tip_starts_live() {
    let mut s = Synchronizer::new(&fresh_cursor(20), 10, &settings(None, 5));
    assert!(s.is_live());
    assert_eq!(s.catchup_request(), None);
    assert_eq!(s.on_live_event(ev("x", 21)).map(|e| e.id), Some("x".to_string()));
}

#[test]
fn restart_from_cursor_loses_nothing() {
    let history = vec![ev("h1", 10), ev("h2", 11), ev("h3", 11), ev("h4", 12)];
    let mut store = MemoryStorage::new();
    let mut s = Synchronizer::new(&load_cursor(&store).unwrap(), 12, &settings(None, 100));
    let out = s.on_catchup_page(history[..2].to_vec());
    // Two events processed and committed, then a crash.
    for e in &out {
        assert!(commit(&mut store, e).is_ok());
    }
    drop(s);
    let cursor = load_cursor(&store).unwrap();
    assert_eq!(cursor.last_slot, 11);
    assert_eq!(cursor.last_sig, Some("h2".to_string()));
    let mut s = Synchronizer::new(&cursor, 12, &settings(None, 100));
    let req = s.catchup_request().unwrap();
    assert!(req.from_slot <= history[2].slot);
    let page: Vec<SyncedEvent> = history.iter().filter(|e| e.slot >= req.from_slot).cloned().collect();
    let out = s.on_catchup_page(page);
    assert_eq!(ids(&out), vec!["h3", "h4"]);
}

#[test]
fn memory_store_round_trip() {
    let mut store = MemoryStorage::new();
    assert_eq!(store.get_last_slot(), Ok(0));
    assert_eq!(store.get_last_sig(), Ok(None));
    assert_eq!(store.set_sync_state(42, "sig42"), Ok(()));
    assert_eq!(store.get_last_slot(), Ok(42));
    assert_eq!(store.get_last_sig(), Ok(Some("sig42".to_string())));
    let c = cursor_after(&ev("z", 50));
    assert_eq!(c.last_slot, 50);
    assert_eq!(c.last_sig, Some("z".to_string()));
    let _unused: Option<StorageError> = None;
}

#[test]
fn backoff_doubles_up_to_cap() {
    assert_eq!(backoff_delay_ms(0, 100, 10_000), 100);
    assert_eq!(backoff_delay_ms(1, 100, 10_000), 200);
    assert_eq!(backoff_delay_ms(3, 100, 10_000), 800);
    assert_eq!(backoff_delay_ms(7, 100, 10_000), 10_000);
    assert_eq!(backoff_delay_ms(4_000_000_000, 100, 10_000), 10_000);
    assert_eq!(backoff_delay_ms(5, 0, 10_000), 0);
    assert_eq!(backoff_delay_ms(0, 500, 300), 300);
    assert_eq!(backoff_delay_ms(63, 1, u64::MAX), 1u64 << 63);
    assert_eq!(backoff_delay_ms(64, 1, u64::MAX), u64::MAX);
}

#[test]
fn terminal_errors_are_not_retried() {
    assert_eq!(on_source_error(SourceError::Terminal, 0, 100, 1000), RetryDecision::GiveUp);
    assert_eq!(on_source_error(SourceError::Transient, 2, 100, 1000), RetryDecision::RetryAfter(400));
}

#[test]
fn page_is_put_in_ledger_order() {
    let mut newest_first = vec![ev("c", 12), ev("b", 11), ev("a", 11), ev("z", 10)];
    newest_first[1].index = 3;
    newest_first[2].index = 1;
    let ordered = order_page(newest_first);
    assert_eq!(ids(&ordered), vec!["z", "a", "b", "c"]);
    assert!(order_page(Vec::new()).is_empty());
}

fn unknown(id: &str, slot: u64) -> SyncedEvent {
    SyncedEvent { id: id.to_string(), slot, index: 0, event: BridgeEvent::Unknown }
}

#[test]
fn unknown_variants_are_never_published() {
    let mut s = Synchronizer::new(&fresh_cursor(0), 3, &settings(None, 2));
    assert!(s.on_live_event(unknown("u-live", 4)).is_none());
    assert!(s.on_live_event(ev("l", 4)).is_none());
    let out = s.on_catchup_page(vec![ev("a", 0), unknown("u", 1), ev("b", 1)]);
    assert_eq!(ids(&out), vec!["a", "b"]);
    let out = s.on_catchup_page(vec![unknown("v", 2), ev("c", 3)]);
    assert_eq!(ids(&out), vec!["c", "l"]);
    assert!(s.is_live());
    assert!(s.on_live_event(unknown("w", 5)).is_none());
    assert_eq!(s.on_live_event(ev("d", 6)).map(|e| e.id), Some("d".to_string()));
}

#[test]
fn published_stream_keeps_ledger_order() {
    let mut s = Synchronizer::new(&fresh_cursor(10), 12, &settings(None, 2));
    let mut published: Vec<SyncedEvent> = Vec::new();
    assert!(s.on_live_event(ev("y", 12)).is_none());
    assert!(s.on_live_event(ev("z", 13)).is_none());
    published.extend(s.on_catchup_page(order_page(vec![ev("x", 11), ev("w", 10)])));
    published.extend(s.on_catchup_page(vec![ev("y", 12)]));
    published.extend(s.on_live_event(ev("q", 14)));
    assert_eq!(ids(&published), vec!["w", "x", "y", "z", "q"]);
    let slots: Vec<u64> = published.iter().map(|e| e.slot).collect();
    assert_eq!(slots, vec![10, 11, 12, 13, 14]);
}

#[test]
fn stored_slot_record_decoding() {
    assert_eq!(decode_slot(b"42"), 42);
    assert_eq!(decode_slot(b"+7"), 7);
    assert_eq!(decode_slot(b"0"), 0);
    assert_eq!(decode_slot(b""), 0);
    assert_eq!(decode_slot(b"+"), 0);
    assert_eq!(decode_slot(b"12a"), 0);
    assert_eq!(decode_slot(b"-3"), 0);
    assert_eq!(decode_slot(b"18446744073709551615"), u64::MAX);
    assert_eq!(decode_slot(b"18446744073709551616"), 0);
    assert_eq!(decode_slot(&[0xff, 0x31]), 0);
}

#[test]
fn memory_store_never_fails() {
    let mut store = MemoryStorage::new();
    assert!(store.set_sync_state(3, "s").is_ok());
    assert!(store.get_last_sig().is_ok());
    assert_eq!(store.get_last_slot(), Ok(3));
}

#[test]
fn restart_does_not_republish_before_cursor() {
    let mut a = ev("a", 5);
    a.index = 0;
    let mut b = ev("b", 5);
    b.index = 1;
    let mut c = ev("c", 5);
    c.index = 2;
    let cursor = Cursor { last_slot: 5, last_sig: Some("b".to_string()) };
    let mut s = Synchronizer::new(&cursor, 5, &settings(None, 10));
    assert!(s.on_catchup_page(vec![a.clone(), b.clone()]).is_empty());
    let mut s = Synchronizer::new(&cursor, 6, &settings(None, 1));
    assert_eq!(ids(&s.on_catchup_page(vec![a.clone(), b.clone(), c.clone()])), vec!["c"]);
    // Later pages are not trimmed.
    assert_eq!(ids(&s.on_catchup_page(vec![ev("d", 6)])), vec!["d"]);
}

#[test]
fn cursor_event_missing_from_page_keeps_page() {
    let cursor = Cursor { last_slot: 5, last_sig: Some("gone".to_string()) };
    let mut s = Synchronizer::new(&cursor, 5, &settings(None, 10));
    assert_eq!(ids(&s.on_catchup_page(vec![ev("a", 5), ev("gone", 4)])), vec!["a"]);
}
