//! The cursor store: the one durable record, marking the last event that was
//! handed to the broadcast channel.

use vstd::prelude::*;
use crate::events::SyncedEvent;

verus! {

/// The last published position: its slot and the identifier of its event
/// (`None` before anything was published).
pub struct Cursor {
    pub last_slot: u64,
    pub last_sig: Option<String>,
}

/// The view of an optional string.
pub open spec fn opt_view(s: Option<String>) -> Option<Seq<char>> {
    match s {
        Some(x) => Some(x@),
        None => None,
    }
}

/// The cursor store failed; the engine must stop rather than go on with
/// progress it could not persist.
#[derive(Clone, Copy, Debug, PartialEq, Eq, Structural)]
pub enum StorageError {
    Unavailable,
}

/// A persistent store for the cursor.
pub trait Storage {
    /// The slot part of the stored cursor.
    spec fn stored_slot(&self) -> u64;

    /// The identifier part of the stored cursor.
    spec fn stored_sig(&self) -> Option<String>;

    /// Retrieves the last synchronized slot.
    fn get_last_slot(&self) -> (r: Result<u64, StorageError>)
        ensures
            r matches Ok(slot) ==> slot == self.stored_slot();

    /// Retrieves the identifier of the last synchronized event.
    fn get_last_sig(&self) -> (r: Result<Option<String>, StorageError>)
        ensures
            r matches Ok(sig) ==> opt_view(sig) == opt_view(self.stored_sig());

    /// Sets slot and identifier together: both or neither.
    fn set_sync_state(&mut self, slot: u64, sig: &str) -> (r: Result<(), StorageError>)
        ensures
            r is Ok ==> final(self).stored_slot() == slot && opt_view(final(self).stored_sig()) == Some(sig@),
            r is Err ==> final(self).stored_slot() == old(self).stored_slot()
                && final(self).stored_sig() == old(self).stored_sig();
}

/// Reads the stored cursor.
pub fn load_cursor<T: Storage>(store: &T) -> (r: Result<Cursor, StorageError>)
    ensures
        r matches Ok(c) ==> c.last_slot == store.stored_slot() && opt_view(c.last_sig) == opt_view(store.stored_sig()),
{
    let last_slot = match store.get_last_slot() {
        Ok(s) => s,
        Err(e) => return Err(e),
    };
    let last_sig = match store.get_last_sig() {
        Ok(s) => s,
        Err(e) => return Err(e),
    };
    Ok(Cursor { last_slot, last_sig })
}

/// The cursor that marks `event` as the last one published.
pub fn cursor_after(event: &SyncedEvent) -> (r: Cursor)
    ensures
        r.last_slot == event.slot,
        opt_view(r.last_sig) == Some(event.id@),
{
    Cursor { last_slot: event.slot, last_sig: Some(event.id.clone()) }
}

/// Records `event` as the last one published. Call only once the event has
/// been handed to the broadcast channel.
pub fn commit<T: Storage>(store: &mut T, event: &SyncedEvent) -> (r: Result<(), StorageError>)
    ensures
        r is Ok ==> final(store).stored_slot() == event.slot && opt_view(final(store).stored_sig()) == Some(event.id@),
        r is Err ==> final(store).stored_slot() == old(store).stored_slot()
            && final(store).stored_sig() == old(store).stored_sig(),
{
    store.set_sync_state(event.slot, event.id.as_str())
}

/// A cursor store held in memory: it survives a restart of the engine as
/// long as the value itself is kept.
pub struct MemoryStorage {
    slot: u64,
    sig: Option<String>,
}

impl MemoryStorage {
    /// An empty store: slot 0, no identifier.
    pub fn new() -> (r: Self)
        ensures
            r.stored_slot() == 0,
            r.stored_sig() is None,
    {
        MemoryStorage { slot: 0, sig: None }
    }
}

impl Storage for MemoryStorage {
    closed spec fn stored_slot(&self) -> u64 {
        self.slot
    }

    closed spec fn stored_sig(&self) -> Option<String> {
        self.sig
    }

    fn get_last_slot(&self) -> (r: Result<u64, StorageError>)
        ensures
            r == Ok::<u64, StorageError>(self.stored_slot()),
    {
        Ok(self.slot)
    }

    fn get_last_sig(&self) -> (r: Result<Option<String>, StorageError>)
        ensures
            r is Ok,
    {
        match &self.sig {
            Some(s) => Ok(Some(s.clone())),
            None => Ok(None),
        }
    }

    fn set_sync_state(&mut self, slot: u64, sig: &str) -> (r: Result<(), StorageError>)
        ensures
            r is Ok,
    {
        self.slot = slot;
        self.sig = Some(sig.to_owned());
        Ok(())
    }
}

/// All bytes are ASCII decimal digits.
pub open spec fn all_digits(s: Seq<u8>) -> bool {
    forall|i: int| 0 <= i < s.len() ==> 48 <= #[trigger] s[i] <= 57
}

/// The value of a string of decimal digits.
pub open spec fn decimal_value(s: Seq<u8>) -> nat
    decreases s.len(),
{
    if s.len() == 0 {
        0
    } else {
        10 * decimal_value(s.drop_last()) + (s.last() - 48) as nat
    }
}

/// The digits of a stored slot record: an optional leading `+`, then the
/// rest.
pub open spec fn record_digits(b: Seq<u8>) -> Seq<u8> {
    if b.len() > 0 && b[0] == 43 { b.drop_first() } else { b }
}

/// The slot a stored record holds: its decimal value when it is one or more
/// digits (after an optional `+`) and fits in `u64`; 0 for an absent or
/// unreadable record.
pub open spec fn slot_of_record(b: Seq<u8>) -> u64 {
    let d = record_digits(b);
    if d.len() > 0 && all_digits(d) && decimal_value(d) <= u64::MAX { decimal_value(d) as u64 } else { 0 }
}

/// Decodes the stored slot record (decimal text).
pub fn decode_slot(record: &[u8]) -> (r: u64)
    ensures
        r == slot_of_record(record@),
{
    let n = record.len();
    let start: usize = if n > 0 && record[0] == 43u8 { 1 } else { 0 };
    let ghost d = record_digits(record@);
    proof {
        assert(d =~= record@.subrange(start as int, n as int));
    }
    if start == n {
        return 0;
    }
    let mut value: u64 = 0;
    let mut i: usize = start;
    while i < n
        invariant
            start <= i <= n,
            n == record@.len(),
            d == record@.subrange(start as int, n as int),
            d == record_digits(record@),
            all_digits(record@.subrange(start as int, i as int)),
            value as nat == decimal_value(record@.subrange(start as int, i as int)),
        decreases n - i,
    {
        let c = record[i];
        let ghost p = record@.subrange(start as int, i as int);
        let ghost q = record@.subrange(start as int, i + 1);
        proof {
            assert(q.drop_last() =~= p);
            assert(q.last() == c);
        }
        if c < 48u8 || c > 57u8 {
            proof {
                assert(record@[i as int] == c);
                assert(d[(i - start) as int] == record@[i as int]);
                assert(!(48 <= d[(i - start) as int] <= 57));
            }
            return 0;
        }
        let digit = (c - 48u8) as u64;
        if value > (u64::MAX - digit) / 10 {
            proof {
                assert(10 * value + digit > u64::MAX) by (nonlinear_arith)
                    requires value > (u64::MAX - digit) / 10, digit <= 9;
                if all_digits(d) {
                    lemma_digits_grow(d, (i + 1 - start) as int);
                    assert(d.subrange(0, (i + 1 - start) as int) =~= q);
                }
            }
            return 0;
        }
        proof {
            assert(10 * value + digit <= u64::MAX) by (nonlinear_arith)
                requires value <= (u64::MAX - digit) / 10, digit <= 9;
            assert(all_digits(q)) by {
                assert forall|j: int| 0 <= j < q.len() implies 48 <= #[trigger] q[j] <= 57 by {
                    if j < p.len() {
                        assert(q[j] == p[j]);
                    }
                }
            }
        }
        value = value * 10 + digit;
        i = i + 1;
    }
    value
}

/// A prefix of an all-digit string has no larger value.
proof fn lemma_digits_grow(s: Seq<u8>, k: int)
    requires
        0 <= k <= s.len(),
        all_digits(s),
    ensures
        decimal_value(s.subrange(0, k)) <= decimal_value(s),
    decreases s.len() - k,
{
    if k < s.len() {
        lemma_digits_grow(s, k + 1);
        let a = s.subrange(0, k + 1);
        assert(a.drop_last() =~= s.subrange(0, k));
        assert(a.last() == s[k]);
    } else {
        assert(s.subrange(0, k) =~= s);
    }
}

} // verus!
