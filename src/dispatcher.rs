//! Key-based fan-out of published events to registered listeners.
//!
//! The dispatcher owns the registration table and changes it only through its
//! own methods (single writer). For each event it names the registrations to
//! deliver to; the caller attempts a non-blocking send on each and reports
//! the failures back, which drops exactly those registrations.

use vstd::prelude::*;
use crate::events::{BridgeEvent, SyncedEvent, position_le, in_ledger_order};
use crate::pubkey::Pubkey;

verus! {

/// The identity keys an event is delivered to.
pub open spec fn relevant_keys(e: BridgeEvent) -> Seq<Pubkey> {
    match e {
        BridgeEvent::AdminProfileRegistered(x) => seq![x.authority],
        BridgeEvent::AdminCommKeyUpdated(x) => seq![x.authority],
        BridgeEvent::AdminPricesUpdated(x) => seq![x.authority],
        BridgeEvent::AdminFundsWithdrawn(x) => seq![x.authority],
        BridgeEvent::AdminProfileClosed(x) => seq![x.authority],
        BridgeEvent::UserProfileCreated(x) => seq![x.authority, x.target_admin],
        BridgeEvent::UserCommKeyUpdated(x) => seq![x.authority],
        BridgeEvent::UserFundsDeposited(x) => seq![x.authority],
        BridgeEvent::UserFundsWithdrawn(x) => seq![x.authority],
        BridgeEvent::UserProfileClosed(x) => seq![x.authority],
        BridgeEvent::UserCommandDispatched(x) => seq![x.sender, x.target_admin_authority],
        BridgeEvent::AdminCommandDispatched(x) => seq![x.sender, x.target_user_authority],
        BridgeEvent::OffChainActionLogged(x) => seq![x.actor],
        BridgeEvent::Unknown => seq![],
    }
}

/// Extracts the identity keys an event is relevant to, in the order the
/// event names them.
pub fn extract_pubkeys_from_event(event: &BridgeEvent) -> (r: Vec<Pubkey>)
    ensures
        r@ == relevant_keys(*event),
{
    match event {
        BridgeEvent::AdminProfileRegistered(x) => vec![x.authority],
        BridgeEvent::AdminCommKeyUpdated(x) => vec![x.authority],
        BridgeEvent::AdminPricesUpdated(x) => vec![x.authority],
        BridgeEvent::AdminFundsWithdrawn(x) => vec![x.authority],
        BridgeEvent::AdminProfileClosed(x) => vec![x.authority],
        BridgeEvent::UserProfileCreated(x) => vec![x.authority, x.target_admin],
        BridgeEvent::UserCommKeyUpdated(x) => vec![x.authority],
        BridgeEvent::UserFundsDeposited(x) => vec![x.authority],
        BridgeEvent::UserFundsWithdrawn(x) => vec![x.authority],
        BridgeEvent::UserProfileClosed(x) => vec![x.authority],
        BridgeEvent::UserCommandDispatched(x) => vec![x.sender, x.target_admin_authority],
        BridgeEvent::AdminCommandDispatched(x) => vec![x.sender, x.target_user_authority],
        BridgeEvent::OffChainActionLogged(x) => vec![x.actor],
        BridgeEvent::Unknown => Vec::new(),
    }
}

/// Whether `key` is among the keys the event is relevant to.
pub fn is_relevant(event: &BridgeEvent, key: &Pubkey) -> (r: bool)
    ensures
        r == relevant_keys(*event).contains(*key),
{
    let keys = extract_pubkeys_from_event(event);
    let mut i: usize = 0;
    while i < keys.len()
        invariant
            i <= keys.len(),
            keys@ == relevant_keys(*event),
            forall|j: int| 0 <= j < i ==> keys@[j] != *key,
        decreases keys.len() - i,
    {
        if keys[i].same(key) {
            return true;
        }
        i = i + 1;
    }
    false
}

/// A binding of an identity key to a delivery channel, held on behalf of the
/// listener `owner`.
pub struct Registration<S> {
    pub owner: Pubkey,
    pub key: Pubkey,
    pub channel: S,
}

/// A message of the registration inbox.
pub enum RegistrationRequest<S> {
    Subscribe(Registration<S>),
    Unsubscribe(Pubkey),
}

/// The registration table. It is a sequence rather than a map: a key may
/// have several registrations (one per listener that asked for it), and
/// removal goes by owner or by failed delivery.
pub struct Dispatcher<S> {
    listeners: Vec<Registration<S>>,
}

/// The registrations left once those of `owner` are removed.
pub open spec fn without_owner<S>(regs: Seq<Registration<S>>, owner: Pubkey) -> Seq<Registration<S>> {
    regs.filter(|r: Registration<S>| r.owner != owner)
}

/// Index `i` of `regs` is to receive an event relevant to `keys`.
pub open spec fn is_target<S>(regs: Seq<Registration<S>>, keys: Seq<Pubkey>, i: int) -> bool {
    0 <= i < regs.len() && keys.contains(regs[i].key)
}

/// `t` lists, in increasing order, exactly the indices of `regs` whose key is
/// among `keys`.
pub open spec fn targets_of<S>(regs: Seq<Registration<S>>, keys: Seq<Pubkey>, t: Seq<usize>) -> bool {
    &&& forall|a: int, b: int| 0 <= a < b < t.len() ==> t[a] < t[b]
    &&& forall|a: int| 0 <= a < t.len() ==> is_target(regs, keys, #[trigger] t[a] as int)
    &&& forall|i: int| is_target(regs, keys, i) ==> t.contains(i as usize)
}

/// The registrations kept, in order, when the sends at the indices in
/// `failed` did not go through.
pub open spec fn keep_unfailed<S>(regs: Seq<Registration<S>>, failed: Seq<usize>) -> Seq<Registration<S>>
    decreases regs.len(),
{
    if regs.len() == 0 {
        Seq::empty()
    } else {
        let rest = keep_unfailed(regs.drop_last(), failed);
        if failed.contains((regs.len() - 1) as usize) {
            rest
        } else {
            rest.push(regs.last())
        }
    }
}

impl<S> Dispatcher<S> {
    /// The registrations, in the order they were made.
    pub closed spec fn registrations(&self) -> Seq<Registration<S>> {
        self.listeners@
    }

    /// A dispatcher holding `initial_listeners`.
    pub fn new(initial_listeners: Vec<Registration<S>>) -> (r: Self)
        ensures
            r.registrations() == initial_listeners@,
    {
        Dispatcher { listeners: initial_listeners }
    }

    pub fn len(&self) -> (r: usize)
        ensures
            r == self.registrations().len(),
    {
        self.listeners.len()
    }

    /// The registration at index `i`.
    pub fn registration(&self, i: usize) -> (r: &Registration<S>)
        requires
            i < self.registrations().len(),
        ensures
            *r == self.registrations()[i as int],
    {
        &self.listeners[i]
    }

    /// Adds a registration after the existing ones.
    pub fn subscribe(&mut self, registration: Registration<S>)
        ensures
            final(self).registrations() == old(self).registrations().push(registration),
    {
        self.listeners.push(registration);
    }

    /// Removes every registration held for `owner`; does nothing when there
    /// is none.
    pub fn unsubscribe(&mut self, owner: &Pubkey)
        ensures
            final(self).registrations() == without_owner(old(self).registrations(), *owner),
    {
        let ghost regs = self.listeners@;
        let total = self.listeners.len();
        let mut kept: Vec<Registration<S>> = Vec::new();
        let mut taken: usize = 0;
        while self.listeners.len() > 0
            invariant
                self.listeners@ == regs.subrange(taken as int, regs.len() as int),
                taken <= regs.len(),
                regs.len() == total,
                total == taken + self.listeners@.len(),
                kept@ == without_owner(regs.subrange(0, taken as int), *owner),
            decreases self.listeners.len(),
        {
            let r = self.listeners.remove(0);
            proof {
                let p = regs.subrange(0, taken as int);
                let q = regs.subrange(0, taken + 1);
                assert(q.drop_last() =~= p);
                assert(q.last() == r);
                reveal(Seq::filter);
            }
            if !r.owner.same(owner) {
                kept.push(r);
            }
            taken = taken + 1;
        }
        assert(regs.subrange(0, regs.len() as int) =~= regs);
        self.listeners = kept;
    }

    /// Applies one message of the registration inbox.
    pub fn handle(&mut self, request: RegistrationRequest<S>)
        ensures
            match request {
                RegistrationRequest::Subscribe(reg) =>
                    final(self).registrations() == old(self).registrations().push(reg),
                RegistrationRequest::Unsubscribe(owner) =>
                    final(self).registrations() == without_owner(old(self).registrations(), owner),
            },
    {
        match request {
            RegistrationRequest::Subscribe(reg) => self.subscribe(reg),
            RegistrationRequest::Unsubscribe(owner) => self.unsubscribe(&owner),
        }
    }

    /// The indices of the registrations that `event` is to be sent to: each
    /// registration whose key is relevant to the event, once, in order.
    pub fn targets(&self, event: &BridgeEvent) -> (r: Vec<usize>)
        ensures
            targets_of(self.registrations(), relevant_keys(*event), r@),
    {
        let mut r: Vec<usize> = Vec::new();
        let mut i: usize = 0;
        while i < self.listeners.len()
            invariant
                i <= self.listeners.len(),
                forall|a: int, b: int| 0 <= a < b < r@.len() ==> r@[a] < r@[b],
                forall|a: int| 0 <= a < r@.len() ==> r@[a] < i,
                forall|a: int| 0 <= a < r@.len()
                    ==> is_target(self.listeners@, relevant_keys(*event), #[trigger] r@[a] as int),
                forall|j: int| 0 <= j < i && is_target(self.listeners@, relevant_keys(*event), j)
                    ==> r@.contains(j as usize),
            decreases self.listeners.len() - i,
        {
            if is_relevant(event, &self.listeners[i].key) {
                let ghost old_r = r@;
                r.push(i);
                proof {
                    assert forall|j: int| 0 <= j < i + 1 && is_target(self.listeners@, relevant_keys(*event), j)
                        implies r@.contains(j as usize) by {
                        if j < i {
                            let k = choose|k: int| 0 <= k < old_r.len() && old_r[k] == j as usize;
                            assert(r@[k] == j as usize);
                        } else {
                            assert(r@[old_r.len() as int] == j as usize);
                        }
                    }
                }
            }
            i = i + 1;
        }
        r
    }

    /// Drops the registrations at the indices in `failed`: those whose
    /// delivery attempt found the channel full or closed. The others stay,
    /// in order.
    pub fn drop_failed(&mut self, failed: &Vec<usize>)
        ensures
            final(self).registrations() == keep_unfailed(old(self).registrations(), failed@),
    {
        let ghost regs = self.listeners@;
        let total = self.listeners.len();
        let mut kept: Vec<Registration<S>> = Vec::new();
        let mut taken: usize = 0;
        while self.listeners.len() > 0
            invariant
                self.listeners@ == regs.subrange(taken as int, regs.len() as int),
                taken <= regs.len(),
                regs.len() == total,
                total == taken + self.listeners@.len(),
                kept@ == keep_unfailed(regs.subrange(0, taken as int), failed@),
            decreases self.listeners.len(),
        {
            let r = self.listeners.remove(0);
            proof {
                let p = regs.subrange(0, taken as int);
                let q = regs.subrange(0, taken + 1);
                assert(q.drop_last() =~= p);
                assert(q.last() == r);
            }
            if !contains_index(failed, taken) {
                kept.push(r);
            }
            taken = taken + 1;
        }
        assert(regs.subrange(0, regs.len() as int) =~= regs);
        self.listeners = kept;
    }
}

fn contains_index(v: &Vec<usize>, x: usize) -> (r: bool)
    ensures
        r == v@.contains(x),
{
    let mut i: usize = 0;
    while i < v.len()
        invariant
            i <= v.len(),
            forall|j: int| 0 <= j < i ==> v@[j] != x,
        decreases v.len() - i,
    {
        if v[i] == x {
            return true;
        }
        i = i + 1;
    }
    false
}

/// The events of a published stream that reach a registration for `key`:
/// those relevant to `key`, in stream order.
pub open spec fn delivered_to(stream: Seq<SyncedEvent>, key: Pubkey) -> Seq<SyncedEvent> {
    stream.filter(|e: SyncedEvent| relevant_keys(e.event).contains(key))
}

/// Unsubscribing an owner that holds no registration leaves the table as it
/// was.
pub proof fn lemma_unsubscribe_unknown_is_noop<S>(regs: Seq<Registration<S>>, owner: Pubkey)
    requires
        forall|i: int| 0 <= i < regs.len() ==> (#[trigger] regs[i]).owner != owner,
    ensures
        without_owner(regs, owner) == regs,
    decreases regs.len(),
{
    reveal(Seq::filter);
    if regs.len() > 0 {
        let init = regs.drop_last();
        assert forall|i: int| 0 <= i < init.len() implies (#[trigger] init[i]).owner != owner by {
            assert(init[i] == regs[i]);
        }
        lemma_unsubscribe_unknown_is_noop(init, owner);
        assert(regs.last() == regs[regs.len() - 1]);
        assert(init.push(regs.last()) =~= regs);
    }
}

/// After one delivery round, every registration whose send failed is gone
/// and every other one is still there: a full or closed channel costs its
/// own registration and no other.
pub proof fn lemma_failed_dropped_others_kept<S>(regs: Seq<Registration<S>>, failed: Seq<usize>)
    ensures
        forall|i: int| 0 <= i < regs.len() && !failed.contains(i as usize)
            ==> keep_unfailed(regs, failed).contains(#[trigger] regs[i]),
        forall|k: int| 0 <= k < keep_unfailed(regs, failed).len()
            ==> exists|i: int| 0 <= i < regs.len() && !failed.contains(i as usize)
                && regs[i] == #[trigger] keep_unfailed(regs, failed)[k],
    decreases regs.len(),
{
    if regs.len() > 0 {
        let init = regs.drop_last();
        let n = regs.len() - 1;
        lemma_failed_dropped_others_kept(init, failed);
        let rest = keep_unfailed(init, failed);
        let all = keep_unfailed(regs, failed);
        assert forall|i: int| 0 <= i < regs.len() && !failed.contains(i as usize)
            implies all.contains(#[trigger] regs[i]) by {
            if i < n {
                assert(regs[i] == init[i]);
                let k = choose|k: int| 0 <= k < rest.len() && rest[k] == init[i];
                if failed.contains(n as usize) {
                    assert(all[k] == regs[i]);
                } else {
                    assert(all[k] == regs[i]);
                }
            } else {
                assert(all[rest.len() as int] == regs[i]);
            }
        }
        assert forall|k: int| 0 <= k < all.len()
            implies exists|i: int| 0 <= i < regs.len() && !failed.contains(i as usize)
                && regs[i] == #[trigger] all[k] by {
            if k < rest.len() {
                assert(all[k] == rest[k]);
                let i = choose|i: int| 0 <= i < init.len() && !failed.contains(i as usize)
                    && init[i] == rest[k];
                assert(regs[i] == init[i]);
            } else {
                assert(regs[n] == all[k]);
            }
        }
    }
}

/// The events of a stream for which `targets` names registration `i`.
pub open spec fn sent_to<S>(regs: Seq<Registration<S>>, stream: Seq<SyncedEvent>, i: int) -> Seq<SyncedEvent> {
    stream.filter(|e: SyncedEvent| is_target(regs, relevant_keys(e.event), i))
}

/// Over a run with an unchanged table, a registration is sent exactly the
/// events of the stream relevant to its key, in stream order.
pub proof fn lemma_registration_receives_key_stream<S>(regs: Seq<Registration<S>>, stream: Seq<SyncedEvent>, i: int)
    requires
        0 <= i < regs.len(),
    ensures
        sent_to(regs, stream, i) == delivered_to(stream, regs[i].key),
{
    let p = |e: SyncedEvent| is_target(regs, relevant_keys(e.event), i);
    let q = |e: SyncedEvent| relevant_keys(e.event).contains(regs[i].key);
    assert(p =~= q);
}

/// Fan-out keeps the order of the stream for each key: when the published
/// stream is in ledger order, so is what any single key receives.
pub proof fn lemma_per_key_order(stream: Seq<SyncedEvent>, key: Pubkey)
    requires
        in_ledger_order(stream),
    ensures
        in_ledger_order(delivered_to(stream, key)),
    decreases stream.len(),
{
    reveal(Seq::filter);
    if stream.len() > 0 {
        let init = stream.drop_last();
        assert(in_ledger_order(init)) by {
            assert forall|i: int, j: int| 0 <= i <= j < init.len()
                implies position_le(#[trigger] init[i], #[trigger] init[j]) by {
                assert(init[i] == stream[i] && init[j] == stream[j]);
            }
        }
        lemma_per_key_order(init, key);
        let p = |e: SyncedEvent| relevant_keys(e.event).contains(key);
        let d = init.filter(p);
        let last = stream.last();
        assert forall|i: int| 0 <= i < d.len() implies position_le(#[trigger] d[i], last) by {
            init.lemma_filter_contains_rev(p, d[i]);
            let k = choose|k: int| 0 <= k < init.len() && init[k] == d[i];
            assert(stream[k] == init[k]);
            assert(stream[stream.len() - 1] == last);
        }
        assert(delivered_to(stream, key) == if p(last) { d.push(last) } else { d });
    }
}

} // verus!
