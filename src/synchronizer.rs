//! The synchronizer: merges the catch-up reader and the live feed into one
//! ordered stream in which each event identifier appears once.
//!
//! Catch-up reads the ledger from the persisted cursor up to the tip observed
//! at start, one page of slots at a time. Live events that arrive meanwhile
//! are buffered; when catch-up reaches the tip, the buffer is drained, each
//! event whose identifier was already published being dropped, and from then
//! on live events are published as they come. The caller hands each returned
//! event to the broadcast channel and then commits the cursor.

use vstd::prelude::*;
use crate::config;
use crate::events::{BridgeEvent, SyncedEvent, ids_of, in_ledger_order, position_le};
use crate::storage::{Cursor, opt_view};
use crate::dispatcher::{delivered_to, lemma_per_key_order};
use crate::pubkey::Pubkey;

verus! {

/// The views of a sequence of strings.
pub open spec fn views(v: Seq<String>) -> Seq<Seq<char>> {
    v.map_values(|s: String| s@)
}

/// No identifier occurs twice.
pub open spec fn distinct(s: Seq<Seq<char>>) -> bool {
    forall|i: int, j: int| 0 <= i < s.len() && 0 <= j < s.len() && i != j ==> s[i] != s[j]
}

/// The events of `events` that are published, in order, when `known` holds
/// the identifiers published before and `resume` the identifier of the event
/// the persisted cursor marks: each one of a known variant whose identifier
/// is new, once.
pub open spec fn fresh_events(known: Seq<Seq<char>>, resume: Option<Seq<char>>, events: Seq<SyncedEvent>) -> Seq<SyncedEvent>
    decreases events.len(),
{
    if events.len() == 0 {
        Seq::empty()
    } else {
        let prev = fresh_events(known, resume, events.drop_last());
        let e = events.last();
        if e.event is Unknown || known.contains(e.id@) || ids_of(prev).contains(e.id@) || resume == Some(e.id@) {
            prev
        } else {
            prev.push(e)
        }
    }
}

/// The first slot catch-up reads: the cursor's own slot (events after the
/// cursor in that slot are still to come), raised to `tip - depth` when the
/// cursor lies deeper than the lookback limit allows.
pub open spec fn start_slot(last_slot: u64, tip: u64, depth: Option<u64>) -> u64 {
    match depth {
        None => last_slot,
        Some(d) => if tip > d && tip - d > last_slot { (tip - d) as u64 } else { last_slot },
    }
}

/// One page of the catch-up reader: the events of slots `from_slot` to
/// `to_slot`, both included, in ascending order.
#[derive(Clone, Copy, Debug, PartialEq, Eq, Structural)]
pub struct PageRequest {
    pub from_slot: u64,
    pub to_slot: u64,
}

#[derive(Clone, Copy, Debug, PartialEq, Eq, Structural)]
pub enum Phase {
    /// Reading history; live events are buffered.
    CatchUp,
    /// Past the seam; live events are published as they come.
    Live,
}

/// The merge engine of one run.
pub struct Synchronizer {
    phase: Phase,
    next_slot: u64,
    tip: u64,
    page: u64,
    resume_sig: Option<String>,
    cursor_slot: u64,
    first_page: bool,
    published: Vec<String>,
    buffer: Vec<SyncedEvent>,
    stream: Ghost<Seq<SyncedEvent>>,
    offered: Ghost<Set<Seq<char>>>,
}

/// The page's events are in ledger order and within its slots.
pub open spec fn page_fits(request: PageRequest, events: Seq<SyncedEvent>) -> bool {
    &&& in_ledger_order(events)
    &&& forall|k: int| 0 <= k < events.len()
        ==> request.from_slot <= (#[trigger] events[k]).slot <= request.to_slot
}

/// The buffered live events are in ledger order, and each one at or below
/// the tip repeats an identifier already published (or the cursor's).
pub open spec fn seam_fits(known: Seq<Seq<char>>, resume: Option<Seq<char>>, buffer: Seq<SyncedEvent>, tip: u64) -> bool {
    &&& in_ledger_order(buffer)
    &&& forall|k: int| 0 <= k < buffer.len() ==> (#[trigger] buffer[k]).slot > tip
        || known.contains(buffer[k].id@) || resume == Some(buffer[k].id@)
}

/// Some event of `events` carries `id` and is of a known variant.
pub open spec fn decoded_has(events: Seq<SyncedEvent>, id: Seq<char>) -> bool {
    exists|k: int| 0 <= k < events.len() && (#[trigger] events[k]).id@ == id && !(events[k].event is Unknown)
}

/// The offered identifiers once `events` have been offered too: those of
/// its events of a known variant, except the cursor's.
pub open spec fn with_offered(offered: Set<Seq<char>>, events: Seq<SyncedEvent>, resume: Option<Seq<char>>) -> Set<Seq<char>> {
    offered.union(Set::new(|id: Seq<char>| decoded_has(events, id) && resume != Some(id)))
}

impl Synchronizer {
    pub closed spec fn phase(&self) -> Phase {
        self.phase
    }

    /// The first slot of the next catch-up page.
    pub closed spec fn next_slot(&self) -> u64 {
        self.next_slot
    }

    /// The tip observed at the start of the run.
    pub closed spec fn tip(&self) -> u64 {
        self.tip
    }

    /// The most slots a page covers.
    pub closed spec fn page_len(&self) -> u64 {
        self.page
    }

    /// The identifier of the event the persisted cursor marks.
    pub closed spec fn resume(&self) -> Option<Seq<char>> {
        opt_view(self.resume_sig)
    }

    /// The slot of the persisted cursor.
    pub closed spec fn cursor_slot(&self) -> u64 {
        self.cursor_slot
    }

    /// No catch-up page was taken yet: the next one is trimmed to what
    /// follows the cursor.
    pub closed spec fn at_cursor(&self) -> bool {
        self.first_page
    }

    /// What is taken of a catch-up page: the first page loses the events up
    /// to and including the cursor's own.
    pub open spec fn page_seen(&self, events: Seq<SyncedEvent>) -> Seq<SyncedEvent> {
        if self.at_cursor() { past_cursor(events, self.cursor_slot(), self.resume()) } else { events }
    }

    /// The identifiers published during this run, in publication order.
    pub closed spec fn published_ids(&self) -> Seq<Seq<char>> {
        views(self.published@)
    }

    /// The events published during this run, in publication order.
    pub closed spec fn published(&self) -> Seq<SyncedEvent> {
        self.stream@
    }

    /// The live events held until the seam.
    pub closed spec fn buffered(&self) -> Seq<SyncedEvent> {
        self.buffer@
    }

    /// Every identifier offered by either reader during this run on an
    /// event of a known variant, except the one the persisted cursor marks.
    pub closed spec fn offered(&self) -> Set<Seq<char>> {
        self.offered@
    }

    /// The page `catchup_request` hands out in the current state.
    pub open spec fn request_of(&self) -> PageRequest {
        PageRequest {
            from_slot: self.next_slot(),
            to_slot: if self.tip() - self.next_slot() < self.page_len() {
                self.tip()
            } else {
                (self.next_slot() + self.page_len() - 1) as u64
            },
        }
    }

    pub closed spec fn wf(&self) -> bool {
        &&& self.page >= 1
        &&& distinct(self.published_ids())
        &&& ids_of(self.stream@) == self.published_ids()
        &&& (forall|k: int| 0 <= k < self.stream@.len() ==> !((#[trigger] self.stream@[k]).event is Unknown))
        &&& (forall|k: int| 0 <= k < self.buffer@.len() ==> !((#[trigger] self.buffer@[k]).event is Unknown))
        &&& (self.resume() matches Some(r) ==> !self.published_ids().contains(r))
        &&& (self.phase == Phase::CatchUp ==> self.next_slot <= self.tip)
        &&& (self.phase == Phase::Live ==> self.buffer@.len() == 0)
        &&& forall|id: Seq<char>| #[trigger] self.offered@.contains(id) <==> (
            self.published_ids().contains(id)
            || (ids_of(self.buffer@).contains(id) && self.resume() != Some(id)))
    }

    /// What was published is in ledger order and, during catch-up, lies
    /// below the next page.
    pub open spec fn ordered_so_far(&self) -> bool {
        &&& in_ledger_order(self.published())
        &&& (self.phase() == Phase::CatchUp ==> forall|k: int| 0 <= k < self.published().len()
            ==> (#[trigger] self.published()[k]).slot < self.next_slot())
    }

    /// Starts a run from the persisted cursor, with `tip` the latest slot of
    /// the ledger now.
    pub fn new(persisted: &Cursor, tip: u64, settings: &config::Synchronizer) -> (r: Self)
        ensures
            r.wf(),
            r.ordered_so_far(),
            r.next_slot() == start_slot(persisted.last_slot, tip, settings.max_catchup_depth),
            r.tip() == tip,
            r.page_len() == if settings.max_signature_fetch == 0 { 1 } else { settings.max_signature_fetch as u64 },
            r.resume() == opt_view(persisted.last_sig),
            r.phase() == (if r.next_slot() <= tip { Phase::CatchUp } else { Phase::Live }),
            r.published().len() == 0,
            r.published_ids().len() == 0,
            r.buffered().len() == 0,
            r.offered().is_empty(),
            r.at_cursor(),
            r.cursor_slot() == persisted.last_slot,
    {
        let next_slot = match settings.max_catchup_depth {
            None => persisted.last_slot,
            Some(d) => if tip > d && tip - d > persisted.last_slot { tip - d } else { persisted.last_slot },
        };
        let page: u64 = if settings.max_signature_fetch == 0 { 1 } else { settings.max_signature_fetch as u64 };
        let resume_sig = match &persisted.last_sig {
            Some(s) => Some(s.clone()),
            None => None,
        };
        let phase = if next_slot <= tip { Phase::CatchUp } else { Phase::Live };
        let r = Synchronizer {
            phase,
            next_slot,
            tip,
            page,
            resume_sig,
            cursor_slot: persisted.last_slot,
            first_page: true,
            published: Vec::new(),
            buffer: Vec::new(),
            stream: Ghost(Seq::empty()),
            offered: Ghost(Set::empty()),
        };
        proof {
            assert(r.published_ids() =~= Seq::<Seq<char>>::empty());
            assert(ids_of(r.buffer@) =~= Seq::<Seq<char>>::empty());
            assert(ids_of(r.stream@) =~= Seq::<Seq<char>>::empty());
        }
        r
    }

    /// Whether the run is past the seam.
    pub fn is_live(&self) -> (r: bool)
        ensures
            r == (self.phase() == Phase::Live),
    {
        self.phase == Phase::Live
    }

    /// Takes the events of the page `catchup_request` handed out and returns
    /// those to publish. Recovery resumes exactly at the cursor: on the first
    /// page, the events up to and including the cursor's own (found by its
    /// slot and identifier) were published by the run before and are
    /// dropped. Of the rest, it returns each one of a known variant whose identifier is new
    /// (an unknown variant is skipped, and the cursor never marks it). On the
    /// last page (the one that ends at the tip) the run passes the seam: the
    /// buffered live events whose identifiers are new follow, in arrival
    /// order, and the buffer empties. When the page lies in its slots in
    /// ledger order, and at the seam every buffered event at or below the
    /// tip repeats a published identifier, the published stream stays in
    /// ledger order.
    pub fn on_catchup_page(&mut self, events: Vec<SyncedEvent>) -> (r: Vec<SyncedEvent>)
        requires
            old(self).wf(),
            old(self).phase() == Phase::CatchUp,
        ensures
            final(self).wf(),
            final(self).tip() == old(self).tip(),
            final(self).page_len() == old(self).page_len(),
            final(self).resume() == old(self).resume(),
            final(self).cursor_slot() == old(self).cursor_slot(),
            !final(self).at_cursor(),
            forall|k: int| 0 <= k < r@.len() ==> !((#[trigger] r@[k]).event is Unknown),
            final(self).published() == old(self).published() + r@,
            final(self).published_ids() == old(self).published_ids() + ids_of(r@),
            final(self).offered() == with_offered(
                with_offered(old(self).offered(), old(self).page_seen(events@), old(self).resume()),
                old(self).buffered(), old(self).resume()),
            ({
                let known = old(self).published_ids();
                let first = fresh_events(known, old(self).resume(), old(self).page_seen(events@));
                &&& if old(self).request_of().to_slot == old(self).tip() {
                    &&& r@ == first + fresh_events(known + ids_of(first), old(self).resume(), old(self).buffered())
                    &&& final(self).phase() == Phase::Live
                    &&& final(self).buffered().len() == 0
                } else {
                    &&& r@ == first
                    &&& final(self).phase() == Phase::CatchUp
                    &&& final(self).next_slot() == old(self).request_of().to_slot + 1
                    &&& final(self).buffered() == old(self).buffered()
                }
                &&& (old(self).ordered_so_far() && page_fits(old(self).request_of(), events@)
                    && (old(self).request_of().to_slot == old(self).tip() ==> seam_fits(
                        known + ids_of(first), old(self).resume(), old(self).buffered(), old(self).tip())))
                    ==> final(self).ordered_so_far()
            }),
    {
        let ghost ev = events@;
        let ghost req = self.request_of();
        let ghost seen = self.page_seen(events@);
        let page = if self.first_page {
            trim_to_cursor(events, self.cursor_slot, &self.resume_sig)
        } else {
            events
        };
        proof {
            if page_fits(req, ev) && self.at_cursor() {
                if let Some(id) = self.resume() {
                    let k = first_match(ev, self.cursor_slot(), id, 0);
                    lemma_first_match_range(ev, self.cursor_slot(), id, 0);
                    if k < ev.len() {
                        lemma_suffix_fits(req, ev, k + 1);
                    }
                }
            }
        }
        self.first_page = false;
        self.take_page(page)
    }

    /// Publishes the taken part of a catch-up page; see `on_catchup_page`.
    fn take_page(&mut self, events: Vec<SyncedEvent>) -> (r: Vec<SyncedEvent>)
        requires
            old(self).wf(),
            old(self).phase() == Phase::CatchUp,
        ensures
            final(self).wf(),
            final(self).tip() == old(self).tip(),
            final(self).page_len() == old(self).page_len(),
            final(self).resume() == old(self).resume(),
            final(self).cursor_slot == old(self).cursor_slot,
            final(self).first_page == old(self).first_page,
            forall|k: int| 0 <= k < r@.len() ==> !((#[trigger] r@[k]).event is Unknown),
            final(self).published() == old(self).published() + r@,
            final(self).published_ids() == old(self).published_ids() + ids_of(r@),
            final(self).offered() == with_offered(
                with_offered(old(self).offered(), events@, old(self).resume()),
                old(self).buffered(), old(self).resume()),
            ({
                let known = old(self).published_ids();
                let first = fresh_events(known, old(self).resume(), events@);
                &&& if old(self).request_of().to_slot == old(self).tip() {
                    &&& r@ == first + fresh_events(known + ids_of(first), old(self).resume(), old(self).buffered())
                    &&& final(self).phase() == Phase::Live
                    &&& final(self).buffered().len() == 0
                } else {
                    &&& r@ == first
                    &&& final(self).phase() == Phase::CatchUp
                    &&& final(self).next_slot() == old(self).request_of().to_slot + 1
                    &&& final(self).buffered() == old(self).buffered()
                }
                &&& (old(self).ordered_so_far() && page_fits(old(self).request_of(), events@)
                    && (old(self).request_of().to_slot == old(self).tip() ==> seam_fits(
                        known + ids_of(first), old(self).resume(), old(self).buffered(), old(self).tip())))
                    ==> final(self).ordered_so_far()
            }),
    {
        let ghost old_offered = self.offered@;
        let ghost old_buffer = self.buffer@;
        let ghost old_stream = self.stream@;
        let ghost known = views(self.published@);
        let ghost res = opt_view(self.resume_sig);
        let ghost ev = events@;
        let ghost req = self.request_of();
        let ghost was_ordered = self.ordered_so_far();
        let at_tip = self.tip - self.next_slot < self.page;
        let mut r = publish_fresh(&mut self.published, &self.resume_sig, events);
        let ghost first = r@;
        let ghost mid = views(self.published@);
        proof {
            lemma_fresh_members(known, res, ev);
        }
        if at_tip {
            let mut buffered: Vec<SyncedEvent> = Vec::new();
            std::mem::swap(&mut buffered, &mut self.buffer);
            let mut rest = publish_fresh(&mut self.published, &self.resume_sig, buffered);
            let ghost second = rest@;
            proof {
                lemma_fresh_members(mid, res, old_buffer);
            }
            r.append(&mut rest);
            self.phase = Phase::Live;
            proof {
                assert(ids_of(first + second) =~= ids_of(first) + ids_of(second));
                assert(views(self.published@) =~= known + ids_of(r@));
                if was_ordered && page_fits(req, ev) && seam_fits(mid, res, old_buffer, self.tip) {
                    lemma_fresh_keeps_order(known, res, ev);
                    lemma_fresh_keeps_order(mid, res, old_buffer);
                    assert forall|i: int, j: int| 0 <= i < old_stream.len() && 0 <= j < first.len()
                        implies position_le(old_stream[i], first[j]) by {
                        let k = choose|k: int| 0 <= k < ev.len() && ev[k] == first[j];
                        assert(old_stream[i].slot < req.from_slot);
                    }
                    lemma_concat_ordered(old_stream, first);
                    let a = old_stream + first;
                    assert forall|i: int, j: int| 0 <= i < a.len() && 0 <= j < second.len()
                        implies position_le(a[i], second[j]) by {
                        let k = choose|k: int| 0 <= k < old_buffer.len() && old_buffer[k] == second[j];
                        assert(old_buffer[k].slot > self.tip);
                        if i < old_stream.len() {
                            assert(a[i] == old_stream[i]);
                        } else {
                            assert(a[i] == first[i - old_stream.len()]);
                            let m = choose|m: int| 0 <= m < ev.len() && ev[m] == first[i - old_stream.len()];
                            assert(ev[m].slot <= req.to_slot);
                        }
                    }
                    lemma_concat_ordered(a, second);
                    assert(a + second =~= old_stream + r@);
                }
            }
        } else {
            self.next_slot = self.next_slot + self.page;
            proof {
                if was_ordered && page_fits(req, ev) {
                    lemma_fresh_keeps_order(known, res, ev);
                    assert forall|i: int, j: int| 0 <= i < old_stream.len() && 0 <= j < first.len()
                        implies position_le(old_stream[i], first[j]) by {
                        let k = choose|k: int| 0 <= k < ev.len() && ev[k] == first[j];
                        assert(old_stream[i].slot < req.from_slot);
                    }
                    lemma_concat_ordered(old_stream, first);
                    let s = old_stream + first;
                    assert forall|k: int| 0 <= k < s.len() implies (#[trigger] s[k]).slot < self.next_slot by {
                        if k < old_stream.len() {
                            assert(s[k] == old_stream[k]);
                        } else {
                            let m = choose|m: int| 0 <= m < ev.len() && ev[m] == first[k - old_stream.len()];
                            assert(ev[m].slot <= req.to_slot);
                        }
                    }
                }
            }
        }
        self.stream = Ghost(old_stream + r@);
        self.offered = Ghost(with_offered(with_offered(old_offered, ev, res), old_buffer, res));
        proof {
            let pub_ids = views(self.published@);
            assert(ids_of(old_stream + r@) =~= ids_of(old_stream) + ids_of(r@));
            assert forall|k: int| 0 <= k < self.stream@.len() implies !((#[trigger] self.stream@[k]).event is Unknown) by {
                if k >= old_stream.len() {
                    assert(self.stream@[k] == r@[k - old_stream.len()]);
                } else {
                    assert(self.stream@[k] == old_stream[k]);
                }
            }
            assert forall|id: Seq<char>| #[trigger] self.offered@.contains(id) <==> (
                pub_ids.contains(id)
                || (ids_of(self.buffer@).contains(id) && res != Some(id))) by {
                if decoded_has(ev, id) && res != Some(id) {
                    let k = choose|k: int| 0 <= k < ev.len() && (#[trigger] ev[k]).id@ == id && !(ev[k].event is Unknown);
                    assert(mid.contains(ev[k].id@));
                    assert(mid.contains(id));
                    assert(pub_ids.contains(id));
                }
                if decoded_has(old_buffer, id) && res != Some(id) && at_tip {
                    let k = choose|k: int| 0 <= k < old_buffer.len() && (#[trigger] old_buffer[k]).id@ == id && !(old_buffer[k].event is Unknown);
                    assert(pub_ids.contains(old_buffer[k].id@));
                }
                if decoded_has(old_buffer, id) && !at_tip {
                    let k = choose|k: int| 0 <= k < old_buffer.len() && (#[trigger] old_buffer[k]).id@ == id && !(old_buffer[k].event is Unknown);
                    assert(ids_of(old_buffer)[k] == id);
                }
                if ids_of(old_buffer).contains(id) && res != Some(id) {
                    let k = choose|k: int| 0 <= k < ids_of(old_buffer).len() && ids_of(old_buffer)[k] == id;
                    assert(old_buffer[k].id@ == id);
                    assert(decoded_has(old_buffer, id));
                }
                if known.contains(id) {
                    assert(mid.contains(id));
                    assert(pub_ids.contains(id));
                }
                if pub_ids.contains(id) {
                    assert(res != Some(id));
                    if at_tip {
                        if mid.contains(id) {
                            if known.contains(id) {
                                assert(old_offered.contains(id));
                            }
                        }
                    } else {
                        if known.contains(id) {
                            assert(old_offered.contains(id));
                        }
                    }
                }
            }
        }
        r
    }

    /// Takes one event of the live feed. An unknown variant is skipped.
    /// Before the seam the event is buffered and nothing is returned; after
    /// it, the event is returned for publishing when its identifier is new.
    /// An event that comes at or after the last published position keeps
    /// the published stream in ledger order.
    pub fn on_live_event(&mut self, event: SyncedEvent) -> (r: Option<SyncedEvent>)
        requires
            old(self).wf(),
        ensures
            final(self).wf(),
            final(self).phase() == old(self).phase(),
            final(self).next_slot() == old(self).next_slot(),
            final(self).tip() == old(self).tip(),
            final(self).page_len() == old(self).page_len(),
            final(self).resume() == old(self).resume(),
            final(self).offered() == with_offered(old(self).offered(), seq![event], old(self).resume()),
            final(self).at_cursor() == old(self).at_cursor(),
            final(self).cursor_slot() == old(self).cursor_slot(),
            r matches Some(e) ==> !(e.event is Unknown),
            old(self).phase() == Phase::CatchUp ==> r is None
                && final(self).buffered() == (if event.event is Unknown { old(self).buffered() } else { old(self).buffered().push(event) })
                && final(self).published() == old(self).published()
                && final(self).published_ids() == old(self).published_ids(),
            old(self).phase() == Phase::Live ==> {
                let skip = event.event is Unknown || old(self).published_ids().contains(event.id@)
                    || old(self).resume() == Some(event.id@);
                &&& r == if skip { None } else { Some(event) }
                &&& final(self).published() == if skip { old(self).published() } else { old(self).published().push(event) }
                &&& final(self).published_ids() == if skip {
                    old(self).published_ids()
                } else {
                    old(self).published_ids().push(event.id@)
                }
                &&& final(self).buffered() == old(self).buffered()
            },
            old(self).ordered_so_far() && (old(self).published().len() > 0
                ==> position_le(old(self).published().last(), event)) ==> final(self).ordered_so_far(),
    {
        let ghost old_offered = self.offered@;
        let ghost res = opt_view(self.resume_sig);
        let ghost known = views(self.published@);
        let ghost ev = seq![event];
        let ghost old_buffer = self.buffer@;
        let ghost old_stream = self.stream@;
        assert(ev[0] == event);
        if is_unknown(&event.event) {
            self.offered = Ghost(with_offered(old_offered, ev, res));
            proof {
                assert forall|id: Seq<char>| #[trigger] self.offered@.contains(id) == old_offered.contains(id) by {
                    if decoded_has(ev, id) {
                        let k = choose|k: int| 0 <= k < ev.len() && (#[trigger] ev[k]).id@ == id && !(ev[k].event is Unknown);
                        assert(k == 0);
                    }
                }
            }
            return None;
        }
        if self.phase == Phase::CatchUp {
            self.buffer.push(event);
            self.offered = Ghost(with_offered(old_offered, ev, res));
            proof {
                assert(ids_of(self.buffer@) =~= ids_of(old_buffer).push(ev[0].id@));
                assert forall|k: int| 0 <= k < self.buffer@.len() implies !((#[trigger] self.buffer@[k]).event is Unknown) by {
                    if k < old_buffer.len() {
                        assert(self.buffer@[k] == old_buffer[k]);
                    }
                }
                assert forall|id: Seq<char>| #[trigger] self.offered@.contains(id) <==> (
                    views(self.published@).contains(id)
                    || (ids_of(self.buffer@).contains(id) && res != Some(id))) by {
                    if ids_of(old_buffer).contains(id) {
                        let k = choose|k: int| 0 <= k < ids_of(old_buffer).len() && ids_of(old_buffer)[k] == id;
                        assert(ids_of(self.buffer@)[k] == id);
                    }
                    if ids_of(self.buffer@).contains(id) {
                        let k = choose|k: int| 0 <= k < ids_of(self.buffer@).len() && ids_of(self.buffer@)[k] == id;
                        if k < old_buffer.len() {
                            assert(ids_of(old_buffer)[k] == id);
                        } else {
                            assert(decoded_has(ev, id));
                        }
                    }
                    if decoded_has(ev, id) {
                        let k = choose|k: int| 0 <= k < ev.len() && (#[trigger] ev[k]).id@ == id && !(ev[k].event is Unknown);
                        assert(k == 0);
                        assert(ids_of(self.buffer@)[old_buffer.len() as int] == id);
                    }
                }
            }
            None
        } else {
            let mut events: Vec<SyncedEvent> = Vec::new();
            events.push(event);
            proof {
                assert(events@ =~= ev);
            }
            let mut r = publish_fresh(&mut self.published, &self.resume_sig, events);
            self.offered = Ghost(with_offered(old_offered, ev, res));
            self.stream = Ghost(old_stream + r@);
            proof {
                reveal_with_fuel(fresh_events, 2);
                assert(ev.drop_last() =~= Seq::<SyncedEvent>::empty());
                assert(ids_of(ev)[0] == ev[0].id@);
                assert(ids_of(old_stream + r@) =~= ids_of(old_stream) + ids_of(r@));
                assert forall|id: Seq<char>| #[trigger] self.offered@.contains(id) <==> (
                    views(self.published@).contains(id)
                    || (ids_of(self.buffer@).contains(id) && res != Some(id))) by {
                    if decoded_has(ev, id) {
                        let k = choose|k: int| 0 <= k < ev.len() && (#[trigger] ev[k]).id@ == id && !(ev[k].event is Unknown);
                        assert(k == 0);
                    }
                    if known.contains(id) {
                        assert(old_offered.contains(id));
                    }
                }
                let fresh = fresh_events(known, res, ev);
                assert(fresh_events(known, res, Seq::<SyncedEvent>::empty()) =~= Seq::<SyncedEvent>::empty());
                assert(ids_of(Seq::<SyncedEvent>::empty()) =~= Seq::<Seq<char>>::empty());
                assert(ev.last() == event);
                if fresh.len() == 1 {
                    assert(fresh =~= seq![event]);
                    assert(ids_of(fresh) =~= seq![event.id@]);
                    assert(known + seq![event.id@] =~= known.push(event.id@));
                    assert(old_stream + r@ =~= old_stream.push(event));
                    if in_ledger_order(old_stream) && (old_stream.len() > 0 ==> position_le(old_stream.last(), event)) {
                        assert forall|i: int, j: int| 0 <= i <= j < self.stream@.len()
                            implies position_le(#[trigger] self.stream@[i], #[trigger] self.stream@[j]) by {
                            if j < old_stream.len() {
                                assert(self.stream@[i] == old_stream[i] && self.stream@[j] == old_stream[j]);
                            } else if i < j {
                                assert(self.stream@[i] == old_stream[i]);
                                assert(self.stream@[j] == event);
                                assert(position_le(old_stream[i], old_stream[old_stream.len() - 1]));
                            } else {
                                assert(self.stream@[i] == event);
                            }
                        }
                    }
                } else {
                    assert(fresh =~= Seq::<SyncedEvent>::empty());
                    assert(ids_of(fresh) =~= Seq::<Seq<char>>::empty());
                    assert(known + ids_of(fresh) =~= known);
                    assert(old_stream + r@ =~= old_stream);
                }
                assert forall|k: int| 0 <= k < self.stream@.len() implies !((#[trigger] self.stream@[k]).event is Unknown) by {
                    if k < old_stream.len() {
                        assert(self.stream@[k] == old_stream[k]);
                    }
                }
            }
            r.pop()
        }
    }

    /// The next catch-up page to read, or `None` once catch-up has reached
    /// the tip.
    pub fn catchup_request(&self) -> (r: Option<PageRequest>)
        requires
            self.wf(),
        ensures
            self.phase() == Phase::Live ==> r is None,
            self.phase() == Phase::CatchUp ==> r == Some(self.request_of()),
            r matches Some(p) ==> p.from_slot <= p.to_slot <= self.tip()
                && p.to_slot - p.from_slot < self.page_len(),
    {
        if self.phase == Phase::Live {
            return None;
        }
        let to_slot = if self.tip - self.next_slot < self.page {
            self.tip
        } else {
            self.next_slot + self.page - 1
        };
        Some(PageRequest { from_slot: self.next_slot, to_slot })
    }
}

proof fn lemma_concat_contains(a: Seq<Seq<char>>, b: Seq<Seq<char>>, x: Seq<char>)
    ensures
        (a + b).contains(x) <==> (a.contains(x) || b.contains(x)),
{
    if (a + b).contains(x) {
        let i = choose|i: int| 0 <= i < (a + b).len() && (a + b)[i] == x;
        if i >= a.len() {
            assert(b[i - a.len()] == x);
        }
    }
    if a.contains(x) {
        let i = choose|i: int| 0 <= i < a.len() && a[i] == x;
        assert((a + b)[i] == x);
    }
    if b.contains(x) {
        let i = choose|i: int| 0 <= i < b.len() && b[i] == x;
        assert((a + b)[a.len() + i] == x);
    }
}

/// The first index from `i` on of the event in `slot` that carries `id`,
/// or the length when there is none.
pub open spec fn first_match(events: Seq<SyncedEvent>, slot: u64, id: Seq<char>, i: int) -> int
    decreases events.len() - i,
{
    if i < 0 || i >= events.len() {
        events.len() as int
    } else if events[i].slot == slot && events[i].id@ == id {
        i
    } else {
        first_match(events, slot, id, i + 1)
    }
}

/// The events after the cursor's own: when the cursor marks an event found
/// in `events` (same slot and identifier), what follows its first
/// occurrence; otherwise all of them.
pub open spec fn past_cursor(events: Seq<SyncedEvent>, slot: u64, resume: Option<Seq<char>>) -> Seq<SyncedEvent> {
    match resume {
        None => events,
        Some(id) => {
            let k = first_match(events, slot, id, 0);
            if k < events.len() { events.subrange(k + 1, events.len() as int) } else { events }
        },
    }
}

fn trim_to_cursor(events: Vec<SyncedEvent>, slot: u64, resume: &Option<String>) -> (r: Vec<SyncedEvent>)
    ensures
        r@ == past_cursor(events@, slot, opt_view(*resume)),
{
    match resume {
        None => events,
        Some(id) => {
            let ghost ev = events@;
            let mut page = events;
            let mut i: usize = 0;
            while i < page.len()
                invariant
                    i <= page.len(),
                    page@ == ev,
                    ev == events@,
                    opt_view(*resume) == Some(id@),
                    first_match(ev, slot, id@, 0) == first_match(ev, slot, id@, i as int),
                decreases page.len() - i,
            {
                if page[i].slot == slot && page[i].id == *id {
                    assert(first_match(ev, slot, id@, i as int) == i as int);
                    let rest = page.split_off(i + 1);
                    assert(opt_view(*resume) == Some(id@));
                    assert(rest@ == ev.subrange(i + 1, ev.len() as int));
                    assert(past_cursor(ev, slot, Some(id@)) == ev.subrange(i + 1, ev.len() as int));
                    return rest;
                }
                i = i + 1;
            }
            page
        },
    }
}

proof fn lemma_suffix_fits(request: PageRequest, events: Seq<SyncedEvent>, k: int)
    requires
        page_fits(request, events),
        0 <= k <= events.len(),
    ensures
        page_fits(request, events.subrange(k, events.len() as int)),
{
    let part = events.subrange(k, events.len() as int);
    assert forall|i: int, j: int| 0 <= i <= j < part.len() implies position_le(#[trigger] part[i], #[trigger] part[j]) by {
        assert(part[i] == events[i + k] && part[j] == events[j + k]);
    }
    assert forall|i: int| 0 <= i < part.len() implies request.from_slot <= (#[trigger] part[i]).slot <= request.to_slot by {
        assert(part[i] == events[i + k]);
    }
}

proof fn lemma_first_match_range(events: Seq<SyncedEvent>, slot: u64, id: Seq<char>, i: int)
    requires
        0 <= i,
    ensures
        i <= first_match(events, slot, id, i) <= events.len() || (i > events.len() && first_match(events, slot, id, i) == events.len()),
    decreases events.len() - i,
{
    if i < events.len() {
        lemma_first_match_range(events, slot, id, i + 1);
    }
}

fn is_unknown(event: &BridgeEvent) -> (r: bool)
    ensures
        r == (*event is Unknown),
{
    match event {
        BridgeEvent::Unknown => true,
        _ => false,
    }
}

/// What `fresh_events` keeps: events of the input, of a known variant,
/// whose identifiers are neither known nor the cursor's.
pub proof fn lemma_fresh_members(known: Seq<Seq<char>>, resume: Option<Seq<char>>, events: Seq<SyncedEvent>)
    ensures
        forall|k: int| 0 <= k < fresh_events(known, resume, events).len() ==> {
            let e = #[trigger] fresh_events(known, resume, events)[k];
            &&& events.contains(e)
            &&& !(e.event is Unknown)
            &&& !known.contains(e.id@)
            &&& resume != Some(e.id@)
        },
    decreases events.len(),
{
    if events.len() > 0 {
        let init = events.drop_last();
        lemma_fresh_members(known, resume, init);
        let prev = fresh_events(known, resume, init);
        assert forall|k: int| 0 <= k < prev.len() implies events.contains(#[trigger] prev[k]) by {
            let i = choose|i: int| 0 <= i < init.len() && init[i] == prev[k];
            assert(events[i] == prev[k]);
        }
        assert(events[events.len() - 1] == events.last());
    }
}

/// Two ordered sequences, the first wholly at or before the second, make
/// an ordered sequence.
pub proof fn lemma_concat_ordered(a: Seq<SyncedEvent>, b: Seq<SyncedEvent>)
    requires
        in_ledger_order(a),
        in_ledger_order(b),
        forall|i: int, j: int| 0 <= i < a.len() && 0 <= j < b.len() ==> position_le(a[i], b[j]),
    ensures
        in_ledger_order(a + b),
{
    let s = a + b;
    assert forall|i: int, j: int| 0 <= i <= j < s.len() implies position_le(#[trigger] s[i], #[trigger] s[j]) by {
        if j < a.len() {
            assert(s[i] == a[i] && s[j] == a[j]);
        } else if i >= a.len() {
            assert(s[i] == b[i - a.len()] && s[j] == b[j - a.len()]);
        } else {
            assert(s[i] == a[i] && s[j] == b[j - a.len()]);
        }
    }
}

/// Whether `id` was published already, or is the one the cursor marks.
fn is_known(published: &Vec<String>, resume: &Option<String>, id: &String) -> (r: bool)
    ensures
        r == (views(published@).contains(id@) || opt_view(*resume) == Some(id@)),
{
    match resume {
        Some(x) => {
            if *x == *id {
                return true;
            }
        },
        None => {},
    }
    let mut i: usize = 0;
    while i < published.len()
        invariant
            i <= published.len(),
            forall|j: int| 0 <= j < i ==> published@[j]@ != id@,
        decreases published.len() - i,
    {
        if published[i] == *id {
            assert(views(published@)[i as int] == id@);
            return true;
        }
        i = i + 1;
    }
    assert(!views(published@).contains(id@)) by {
        if views(published@).contains(id@) {
            let j = choose|j: int| 0 <= j < views(published@).len() && views(published@)[j] == id@;
            assert(published@[j]@ == id@);
        }
    }
    false
}

/// Publishes, in order, each event of `events` whose identifier is new,
/// recording its identifier in `published`.
fn publish_fresh(published: &mut Vec<String>, resume: &Option<String>, events: Vec<SyncedEvent>) -> (r: Vec<SyncedEvent>)
    requires
        distinct(views(old(published)@)),
        opt_view(*resume) matches Some(x) ==> !views(old(published)@).contains(x),
    ensures
        r@ == fresh_events(views(old(published)@), opt_view(*resume), events@),
        views(final(published)@) == views(old(published)@) + ids_of(r@),
        distinct(views(final(published)@)),
        opt_view(*resume) matches Some(x) ==> !views(final(published)@).contains(x),
        forall|k: int| 0 <= k < events@.len() && !(events@[k].event is Unknown)
            ==> views(final(published)@).contains(#[trigger] events@[k].id@)
            || opt_view(*resume) == Some(events@[k].id@),
        forall|id: Seq<char>| #[trigger] views(final(published)@).contains(id)
            ==> views(old(published)@).contains(id) || decoded_has(events@, id),
        forall|id: Seq<char>| #[trigger] views(old(published)@).contains(id)
            ==> views(final(published)@).contains(id),
{
    let ghost orig = events@;
    let ghost known = views(published@);
    let ghost res = opt_view(*resume);
    let total = events.len();
    let mut events = events;
    let mut r: Vec<SyncedEvent> = Vec::new();
    let mut taken: usize = 0;
    while events.len() > 0
        invariant
            total == orig.len(),
            taken <= total,
            total == taken + events@.len(),
            events@ == orig.subrange(taken as int, total as int),
            r@ == fresh_events(known, res, orig.subrange(0, taken as int)),
            views(published@) == known + ids_of(r@),
            distinct(views(published@)),
            res == opt_view(*resume),
            res matches Some(x) ==> !views(published@).contains(x),
            forall|k: int| 0 <= k < taken && !(orig[k].event is Unknown) ==> views(published@).contains(#[trigger] orig[k].id@)
                || res == Some(orig[k].id@),
            forall|id: Seq<char>| #[trigger] views(published@).contains(id)
                ==> known.contains(id) || decoded_has(orig, id),
        decreases events.len(),
    {
        let e = events.remove(0);
        let ghost prev = r@;
        let ghost before = views(published@);
        proof {
            let p = orig.subrange(0, taken as int);
            let q = orig.subrange(0, taken + 1);
            assert(q.drop_last() =~= p);
            assert(q.last() == e);
            assert(orig[taken as int] == e);
            lemma_concat_contains(known, ids_of(prev), e.id@);
        }
        let skip = is_unknown(&e.event) || is_known(published, resume, &e.id);
        if !skip {
            let id = e.id.clone();
            published.push(id);
            r.push(e);
            proof {
                assert(views(published@) =~= before.push(e.id@));
                assert(ids_of(r@) =~= ids_of(prev).push(e.id@));
                assert(known + ids_of(r@) =~= (known + ids_of(prev)).push(e.id@));
                assert forall|i: int, j: int| 0 <= i < views(published@).len() && 0 <= j < views(published@).len() && i != j
                    implies views(published@)[i] != views(published@)[j] by {
                    if i < before.len() && j < before.len() {
                        assert(views(published@)[i] == before[i]);
                        assert(views(published@)[j] == before[j]);
                    } else if i < before.len() {
                        assert(views(published@)[i] == before[i]);
                    } else if j < before.len() {
                        assert(views(published@)[j] == before[j]);
                    }
                }
                assert forall|id: Seq<char>| #[trigger] views(published@).contains(id)
                    implies known.contains(id) || decoded_has(orig, id) by {
                    let i = choose|i: int| 0 <= i < views(published@).len() && views(published@)[i] == id;
                    if i < before.len() {
                        assert(before[i] == id);
                        assert(before.contains(id));
                    } else {
                        assert(orig[taken as int].id@ == id);
                    }
                }
                assert forall|k: int| 0 <= k < taken + 1 && !(orig[k].event is Unknown) implies views(published@).contains(#[trigger] orig[k].id@)
                    || res == Some(orig[k].id@) by {
                    if k < taken {
                        if before.contains(orig[k].id@) {
                            let i = choose|i: int| 0 <= i < before.len() && before[i] == orig[k].id@;
                            assert(views(published@)[i] == before[i]);
                        }
                    } else {
                        assert(views(published@)[before.len() as int] == e.id@);
                    }
                }
                if res is Some {
                    let x = res->Some_0;
                    if views(published@).contains(x) {
                        let i = choose|i: int| 0 <= i < views(published@).len() && views(published@)[i] == x;
                        if i < before.len() {
                            assert(before[i] == x);
                        }
                    }
                }
            }
        }
        taken = taken + 1;
    }
    assert(orig.subrange(0, total as int) =~= orig);
    assert forall|id: Seq<char>| #[trigger] known.contains(id) implies views(published@).contains(id) by {
        lemma_concat_contains(known, ids_of(r@), id);
    }
    r
}

fn before_or_same(a: &SyncedEvent, b: &SyncedEvent) -> (r: bool)
    ensures
        r == position_le(*a, *b),
{
    a.slot < b.slot || (a.slot == b.slot && a.index <= b.index)
}

/// Puts a catch-up page in ledger order (the source may list it newest
/// first): the same events, by slot and then by index within the slot.
pub fn order_page(page: Vec<SyncedEvent>) -> (r: Vec<SyncedEvent>)
    ensures
        in_ledger_order(r@),
        r@.to_multiset() == page@.to_multiset(),
{
    broadcast use vstd::seq_lib::group_to_multiset_ensures;

    let ghost orig = page@;
    let total = page.len();
    let mut page = page;
    let mut r: Vec<SyncedEvent> = Vec::new();
    let mut taken: usize = 0;
    proof {
        assert(orig.subrange(0, 0) =~= Seq::<SyncedEvent>::empty());
    }
    while page.len() > 0
        invariant
            total == orig.len(),
            taken <= total,
            total == taken + page@.len(),
            page@ == orig.subrange(taken as int, total as int),
            in_ledger_order(r@),
            r@.to_multiset() == orig.subrange(0, taken as int).to_multiset(),
        decreases page.len(),
    {
        let e = page.remove(0);
        proof {
            assert(orig[taken as int] == e);
            assert(orig.subrange(0, taken + 1) =~= orig.subrange(0, taken as int).push(e));
            vstd::seq_lib::to_multiset_build(orig.subrange(0, taken as int), e);
        }
        let mut p: usize = 0;
        while p < r.len() && before_or_same(&r[p], &e)
            invariant
                p <= r.len(),
                forall|j: int| 0 <= j < p ==> position_le(#[trigger] r@[j], e),
            decreases r.len() - p,
        {
            p = p + 1;
        }
        let ghost old_r = r@;
        r.insert(p, e);
        proof {
            vstd::seq_lib::to_multiset_insert(old_r, p as int, e);
            assert forall|j: int| p <= j < old_r.len() implies position_le(e, #[trigger] old_r[j]) by {
                assert(position_le(old_r[p as int], old_r[j]));
            }
            assert forall|a: int, b: int| 0 <= a <= b < r@.len() implies position_le(#[trigger] r@[a], #[trigger] r@[b]) by {
                if a < p && b < p {
                    assert(r@[a] == old_r[a] && r@[b] == old_r[b]);
                } else if a < p && b == p {
                    assert(r@[a] == old_r[a]);
                } else if a < p {
                    assert(r@[a] == old_r[a] && r@[b] == old_r[b - 1]);
                    assert(position_le(old_r[a], e));
                } else if a == p && b > p {
                    assert(r@[b] == old_r[b - 1]);
                } else if a > p {
                    assert(r@[a] == old_r[a - 1] && r@[b] == old_r[b - 1]);
                }
            }
        }
        taken = taken + 1;
    }
    proof {
        assert(orig.subrange(0, total as int) =~= orig);
    }
    r
}

/// Dropping repeated identifiers keeps order: the events published from an
/// ordered page are in ledger order, and each is an event of the page.
pub proof fn lemma_fresh_keeps_order(known: Seq<Seq<char>>, resume: Option<Seq<char>>, events: Seq<SyncedEvent>)
    requires
        in_ledger_order(events),
    ensures
        in_ledger_order(fresh_events(known, resume, events)),
        forall|k: int| 0 <= k < fresh_events(known, resume, events).len()
            ==> events.contains(#[trigger] fresh_events(known, resume, events)[k]),
    decreases events.len(),
{
    if events.len() > 0 {
        let init = events.drop_last();
        assert(in_ledger_order(init)) by {
            assert forall|i: int, j: int| 0 <= i <= j < init.len()
                implies position_le(#[trigger] init[i], #[trigger] init[j]) by {
                assert(init[i] == events[i] && init[j] == events[j]);
            }
        }
        lemma_fresh_keeps_order(known, resume, init);
        let prev = fresh_events(known, resume, init);
        let last = events.last();
        assert forall|k: int| 0 <= k < prev.len() implies events.contains(#[trigger] prev[k])
            && position_le(prev[k], last) by {
            let i = choose|i: int| 0 <= i < init.len() && init[i] == prev[k];
            assert(events[i] == prev[k]);
            assert(events[events.len() - 1] == last);
        }
        assert(events[events.len() - 1] == last);
    }
}

/// Past the seam, each identifier that either reader offered during the
/// run (other than the one the persisted cursor marks, which the run before
/// published) has been published exactly once, whatever the overlap of the
/// two readers was.
pub proof fn lemma_offered_published_once(s: Synchronizer, id: Seq<char>)
    requires
        s.wf(),
        s.phase() == Phase::Live,
        s.offered().contains(id),
    ensures
        exists|i: int| 0 <= i < s.published_ids().len() && s.published_ids()[i] == id,
        forall|i: int, j: int| 0 <= i < s.published_ids().len() && 0 <= j < s.published_ids().len()
            && s.published_ids()[i] == id && s.published_ids()[j] == id ==> i == j,
{
    assert(ids_of(s.buffered()) =~= Seq::<Seq<char>>::empty());
}

/// Per identity key, delivery keeps ledger order: while the run's
/// published stream is in ledger order, so is what any one key receives
/// from it.
pub proof fn lemma_run_per_key_order(s: Synchronizer, key: Pubkey)
    requires
        s.ordered_so_far(),
    ensures
        in_ledger_order(delivered_to(s.published(), key)),
{
    lemma_per_key_order(s.published(), key);
}

/// In every state, nothing is published twice and nothing is published that
/// was not offered.
pub proof fn lemma_published_distinct_and_offered(s: Synchronizer)
    requires
        s.wf(),
    ensures
        distinct(s.published_ids()),
        forall|id: Seq<char>| #[trigger] s.published_ids().contains(id) ==> s.offered().contains(id),
{
}

/// After the events of an ordered stream up to index `n - 1` were processed
/// and the cursor committed for the last of them, a restart from that
/// cursor loses nothing: catch-up starts at or below the slot of every
/// event still unprocessed, and none of them is taken for the one the
/// cursor marks. This holds when the lookback limit does not cut above the
/// cursor (past that limit the gap is accepted by design).
pub proof fn lemma_restart_loses_nothing(stream: Seq<SyncedEvent>, n: int, tip: u64, depth: Option<u64>)
    requires
        0 < n < stream.len(),
        in_ledger_order(stream),
        distinct(ids_of(stream)),
        start_slot(stream[n - 1].slot, tip, depth) == stream[n - 1].slot,
    ensures
        forall|j: int| n <= j < stream.len() ==> start_slot(stream[n - 1].slot, tip, depth) <= (#[trigger] stream[j]).slot
            && Some(stream[j].id@) != Some(stream[n - 1].id@),
{
    assert forall|j: int| n <= j < stream.len() implies start_slot(stream[n - 1].slot, tip, depth) <= (#[trigger] stream[j]).slot
        && Some(stream[j].id@) != Some(stream[n - 1].id@) by {
        assert(position_le(stream[n - 1], stream[j]));
        assert(ids_of(stream)[j] == stream[j].id@);
        assert(ids_of(stream)[n - 1] == stream[n - 1].id@);
    }
}

proof fn lemma_first_match_skips(page: Seq<SyncedEvent>, slot: u64, id: Seq<char>, i: int, target: int)
    requires
        0 <= i <= target < page.len(),
        page[target].slot == slot && page[target].id@ == id,
        forall|j: int| i <= j < target ==> (#[trigger] page[j]).id@ != id,
    ensures
        first_match(page, slot, id, i) == target,
    decreases target - i,
{
    if i < target {
        lemma_first_match_skips(page, slot, id, i + 1, target);
    }
}

/// Recovery resumes exactly at the cursor: when the first catch-up page
/// after a restart re-reads a stretch of an earlier run's stream that
/// contains the cursor's event (the last one committed, index `n - 1`),
/// what is taken of it is exactly what came after that event. Nothing at or
/// before the cursor is published again.
pub proof fn lemma_restart_resumes_at_cursor(stream: Seq<SyncedEvent>, n: int, m: int, e: int)
    requires
        0 <= m < n <= e <= stream.len(),
        distinct(ids_of(stream)),
    ensures
        past_cursor(stream.subrange(m, e), stream[n - 1].slot, Some(stream[n - 1].id@)) == stream.subrange(n, e),
{
    let page = stream.subrange(m, e);
    let c = stream[n - 1];
    assert forall|j: int| 0 <= j < n - 1 - m implies (#[trigger] page[j]).id@ != c.id@ by {
        assert(page[j] == stream[m + j]);
        assert(ids_of(stream)[m + j] == stream[m + j].id@);
        assert(ids_of(stream)[n - 1] == c.id@);
    }
    assert(page[n - 1 - m] == c);
    lemma_first_match_skips(page, c.slot, c.id@, 0, n - 1 - m);
    assert(page.subrange(n - m, page.len() as int) =~= stream.subrange(n, e));
}

/// `base` doubled `attempt` times.
pub open spec fn doubled(base: nat, attempt: nat) -> nat
    decreases attempt,
{
    if attempt == 0 { base } else { 2 * doubled(base, (attempt - 1) as nat) }
}

proof fn lemma_doubled_stays(base: nat, k: nat, j: nat, cap: nat)
    requires
        k <= j,
    ensures
        doubled(base, k) >= cap ==> doubled(base, j) >= cap,
        base == 0 ==> doubled(base, j) == 0,
    decreases j,
{
    if j > 0 {
        if k < j {
            lemma_doubled_stays(base, k, (j - 1) as nat, cap);
        } else {
            lemma_doubled_stays(base, (j - 1) as nat, (j - 1) as nat, cap);
        }
    }
}

/// The delay before retry number `attempt` (0 for the first retry):
/// `base_ms` doubled at each attempt, capped at `cap_ms`.
pub fn backoff_delay_ms(attempt: u32, base_ms: u64, cap_ms: u64) -> (r: u64)
    ensures
        r == if doubled(base_ms as nat, attempt as nat) < cap_ms { doubled(base_ms as nat, attempt as nat) } else { cap_ms as nat },
{
    let mut d: u64 = if base_ms < cap_ms { base_ms } else { cap_ms };
    let mut k: u32 = 0;
    while k < attempt
        invariant
            k <= attempt,
            d == if doubled(base_ms as nat, k as nat) < cap_ms { doubled(base_ms as nat, k as nat) } else { cap_ms as nat },
        decreases attempt - k,
    {
        if d == cap_ms || d == 0 {
            proof {
                lemma_doubled_stays(base_ms as nat, k as nat, attempt as nat, cap_ms as nat);
                if d == 0 && doubled(base_ms as nat, k as nat) < cap_ms {
                    lemma_zero_doubled(base_ms as nat, k as nat);
                }
            }
            return d;
        }
        if d > cap_ms - d {
            d = cap_ms;
        } else {
            d = d + d;
        }
        k = k + 1;
    }
    d
}

proof fn lemma_zero_doubled(base: nat, k: nat)
    requires
        doubled(base, k) == 0,
    ensures
        base == 0,
    decreases k,
{
    if k > 0 {
        lemma_zero_doubled(base, (k - 1) as nat);
    }
}

/// How a read of the ledger failed.
#[derive(Clone, Copy, Debug, PartialEq, Eq, Structural)]
pub enum SourceError {
    /// A timeout or a rate limit: worth another try.
    Transient,
    /// An invalid starting position or a refused request: fatal to the phase.
    Terminal,
}

/// What a reader does after a failed read.
#[derive(Clone, Copy, Debug, PartialEq, Eq, Structural)]
pub enum RetryDecision {
    /// Read again after this many milliseconds.
    RetryAfter(u64),
    /// Report the error upward and stop.
    GiveUp,
}

/// Transient errors are retried with exponential backoff; a terminal one
/// ends the phase.
pub fn on_source_error(error: SourceError, attempt: u32, base_ms: u64, cap_ms: u64) -> (r: RetryDecision)
    ensures
        error == SourceError::Terminal ==> r == RetryDecision::GiveUp,
        error == SourceError::Transient ==> r == RetryDecision::RetryAfter(
            (if doubled(base_ms as nat, attempt as nat) < cap_ms { doubled(base_ms as nat, attempt as nat) } else { cap_ms as nat }) as u64),
{
    match error {
        SourceError::Terminal => RetryDecision::GiveUp,
        SourceError::Transient => RetryDecision::RetryAfter(backoff_delay_ms(attempt, base_ms, cap_ms)),
    }
}

} // verus!
