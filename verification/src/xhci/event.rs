//! The event ring, and who waits for which event.
use crate::xhci::entry::GenericTrbEntry;
use crate::xhci::entry::TrbType;
use crate::xhci::ring::RingView;
use crate::xhci::ring::TrbRing;
use crate::xhci::store::Store;
use std::collections::HashMap;
use std::collections::VecDeque;
use vstd::prelude::*;

verus! {

/// What an event must be to end a wait. What is `None` may be anything.
#[derive(Debug, Copy, Clone, PartialEq, Eq, Structural)]
pub struct EventWaitCond {
    pub trb_type: Option<TrbType>,
    pub trb_addr: Option<u64>,
    pub slot: Option<u8>,
}

impl Default for EventWaitCond {
    /// The condition that every event meets.
    fn default() -> (r: Self)
        ensures
            r == (EventWaitCond { trb_type: None, trb_addr: None, slot: None }),
    {
        EventWaitCond { trb_type: None, trb_addr: None, slot: None }
    }
}

impl EventWaitCond {
    /// Whether `trb` meets the condition: it is about the block at the awaited address, is
    /// of the awaited kind, and names the awaited slot, as far as each is given.
    pub open spec fn admits(self, trb: GenericTrbEntry) -> bool {
        &&& self.trb_addr matches Some(addr) ==> trb.data == addr
        &&& self.trb_type matches Some(t) ==> trb.type_code() == t.code()
        &&& self.slot matches Some(slot) ==> trb.slot() == slot
    }
}

/// A waiter: its condition, and the events that came for it.
pub struct WaiterView {
    pub cond: EventWaitCond,
    pub trbs: Seq<GenericTrbEntry>,
}

impl WaiterView {
    /// A waiter that nothing came for yet.
    pub open spec fn fresh(cond: EventWaitCond) -> Self {
        WaiterView { cond, trbs: Seq::empty() }
    }

    /// The waiter after `trb` came for it.
    pub open spec fn resolved(self, trb: GenericTrbEntry) -> Self {
        WaiterView { trbs: self.trbs.push(trb), ..self }
    }
}

/// A place where the events that meet a condition are put.
#[derive(Debug)]
pub struct EventWaitInfo {
    cond: EventWaitCond,
    trbs: VecDeque<GenericTrbEntry>,
}

impl View for EventWaitInfo {
    type V = WaiterView;

    closed spec fn view(&self) -> WaiterView {
        WaiterView { cond: self.cond, trbs: self.trbs@ }
    }
}

impl EventWaitInfo {
    /// A waiter for `cond` that nothing came for yet.
    pub fn new(cond: EventWaitCond) -> (r: Self)
        ensures
            r@ == WaiterView::fresh(cond),
    {
        EventWaitInfo { cond, trbs: VecDeque::new() }
    }

    /// Whether `trb` meets the waiter's condition.
    pub fn matches(&self, trb: &GenericTrbEntry) -> (r: bool)
        ensures
            r == self@.cond.admits(*trb),
    {
        if let Some(trb_addr) = self.cond.trb_addr {
            if trb.data() != trb_addr {
                return false;
            }
        }
        if let Some(trb_type) = self.cond.trb_type {
            if trb.trb_type() != trb_type.number() {
                return false;
            }
        }
        if let Some(slot) = self.cond.slot {
            if trb.slot_id() != slot {
                return false;
            }
        }
        true
    }

    /// Puts an event where the waiter finds it.
    pub fn resolve(&mut self, trb: &GenericTrbEntry) -> (r: Result<(), &'static str>)
        ensures
            r == Ok::<(), &'static str>(()),
            final(self)@ == old(self)@.resolved(*trb),
    {
        self.trbs.push_back(*trb);
        Ok(())
    }
}

/// Where the event ring's one segment lies, as the controller reads it.
#[derive(Debug, Copy, Clone, PartialEq, Eq, Structural)]
pub struct EventRingSegmentTableEntry {
    pub ring_segment_base_address: u64,
    pub ring_segment_size: u16,
}

impl EventRingSegmentTableEntry {
    /// The entry for `ring`.
    pub fn new(ring: &TrbRing) -> (r: Result<Self, &'static str>)
        requires
            ring.wf(),
        ensures
            r == Ok::<Self, &'static str>(
                EventRingSegmentTableEntry {
                    ring_segment_base_address: ring@.base as u64,
                    ring_segment_size: 16,
                },
            ),
    {
        let n: usize = ring.num_trbs();
        if n > 0xffff {
            return Err("Too large num trbs");
        }
        Ok(
            EventRingSegmentTableEntry {
                ring_segment_base_address: ring.phys_addr(),
                ring_segment_size: n as u16,
            },
        )
    }
}

/// What the event ring holds: the blocks and where they lie, the cycle bit of new events,
/// where the dequeue pointer register lies, the waiters that someone still waits on, by
/// their names, and the names in the order in which events are offered to them.
pub struct EventRingView {
    pub ring: RingView,
    pub erst: EventRingSegmentTableEntry,
    pub erst_addr: u64,
    pub ours: bool,
    pub erdp: Option<u64>,
    pub alive: Map<usize, WaiterView>,
    pub wait_list: Seq<usize>,
}

impl EventRingView {
    /// Whether the event is for the waiter named `id`: someone waits on it, and the event
    /// meets its condition.
    pub open spec fn takes(self, id: usize, trb: GenericTrbEntry) -> bool {
        self.alive.contains_key(id) && self.alive[id].cond.admits(trb)
    }

    /// The first place in the list, at or after `from`, whose waiter the event is for; the
    /// length of the list if there is none.
    pub open spec fn first_taker(self, trb: GenericTrbEntry, from: int) -> int
        decreases self.wait_list.len() - from,
    {
        if from >= self.wait_list.len() {
            self.wait_list.len() as int
        } else if self.takes(self.wait_list[from], trb) {
            from
        } else {
            self.first_taker(trb, from + 1)
        }
    }

    /// The ring after an event was given to the first waiter that it is for.
    pub open spec fn delivered(self, trb: GenericTrbEntry) -> Self {
        let k = self.first_taker(trb, 0);
        if k < self.wait_list.len() {
            let id = self.wait_list[k];
            EventRingView { alive: self.alive.insert(id, self.alive[id].resolved(trb)), ..self }
        } else {
            self
        }
    }

    /// The ring without the names that nobody waits on any more.
    pub open spec fn without_stale(self) -> Self {
        EventRingView {
            wait_list: self.wait_list.filter(|id: usize| self.alive.contains_key(id)),
            ..self
        }
    }

    /// The ring after someone started to wait, under the name `id`, for what meets `cond`.
    pub open spec fn awaiting(self, id: usize, cond: EventWaitCond) -> Self {
        EventRingView {
            alive: self.alive.insert(id, WaiterView::fresh(cond)),
            wait_list: self.wait_list.push(id),
            ..self
        }
    }

    /// Whether the controller has put an event into the position that comes next.
    pub open spec fn has_event(self) -> bool {
        self.ring.current().cycle() == self.ours
    }

    /// The ring after taking the event in the position that comes next: one position
    /// further on, the cycle bit turned at the end of a lap.
    pub open spec fn popped(self) -> Self {
        let ring = self.ring.step();
        EventRingView {
            ring,
            ours: if ring.index == 0 {
                !self.ours
            } else {
                self.ours
            },
            ..self
        }
    }

    /// The store that tells the controller which event was taken, `erdp` having been read
    /// from the dequeue pointer register: the event's address, the low four bits kept.
    pub open spec fn erdp_store(self, erdp: u64) -> Store {
        Store::Long {
            addr: self.erdp.unwrap(),
            value: (self.ring.current_addr() + erdp % 16) as u64,
        }
    }

    /// The ring after one round of polling.
    pub open spec fn polled(self) -> Self {
        if self.has_event() {
            self.popped().delivered(self.ring.current()).without_stale()
        } else {
            self
        }
    }

    /// The stores of one round of polling.
    pub open spec fn poll_stores(self, erdp: u64) -> Seq<Store> {
        if self.has_event() {
            seq![self.erdp_store(erdp)]
        } else {
            seq![]
        }
    }

    /// The ring is a ring, and every waiter that someone waits on is in the list.
    pub open spec fn wf(self) -> bool {
        &&& self.ring.wf()
        &&& forall|id: usize| #[trigger]
            self.alive.contains_key(id) ==> self.wait_list.contains(id)
    }
}

/// The driver's side of the ring that the controller reports events on.
#[derive(Debug)]
pub struct EventRing {
    ring: TrbRing,
    erst: EventRingSegmentTableEntry,
    erst_addr: u64,
    cycle_state_ours: bool,
    erdp: Option<u64>,
    alive: HashMap<usize, EventWaitInfo>,
    wait_list: Vec<usize>,
}

/// The views of the waiters by their names.
pub open spec fn waiter_views(ws: Map<usize, EventWaitInfo>) -> Map<usize, WaiterView> {
    ws.map_values(|w: EventWaitInfo| w@)
}

impl View for EventRing {
    type V = EventRingView;

    closed spec fn view(&self) -> EventRingView {
        EventRingView {
            ring: self.ring@,
            erst: self.erst,
            erst_addr: self.erst_addr,
            ours: self.cycle_state_ours,
            erdp: self.erdp,
            alive: waiter_views(self.alive@),
            wait_list: self.wait_list@,
        }
    }
}

impl EventRing {
    pub open spec fn wf(&self) -> bool {
        self@.wf()
    }

    /// An event ring on the page at `base`, its segment table on the page at `erst_addr`.
    pub fn new(base: u64, erst_addr: u64) -> (r: Result<Self, &'static str>)
        requires
            base % 4096 == 0,
        ensures
            r matches Ok(e) && e.wf() && e@ == (EventRingView {
                ring: crate::xhci::ring::ProducerView::fresh(base as int).ring,
                erst: EventRingSegmentTableEntry {
                    ring_segment_base_address: base,
                    ring_segment_size: 16,
                },
                erst_addr,
                ours: true,
                erdp: None,
                alive: Map::empty(),
                wait_list: Seq::empty(),
            }),
    {
        let mut ring = TrbRing::new(base);
        let link = GenericTrbEntry::trb_link(ring.phys_addr());
        match ring.write(TrbRing::NUM_TRB - 1, link) {
            Ok(_) => {},
            Err(e) => {
                return Err(e);
            },
        }
        let erst = match EventRingSegmentTableEntry::new(&ring) {
            Ok(erst) => erst,
            Err(e) => {
                return Err(e);
            },
        };
        let r = EventRing {
            ring,
            erst,
            erst_addr,
            cycle_state_ours: true,
            erdp: None,
            alive: HashMap::new(),
            wait_list: Vec::new(),
        };
        assert(r@.ring.trbs =~= crate::xhci::ring::ProducerView::fresh(base as int).ring.trbs);
        assert(r@.alive =~= Map::empty());
        assert(r@.wait_list =~= Seq::empty());
        Ok(r)
    }

    /// The address of the ring.
    pub fn ring_phys_addr(&self) -> (r: u64)
        ensures
            r == self@.ring.base,
    {
        self.ring.phys_addr()
    }

    /// The address of the segment table.
    pub fn erst_phys_addr(&self) -> (r: u64)
        ensures
            r == self@.erst_addr,
    {
        self.erst_addr
    }

    /// The segment table's one entry.
    pub fn segment(&self) -> (r: EventRingSegmentTableEntry)
        ensures
            r == self@.erst,
    {
        self.erst
    }

    /// Notes where the event ring dequeue pointer register lies.
    pub fn set_erdp(&mut self, erdp: u64)
        ensures
            final(self)@ == (EventRingView { erdp: Some(erdp), ..old(self)@ }),
    {
        self.erdp = Some(erdp);
    }

    /// Where the event ring dequeue pointer register lies, if that is known.
    pub fn erdp(&self) -> (r: Option<u64>)
        ensures
            r == self@.erdp,
    {
        self.erdp
    }

    /// The address of the position that comes next, where the controller puts an event.
    pub fn current_ptr(&self) -> (r: u64)
        requires
            self.wf(),
        ensures
            r == self@.ring.current_addr(),
    {
        self.ring.current_ptr()
    }

    /// Notes what the controller has put into the position that comes next.
    pub fn observe(&mut self, trb: GenericTrbEntry)
        requires
            old(self).wf(),
        ensures
            final(self).wf(),
            final(self)@ == (EventRingView {
                ring: old(self)@.ring.write(old(self)@.ring.index, trb),
                ..old(self)@
            }),
    {
        self.ring.write_current(trb);
    }

    /// Whether there is an event to take.
    pub fn has_next_event(&self) -> (r: bool)
        requires
            self.wf(),
        ensures
            r == self@.has_event(),
    {
        self.ring.current().cycle_state() == self.cycle_state_ours
    }

    /// Takes the next event, if there is one, `erdp` having been read from the dequeue
    /// pointer register.
    pub fn pop(&mut self, erdp: u64, stores: &mut Vec<Store>) -> (r: Result<
        Option<GenericTrbEntry>,
        &'static str,
    >)
        requires
            old(self).wf(),
            old(self)@.has_event() ==> old(self)@.erdp is Some,
        ensures
            final(self).wf(),
            final(stores)@ == old(stores)@ + old(self)@.poll_stores(erdp),
            old(self)@.has_event() ==> r == Ok::<Option<GenericTrbEntry>, &'static str>(
                Some(old(self)@.ring.current()),
            ) && final(self)@ == old(self)@.popped(),
            !old(self)@.has_event() ==> r == Ok::<Option<GenericTrbEntry>, &'static str>(None)
                && final(self)@ == old(self)@,
    {
        if !self.has_next_event() {
            return Ok(None);
        }
        let e = self.ring.current();
        let eptr: u64 = self.ring.current_ptr();
        match self.ring.advance_index_notoggle(self.cycle_state_ours) {
            Ok(_) => {},
            Err(e) => {
                return Err(e);
            },
        }
        if let Some(addr) = self.erdp {
            assert(eptr | (erdp & 0b1111) == eptr + erdp % 16) by (bit_vector)
                requires
                    eptr % 16 == 0,
            ;
            stores.push(Store::Long { addr, value: eptr | (erdp & 0b1111) });
        }
        if self.ring.current_index() == 0 {
            self.cycle_state_ours = !self.cycle_state_ours;
        }
        Ok(Some(e))
    }

    /// Takes the next event, if there is one, gives it to the first waiter that it is for,
    /// and forgets the names that nobody waits on any more.
    pub fn poll(&mut self, erdp: u64, stores: &mut Vec<Store>) -> (r: Result<(), &'static str>)
        requires
            old(self).wf(),
            old(self)@.has_event() ==> old(self)@.erdp is Some,
        ensures
            final(self).wf(),
            r == Ok::<(), &'static str>(()),
            final(self)@ == old(self)@.polled(),
            final(stores)@ == old(stores)@ + old(self)@.poll_stores(erdp),
    {
        let e = match self.pop(erdp, stores) {
            Ok(Some(e)) => e,
            Ok(None) => {
                return Ok(());
            },
            Err(e) => {
                return Err(e);
            },
        };
        match self.deliver(&e) {
            Ok(_) => {},
            Err(e) => {
                return Err(e);
            },
        }
        self.forget_stale();
        Ok(())
    }

    /// Puts the waiter with this name at the end of the list, whether or not it is there
    /// already. That alone does not make anyone wait on it.
    pub fn register_waiter(&mut self, waiter: usize)
        requires
            old(self).wf(),
        ensures
            final(self).wf(),
            final(self)@ == (EventRingView {
                wait_list: old(self)@.wait_list.push(waiter),
                ..old(self)@
            }),
    {
        self.wait_list.push(waiter);
        proof {
            assert forall|id: usize| #[trigger] self@.alive.contains_key(id) implies
                self@.wait_list.contains(id) by {
                let k = choose|k: int|
                    0 <= k < old(self)@.wait_list.len() && old(self)@.wait_list[k] == id;
                assert(self@.wait_list[k] == id);
            }
        }
    }

    /// Whether a name is in the list.
    fn is_listed(&self, id: usize) -> (r: bool)
        ensures
            r == self@.wait_list.contains(id),
    {
        let mut i: usize = 0;
        while i < self.wait_list.len()
            invariant
                i <= self.wait_list@.len(),
                forall|j: int| 0 <= j < i ==> self.wait_list@[j] != id,
            decreases self.wait_list@.len() - i,
        {
            if self.wait_list[i] == id {
                return true;
            }
            i += 1;
        }
        false
    }

    /// A name that is not in the list.
    fn fresh_name(&self) -> (r: usize)
        ensures
            !self@.wait_list.contains(r),
    {
        let n: usize = self.wait_list.len();
        let mut c: usize = 0;
        while c < n
            invariant
                c <= n,
                n == self@.wait_list.len(),
                forall|d: usize| 0 <= d < c ==> #[trigger] self@.wait_list.contains(d),
            decreases n - c,
        {
            if !self.is_listed(c) {
                return c;
            }
            c += 1;
        }
        proof {
            lemma_name_left(self@.wait_list, n);
        }
        n
    }

    /// Gives an event to the first waiter that it is for.
    fn deliver(&mut self, e: &GenericTrbEntry) -> (r: Result<(), &'static str>)
        requires
            old(self).wf(),
        ensures
            final(self).wf(),
            r == Ok::<(), &'static str>(()),
            final(self)@ == old(self)@.delivered(*e),
    {
        broadcast use vstd::std_specs::hash::group_hash_axioms;

        let ghost before = self@;
        let mut i: usize = 0;
        while i < self.wait_list.len()
            invariant
                *self == *old(self),
                self.wf(),
                before == self@,
                i <= self.wait_list@.len(),
                before.first_taker(*e, 0) == before.first_taker(*e, i as int),
            decreases self.wait_list@.len() - i,
        {
            let id: usize = self.wait_list[i];
            let taken: bool = match self.alive.get(&id) {
                Some(w) => w.matches(e),
                None => false,
            };
            assert(taken == before.takes(id, *e));
            if taken {
                if let Some(mut w) = self.alive.remove(&id) {
                    let r = w.resolve(e);
                    self.alive.insert(id, w);
                    assert(self@.alive =~= before.alive.insert(id, before.alive[id].resolved(*e)));
                    return r;
                }
            }
            i += 1;
        }
        Ok(())
    }

    /// Forgets the names that nobody waits on any more.
    fn forget_stale(&mut self)
        requires
            old(self).wf(),
        ensures
            final(self).wf(),
            final(self)@ == old(self)@.without_stale(),
    {
        broadcast use vstd::std_specs::hash::group_hash_axioms;

        let ghost names = self.wait_list@;
        let ghost alive = self@.alive;
        let ghost kept = |id: usize| alive.contains_key(id);
        let mut out: Vec<usize> = Vec::new();
        let mut i: usize = 0;
        proof {
            reveal(Seq::filter);
            assert(names.take(0) =~= Seq::empty());
            assert(out@ =~= names.take(0).filter(kept));
        }
        while i < self.wait_list.len()
            invariant
                *self == *old(self),
                names == self.wait_list@,
                alive == self@.alive,
                kept == (|id: usize| alive.contains_key(id)),
                i <= names.len(),
                out@ == names.take(i as int).filter(kept),
            decreases names.len() - i,
        {
            proof {
                reveal(Seq::filter);
                assert(names.take(i + 1).drop_last() =~= names.take(i as int));
                assert(names.take(i + 1).last() == names[i as int]);
            }
            let id: usize = self.wait_list[i];
            if self.alive.contains_key(&id) {
                out.push(id);
            }
            i += 1;
        }
        assert(names.take(i as int) =~= names);
        self.wait_list = out;
        proof {
            assert forall|id: usize| #[trigger] self@.alive.contains_key(id) implies
                self@.wait_list.contains(id) by {
                lemma_kept_names_stay(names, kept, id);
            }
        }
    }
}

/// `n` names that hold all below `n` leave none for `n` itself.
proof fn lemma_name_left(names: Seq<usize>, n: usize)
    requires
        names.len() == n,
        forall|d: usize| 0 <= d < n ==> #[trigger] names.contains(d),
    ensures
        !names.contains(n),
{
    if names.contains(n) {
        let ids = names.map_values(|id: usize| id as int);
        let range = vstd::set_lib::set_int_range(0, n + 1);
        vstd::set_lib::lemma_int_range(0, n + 1);
        ids.lemma_cardinality_of_set();
        assert forall|d: int| range.contains(d) implies ids.to_set().contains(d) by {
            assert(names.contains(d as usize));
            let j = choose|j: int| 0 <= j < names.len() && names[j] == d as usize;
            assert(ids[j] == d);
        }
        vstd::set_lib::lemma_len_subset(range, ids.to_set());
    }
}

/// A name that is kept is still there.
proof fn lemma_kept_names_stay(names: Seq<usize>, kept: spec_fn(usize) -> bool, id: usize)
    requires
        names.contains(id),
        kept(id),
    ensures
        names.filter(kept).contains(id),
    decreases names.len(),
{
    reveal(Seq::filter);
    let head = names.drop_last();
    let k = choose|k: int| 0 <= k < names.len() && names[k] == id;
    if k < head.len() {
        assert(head[k] == id);
        lemma_kept_names_stay(head, kept, id);
        let j = choose|j: int| 0 <= j < head.filter(kept).len() && head.filter(kept)[j] == id;
        assert(names.filter(kept)[j] == id);
    } else {
        assert(names.filter(kept).last() == id);
    }
}

/// Someone who waits for an event.
#[derive(Debug)]
pub struct EventFuture {
    wait_on: usize,
}

impl EventFuture {
    /// The name of the waiter that this waits on.
    pub closed spec fn id(&self) -> usize {
        self.wait_on
    }

    /// The condition for the event about a transfer's block at `trb_addr`.
    pub open spec fn transfer_cond(trb_addr: u64) -> EventWaitCond {
        EventWaitCond {
            trb_type: Some(TrbType::TransferEvent),
            trb_addr: Some(trb_addr),
            slot: None,
        }
    }

    /// The condition for the event about a command's block at `trb_addr`.
    pub open spec fn command_cond(trb_addr: u64) -> EventWaitCond {
        EventWaitCond {
            trb_type: Some(TrbType::CommandCompletionEvent),
            trb_addr: Some(trb_addr),
            slot: None,
        }
    }

    /// Starts to wait for an event that meets `cond`.
    pub fn new(event_ring: &mut EventRing, cond: EventWaitCond) -> (r: Self)
        requires
            old(event_ring).wf(),
        ensures
            final(event_ring).wf(),
            !old(event_ring)@.wait_list.contains(r.id()),
            final(event_ring)@ == old(event_ring)@.awaiting(r.id(), cond),
    {
        broadcast use vstd::std_specs::hash::group_hash_axioms;

        let ghost before = event_ring@;
        let id: usize = event_ring.fresh_name();
        event_ring.register_waiter(id);
        let ghost listed = event_ring@;
        event_ring.alive.insert(id, EventWaitInfo::new(cond));
        proof {
            assert(event_ring@.alive =~= before.alive.insert(id, WaiterView::fresh(cond)));
            assert(event_ring@.wait_list[before.wait_list.len() as int] == id);
            assert forall|other: usize| #[trigger] event_ring@.alive.contains_key(other) implies
                event_ring@.wait_list.contains(other) by {
                if other != id {
                    assert(listed.alive.contains_key(other));
                }
            }
        }
        EventFuture { wait_on: id }
    }

    /// Starts to wait for the end of the transfer whose block is at `trb_addr`.
    pub fn new_for_trb(event_ring: &mut EventRing, trb_addr: u64) -> (r: Self)
        requires
            old(event_ring).wf(),
        ensures
            final(event_ring).wf(),
            !old(event_ring)@.wait_list.contains(r.id()),
            final(event_ring)@ == old(event_ring)@.awaiting(r.id(), Self::transfer_cond(trb_addr)),
    {
        Self::new(
            event_ring,
            EventWaitCond {
                trb_type: Some(TrbType::TransferEvent),
                trb_addr: Some(trb_addr),
                slot: None,
            },
        )
    }

    /// Starts to wait for the end of the command whose block is at `trb_addr`.
    pub fn new_for_command(event_ring: &mut EventRing, trb_addr: u64) -> (r: Self)
        requires
            old(event_ring).wf(),
        ensures
            final(event_ring).wf(),
            !old(event_ring)@.wait_list.contains(r.id()),
            final(event_ring)@ == old(event_ring)@.awaiting(r.id(), Self::command_cond(trb_addr)),
    {
        Self::new(
            event_ring,
            EventWaitCond {
                trb_type: Some(TrbType::CommandCompletionEvent),
                trb_addr: Some(trb_addr),
                slot: None,
            },
        )
    }

    /// Takes the first event that came, if one did.
    pub fn poll(&self, event_ring: &mut EventRing) -> (r: Option<GenericTrbEntry>)
        requires
            old(event_ring).wf(),
        ensures
            final(event_ring).wf(),
            r == old(event_ring)@.arrived(self.id()),
            final(event_ring)@ == old(event_ring)@.taken(self.id()),
    {
        broadcast use vstd::std_specs::hash::group_hash_axioms;

        let ghost before = event_ring@;
        match event_ring.alive.remove(&self.wait_on) {
            Some(mut w) => {
                let ghost waiter = w@;
                let r = w.trbs.pop_front();
                proof {
                    if waiter.trbs.len() > 0 {
                        assert(w@.trbs =~= waiter.trbs.drop_first());
                    } else {
                        assert(w@.trbs =~= waiter.trbs);
                    }
                }
                event_ring.alive.insert(self.wait_on, w);
                assert(event_ring@.alive =~= before.taken(self.id()).alive);
                r
            },
            None => {
                assert(event_ring@.alive =~= before.alive);
                None
            },
        }
    }

    /// Stops waiting: the name is forgotten the next time an event is taken.
    pub fn release(self, event_ring: &mut EventRing)
        requires
            old(event_ring).wf(),
        ensures
            final(event_ring).wf(),
            final(event_ring)@ == (EventRingView {
                alive: old(event_ring)@.alive.remove(self.id()),
                ..old(event_ring)@
            }),
    {
        broadcast use vstd::std_specs::hash::group_hash_axioms;

        let ghost before = event_ring@;
        let _ = event_ring.alive.remove(&self.wait_on);
        assert(event_ring@.alive =~= before.alive.remove(self.id()));
    }
}

impl EventRingView {
    /// The first event that came for the waiter named `id`, if one did.
    pub open spec fn arrived(self, id: usize) -> Option<GenericTrbEntry> {
        if self.alive.contains_key(id) && self.alive[id].trbs.len() > 0 {
            Some(self.alive[id].trbs[0])
        } else {
            None
        }
    }

    /// The ring after the waiter named `id` was given the first event that came for it.
    pub open spec fn taken(self, id: usize) -> Self {
        if self.arrived(id) is Some {
            let w = self.alive[id];
            EventRingView {
                alive: self.alive.insert(id, WaiterView { trbs: w.trbs.drop_first(), ..w }),
                ..self
            }
        } else {
            self
        }
    }
}

/// The event goes to the earliest waiter in the list that it is for, and to no other; if it
/// is for none, nothing changes.
pub proof fn law_one_waiter_per_event(v: EventRingView, trb: GenericTrbEntry)
    ensures
        v.delivered(trb).wait_list == v.wait_list,
        forall|k: int|
            0 <= k < v.wait_list.len() && v.takes(#[trigger] v.wait_list[k], trb) && (forall|j: int|
                0 <= j < k ==> !v.takes(#[trigger] v.wait_list[j], trb)) ==> v.delivered(trb).alive
                == v.alive.insert(v.wait_list[k], v.alive[v.wait_list[k]].resolved(trb)),
        (forall|k: int|
            0 <= k < v.wait_list.len() ==> !v.takes(#[trigger] v.wait_list[k], trb))
            ==> v.delivered(trb) == v,
{
    lemma_first_taker(v, trb, 0);
}

/// What [`EventRingView::first_taker`] finds.
proof fn lemma_first_taker(v: EventRingView, trb: GenericTrbEntry, from: int)
    requires
        0 <= from <= v.wait_list.len(),
    ensures
        ({
            let k = v.first_taker(trb, from);
            &&& from <= k <= v.wait_list.len()
            &&& k < v.wait_list.len() ==> v.takes(v.wait_list[k], trb)
            &&& forall|j: int| from <= j < k ==> !v.takes(#[trigger] v.wait_list[j], trb)
        }),
    decreases v.wait_list.len() - from,
{
    if from < v.wait_list.len() && !v.takes(v.wait_list[from], trb) {
        lemma_first_taker(v, trb, from + 1);
    }
}

/// Who waits for an event gets it: where someone started to wait under a new name, the event
/// that comes next meets the condition, and it is for no one who was there before, the poll
/// that takes the event brings it, and nothing else, to the one who waits.
pub proof fn law_event_reaches_its_waiter(v: EventRingView, id: usize, cond: EventWaitCond)
    requires
        v.wf(),
        !v.wait_list.contains(id),
        v.has_event(),
        cond.admits(v.ring.current()),
        forall|k: int|
            0 <= k < v.wait_list.len() ==> !v.takes(
                #[trigger] v.wait_list[k],
                v.ring.current(),
            ),
    ensures
        v.awaiting(id, cond).polled().arrived(id) == Some(v.ring.current()),
        v.awaiting(id, cond).polled().taken(id).arrived(id) is None,
{
    let e = v.ring.current();
    let w = v.awaiting(id, cond).popped();
    let n = v.wait_list.len() as int;
    assert(w.wait_list[n] == id);
    assert forall|j: int| 0 <= j < n implies !w.takes(#[trigger] w.wait_list[j], e) by {
        assert(w.wait_list[j] == v.wait_list[j]);
        assert(v.wait_list.contains(v.wait_list[j]));
    }
    law_one_waiter_per_event(w, e);
    assert(w.takes(w.wait_list[n], e));
    assert(w.delivered(e).alive == w.alive.insert(id, w.alive[id].resolved(e)));
    assert(w.alive[id].resolved(e).trbs =~= seq![e]);
}

/// The ring after `n` events were taken, the controller having provided each in time.
pub open spec fn popped_times(ring: EventRingView, n: nat) -> EventRingView
    decreases n,
{
    if n == 0 {
        ring
    } else {
        popped_times(ring, (n - 1) as nat).popped()
    }
}

/// Events are taken from one position after the other, around and around, and the cycle
/// bit that marks a new event turns with each lap.
pub proof fn law_event_ring_order(ring: EventRingView, n: nat)
    requires
        ring.wf(),
    ensures
        popped_times(ring, n).ring.index == (ring.ring.index + n) % 16,
        popped_times(ring, n).ours == (ring.ours == ((ring.ring.index + n) / 16 % 2 == 0)),
        popped_times(ring, n).ring.base == ring.ring.base,
        popped_times(ring, n).ring.trbs == ring.ring.trbs,
        popped_times(ring, n).alive == ring.alive,
        popped_times(ring, n).wait_list == ring.wait_list,
    decreases n,
{
    if n > 0 {
        law_event_ring_order(ring, (n - 1) as nat);
    }
}

/// What ends a wait: for a transfer an event of kind 32 that names the block's address, for a
/// command one of kind 33 that does; a condition that says nothing is met by all events, and one
/// on the slot looks at the highest byte of the control word.
pub proof fn law_wait_conditions(addr: u64, slot: u8, trb: GenericTrbEntry)
    ensures
        EventFuture::transfer_cond(addr).admits(trb) <==> trb.data == addr && trb.control as int
            / 0x400 % 0x40 == 32,
        EventFuture::command_cond(addr).admits(trb) <==> trb.data == addr && trb.control as int
            / 0x400 % 0x40 == 33,
        (EventWaitCond { trb_type: None, trb_addr: None, slot: None }).admits(trb),
        (EventWaitCond { trb_type: None, trb_addr: None, slot: Some(slot) }).admits(trb) <==> slot
            == trb.control as int / 0x100_0000,
        (EventWaitCond { trb_type: None, trb_addr: Some(addr), slot: None }).admits(trb) <==> addr
            == trb.data,
        forall|cond: EventWaitCond|
            #![trigger cond.admits(trb)]
            cond.admits(trb) <==> (EventWaitCond { trb_addr: None, slot: None, ..cond }).admits(trb)
                && (EventWaitCond { trb_type: None, slot: None, ..cond }).admits(trb) && (
            EventWaitCond { trb_type: None, trb_addr: None, ..cond }).admits(trb),
{
    crate::xhci::entry::law_where_fields_lie(trb);
}

/// What is written to the dequeue pointer register when an event is taken: the address that the
/// event was at, in all bits but the lowest four, which are written back as they were read.
pub proof fn law_dequeue_pointer(v: EventRingView, erdp: u64)
    requires
        v.wf(),
        v.erdp is Some,
    ensures
        v.poll_stores(erdp).len() == if (v.ring.trbs[v.ring.index].control % 2 == 1) == v.ours {
            1int
        } else {
            0
        },
        v.erdp_store(erdp) matches Store::Long { addr, value } && Some(addr) == v.erdp && value
            as int % 16 == erdp as int % 16 && value - value as int % 16 == v.ring.base + 16
            * v.ring.index,
        v.has_event() ==> v.poll_stores(erdp)[0] == v.erdp_store(erdp),
{
}

/// A round of polling takes an event if and only if the block that comes next carries the cycle
/// bit of new events. It takes that one, goes one position on, and leaves the blocks as they are;
/// who is waited on stays so.
pub proof fn law_poll_takes_one_event(v: EventRingView)
    requires
        v.wf(),
    ensures
        ({
            let there = (v.ring.trbs[v.ring.index].control % 2 == 1) == v.ours;
            let after = v.polled();
            &&& !there ==> after == v
            &&& there ==> {
                &&& after.ring.index == if v.ring.index == 15 {
                    0
                } else {
                    v.ring.index + 1
                }
                &&& after.ours == (v.ours == (v.ring.index != 15))
            }
            &&& after.ring.trbs == v.ring.trbs
            &&& after.ring.base == v.ring.base
            &&& after.erdp == v.erdp
            &&& after.erst == v.erst
            &&& after.alive.dom() == v.alive.dom()
        }),
{
    let e = v.ring.current();
    let w = v.popped();
    lemma_first_taker(w, e, 0);
    assert(w.delivered(e).alive.dom() =~= v.alive.dom());
}

/// Names that nobody waits on are dropped from the list, and no others; what is left keeps its
/// order.
pub proof fn law_stale_names_go(v: EventRingView, i: int, j: int)
    ensures
        forall|id: usize|
            #![trigger v.without_stale().wait_list.contains(id)]
            v.without_stale().wait_list.contains(id) <==> v.wait_list.contains(id)
                && v.alive.contains_key(id),
        v.without_stale().alive == v.alive,
        (forall|k: int|
            0 <= k < v.wait_list.len() ==> v.alive.contains_key(#[trigger] v.wait_list[k]))
            ==> v.without_stale() == v,
        0 <= i < j < v.without_stale().wait_list.len() ==> exists|a: int, b: int|
            0 <= a < b < v.wait_list.len() && #[trigger] v.wait_list[a]
                == v.without_stale().wait_list[i] && #[trigger] v.wait_list[b]
                == v.without_stale().wait_list[j],
{
    let kept = |id: usize| v.alive.contains_key(id);
    let names = v.wait_list;
    assert forall|id: usize|
        #![trigger names.filter(kept).contains(id)]
        names.filter(kept).contains(id) <==> names.contains(id) && v.alive.contains_key(id) by {
        if names.contains(id) && v.alive.contains_key(id) {
            lemma_kept_names_stay(names, kept, id);
        }
        if names.filter(kept).contains(id) {
            let k = choose|k: int| 0 <= k < names.filter(kept).len() && names.filter(kept)[k] == id;
            lemma_filtered(names, kept, k, k);
        }
    }
    if 0 <= i < j < names.filter(kept).len() {
        lemma_filtered(names, kept, i, j);
    }
    if forall|k: int| 0 <= k < names.len() ==> v.alive.contains_key(#[trigger] names[k]) {
        lemma_all_kept(names, kept);
    }
}

proof fn lemma_all_kept(names: Seq<usize>, kept: spec_fn(usize) -> bool)
    requires
        forall|k: int| 0 <= k < names.len() ==> kept(#[trigger] names[k]),
    ensures
        names.filter(kept) == names,
    decreases names.len(),
{
    reveal(Seq::filter);
    if names.len() > 0 {
        let head = names.drop_last();
        assert forall|k: int| 0 <= k < head.len() implies kept(#[trigger] head[k]) by {
            assert(head[k] == names[k]);
        }
        lemma_all_kept(head, kept);
        assert(names.last() == names[names.len() - 1]);
        assert(head.push(names.last()) =~= names);
    } else {
        assert(names.filter(kept) =~= names);
    }
}

/// Two names that are kept, and where they were.
proof fn lemma_filtered(names: Seq<usize>, kept: spec_fn(usize) -> bool, i: int, j: int)
    requires
        0 <= i <= j < names.filter(kept).len(),
    ensures
        exists|a: int, b: int|
            0 <= a <= b < names.len() && (i < j ==> a < b) && #[trigger] names[a] == names.filter(
                kept,
            )[i] && #[trigger] names[b] == names.filter(kept)[j] && kept(names[a]) && kept(names[b]),
    decreases names.len(),
{
    reveal(Seq::filter);
    let head = names.drop_last();
    let n = names.len() - 1;
    assert(names[n] == names.last());
    let f = head.filter(kept);
    if j < f.len() {
        lemma_filtered(head, kept, i, j);
        let (a, b) = choose|a: int, b: int|
            0 <= a <= b < head.len() && (i < j ==> a < b) && #[trigger] head[a] == f[i]
                && #[trigger] head[b] == f[j] && kept(head[a]) && kept(head[b]);
        assert(names[a] == head[a] && names[b] == head[b]);
    } else if i < f.len() {
        lemma_filtered(head, kept, i, i);
        let (a, b) = choose|a: int, b: int|
            0 <= a <= b < head.len() && (i < i ==> a < b) && #[trigger] head[a] == f[i]
                && #[trigger] head[b] == f[i] && kept(head[a]) && kept(head[b]);
        assert(names[a] == head[a]);
        assert(names[n] == names.filter(kept)[j]);
    } else {
        assert(names[n] == names.filter(kept)[i]);
    }
}

/// Who waits gets its events in the order in which they came, each once; nobody else is touched.
pub proof fn law_events_in_order(
    v: EventRingView,
    id: usize,
    other: usize,
    trb: GenericTrbEntry,
    cond: EventWaitCond,
)
    ensures
        v.alive.contains_key(id) ==> {
            let w = v.alive[id];
            &&& v.arrived(id) is Some <==> w.trbs.len() > 0
            &&& w.trbs.len() > 0 ==> v.arrived(id) == Some(w.trbs[0]) && v.taken(id).alive[id].trbs
                == w.trbs.skip(1) && v.taken(id).alive[id].cond == w.cond
            &&& w.trbs.len() == 0 ==> v.taken(id) == v
            &&& w.resolved(trb).trbs == w.trbs + seq![trb]
            &&& w.resolved(trb).cond == w.cond
        },
        !v.alive.contains_key(id) ==> v.arrived(id) is None && v.taken(id) == v,
        other != id ==> v.taken(id).arrived(other) == v.arrived(other) && v.awaiting(
            id,
            cond,
        ).arrived(other) == v.arrived(other),
        v.taken(id).wait_list == v.wait_list,
        v.taken(id).alive.dom() == v.alive.dom(),
        v.awaiting(id, cond).arrived(id) is None,
        v.awaiting(id, cond).alive[id].cond == cond,
        v.awaiting(id, cond).wait_list == v.wait_list + seq![id],
        v.awaiting(id, cond).ring == v.ring,
{
    assert(v.taken(id).alive.dom() =~= v.alive.dom());
    if v.alive.contains_key(id) {
        let w = v.alive[id];
        assert(w.resolved(trb).trbs =~= w.trbs + seq![trb]);
        if w.trbs.len() > 0 {
            assert(w.trbs.drop_first() =~= w.trbs.skip(1));
        }
    }
    assert(v.awaiting(id, cond).wait_list =~= v.wait_list + seq![id]);
}

} // verus!
