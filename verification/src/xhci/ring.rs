//! Rings of transfer request blocks.
use crate::xhci::entry::GenericTrbEntry;
use crate::xhci::entry::TrbType;
use vstd::prelude::*;

verus! {

/// What a ring holds: its blocks, the position that comes next, and where it lies.
pub struct RingView {
    pub trbs: Seq<GenericTrbEntry>,
    pub index: int,
    pub base: int,
}

impl RingView {
    /// Sixteen blocks, a position among them, and a page of their own.
    pub open spec fn wf(self) -> bool {
        &&& self.trbs.len() == 16
        &&& 0 <= self.index < 16
        &&& 0 <= self.base <= u64::MAX
        &&& self.base % 4096 == 0
    }

    /// The block that comes next.
    pub open spec fn current(self) -> GenericTrbEntry {
        self.trbs[self.index]
    }

    /// The ring with block `i` replaced.
    pub open spec fn write(self, i: int, trb: GenericTrbEntry) -> Self {
        RingView { trbs: self.trbs.update(i, trb), ..self }
    }

    /// The ring one position further on.
    pub open spec fn step(self) -> Self {
        RingView { index: (self.index + 1) % 16, ..self }
    }

    /// The address of the block that comes next.
    pub open spec fn current_addr(self) -> int {
        self.base + 16 * self.index
    }
}

/// A ring of blocks as it lies in the memory that controller and driver share.
#[derive(Debug)]
pub struct TrbRing {
    trb: [GenericTrbEntry; 16],
    current_index: usize,
    base: u64,
}

impl View for TrbRing {
    type V = RingView;

    closed spec fn view(&self) -> RingView {
        RingView {
            trbs: self.trb@,
            index: self.current_index as int,
            base: self.base as int,
        }
    }
}

impl TrbRing {
    pub const NUM_TRB: usize = 16;

    /// The position lies within the ring, and the ring on a page of its own.
    pub open spec fn wf(&self) -> bool {
        self@.wf()
    }

    /// An empty ring on the page at `base`.
    pub fn new(base: u64) -> (r: Self)
        requires
            base % 4096 == 0,
        ensures
            r.wf(),
            r@ == (RingView {
                trbs: Seq::new(
                    16,
                    |i: int| GenericTrbEntry { data: 0, option: 0, control: 0 },
                ),
                index: 0,
                base: base as int,
            }),
    {
        let zero = GenericTrbEntry { data: 0, option: 0, control: 0 };
        let r = TrbRing { trb: [zero; 16], current_index: 0, base };
        assert(r@.trbs =~= Seq::new(16, |i: int| zero));
        r
    }

    /// How many blocks the ring has.
    pub fn num_trbs(&self) -> (r: usize)
        ensures
            r == 16,
    {
        Self::NUM_TRB
    }

    /// Replaces block `index`.
    pub fn write(&mut self, index: usize, trb: GenericTrbEntry) -> (r: Result<(), &'static str>)
        requires
            old(self).wf(),
        ensures
            final(self).wf(),
            index < 16 ==> r == Ok::<(), &'static str>(()) && final(self)@ == old(self)@.write(
                index as int,
                trb,
            ),
            index >= 16 ==> r == Err::<(), &'static str>("TrbRing out of range") && final(self)@
                == old(self)@,
    {
        if index < self.num_trbs() {
            self.trb[index] = trb;
            Ok(())
        } else {
            Err("TrbRing out of range")
        }
    }

    /// The address of the ring's first block.
    pub fn phys_addr(&self) -> (r: u64)
        ensures
            r == self@.base,
    {
        self.base
    }

    /// The position that comes next.
    pub fn current_index(&self) -> (r: usize)
        ensures
            r == self@.index,
    {
        self.current_index
    }

    /// Block `index`.
    pub fn trb(&self, index: usize) -> (r: GenericTrbEntry)
        requires
            self.wf(),
            index < 16,
        ensures
            r == self@.trbs[index as int],
    {
        self.trb[index]
    }

    /// The block that comes next.
    pub fn current(&self) -> (r: GenericTrbEntry)
        requires
            self.wf(),
        ensures
            r == self@.current(),
    {
        self.trb(self.current_index)
    }

    /// The address of the block that comes next.
    pub fn current_ptr(&self) -> (r: u64)
        requires
            self.wf(),
        ensures
            r == self@.current_addr(),
    {
        self.base + 16 * (self.current_index as u64)
    }

    /// Steps over the block that comes next, which must carry the cycle bit `cycle_ours`.
    pub fn advance_index_notoggle(&mut self, cycle_ours: bool) -> (r: Result<(), &'static str>)
        requires
            old(self).wf(),
        ensures
            final(self).wf(),
            old(self)@.current().cycle() == cycle_ours ==> r == Ok::<(), &'static str>(())
                && final(self)@ == old(self)@.step(),
            old(self)@.current().cycle() != cycle_ours ==> r == Err::<(), &'static str>(
                "cycle state mismatch",
            ) && final(self)@ == old(self)@,
    {
        if self.current().cycle_state() != cycle_ours {
            return Err("cycle state mismatch");
        }
        self.current_index = (self.current_index + 1) % self.num_trbs();
        Ok(())
    }

    /// Gives the block that comes next the cycle bit `new_cycle`, which it must not have
    /// yet, and steps over it.
    pub fn advance_index(&mut self, new_cycle: bool) -> (r: Result<(), &'static str>)
        requires
            old(self).wf(),
        ensures
            final(self).wf(),
            old(self)@.current().cycle() != new_cycle ==> r == Ok::<(), &'static str>(())
                && final(self)@ == old(self)@.write(
                old(self)@.index,
                old(self)@.current().with_cycle(new_cycle),
            ).step(),
            old(self)@.current().cycle() == new_cycle ==> r == Err::<(), &'static str>(
                "cycle state mismatch",
            ) && final(self)@ == old(self)@,
    {
        if self.current().cycle_state() == new_cycle {
            return Err("cycle state mismatch");
        }
        let mut trb = self.trb[self.current_index];
        trb.set_cycle_state(new_cycle);
        self.trb[self.current_index] = trb;
        self.current_index = (self.current_index + 1) % self.num_trbs();
        Ok(())
    }

    /// Replaces the block that comes next.
    pub fn write_current(&mut self, trb: GenericTrbEntry)
        requires
            old(self).wf(),
        ensures
            final(self).wf(),
            final(self)@ == old(self)@.write(old(self)@.index, trb),
    {
        self.trb[self.current_index] = trb;
    }
}

/// What a producer ring holds: the ring, and the cycle bit of blocks that are free.
pub struct ProducerView {
    pub ring: RingView,
    pub ours: bool,
}

impl ProducerView {
    /// A ring that nothing was pushed to: zeroes, and a link in the last position.
    pub open spec fn fresh(base: int) -> Self {
        let zero = GenericTrbEntry { data: 0, option: 0, control: 0 };
        ProducerView {
            ring: RingView {
                trbs: Seq::new(
                    16,
                    |i: int|
                        if i == 15 {
                            GenericTrbEntry::link_to(base as u64)
                        } else {
                            zero
                        },
                ),
                index: 0,
                base,
            },
            ours: false,
        }
    }

    /// The ring after `src` was put into the position that comes next and handed over to
    /// the controller by turning its cycle bit.
    pub open spec fn handed_over(self, src: GenericTrbEntry) -> RingView {
        self.ring.write(self.ring.index, src.with_cycle(!self.ours)).step()
    }

    /// The ring after pushing `src`: unchanged where the position that comes next is not
    /// free; else with `src` in it, and, where a link follows, beyond the link with the
    /// meaning of the cycle bit turned.
    pub open spec fn pushed(self, src: GenericTrbEntry) -> Self {
        let over = self.handed_over(src);
        if self.ring.current().cycle() != self.ours {
            self
        } else if over.current().type_code() != TrbType::Link.code() || over.current().cycle()
            != self.ours {
            ProducerView { ring: over, ours: self.ours }
        } else {
            ProducerView {
                ring: over.write(over.index, over.current().with_cycle(!self.ours)).step(),
                ours: !self.ours,
            }
        }
    }

    /// What pushing `src` answers: the address that it went to, or why it did not go well.
    pub open spec fn push_result(self, src: GenericTrbEntry) -> Result<u64, &'static str> {
        let over = self.handed_over(src);
        if self.ring.current().cycle() != self.ours {
            Err("Command Ring is Full")
        } else if over.current().type_code() == TrbType::Link.code() && over.current().cycle()
            != self.ours {
            Err("cycle state mismatch")
        } else {
            Ok(self.ring.current_addr() as u64)
        }
    }

    /// The last position and no other holds a link, which leads back to the first; and the
    /// cycle bits tell the positions of this lap that were used from those that were not.
    pub open spec fn consistent(self) -> bool {
        &&& self.ring.trbs.len() == 16
        &&& 0 <= self.ring.index < 15
        &&& self.ring.trbs[15].type_code() == TrbType::Link.code()
        &&& self.ring.trbs[15].toggle()
        &&& self.ring.trbs[15] == GenericTrbEntry::link_to(self.ring.base as u64).with_cycle(
            self.ours,
        )
        &&& forall|i: int|
            0 <= i < 15 ==> (#[trigger] self.ring.trbs[i]).type_code() != TrbType::Link.code()
        &&& forall|i: int|
            0 <= i < 16 ==> ((#[trigger] self.ring.trbs[i]).cycle() == self.ours <==> i
                >= self.ring.index)
    }

    /// The ring after pushing all of `srcs`, first to last.
    pub open spec fn pushed_all(self, srcs: Seq<GenericTrbEntry>) -> Self
        decreases srcs.len(),
    {
        if srcs.len() == 0 {
            self
        } else {
            self.pushed_all(srcs.drop_last()).pushed(srcs.last())
        }
    }
}

/// The driver's side of a ring that the controller reads: commands, or one endpoint's
/// transfers.
#[derive(Debug)]
pub struct CommandRing {
    ring: TrbRing,
    cycle_state_ours: bool,
}

impl View for CommandRing {
    type V = ProducerView;

    closed spec fn view(&self) -> ProducerView {
        ProducerView { ring: self.ring@, ours: self.cycle_state_ours }
    }
}

impl CommandRing {
    /// The position lies within the ring, and the ring on a page of its own.
    pub open spec fn wf(&self) -> bool {
        self@.ring.wf()
    }

    /// A ring on the page at `base` that nothing was pushed to.
    pub fn new(base: u64) -> (r: Self)
        requires
            base % 4096 == 0,
        ensures
            r.wf(),
            r@ == ProducerView::fresh(base as int),
            r@.consistent(),
    {
        let mut ring = TrbRing::new(base);
        let link = GenericTrbEntry::trb_link(ring.phys_addr());
        let _ = ring.write(TrbRing::NUM_TRB - 1, link);
        let r = CommandRing { ring, cycle_state_ours: false };
        assert(r@.ring.trbs =~= ProducerView::fresh(base as int).ring.trbs);
        r
    }

    /// The address of the ring.
    pub fn ring_phys_addr(&self) -> (r: u64)
        ensures
            r == self@.ring.base,
    {
        self.ring.phys_addr()
    }

    /// The position that comes next.
    pub fn position(&self) -> (r: usize)
        ensures
            r == self@.ring.index,
    {
        self.ring.current_index()
    }

    /// The cycle bit of blocks that are free.
    pub fn free_cycle(&self) -> (r: bool)
        ensures
            r == self@.ours,
    {
        self.cycle_state_ours
    }

    /// The block in position `index`, as it lies in memory.
    pub fn block(&self, index: usize) -> (r: GenericTrbEntry)
        requires
            self.wf(),
            index < 16,
        ensures
            r == self@.ring.trbs[index as int],
    {
        self.ring.trb(index)
    }

    /// Puts `src` into the ring and hands it to the controller; answers its address.
    ///
    /// On a consistent ring that is given no links this always succeeds: the ring does not
    /// track how far the controller has come.
    pub fn push(&mut self, src: GenericTrbEntry) -> (r: Result<u64, &'static str>)
        requires
            old(self).wf(),
        ensures
            final(self).wf(),
            final(self)@ == old(self)@.pushed(src),
            r == old(self)@.push_result(src),
            old(self)@.consistent() && src.type_code() != TrbType::Link.code() ==> r is Ok
                && final(self)@.consistent(),
    {
        let ghost before = self@;
        if self.ring.current().cycle_state() != self.cycle_state_ours {
            return Err("Command Ring is Full");
        }
        let dst: u64 = self.ring.current_ptr();
        let mut trb = src;
        trb.set_cycle_state(self.cycle_state_ours);
        self.ring.write_current(trb);
        let _ = self.ring.advance_index(!self.cycle_state_ours);
        assert(self.ring@.trbs =~= before.handed_over(src).trbs);
        if self.ring.current().trb_type() == TrbType::Link.number() {
            match self.ring.advance_index(!self.cycle_state_ours) {
                Ok(_) => {
                    self.cycle_state_ours = !self.cycle_state_ours;
                },
                Err(e) => {
                    return Err(e);
                },
            }
        }
        proof {
            if before.consistent() && src.type_code() != TrbType::Link.code() {
                lemma_push(before, src);
            }
        }
        Ok(dst)
    }
}

/// Turning the cycle bit changes nothing else, and only the last turn counts.
pub proof fn lemma_with_cycle(trb: GenericTrbEntry, a: bool, b: bool)
    ensures
        trb.with_cycle(a).cycle() == a,
        trb.with_cycle(a).with_cycle(b) == trb.with_cycle(b),
        trb.with_cycle(a).type_code() == trb.type_code(),
        trb.with_cycle(a).toggle() == trb.toggle(),
        trb.with_cycle(trb.cycle()) == trb,
{
}

/// Pushing onto a consistent ring succeeds and leaves it consistent.
pub proof fn lemma_push(v: ProducerView, src: GenericTrbEntry)
    requires
        v.consistent(),
        src.type_code() != TrbType::Link.code(),
    ensures
        v.push_result(src) == Ok::<u64, &'static str>(v.ring.current_addr() as u64),
        v.pushed(src).consistent(),
        v.pushed(src).ring.base == v.ring.base,
        v.pushed(src).ring.index == (v.ring.index + 1) % 15,
        v.pushed(src).ours == (v.ours != (v.ring.index == 14)),
        v.pushed(src).ring.trbs[v.ring.index] == src.with_cycle(!v.ours),
        forall|i: int|
            0 <= i < 15 && i != v.ring.index ==> v.pushed(src).ring.trbs[i] == v.ring.trbs[i],
        v.ring.index == 14 ==> v.pushed(src).ring.trbs[15] == v.ring.trbs[15].with_cycle(!v.ours),
{
    assert forall|i: int| 0 <= i < 16 implies (#[trigger] v.ring.trbs[i]).with_cycle(
        !v.ours,
    ).type_code() == v.ring.trbs[i].type_code() by {
        lemma_with_cycle(v.ring.trbs[i], !v.ours, v.ours);
    }
    lemma_with_cycle(src, !v.ours, v.ours);
    lemma_with_cycle(v.ring.trbs[15], !v.ours, v.ours);
    lemma_with_cycle(GenericTrbEntry::link_to(v.ring.base as u64), v.ours, !v.ours);
}

/// Block number `n` of a fresh ring goes to position `n % 15`, and each time around the
/// meaning of the cycle bit turns; the controller finds each block with the cycle bit that
/// it expects on that lap, until the position is used again. The link after them keeps
/// leading back to the first position and turning the cycle bit.
pub proof fn law_ring_order(base: int, srcs: Seq<GenericTrbEntry>)
    requires
        base % 4096 == 0,
        0 <= base <= u64::MAX,
        forall|i: int|
            0 <= i < srcs.len() ==> (#[trigger] srcs[i]).type_code() != TrbType::Link.code(),
    ensures
        ({
            let n = srcs.len() as int;
            let v = ProducerView::fresh(base).pushed_all(srcs);
            &&& v.consistent()
            &&& v.ring.base == base
            &&& v.ring.index == n % 15
            &&& v.ours == (n / 15 % 2 == 1)
            &&& v.ring.trbs[15] == GenericTrbEntry::link_to(base as u64).with_cycle(v.ours)
            &&& v.ring.trbs[15].data == base
            &&& v.ring.trbs[15].toggle()
            &&& forall|k: int|
                0 <= k < n && n - 15 <= k ==> v.ring.trbs[k % 15] == (
                #[trigger] srcs[k]).with_cycle(k / 15 % 2 == 0)
        }),
    decreases srcs.len(),
{
    let n = srcs.len() as int;
    let v = ProducerView::fresh(base).pushed_all(srcs);
    if n > 0 {
        let prev = srcs.drop_last();
        law_ring_order(base, prev);
        let u = ProducerView::fresh(base).pushed_all(prev);
        assert(srcs.last() == srcs[n - 1]);
        lemma_push(u, srcs.last());
        assert forall|k: int| 0 <= k < n && n - 15 <= k implies v.ring.trbs[k % 15] == (
        #[trigger] srcs[k]).with_cycle(k / 15 % 2 == 0) by {
            if k < n - 1 {
                assert(prev[k] == srcs[k]);
                assert(k % 15 != (n - 1) % 15);
            }
        }
    }
}

/// What [`CommandRing::push`] answers for block number `srcs.len()` of a fresh ring.
pub proof fn law_ring_address(base: int, srcs: Seq<GenericTrbEntry>, next: GenericTrbEntry)
    requires
        base % 4096 == 0,
        0 <= base <= u64::MAX,
        next.type_code() != TrbType::Link.code(),
        forall|i: int|
            0 <= i < srcs.len() ==> (#[trigger] srcs[i]).type_code() != TrbType::Link.code(),
    ensures
        ProducerView::fresh(base).pushed_all(srcs).push_result(next) == Ok::<u64, &'static str>(
            (base + 16 * (srcs.len() as int % 15)) as u64,
        ),
{
    law_ring_order(base, srcs);
    lemma_push(ProducerView::fresh(base).pushed_all(srcs), next);
}

/// A ring is gone through block by block, sixteen bytes apart, and after the last block comes the
/// first again. Replacing a block leaves the others as they are.
pub proof fn law_ring_steps(ring: RingView, i: int, j: int, trb: GenericTrbEntry)
    requires
        ring.wf(),
        0 <= i < 16,
        0 <= j < 16,
    ensures
        ring.index < 15 ==> ring.step().index == ring.index + 1 && ring.step().current_addr()
            == ring.current_addr() + 16,
        ring.index == 15 ==> ring.step().index == 0 && ring.step().current_addr() == ring.base,
        ring.step().trbs == ring.trbs && ring.step().base == ring.base,
        ring.write(i, trb).trbs[j] == if i == j {
            trb
        } else {
            ring.trbs[j]
        },
        ring.write(i, trb).index == ring.index && ring.write(i, trb).base == ring.base,
{
}

/// A ring takes a block if and only if the block in its next position carries the cycle bit of
/// free blocks; a ring that is full stays as it is. Where a link that was not handed back follows,
/// the push fails though the block is in its place.
pub proof fn law_pushes_that_fail(v: ProducerView, src: GenericTrbEntry)
    requires
        v.ring.wf(),
    ensures
        ({
            let free = (v.ring.trbs[v.ring.index].control % 2 == 1) == v.ours;
            let at = (v.ring.index + 1) % 16;
            let after = v.ring.trbs[at];
            let linked = after.control as int / 0x400 % 0x40 == 6;
            let ready = (after.control % 2 == 1) == v.ours;
            &&& !free ==> v.pushed(src) == v && v.push_result(src) == Err::<u64, &'static str>(
                "Command Ring is Full",
            )
            &&& free ==> v.pushed(src).ring.trbs[v.ring.index] == src.with_cycle(!v.ours)
            &&& free && linked && !ready ==> v.push_result(src) == Err::<u64, &'static str>(
                "cycle state mismatch",
            ) && v.pushed(src).ring.index == at && v.pushed(src).ours == v.ours
            &&& free && !(linked && !ready) ==> v.push_result(src) == Ok::<u64, &'static str>(
                (v.ring.base + 16 * v.ring.index) as u64,
            )
            &&& free && !linked ==> v.pushed(src).ring.index == at && v.pushed(src).ours == v.ours
            &&& free && linked && ready ==> v.pushed(src).ring.index == (at + 1) % 16 && v.pushed(
                src,
            ).ours != v.ours
        }),
{
    let over = v.handed_over(src);
    assert(over.current() == v.ring.trbs[(v.ring.index + 1) % 16]);
}

/// The blocks of a transfer, up to a lap of them, are all found in the ring once the last of them
/// is pushed: one after the other from the position that came next before, the last position left
/// to the link, each with the cycle bit that says that it was handed over.
pub proof fn law_pushed_blocks_are_found(v: ProducerView, srcs: Seq<GenericTrbEntry>, k: int)
    requires
        v.ring.wf(),
        v.consistent(),
        srcs.len() <= 15,
        0 <= k < srcs.len(),
        forall|i: int|
            0 <= i < srcs.len() ==> (#[trigger] srcs[i]).type_code() != TrbType::Link.code(),
    ensures
        v.pushed_all(srcs).ring.index == (v.ring.index + srcs.len()) % 15,
        v.pushed_all(srcs).ring.trbs[(v.ring.index + k) % 15] == srcs[k].with_cycle(
            v.ours == (v.ring.index + k >= 15),
        ),
        v.pushed_all(srcs.take(k)).ring.current_addr() == v.ring.base + 16 * ((v.ring.index + k)
            % 15),
{
    lemma_pushed_up_to(v, srcs);
    lemma_pushed_up_to(v, srcs.take(k));
    assert(forall|i: int| 0 <= i < 30 ==> #[trigger] lap(i) == i % 15);
    assert(lap(v.ring.index + k) == (v.ring.index + k) % 15);
    assert(lap(v.ring.index + srcs.len()) == (v.ring.index + srcs.len()) % 15);
}

/// A position on this lap or the next one.
spec fn lap(i: int) -> int {
    if i < 15 {
        i
    } else {
        i - 15
    }
}

proof fn lemma_pushed_up_to(v: ProducerView, srcs: Seq<GenericTrbEntry>)
    requires
        v.ring.wf(),
        v.consistent(),
        srcs.len() <= 15,
        forall|i: int|
            0 <= i < srcs.len() ==> (#[trigger] srcs[i]).type_code() != TrbType::Link.code(),
    ensures
        ({
            let n = srcs.len() as int;
            let w = v.pushed_all(srcs);
            &&& w.consistent()
            &&& w.ring.base == v.ring.base
            &&& w.ring.index == lap(v.ring.index + n)
            &&& w.ours == (v.ours == (v.ring.index + n < 15))
            &&& forall|k: int|
                0 <= k < n ==> w.ring.trbs[lap(v.ring.index + k)] == (
                #[trigger] srcs[k]).with_cycle(v.ours == (v.ring.index + k >= 15))
        }),
    decreases srcs.len(),
{
    let n = srcs.len() as int;
    if n > 0 {
        let prev = srcs.drop_last();
        lemma_pushed_up_to(v, prev);
        let u = v.pushed_all(prev);
        let w = v.pushed_all(srcs);
        let at = u.ring.index;
        assert(srcs.last() == srcs[n - 1]);
        lemma_push(u, srcs.last());
        assert((at + 1) % 15 == if at == 14 {
            0
        } else {
            at + 1
        });
        assert(w.ring.index == lap(v.ring.index + n));
        assert(w.ours == (v.ours == (v.ring.index + n < 15)));
        assert forall|k: int| 0 <= k < n implies w.ring.trbs[lap(v.ring.index + k)] == (
        #[trigger] srcs[k]).with_cycle(v.ours == (v.ring.index + k >= 15)) by {
            let place = lap(v.ring.index + k);
            if k < n - 1 {
                assert(prev[k] == srcs[k]);
                assert(place != at);
                assert(w.ring.trbs[place] == u.ring.trbs[place]);
            } else {
                assert(place == at);
                assert(!u.ours == (v.ours == (v.ring.index + k >= 15)));
            }
        }
    }
}

} // verus!
