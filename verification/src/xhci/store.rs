//! What is to be stored into registers and shared memory.
use crate::xhci::entry::GenericTrbEntry;
use crate::xhci::entry::TrbType;
use crate::xhci::ring::CommandRing;
use vstd::prelude::*;

verus! {

/// One store, for whoever owns the hardware to perform.
#[allow(inconsistent_fields)]
#[derive(Debug, Copy, Clone, PartialEq, Eq, Structural)]
pub enum Store {
    /// The sixteen bytes of a block, the word with the cycle bit last.
    Trb { addr: u64, trb: GenericTrbEntry },
    /// Thirty-two bits, in a register or in memory.
    Word { addr: u64, value: u32 },
    /// Sixty-four bits, in a register or in memory.
    Long { addr: u64, value: u64 },
    /// A 32-bit register that gets the bits of `mask` as ones, all others back as they are
    /// read.
    SetBits { addr: u64, mask: u32 },
}

impl Store {
    /// What a store writes to its 32-bit register, `read` having been read from it just
    /// before; none if it is no store of thirty-two bits.
    pub open spec fn writes(self, read: u32) -> Option<u32> {
        match self {
            Store::Word { addr, value } => Some(value),
            Store::SetBits { addr, mask } => Some(read | mask),
            _ => None,
        }
    }

    /// What a store writes to its 32-bit register, `read` having been read from it.
    pub fn word(&self, read: u32) -> (r: Option<u32>)
        ensures
            r == self.writes(read),
    {
        match *self {
            Store::Word { value, .. } => Some(value),
            Store::SetBits { mask, .. } => Some(read | mask),
            _ => None,
        }
    }
}

/// The stores that pushing `src` onto a ring takes: the block is cleared, filled with the
/// cycle bit as it was, and handed over by turning the bit; then, where the ring was used
/// up to its link, the link's bit is turned too.
pub open spec fn push_stores(
    v: crate::xhci::ring::ProducerView,
    src: GenericTrbEntry,
) -> Seq<Store> {
    let addr = v.ring.current_addr() as u64;
    let block = seq![
        Store::Trb { addr, trb: GenericTrbEntry { data: 0, option: 0, control: 0 } },
        Store::Trb { addr, trb: src.with_cycle(v.ours) },
        Store::Trb { addr, trb: src.with_cycle(!v.ours) },
    ];
    if v.ring.index == 14 {
        block.push(
            Store::Trb {
                addr: (v.ring.base + 240) as u64,
                trb: v.ring.trbs[15].with_cycle(!v.ours),
            },
        )
    } else {
        block
    }
}

/// The stores that pushing all of `srcs` takes, first to last.
pub open spec fn push_all_stores(
    v: crate::xhci::ring::ProducerView,
    srcs: Seq<GenericTrbEntry>,
) -> Seq<Store>
    decreases srcs.len(),
{
    if srcs.len() == 0 {
        seq![]
    } else {
        push_all_stores(v, srcs.drop_last()) + push_stores(
            v.pushed_all(srcs.drop_last()),
            srcs.last(),
        )
    }
}

/// The store that puts the link of a fresh ring at `base` into memory.
pub open spec fn fresh_link_store(base: u64) -> Store {
    Store::Trb { addr: (base + 240) as u64, trb: GenericTrbEntry::link_to(base) }
}

/// The store that puts a ring's link into memory.
pub fn link_store(ring: &CommandRing) -> (r: Store)
    requires
        ring.wf(),
    ensures
        r == (Store::Trb { addr: (ring@.ring.base + 240) as u64, trb: ring@.ring.trbs[15] }),
{
    Store::Trb { addr: ring.ring_phys_addr() + 240, trb: ring.block(15) }
}

/// Pushes a block onto a ring and notes the stores that put it into memory.
pub fn submit(ring: &mut CommandRing, src: GenericTrbEntry, stores: &mut Vec<Store>) -> (r: Result<
    u64,
    &'static str,
>)
    requires
        old(ring).wf(),
        old(ring)@.consistent(),
        src.type_code() != TrbType::Link.code(),
    ensures
        final(ring).wf(),
        final(ring)@.consistent(),
        final(ring)@ == old(ring)@.pushed(src),
        r == Ok::<u64, &'static str>(old(ring)@.ring.current_addr() as u64),
        final(stores)@ == old(stores)@ + push_stores(old(ring)@, src),
{
    let ghost v = ring@;
    proof {
        crate::xhci::ring::lemma_push(v, src);
    }
    let at: usize = ring.position();
    let mut filled = src;
    filled.set_cycle_state(ring.free_cycle());
    let addr: u64 = match ring.push(src) {
        Ok(addr) => addr,
        Err(e) => {
            return Err(e);
        },
    };
    stores.push(Store::Trb { addr, trb: GenericTrbEntry::default() });
    stores.push(Store::Trb { addr, trb: filled });
    stores.push(Store::Trb { addr, trb: ring.block(at) });
    if at == 14 {
        stores.push(Store::Trb { addr: ring.ring_phys_addr() + 240, trb: ring.block(15) });
    }
    Ok(addr)
}

/// The blocks in memory after a store: a store of a block puts it where it says.
pub open spec fn stored(mem: spec_fn(u64) -> GenericTrbEntry, store: Store) -> spec_fn(
    u64,
) -> GenericTrbEntry {
    match store {
        Store::Trb { addr, trb } => |a: u64|
            if a == addr {
                trb
            } else {
                mem(a)
            },
        _ => mem,
    }
}

/// The blocks in memory after `stores`, first to last.
pub open spec fn all_stored(mem: spec_fn(u64) -> GenericTrbEntry, stores: Seq<Store>) -> spec_fn(
    u64,
) -> GenericTrbEntry
    decreases stores.len(),
{
    if stores.len() == 0 {
        mem
    } else {
        stored(all_stored(mem, stores.drop_last()), stores.last())
    }
}

/// The blocks of a ring lie in memory, sixteen bytes apart.
pub open spec fn in_memory(
    mem: spec_fn(u64) -> GenericTrbEntry,
    ring: crate::xhci::ring::RingView,
) -> bool {
    forall|i: int|
        0 <= i < 16 ==> mem((ring.base + 16 * i) as u64) == #[trigger] ring.trbs[i]
}

/// Pushing stores blocks and nothing else.
pub proof fn lemma_only_blocks(
    v: crate::xhci::ring::ProducerView,
    srcs: Seq<GenericTrbEntry>,
)
    ensures
        forall|i: int|
            0 <= i < push_all_stores(v, srcs).len() ==> (#[trigger] push_all_stores(
                v,
                srcs,
            )[i]) is Trb,
    decreases srcs.len(),
{
    if srcs.len() > 0 {
        lemma_only_blocks(v, srcs.drop_last());
    }
}

/// Stores one after the other are the stores together.
proof fn lemma_all_stored(mem: spec_fn(u64) -> GenericTrbEntry, a: Seq<Store>, b: Seq<Store>)
    ensures
        all_stored(mem, a + b) == all_stored(all_stored(mem, a), b),
    decreases b.len(),
{
    if b.len() == 0 {
        assert(a + b =~= a);
    } else {
        assert((a + b).drop_last() =~= a + b.drop_last());
        assert((a + b).last() == b.last());
        lemma_all_stored(mem, a, b.drop_last());
    }
}

/// The stores of a push, one by one.
proof fn lemma_push_stored(
    mem: spec_fn(u64) -> GenericTrbEntry,
    v: crate::xhci::ring::ProducerView,
    src: GenericTrbEntry,
)
    requires
        v.ring.wf(),
        v.consistent(),
        src.type_code() != TrbType::Link.code(),
    ensures
        ({
            let after = all_stored(mem, push_stores(v, src));
            &&& after(v.ring.current_addr() as u64) == src.with_cycle(!v.ours)
            &&& v.ring.index == 14 ==> after((v.ring.base + 240) as u64)
                == v.ring.trbs[15].with_cycle(!v.ours)
            &&& forall|a: u64|
                a != v.ring.current_addr() && (v.ring.index == 14 ==> a != v.ring.base + 240)
                    ==> #[trigger] after(a) == mem(a)
        }),
{
    let stores = push_stores(v, src);
    reveal_with_fuel(all_stored, 5);
    assert(stores.take(3).drop_last() =~= stores.take(2));
    assert(stores.take(2).drop_last() =~= stores.take(1));
    assert(stores.take(1).drop_last() =~= stores.take(0));
    if v.ring.index == 14 {
        assert(stores.drop_last() =~= stores.take(3));
    } else {
        assert(stores =~= stores.take(3));
    }
}

/// What the controller finds in memory is what the ring holds: where the ring's blocks lie
/// in memory before blocks are pushed and their stores are performed, they do so after, and
/// no other memory has changed.
pub proof fn law_memory_follows_the_ring(
    mem: spec_fn(u64) -> GenericTrbEntry,
    v: crate::xhci::ring::ProducerView,
    srcs: Seq<GenericTrbEntry>,
)
    requires
        v.ring.wf(),
        v.consistent(),
        in_memory(mem, v.ring),
        forall|i: int|
            0 <= i < srcs.len() ==> (#[trigger] srcs[i]).type_code() != TrbType::Link.code(),
    ensures
        v.pushed_all(srcs).ring.wf(),
        v.pushed_all(srcs).consistent(),
        v.pushed_all(srcs).ring.base == v.ring.base,
        in_memory(all_stored(mem, push_all_stores(v, srcs)), v.pushed_all(srcs).ring),
        forall|a: u64|
            !(v.ring.base <= a < v.ring.base + 256) ==> #[trigger] all_stored(
                mem,
                push_all_stores(v, srcs),
            )(a) == mem(a),
    decreases srcs.len(),
{
    if srcs.len() > 0 {
        let prev = srcs.drop_last();
        let u = v.pushed_all(prev);
        let m = all_stored(mem, push_all_stores(v, prev));
        law_memory_follows_the_ring(mem, v, prev);
        assert(srcs.last() == srcs[srcs.len() - 1]);
        crate::xhci::ring::lemma_push(u, srcs.last());
        lemma_all_stored(mem, push_all_stores(v, prev), push_stores(u, srcs.last()));
        lemma_push_stored(m, u, srcs.last());
        let after = all_stored(m, push_stores(u, srcs.last()));
        let w = v.pushed_all(srcs);
        assert forall|i: int| 0 <= i < 16 implies after((w.ring.base + 16 * i) as u64)
            == #[trigger] w.ring.trbs[i] by {
            assert(m((u.ring.base + 16 * i) as u64) == u.ring.trbs[i]);
        }
    }
}

/// A fresh ring lies in memory once its link is stored into zeroes.
pub proof fn law_fresh_rings_lie_in_memory(mem: spec_fn(u64) -> GenericTrbEntry, base: u64)
    requires
        base % 4096 == 0,
        forall|i: int|
            0 <= i < 16 ==> #[trigger] mem((base + 16 * i) as u64) == (GenericTrbEntry {
                data: 0,
                option: 0,
                control: 0,
            }),
    ensures
        in_memory(
            stored(mem, fresh_link_store(base)),
            crate::xhci::ring::ProducerView::fresh(base as int).ring,
        ),
{
}

/// While the free blocks of a ring have the cycle bit zero, a block is handed over whole:
/// only the last of its stores turns its cycle bit in memory.
pub proof fn law_blocks_are_handed_over_whole(
    mem: spec_fn(u64) -> GenericTrbEntry,
    v: crate::xhci::ring::ProducerView,
    src: GenericTrbEntry,
)
    requires
        v.ring.wf(),
        v.consistent(),
        in_memory(mem, v.ring),
        src.type_code() != TrbType::Link.code(),
        !v.ours,
    ensures
        ({
            let stores = push_stores(v, src);
            let addr = v.ring.current_addr() as u64;
            &&& !mem(addr).cycle()
            &&& !all_stored(mem, stores.take(1))(addr).cycle()
            &&& !all_stored(mem, stores.take(2))(addr).cycle()
            &&& all_stored(mem, stores.take(3))(addr) == src.with_cycle(true)
        }),
{
    let stores = push_stores(v, src);
    reveal_with_fuel(all_stored, 4);
    assert(v.ring.trbs[v.ring.index].cycle() == v.ours);
    assert(stores.take(3).drop_last() =~= stores.take(2));
    assert(stores.take(2).drop_last() =~= stores.take(1));
    assert(stores.take(1).drop_last() =~= stores.take(0));
    crate::xhci::ring::lemma_with_cycle(src, false, true);
}

/// A store that sets bits leaves every other bit as it was read, and a store of a word writes
/// that word, whatever was read. Blocks and 64-bit values are no stores of one 32-bit register.
pub proof fn law_set_bits_keeps_the_others(addr: u64, mask: u32, read: u32, value: u32, pos: u32)
    requires
        pos < 32,
    ensures
        (Store::SetBits { addr, mask }).writes(read) matches Some(w) && ((w >> pos) & 1 == if (mask
            >> pos) & 1 == 1 {
            1
        } else {
            (read >> pos) & 1
        }),
        (Store::Word { addr, value }).writes(read) == Some(value),
{
    assert(((read | mask) >> pos) & 1 == if (mask >> pos) & 1 == 1 {
        1
    } else {
        (read >> pos) & 1
    }) by (bit_vector);
}

} // verus!
