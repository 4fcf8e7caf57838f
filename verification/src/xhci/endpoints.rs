//! Which ring the transfers of which endpoint go through.
use crate::xhci::controller::Controller;
use crate::xhci::entry::GenericTrbEntry;
use crate::xhci::event::EventFuture;
use crate::xhci::op::Endpoint;
use crate::xhci::op::Op;
use crate::xhci::ring::CommandRing;
use crate::xhci::ring::ProducerView;
use crate::xhci::stages::DmaBuffer;
use crate::xhci::store::Store;
use vstd::prelude::*;

verus! {

/// An endpoint and its ring.
#[derive(Debug)]
pub struct EndpointRing {
    endpoint: Endpoint,
    ring: CommandRing,
}

impl EndpointRing {
    /// Which endpoint it is.
    pub closed spec fn key(&self) -> Endpoint {
        self.endpoint
    }

    /// What its ring holds.
    pub closed spec fn value(&self) -> ProducerView {
        self.ring@
    }

    /// Its ring takes whatever is no link.
    pub closed spec fn ready(&self) -> bool {
        crate::xhci::controller::ready(&self.ring)
    }
}

/// The rings by their endpoints; of two for one endpoint the later counts.
pub open spec fn ring_table(entries: Seq<EndpointRing>) -> Map<Endpoint, ProducerView>
    decreases entries.len(),
{
    if entries.len() == 0 {
        Map::empty()
    } else {
        ring_table(entries.drop_last()).insert(entries.last().key(), entries.last().value())
    }
}

/// The rings of all endpoints that were set up.
#[derive(Debug)]
pub struct EndpointRings {
    entries: Vec<EndpointRing>,
}

impl View for EndpointRings {
    type V = Map<Endpoint, ProducerView>;

    closed spec fn view(&self) -> Map<Endpoint, ProducerView> {
        ring_table(self.entries@)
    }
}

impl EndpointRings {
    /// All rings take whatever is no link.
    pub closed spec fn wf(&self) -> bool {
        forall|i: int| 0 <= i < self.entries@.len() ==> (#[trigger] self.entries@[i]).ready()
    }

    /// No endpoint was set up yet.
    pub fn new() -> (r: Self)
        ensures
            r.wf(),
            r@ == Map::<Endpoint, ProducerView>::empty(),
    {
        EndpointRings { entries: Vec::new() }
    }

    /// Where the ring of an endpoint is; the number of rings if it has none.
    fn find(&self, endpoint: Endpoint) -> (r: usize)
        ensures
            r <= self.entries@.len(),
            r < self.entries@.len() <==> self@.contains_key(endpoint),
            r < self.entries@.len() ==> self.entries@[r as int].key() == endpoint
                && self.entries@[r as int].value() == self@[endpoint],
            forall|j: int| r < j < self.entries@.len() ==> self.entries@[j].key() != endpoint,
    {
        let mut i: usize = self.entries.len();
        while i > 0
            invariant
                i <= self.entries@.len(),
                forall|j: int| i <= j < self.entries@.len() ==> self.entries@[j].key() != endpoint,
            decreases i,
        {
            i -= 1;
            if self.entries[i].endpoint == endpoint {
                proof {
                    lemma_last_counts(self.entries@, i as int);
                }
                return i;
            }
        }
        proof {
            lemma_not_there(self.entries@, endpoint);
        }
        self.entries.len()
    }

    /// Whether an endpoint was set up.
    pub fn contains(&self, endpoint: Endpoint) -> (r: bool)
        ensures
            r == self@.contains_key(endpoint),
    {
        self.find(endpoint) < self.entries.len()
    }

    /// Takes the ring of an endpoint; a ring that it had before is given up.
    pub fn insert(&mut self, endpoint: Endpoint, ring: CommandRing)
        requires
            old(self).wf(),
            crate::xhci::controller::ready(&ring),
        ensures
            final(self).wf(),
            final(self)@ == old(self)@.insert(endpoint, ring@),
    {
        self.entries.push(EndpointRing { endpoint, ring });
        assert(self.entries@.drop_last() =~= old(self).entries@);
    }

    /// Takes the event that ends the set-up of an endpoint: where it went well, the ring that
    /// the controller was given is the ring of the endpoint from then on.
    pub fn settle(&mut self, op: &Op, ring: CommandRing, event: &GenericTrbEntry) -> (r: Result<
        u8,
        &'static str,
    >)
        requires
            old(self).wf(),
            op.prepares() is Some,
            crate::xhci::controller::ready(&ring),
        ensures
            final(self).wf(),
            r == op.outcome(*event),
            r is Ok ==> final(self)@ == old(self)@.insert(op.prepares().unwrap(), ring@),
            r is Err ==> final(self)@ == old(self)@,
    {
        let answer: u8 = op.settle(event)?;
        if let Some(endpoint) = op.prepared_endpoint() {
            self.insert(endpoint, ring);
        }
        Ok(answer)
    }

    /// Starts the transfer that an operation is, with its bytes in `buf`, on the ring of the
    /// operation's endpoint.
    pub fn begin(
        &mut self,
        xhc: &mut Controller,
        op: &Op,
        buf: DmaBuffer,
        stores: &mut Vec<Store>,
    ) -> (r: Result<EventFuture, &'static str>)
        requires
            old(self).wf(),
            old(xhc).wf(),
            op.target() is Some,
            old(self)@.contains_key(op.target().unwrap()),
        ensures
            final(self).wf(),
            final(xhc).wf(),
            ({
                let endpoint = op.target().unwrap();
                let ring = old(self)@[endpoint];
                let trbs = Controller::op_trbs(*op, buf);
                &&& final(self)@ == old(self)@.insert(endpoint, ring.pushed_all(trbs))
                &&& final(xhc).transfer_started(
                    old(xhc),
                    ring,
                    ring.pushed_all(trbs),
                    trbs,
                    Controller::op_awaited(*op),
                    endpoint.slot(),
                    endpoint.dci() as int,
                    old(stores)@,
                    final(stores)@,
                    r,
                )
            }),
    {
        let ghost before = self.entries@;
        match op.endpoint() {
            Some(endpoint) => {
                let i: usize = self.find(endpoint);
                let r = xhc.begin(op, &mut self.entries[i].ring, buf, stores);
                proof {
                    assert(self.entries@ =~= before.update(i as int, self.entries@[i as int]));
                    lemma_replaced(before, i as int, self.entries@[i as int]);
                }
                r
            },
            None => Err("not a transfer"),
        }
    }
}

/// The last ring of an endpoint is the one that counts.
proof fn lemma_last_counts(entries: Seq<EndpointRing>, i: int)
    requires
        0 <= i < entries.len(),
        forall|j: int| i < j < entries.len() ==> entries[j].key() != entries[i].key(),
    ensures
        ring_table(entries).contains_key(entries[i].key()),
        ring_table(entries)[entries[i].key()] == entries[i].value(),
    decreases entries.len(),
{
    if i < entries.len() - 1 {
        lemma_last_counts(entries.drop_last(), i);
    }
}

/// An endpoint that no ring is for has none.
proof fn lemma_not_there(entries: Seq<EndpointRing>, endpoint: Endpoint)
    requires
        forall|j: int| 0 <= j < entries.len() ==> entries[j].key() != endpoint,
    ensures
        !ring_table(entries).contains_key(endpoint),
    decreases entries.len(),
{
    if entries.len() > 0 {
        assert forall|j: int| 0 <= j < entries.drop_last().len() implies entries.drop_last()[j].key()
            != endpoint by {
            assert(entries.drop_last()[j] == entries[j]);
        }
        lemma_not_there(entries.drop_last(), endpoint);
    }
}

/// Replacing the ring that counts replaces the endpoint's ring, and no other.
proof fn lemma_replaced(entries: Seq<EndpointRing>, i: int, entry: EndpointRing)
    requires
        0 <= i < entries.len(),
        entry.key() == entries[i].key(),
        forall|j: int| i < j < entries.len() ==> entries[j].key() != entry.key(),
    ensures
        ring_table(entries.update(i, entry)) == ring_table(entries).insert(
            entry.key(),
            entry.value(),
        ),
    decreases entries.len(),
{
    let after = entries.update(i, entry);
    let head = entries.drop_last();
    if i == entries.len() - 1 {
        assert(after.drop_last() =~= head);
        assert(ring_table(after) =~= ring_table(entries).insert(entry.key(), entry.value()));
    } else {
        assert(after.drop_last() =~= head.update(i, entry));
        assert(after.last() == entries.last());
        assert forall|j: int| i < j < head.len() implies head[j].key() != entry.key() by {
            assert(head[j] == entries[j]);
        }
        lemma_replaced(head, i, entry);
        assert(entries.last() == entries[entries.len() - 1]);
        assert(ring_table(after) =~= ring_table(entries).insert(entry.key(), entry.value()));
    }
}

/// A transfer to an endpoint goes through the ring that the controller was given for that
/// endpoint. Here `op` set the endpoint up, well, with a fresh ring at `base`; any transfers
/// followed, each on the ring of its endpoint; and then the endpoint's ring still lies at
/// `base`, and the transfers to other endpoints have not touched it.
pub proof fn law_transfers_use_the_ring_of_their_endpoint(
    table: Map<Endpoint, ProducerView>,
    op: Op,
    base: int,
    transfers: Seq<(Op, DmaBuffer)>,
)
    requires
        op.prepares() is Some,
        base % 4096 == 0,
        0 <= base <= u64::MAX,
        forall|i: int|
            0 <= i < transfers.len() ==> ((#[trigger] transfers[i]).0.target() is Some
                && table.insert(op.prepares().unwrap(), ProducerView::fresh(base)).contains_key(
                transfers[i].0.target().unwrap(),
            )),
    ensures
        ({
            let endpoint = op.prepares().unwrap();
            let ready = table.insert(endpoint, ProducerView::fresh(base));
            let after = used(ready, transfers);
            &&& after.dom() == ready.dom()
            &&& after[endpoint].consistent()
            &&& after[endpoint].ring.base == base
            &&& after[endpoint] == ProducerView::fresh(base).pushed_all(
                pushed_to(transfers, endpoint),
            )
        }),
    decreases transfers.len(),
{
    let endpoint = op.prepares().unwrap();
    let ready = table.insert(endpoint, ProducerView::fresh(base));
    let sent = pushed_to(transfers, endpoint);
    if transfers.len() > 0 {
        let before = transfers.drop_last();
        assert forall|i: int| 0 <= i < before.len() implies ((
        #[trigger] before[i]).0.target() is Some && ready.contains_key(
            before[i].0.target().unwrap(),
        )) by {
            assert(before[i] == transfers[i]);
        }
        law_transfers_use_the_ring_of_their_endpoint(table, op, base, before);
        assert(transfers.last() == transfers[transfers.len() - 1]);
        let trbs = Controller::op_trbs(transfers.last().0, transfers.last().1);
        if transfers.last().0.target() == Some(endpoint) {
            lemma_pushed_all(ProducerView::fresh(base), pushed_to(before, endpoint), trbs);
        }
        assert(used(ready, transfers).dom() =~= ready.dom());
    }
    lemma_no_links(transfers, endpoint);
    crate::xhci::ring::law_ring_order(base, sent);
}

/// The rings after these transfers, each on the ring of its endpoint.
pub open spec fn used(
    table: Map<Endpoint, ProducerView>,
    transfers: Seq<(Op, DmaBuffer)>,
) -> Map<Endpoint, ProducerView>
    decreases transfers.len(),
{
    if transfers.len() == 0 {
        table
    } else {
        let before = used(table, transfers.drop_last());
        let (op, buf) = transfers.last();
        let endpoint = op.target().unwrap();
        before.insert(endpoint, before[endpoint].pushed_all(Controller::op_trbs(op, buf)))
    }
}

/// The blocks of those of these transfers that are to or from `endpoint`.
pub open spec fn pushed_to(
    transfers: Seq<(Op, DmaBuffer)>,
    endpoint: Endpoint,
) -> Seq<GenericTrbEntry>
    decreases transfers.len(),
{
    if transfers.len() == 0 {
        seq![]
    } else {
        let before = pushed_to(transfers.drop_last(), endpoint);
        let (op, buf) = transfers.last();
        if op.target() == Some(endpoint) {
            before + Controller::op_trbs(op, buf)
        } else {
            before
        }
    }
}

/// Pushing in two parts is pushing all.
proof fn lemma_pushed_all(v: ProducerView, a: Seq<GenericTrbEntry>, b: Seq<GenericTrbEntry>)
    ensures
        v.pushed_all(a + b) == v.pushed_all(a).pushed_all(b),
    decreases b.len(),
{
    if b.len() == 0 {
        assert(a + b =~= a);
    } else {
        assert((a + b).drop_last() =~= a + b.drop_last());
        assert((a + b).last() == b.last());
        lemma_pushed_all(v, a, b.drop_last());
    }
}

/// No block of a transfer is a link.
proof fn lemma_no_links(transfers: Seq<(Op, DmaBuffer)>, endpoint: Endpoint)
    ensures
        forall|i: int|
            0 <= i < pushed_to(transfers, endpoint).len() ==> (#[trigger] pushed_to(
                transfers,
                endpoint,
            )[i]).type_code() != crate::xhci::entry::TrbType::Link.code(),
    decreases transfers.len(),
{
    if transfers.len() > 0 {
        lemma_no_links(transfers.drop_last(), endpoint);
        let trbs = Controller::op_trbs(transfers.last().0, transfers.last().1);
        let before = pushed_to(transfers.drop_last(), endpoint);
        let all = pushed_to(transfers, endpoint);
        assert forall|i: int| 0 <= i < all.len() implies (#[trigger] all[i]).type_code()
            != crate::xhci::entry::TrbType::Link.code() by {
            if i < before.len() {
                assert(all[i] == before[i]);
            } else {
                assert(all[i] == trbs[i - before.len()]);
            }
        }
    }
}

} // verus!
