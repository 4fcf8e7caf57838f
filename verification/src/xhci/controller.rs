//! The controller as the driver holds it, and the requests that go through it.
use crate::xhci::context::DeviceContextBaseAddressArray;
use crate::xhci::context::EndpointContext;
use crate::xhci::context::EndpointType;
use crate::xhci::context::InputContext;
use crate::xhci::context::InputControlContext;
use crate::xhci::context::ScratchpadBuffers;
use crate::xhci::descriptor::EndpointDescriptor;
use crate::xhci::descriptor::UsbDescriptorType;
use crate::xhci::entry::GenericTrbEntry;
use crate::xhci::entry::TrbType;
use crate::xhci::event::EventFuture;
use crate::xhci::event::EventRing;
use crate::xhci::event::EventRingView;
use crate::xhci::op::Op;
use crate::xhci::port::PortReset;
use crate::xhci::registers::OperationalRegisters;
use crate::xhci::registers::XhcRegisters;
use crate::xhci::ring::CommandRing;
use crate::xhci::ring::ProducerView;
use crate::xhci::stages::DataStageTrb;
use crate::xhci::stages::DmaBuffer;
use crate::xhci::stages::NormalTrb;
use crate::xhci::stages::SetupStageTrb;
use crate::xhci::stages::StatusStageTrb;
use crate::xhci::store::link_store;
use crate::xhci::store::submit;
use crate::xhci::store::Store;
use vstd::prelude::*;

verus! {

/// A controller that was set up.
#[derive(Debug)]
pub struct Controller {
    pub regs: XhcRegisters,
    pub device_context_base_array: DeviceContextBaseAddressArray,
    pub primary_event_ring: EventRing,
    pub command_ring: CommandRing,
}

/// A ring that takes whatever is no link.
pub open spec fn ready(ring: &CommandRing) -> bool {
    ring.wf() && ring@.consistent()
}

/// Where block `k` of `trbs` goes when all of them are pushed.
pub open spec fn block_addr(v: ProducerView, trbs: Seq<GenericTrbEntry>, k: int) -> u64 {
    v.pushed_all(trbs.take(k)).ring.current_addr() as u64
}

impl Controller {
    pub const FEATURE_ENDPOINT_HALT: u16 = 0;

    /// The status bits that are cleared, by writing ones to them, after an endpoint's
    /// doorbell was rung: event interrupt, port change, and bit 4.
    pub const STATUS_TO_CLEAR: u32 = 0x1c;

    /// The registers have addresses, the rings are rings, and the event ring knows where its
    /// dequeue pointer register lies.
    pub open spec fn wf(&self) -> bool {
        &&& self.regs.wf()
        &&& self.primary_event_ring.wf()
        &&& self.primary_event_ring@.erdp is Some
        &&& ready(&self.command_ring)
    }

    /// The stores that ring an endpoint's doorbell and clear the status.
    pub open spec fn notify_stores(&self, slot: u8, dci: int) -> Seq<Store> {
        seq![
            self.regs.doorbell_regs@[slot as int].ring(dci as u8, 0),
            Store::SetBits { addr: (self.regs.op_base + 4) as u64, mask: 0x1c },
        ]
    }

    /// What ringing an endpoint's doorbell answers.
    pub open spec fn notify_result(&self, slot: u8, dci: int) -> Result<(), &'static str> {
        if slot >= self.regs.doorbell_regs@.len() {
            Err("Invalid slot")
        } else if dci > 255 {
            Err("dci out of range")
        } else {
            Ok(())
        }
    }

    /// All but the event ring and the command ring is as it was.
    pub open spec fn same_setup(&self, other: &Self) -> bool {
        &&& self.regs == other.regs
        &&& self.device_context_base_array == other.device_context_base_array
    }

    /// Whether starting a transfer, from the state `before` to the state `self`, went as it
    /// should: the blocks `trbs` were pushed onto the endpoint's ring, from `ring` to
    /// `ring_after`; and, where the endpoint's doorbell can be rung, it was rung, and the
    /// event about block `k` is waited for.
    pub open spec fn transfer_started(
        &self,
        before: &Self,
        ring: ProducerView,
        ring_after: ProducerView,
        trbs: Seq<GenericTrbEntry>,
        k: int,
        slot: u8,
        dci: int,
        stores: Seq<Store>,
        stores_after: Seq<Store>,
        r: Result<EventFuture, &'static str>,
    ) -> bool {
        let pushed = stores + crate::xhci::store::push_all_stores(ring, trbs);
        let events = before.primary_event_ring@;
        &&& self.same_setup(before)
        &&& self.command_ring == before.command_ring
        &&& ring_after == ring.pushed_all(trbs)
        &&& match before.notify_result(slot, dci) {
            Ok(_) => {
                &&& r is Ok
                &&& stores_after == pushed + before.notify_stores(slot, dci)
                &&& !events.wait_list.contains(r->Ok_0.id())
                &&& self.primary_event_ring@ == events.awaiting(
                    r->Ok_0.id(),
                    EventFuture::transfer_cond(block_addr(ring, trbs, k)),
                )
            },
            Err(e) => {
                &&& r == Err::<EventFuture, &'static str>(e)
                &&& stores_after == pushed
                &&& self.primary_event_ring@ == events
            },
        }
    }

    /// Whether starting a command, from the state `before` to the state `self`, went as it
    /// should: `cmd` was pushed onto the command ring, the controller's doorbell was rung,
    /// and the event about the command is waited for.
    pub open spec fn command_started(
        &self,
        before: &Self,
        cmd: GenericTrbEntry,
        stores: Seq<Store>,
        stores_after: Seq<Store>,
        r: Result<EventFuture, &'static str>,
    ) -> bool {
        let ring = before.command_ring@;
        let events = before.primary_event_ring@;
        &&& self.regs == before.regs
        &&& self.command_ring@ == ring.pushed(cmd)
        &&& r is Ok
        &&& stores_after == stores + crate::xhci::store::push_stores(ring, cmd) + seq![
            before.regs.doorbell_regs@[0].ring(0, 0),
        ]
        &&& !events.wait_list.contains(r->Ok_0.id())
        &&& self.primary_event_ring@ == events.awaiting(
            r->Ok_0.id(),
            EventFuture::command_cond(ring.ring.current_addr() as u64),
        )
    }

    /// Gives the controller a command; answers who waits for its completion.
    pub fn send_command(&mut self, cmd: GenericTrbEntry, stores: &mut Vec<Store>) -> (r: Result<
        EventFuture,
        &'static str,
    >)
        requires
            old(self).wf(),
            cmd.type_code() != TrbType::Link.code(),
        ensures
            final(self).wf(),
            final(self).same_setup(old(self)),
            final(self).command_started(old(self), cmd, old(stores)@, final(stores)@, r),
    {
        let cmd_ptr: u64 = submit(&mut self.command_ring, cmd, stores)?;
        self.notify_xhc(stores);
        Ok(EventFuture::new_for_command(&mut self.primary_event_ring, cmd_ptr))
    }

    /// Rings the controller's doorbell.
    fn notify_xhc(&self, stores: &mut Vec<Store>)
        requires
            self.regs.wf(),
        ensures
            final(stores)@ == old(stores)@ + seq![self.regs.doorbell_regs@[0].ring(0, 0)],
    {
        stores.push(self.regs.doorbell_regs[0].notify(0, 0));
    }

    /// Rings an endpoint's doorbell and clears the status.
    pub fn notify_ep(&self, slot: u8, dci: usize, stores: &mut Vec<Store>) -> (r: Result<
        (),
        &'static str,
    >)
        requires
            self.regs.wf(),
        ensures
            r == self.notify_result(slot, dci as int),
            r is Ok ==> final(stores)@ == old(stores)@ + self.notify_stores(slot, dci as int),
            r is Err ==> final(stores)@ == old(stores)@,
    {
        if slot as usize >= self.regs.doorbell_regs.len() {
            return Err("Invalid slot");
        }
        let db = self.regs.doorbell_regs[slot as usize];
        if dci > 255 {
            return Err("dci out of range");
        }
        stores.push(db.notify(dci as u8, 0));
        stores.push(
            Store::SetBits {
                addr: self.regs.op_base + OperationalRegisters::USBSTS,
                mask: Self::STATUS_TO_CLEAR,
            },
        );
        Ok(())
    }

    /// Pushes the blocks of a transfer, rings the endpoint's doorbell, and starts to wait for
    /// the event about block `k`.
    fn start_transfer(
        &mut self,
        ring: &mut CommandRing,
        trbs: Vec<GenericTrbEntry>,
        k: usize,
        slot: u8,
        dci: usize,
        stores: &mut Vec<Store>,
    ) -> (r: Result<EventFuture, &'static str>)
        requires
            old(self).wf(),
            ready(old(ring)),
            k < trbs@.len(),
            forall|i: int|
                0 <= i < trbs@.len() ==> (#[trigger] trbs@[i]).type_code() != TrbType::Link.code(),
        ensures
            final(self).wf(),
            ready(final(ring)),
            final(self).transfer_started(
                old(self),
                old(ring)@,
                final(ring)@,
                trbs@,
                k as int,
                slot,
                dci as int,
                old(stores)@,
                final(stores)@,
                r,
            ),
    {
        let ghost v = ring@;
        let mut wait_for: u64 = 0;
        let mut i: usize = 0;
        proof {
            assert(trbs@.take(0) =~= Seq::empty());
            assert(stores@ =~= old(stores)@ + crate::xhci::store::push_all_stores(
                v,
                trbs@.take(0),
            ));
        }
        while i < trbs.len()
            invariant
                i <= trbs@.len(),
                k < trbs@.len(),
                ready(ring),
                ring@ == v.pushed_all(trbs@.take(i as int)),
                stores@ =~= old(stores)@ + crate::xhci::store::push_all_stores(
                    v,
                    trbs@.take(i as int),
                ),
                i > k ==> wait_for == block_addr(v, trbs@, k as int),
                forall|i: int|
                    0 <= i < trbs@.len() ==> (#[trigger] trbs@[i]).type_code()
                        != TrbType::Link.code(),
            decreases trbs@.len() - i,
        {
            proof {
                let next = trbs@.take(i + 1);
                assert(next.drop_last() =~= trbs@.take(i as int));
                assert(next.last() == trbs@[i as int]);
            }
            match submit(ring, trbs[i], stores) {
                Ok(addr) => {
                    if i == k {
                        wait_for = addr;
                    }
                },
                Err(e) => {
                    return Err(e);
                },
            }
            i += 1;
        }
        assert(trbs@.take(i as int) =~= trbs@);
        self.notify_ep(slot, dci, stores)?;
        Ok(EventFuture::new_for_trb(&mut self.primary_event_ring, wait_for))
    }

    /// The blocks of the request that selects a configuration.
    pub open spec fn set_config_trbs(config_value: u8) -> Seq<GenericTrbEntry> {
        seq![
            crate::xhci::stages::setup_trb(0, 9, config_value as u16, 0, 0),
            crate::xhci::stages::status_in_trb(),
        ]
    }

    /// Asks the device in `slot` to select a configuration.
    pub fn request_set_config(
        &mut self,
        slot: u8,
        ctrl_ep_ring: &mut CommandRing,
        config_value: u8,
        stores: &mut Vec<Store>,
    ) -> (r: Result<EventFuture, &'static str>)
        requires
            old(self).wf(),
            ready(old(ctrl_ep_ring)),
        ensures
            final(self).wf(),
            ready(final(ctrl_ep_ring)),
            final(self).transfer_started(
                old(self),
                old(ctrl_ep_ring)@,
                final(ctrl_ep_ring)@,
                Self::set_config_trbs(config_value),
                1,
                slot,
                1,
                old(stores)@,
                final(stores)@,
                r,
            ),
    {
        let mut trbs: Vec<GenericTrbEntry> = Vec::new();
        trbs.push(
            SetupStageTrb::new(
                0,
                SetupStageTrb::REQ_SET_CONFIGURATION,
                config_value as u16,
                0,
                0,
            ).into(),
        );
        trbs.push(StatusStageTrb::new_in().into());
        assert(trbs@ =~= Self::set_config_trbs(config_value));
        self.start_transfer(ctrl_ep_ring, trbs, 1, slot, 1, stores)
    }

    /// The blocks of the request for a descriptor.
    pub open spec fn descriptor_trbs(
        desc_type: UsbDescriptorType,
        desc_index: u8,
        lang_id: u16,
        buf: DmaBuffer,
    ) -> Seq<GenericTrbEntry> {
        seq![
            crate::xhci::stages::setup_trb(
                0x80,
                6,
                (0x100 * desc_type.code() + desc_index) as u16,
                lang_id,
                buf.len16(),
            ),
            crate::xhci::stages::data_in_trb(buf),
            crate::xhci::stages::status_out_trb(),
        ]
    }

    /// Asks the device in `slot` for a descriptor, which is to come into `buf`.
    pub fn request_descriptor(
        &mut self,
        slot: u8,
        ctrl_ep_ring: &mut CommandRing,
        desc_type: UsbDescriptorType,
        desc_index: u8,
        lang_id: u16,
        buf: DmaBuffer,
        stores: &mut Vec<Store>,
    ) -> (r: Result<EventFuture, &'static str>)
        requires
            old(self).wf(),
            ready(old(ctrl_ep_ring)),
        ensures
            final(self).wf(),
            ready(final(ctrl_ep_ring)),
            final(self).transfer_started(
                old(self),
                old(ctrl_ep_ring)@,
                final(ctrl_ep_ring)@,
                Self::descriptor_trbs(desc_type, desc_index, lang_id, buf),
                1,
                slot,
                1,
                old(stores)@,
                final(stores)@,
                r,
            ),
    {
        let mut trbs: Vec<GenericTrbEntry> = Vec::new();
        trbs.push(
            SetupStageTrb::new(
                SetupStageTrb::REQ_TYPE_DIR_DEVICE_TO_HOST,
                SetupStageTrb::REQ_GET_DESCRIPTOR,
                (desc_type.number() as u16) * 0x100 + (desc_index as u16),
                lang_id,
                (buf.len % 0x1_0000) as u16,
            ).into(),
        );
        trbs.push(DataStageTrb::new_in(buf).into());
        trbs.push(StatusStageTrb::new_out().into());
        assert(trbs@ =~= Self::descriptor_trbs(desc_type, desc_index, lang_id, buf));
        self.start_transfer(ctrl_ep_ring, trbs, 1, slot, 1, stores)
    }

    /// The blocks of the request that ends an endpoint's halt.
    pub open spec fn clear_halt_trbs(endpoint_address: u8) -> Seq<GenericTrbEntry> {
        seq![
            crate::xhci::stages::setup_trb(2, 1, 0, endpoint_address as u16, 0),
            crate::xhci::stages::status_in_trb(),
        ]
    }

    /// Asks the device in `slot` to end the halt of an endpoint.
    pub fn clear_endpoint_halt(
        &mut self,
        slot: u8,
        ctrl_ep_ring: &mut CommandRing,
        endpoint_address: u8,
        stores: &mut Vec<Store>,
    ) -> (r: Result<EventFuture, &'static str>)
        requires
            old(self).wf(),
            ready(old(ctrl_ep_ring)),
        ensures
            final(self).wf(),
            ready(final(ctrl_ep_ring)),
            final(self).transfer_started(
                old(self),
                old(ctrl_ep_ring)@,
                final(ctrl_ep_ring)@,
                Self::clear_halt_trbs(endpoint_address),
                1,
                slot,
                1,
                old(stores)@,
                final(stores)@,
                r,
            ),
    {
        assert(0u8 | 2 == 2) by (bit_vector);
        let mut trbs: Vec<GenericTrbEntry> = Vec::new();
        trbs.push(
            SetupStageTrb::new(
                SetupStageTrb::REQ_TYPE_DIR_HOST_TO_DEVICE | SetupStageTrb::REQ_TYPE_TO_ENDPOINT,
                SetupStageTrb::REQ_CLEAR_FEATURE,
                Self::FEATURE_ENDPOINT_HALT,
                endpoint_address as u16,
                0,
            ).into(),
        );
        trbs.push(StatusStageTrb::new_in().into());
        assert(trbs@ =~= Self::clear_halt_trbs(endpoint_address));
        self.start_transfer(ctrl_ep_ring, trbs, 1, slot, 1, stores)
    }

    /// The blocks of the request that resets bulk-only mass storage.
    pub open spec fn storage_reset_trbs() -> Seq<GenericTrbEntry> {
        seq![
            crate::xhci::stages::setup_trb(0x21, 0xff, 0, 0, 0),
            crate::xhci::stages::status_in_trb(),
        ]
    }

    /// Asks the device in `slot` to reset its bulk-only mass storage interface.
    pub fn bulk_only_mass_storage_reset(
        &mut self,
        slot: u8,
        ctrl_ep_ring: &mut CommandRing,
        stores: &mut Vec<Store>,
    ) -> (r: Result<EventFuture, &'static str>)
        requires
            old(self).wf(),
            ready(old(ctrl_ep_ring)),
        ensures
            final(self).wf(),
            ready(final(ctrl_ep_ring)),
            final(self).transfer_started(
                old(self),
                old(ctrl_ep_ring)@,
                final(ctrl_ep_ring)@,
                Self::storage_reset_trbs(),
                1,
                slot,
                1,
                old(stores)@,
                final(stores)@,
                r,
            ),
    {
        assert(0u8 | 0x20 | 1 == 0x21) by (bit_vector);
        let mut trbs: Vec<GenericTrbEntry> = Vec::new();
        trbs.push(
            SetupStageTrb::new(
                SetupStageTrb::REQ_TYPE_DIR_HOST_TO_DEVICE | SetupStageTrb::REQ_TYPE_TYPE_CLASS
                    | SetupStageTrb::REQ_TYPE_TO_INTERFACE,
                0xFF,
                0,
                0,
                0,
            ).into(),
        );
        trbs.push(StatusStageTrb::new_in().into());
        assert(trbs@ =~= Self::storage_reset_trbs());
        self.start_transfer(ctrl_ep_ring, trbs, 1, slot, 1, stores)
    }

    /// Sends `buf` to a bulk endpoint.
    pub fn bulk_out(
        &mut self,
        slot: u8,
        ring: &mut CommandRing,
        dci: usize,
        buf: DmaBuffer,
        stores: &mut Vec<Store>,
    ) -> (r: Result<EventFuture, &'static str>)
        requires
            old(self).wf(),
            ready(old(ring)),
        ensures
            final(self).wf(),
            ready(final(ring)),
            final(self).transfer_started(
                old(self),
                old(ring)@,
                final(ring)@,
                seq![crate::xhci::stages::normal_out_trb(buf)],
                0,
                slot,
                dci as int,
                old(stores)@,
                final(stores)@,
                r,
            ),
    {
        let mut trbs: Vec<GenericTrbEntry> = Vec::new();
        trbs.push(NormalTrb::new_out(buf).into());
        assert(trbs@ =~= seq![crate::xhci::stages::normal_out_trb(buf)]);
        self.start_transfer(ring, trbs, 0, slot, dci, stores)
    }

    /// Receives into `buf` from a bulk endpoint.
    pub fn bulk_in(
        &mut self,
        slot: u8,
        ring: &mut CommandRing,
        dci: usize,
        buf: DmaBuffer,
        stores: &mut Vec<Store>,
    ) -> (r: Result<EventFuture, &'static str>)
        requires
            old(self).wf(),
            ready(old(ring)),
        ensures
            final(self).wf(),
            ready(final(ring)),
            final(self).transfer_started(
                old(self),
                old(ring)@,
                final(ring)@,
                seq![crate::xhci::stages::normal_in_trb(buf)],
                0,
                slot,
                dci as int,
                old(stores)@,
                final(stores)@,
                r,
            ),
    {
        let mut trbs: Vec<GenericTrbEntry> = Vec::new();
        trbs.push(NormalTrb::new_in(buf).into());
        assert(trbs@ =~= seq![crate::xhci::stages::normal_in_trb(buf)]);
        self.start_transfer(ring, trbs, 0, slot, dci, stores)
    }

    /// The blocks of the transfer that an operation is, with its bytes in `buf`.
    pub open spec fn op_trbs(op: Op, buf: DmaBuffer) -> Seq<GenericTrbEntry> {
        match op {
            Op::Descriptor { slot, desc_type, index, lang_id, len } => Self::descriptor_trbs(
                desc_type,
                index,
                lang_id,
                buf,
            ),
            Op::SetConfig { slot, value } => Self::set_config_trbs(value),
            Op::StorageReset { slot } => Self::storage_reset_trbs(),
            Op::ClearHalt { slot, address } => Self::clear_halt_trbs(address),
            Op::BulkOut { slot, dci, command } => seq![crate::xhci::stages::normal_out_trb(buf)],
            _ => seq![crate::xhci::stages::normal_in_trb(buf)],
        }
    }

    /// Which of those blocks is waited for.
    pub open spec fn op_awaited(op: Op) -> int {
        if op is BulkOut || op is BulkIn {
            0
        } else {
            1
        }
    }

    /// Starts the transfer that an operation is, on the ring of its endpoint, with its bytes
    /// in `buf`.
    pub fn begin(
        &mut self,
        op: &Op,
        ring: &mut CommandRing,
        buf: DmaBuffer,
        stores: &mut Vec<Store>,
    ) -> (r: Result<EventFuture, &'static str>)
        requires
            old(self).wf(),
            ready(old(ring)),
            op.target() is Some,
        ensures
            final(self).wf(),
            ready(final(ring)),
            final(self).transfer_started(
                old(self),
                old(ring)@,
                final(ring)@,
                Self::op_trbs(*op, buf),
                Self::op_awaited(*op),
                op.target().unwrap().slot(),
                op.target().unwrap().dci() as int,
                old(stores)@,
                final(stores)@,
                r,
            ),
    {
        match *op {
            Op::Descriptor { slot, desc_type, index, lang_id, .. } => self.request_descriptor(
                slot,
                ring,
                desc_type,
                index,
                lang_id,
                buf,
                stores,
            ),
            Op::SetConfig { slot, value } => self.request_set_config(slot, ring, value, stores),
            Op::StorageReset { slot } => self.bulk_only_mass_storage_reset(slot, ring, stores),
            Op::ClearHalt { slot, address } => self.clear_endpoint_halt(
                slot,
                ring,
                address,
                stores,
            ),
            Op::BulkOut { slot, dci, .. } => self.bulk_out(slot, ring, dci, buf, stores),
            Op::BulkIn { slot, dci, .. } => self.bulk_in(slot, ring, dci, buf, stores),
            _ => Err("not a transfer"),
        }
    }

    /// Tells the controller where the output context of `slot` lies.
    pub fn set_output_context_for_slot(
        &mut self,
        slot: u8,
        output_context: u64,
        stores: &mut Vec<Store>,
    )
        requires
            old(self).wf(),
            slot >= 1,
            old(self).device_context_base_array.address() + 2048 <= u64::MAX,
        ensures
            final(self).wf(),
            final(self).regs == old(self).regs,
            final(self).command_ring == old(self).command_ring,
            final(self).primary_event_ring == old(self).primary_event_ring,
            final(self).device_context_base_array.address() == old(self).device_context_base_array.address(),
            final(self).device_context_base_array@ == old(self).device_context_base_array@.update(
                slot as int,
                output_context,
            ),
            final(stores)@ == old(stores)@ + seq![old(self).context_store(slot, output_context)],
    {
        self.device_context_base_array.set_output_context(slot, output_context);
        stores.push(
            Store::Long {
                addr: self.device_context_base_array.inner_mut_ptr() + 8 * (slot as u64),
                value: output_context,
            },
        );
    }

    /// The store that tells where the output context of `slot` lies.
    pub open spec fn context_store(&self, slot: u8, output_context: u64) -> Store {
        Store::Long {
            addr: (self.device_context_base_array.address() + 8 * slot) as u64,
            value: output_context,
        }
    }

    /// The event ring after its next position was read.
    pub open spec fn observed(&self, trb: GenericTrbEntry) -> EventRingView {
        let events = self.primary_event_ring@;
        EventRingView { ring: events.ring.write(events.ring.index, trb), ..events }
    }

    /// One round of looking for events, after the event ring's next position and its dequeue
    /// pointer register were read: takes the event, if there is one, gives it to who waits
    /// for it, and moves the dequeue pointer on.
    pub fn take_event(&mut self, trb: GenericTrbEntry, erdp: u64, stores: &mut Vec<Store>) -> (r:
        Result<(), &'static str>)
        requires
            old(self).wf(),
        ensures
            final(self).wf(),
            final(self).same_setup(old(self)),
            final(self).command_ring == old(self).command_ring,
            r == Ok::<(), &'static str>(()),
            final(self).primary_event_ring@ == old(self).observed(trb).polled(),
            final(stores)@ == old(stores)@ + old(self).observed(trb).poll_stores(erdp),
    {
        self.primary_event_ring.observe(trb);
        self.primary_event_ring.poll(erdp, stores)
    }
}

/// The memory that a controller is set up with: all of it zeroed, the rings and the segment
/// table on pages of their own.
#[derive(Debug)]
pub struct ControllerMemory {
    pub scratchpad_table: u64,
    pub scratchpad_bufs: Vec<u64>,
    pub dcbaa: u64,
    pub event_ring: u64,
    pub erst: u64,
    pub command_ring: u64,
}

impl ControllerMemory {
    /// The pages are pages, and everything has an address.
    pub open spec fn wf(&self) -> bool {
        &&& self.scratchpad_table + 8 * self.scratchpad_bufs@.len() <= u64::MAX
        &&& self.dcbaa + 2048 <= u64::MAX
        &&& self.event_ring % 4096 == 0
        &&& self.erst + 12 <= u64::MAX
        &&& self.command_ring % 4096 == 0
    }
}

/// The operational registers of a controller that is set up to use `mem`.
pub open spec fn registers_set_up(
    op: OperationalRegisters,
    regs: XhcRegisters,
    mem: ControllerMemory,
) -> OperationalRegisters {
    OperationalRegisters {
        config: (op.config - op.config % 256 + regs.cap_regs.slots()) as u64,
        dcbaap: mem.dcbaa,
        crcr: (mem.command_ring + 1) as u64,
        ..op
    }
}

/// The stores that set a controller up to use `mem`: the scratchpad table, the first entry
/// of the device context array, the links of both rings, the event ring's segment, the first
/// interrupter, and the number of slots, the array and the command ring in the registers.
pub open spec fn setup_stores(
    op: OperationalRegisters,
    regs: XhcRegisters,
    mem: ControllerMemory,
) -> Seq<Store> {
    let after = registers_set_up(op, regs, mem);
    Seq::new(
        mem.scratchpad_bufs@.len(),
        |i: int|
            Store::Long {
                addr: (mem.scratchpad_table + 8 * i) as u64,
                value: mem.scratchpad_bufs@[i],
            },
    ) + seq![
        Store::Long { addr: mem.dcbaa, value: mem.scratchpad_table },
        crate::xhci::store::fresh_link_store(mem.event_ring),
        Store::Long { addr: mem.erst, value: mem.event_ring },
        Store::Word { addr: (mem.erst + 8) as u64, value: 16 },
        crate::xhci::store::fresh_link_store(mem.command_ring),
    ] + regs.rt_regs.irs_stores(0, mem.erst, mem.event_ring) + seq![
        Store::Long { addr: (regs.op_base + 0x38) as u64, value: after.config },
        Store::Long { addr: (regs.op_base + 0x30) as u64, value: after.dcbaap },
        Store::Long { addr: (regs.op_base + 0x18) as u64, value: after.crcr },
    ]
}

impl Controller {
    /// A controller that was set up to use `mem`: no device is known yet, nothing is on the
    /// command ring, and no one waits for an event.
    pub open spec fn is_set_up(&self, regs: XhcRegisters, mem: ControllerMemory) -> bool {
        &&& self.wf()
        &&& self.regs == regs
        &&& self.command_ring@ == ProducerView::fresh(mem.command_ring as int)
        &&& self.device_context_base_array.address() == mem.dcbaa
        &&& self.device_context_base_array@ == Seq::new(
            256,
            |i: int|
                if i == 0 {
                    mem.scratchpad_table
                } else {
                    0
                },
        )
        &&& self.primary_event_ring@ == (EventRingView {
            ring: ProducerView::fresh(mem.event_ring as int).ring,
            erst: crate::xhci::event::EventRingSegmentTableEntry {
                ring_segment_base_address: mem.event_ring,
                ring_segment_size: 16,
            },
            erst_addr: mem.erst,
            ours: true,
            erdp: Some((regs.rt_regs.irs_addr(0) + 0x18) as u64),
            alive: Map::empty(),
            wait_list: Seq::empty(),
        })
    }

    /// Sets a controller up that has been reset: `op` holds its operational registers as they
    /// were read then, and is left as they are to be. What remains is to perform the stores
    /// and to start the controller.
    pub fn new(
        regs: XhcRegisters,
        op: &mut OperationalRegisters,
        mem: ControllerMemory,
        stores: &mut Vec<Store>,
    ) -> (r: Result<Self, &'static str>)
        requires
            regs.wf(),
            mem.wf(),
            old(op).page_bytes() is Ok ==> mem.scratchpad_bufs@.len() == ScratchpadBuffers::count(
                regs.cap_regs,
            ),
        ensures
            r is Ok <==> old(op).page_bytes() is Ok,
            r matches Err(e) ==> old(op).page_bytes() == Err::<usize, &'static str>(e)
                && *final(op) == *old(op) && final(stores)@ == old(stores)@,
            r matches Ok(xhc) ==> {
                &&& xhc.is_set_up(regs, mem)
                &&& *final(op) == registers_set_up(*old(op), regs, mem)
                &&& final(stores)@ == old(stores)@ + setup_stores(*old(op), regs, mem)
            },
    {
        ScratchpadBuffers::demand(&regs.cap_regs, op)?;
        let ghost whole = mem;
        let ControllerMemory {
            scratchpad_table,
            scratchpad_bufs,
            dcbaa,
            event_ring,
            erst,
            command_ring,
        } = mem;
        let scratchpad_buffers = ScratchpadBuffers::allocated(
            &regs.cap_regs,
            scratchpad_table,
            scratchpad_bufs,
            stores,
        );
        let device_context_base_array = DeviceContextBaseAddressArray::new(
            &scratchpad_buffers,
            dcbaa,
        );
        stores.push(Store::Long { addr: dcbaa, value: device_context_base_array.entry(0) });
        let primary_event_ring = EventRing::new(event_ring, erst)?;
        stores.push(
            Store::Trb { addr: event_ring + 240, trb: GenericTrbEntry::trb_link(event_ring) },
        );
        let segment = primary_event_ring.segment();
        stores.push(Store::Long { addr: erst, value: segment.ring_segment_base_address });
        stores.push(Store::Word { addr: erst + 8, value: segment.ring_segment_size as u32 });
        let command_ring = CommandRing::new(command_ring);
        stores.push(link_store(&command_ring));
        let mut xhc = Controller {
            regs,
            device_context_base_array,
            primary_event_ring,
            command_ring,
        };
        xhc.init_primary_event_ring(stores)?;
        xhc.init_slots_and_contexts(op, stores)?;
        xhc.init_command_ring(op, stores);
        assert(stores@ =~= old(stores)@ + setup_stores(*old(op), regs, whole));
        Ok(xhc)
    }

    /// Sets the first interrupter up for the event ring.
    fn init_primary_event_ring(&mut self, stores: &mut Vec<Store>) -> (r: Result<(), &'static str>)
        requires
            old(self).regs.wf(),
            old(self).primary_event_ring.wf(),
        ensures
            r == Ok::<(), &'static str>(()),
            final(self).same_setup(old(self)),
            final(self).command_ring == old(self).command_ring,
            final(self).primary_event_ring.wf(),
            final(self).primary_event_ring@ == (EventRingView {
                erdp: Some((old(self).regs.rt_regs.irs_addr(0) + 0x18) as u64),
                ..old(self).primary_event_ring@
            }),
            final(stores)@ == old(stores)@ + old(self).regs.rt_regs.irs_stores(
                0,
                old(self).primary_event_ring@.erst_addr,
                old(self).primary_event_ring@.ring.base as u64,
            ),
    {
        self.regs.rt_regs.init_irs(0, &mut self.primary_event_ring, stores)
    }

    /// Tells the controller where the command ring is.
    fn init_command_ring(&self, op: &mut OperationalRegisters, stores: &mut Vec<Store>)
        requires
            self.regs.wf(),
            self.command_ring.wf(),
        ensures
            *final(op) == (OperationalRegisters {
                crcr: (self.command_ring@.ring.base + 1) as u64,
                ..*old(op)
            }),
            final(stores)@ == old(stores)@ + seq![
                Store::Long {
                    addr: (self.regs.op_base + 0x18) as u64,
                    value: (self.command_ring@.ring.base + 1) as u64,
                },
            ],
    {
        op.set_cmd_ring_ctrl(&self.command_ring);
        stores.push(
            Store::Long { addr: self.regs.op_base + OperationalRegisters::CRCR, value: op.crcr },
        );
    }

    /// Tells the controller how many slots there are and where their contexts are.
    fn init_slots_and_contexts(&self, op: &mut OperationalRegisters, stores: &mut Vec<Store>) -> (r:
        Result<(), &'static str>)
        requires
            self.regs.wf(),
        ensures
            r == Ok::<(), &'static str>(()),
            *final(op) == (OperationalRegisters {
                config: (old(op).config - old(op).config % 256 + self.regs.cap_regs.slots()) as u64,
                dcbaap: self.device_context_base_array.address(),
                ..*old(op)
            }),
            final(stores)@ == old(stores)@ + seq![
                Store::Long {
                    addr: (self.regs.op_base + 0x38) as u64,
                    value: (old(op).config - old(op).config % 256
                        + self.regs.cap_regs.slots()) as u64,
                },
                Store::Long {
                    addr: (self.regs.op_base + 0x30) as u64,
                    value: self.device_context_base_array.address(),
                },
            ],
    {
        let num_slots: usize = self.regs.cap_regs.num_of_device_slots();
        op.set_num_device_slots(num_slots)?;
        stores.push(
            Store::Long {
                addr: self.regs.op_base + OperationalRegisters::CONFIG,
                value: op.config,
            },
        );
        op.set_dcbaa_ptr(self.device_context_base_array.inner_mut_ptr())?;
        stores.push(
            Store::Long {
                addr: self.regs.op_base + OperationalRegisters::DCBAAP,
                value: op.dcbaap,
            },
        );
        Ok(())
    }
}

/// How far a port has come on its way to a slot.
#[derive(Debug)]
pub enum InitPort {
    /// The port's register is to be read again.
    Waiting(PortReset),
    /// The controller was asked for a slot, which the event will name.
    Enabling(EventFuture),
}

/// A ring and a context that a command was given to set an endpoint up with, and who waits
/// for the command. The context is to be in memory before the command's stores are performed.
#[derive(Debug)]
pub struct EndpointSetup {
    pub ring: CommandRing,
    pub input_context: InputContext,
    pub future: EventFuture,
}

/// The memory for an endpoint's ring and for the context that it is set up with, all of it
/// zeroed.
#[derive(Debug, Copy, Clone, PartialEq, Eq, Structural)]
pub struct EndpointMemory {
    pub input_context: u64,
    pub ring: u64,
}

/// A context of zeroes.
pub open spec fn zero_endpoint() -> EndpointContext {
    EndpointContext {
        info: 0,
        info2: 0,
        tr_deque_ptr: 0,
        average_trb_length: 0,
        max_esit_payload_low: 0,
    }
}

impl EndpointSetup {
    /// The context says: look at the contexts in `add`; the slot's first words are `word0` and
    /// `word1`; endpoint `dci` is `ep`. The ring is fresh, and it lies where `mem` says.
    pub open spec fn says(
        &self,
        mem: EndpointMemory,
        add: u32,
        word0: int,
        word1: int,
        dci: int,
        ep: EndpointContext,
    ) -> bool {
        let ctx = self.input_context;
        &&& ready(&self.ring)
        &&& self.ring@ == ProducerView::fresh(mem.ring as int)
        &&& ctx.input_ctrl_ctx == (InputControlContext {
            drop_context_bitmap: 0,
            add_context_bitmap: add,
        })
        &&& ctx.device_ctx.slot_ctx@ == seq![
            word0 as u32,
            word1 as u32,
            0u32,
            0u32,
            0u32,
            0u32,
            0u32,
            0u32,
        ]
        &&& ctx.device_ctx.ep_ctx@ == Seq::new(31, |i: int| zero_endpoint()).update(dci - 1, ep)
    }

    /// The context tells the controller to address a device behind `port`, of the speed `speed`,
    /// whose control endpoint is served from the ring at `ring`: the slot and the first endpoint
    /// are added, and the first endpoint is the last. In the slot's first word the speed is in
    /// bits 20 to 23 and the last index from bit 27 on; in its second word the port is in bits 16
    /// to 23.
    pub open spec fn addresses(&self, port: usize, speed: int, ring: u64) -> bool {
        let ctx = self.input_context;
        let slot = ctx.device_ctx.slot_ctx@;
        let ep = ctx.device_ctx.ep_ctx@[0];
        &&& ctx.input_ctrl_ctx.drop_context_bitmap == 0
        &&& ctx.input_ctrl_ctx.add_context_bitmap == 3
        &&& slot[0] as int / 0x800_0000 == 1
        &&& slot[0] as int / 0x10_0000 % 0x10 == speed
        &&& slot[1] as int / 0x1_0000 == port
        &&& ep.tr_deque_ptr == ring + 1
        &&& ep.info2 as int / 8 % 8 == 4
        &&& ep.info2 as int / 0x1_0000 == if speed == 4 {
            512int
        } else if speed == 3 {
            64
        } else {
            8
        }
        &&& self.ring@.ring.base == ring
    }

    /// The context tells the controller to set up the bulk endpoint with the index `dci`, served
    /// from the ring at `ring`, of the kind and the packet size that the descriptor gives: the slot
    /// and the endpoint are added, and the endpoint is the last.
    pub open spec fn configures(&self, ep_desc: EndpointDescriptor, dci: usize, ring: u64) -> bool {
        let ctx = self.input_context;
        let ep = ctx.device_ctx.ep_ctx@[dci - 1];
        &&& ctx.input_ctrl_ctx.drop_context_bitmap == 0
        &&& forall|j: usize|
            j < 32 ==> ((#[trigger] (ctx.input_ctrl_ctx.add_context_bitmap >> j)) & 1 == 1 <==> j == 0
                || j == dci)
        &&& ctx.device_ctx.slot_ctx@[0] as int / 0x800_0000 == dci
        &&& ep.tr_deque_ptr == ring + 1
        &&& ep.info2 as int / 8 % 8 == if ep_desc.endpoint_address >= 0x80 {
            6int
        } else {
            2
        }
        &&& ep.info2 as int / 0x1_0000 == ep_desc.max_packet_size
        &&& ep.average_trb_length == ep_desc.max_packet_size
        &&& self.ring@.ring.base == ring
    }
}

impl Controller {
    /// Nothing but what `stores` holds changed.
    pub open spec fn unchanged(&self, before: &Self) -> bool {
        &&& self.same_setup(before)
        &&& self.command_ring == before.command_ring
        &&& self.primary_event_ring == before.primary_event_ring
    }

    /// The register of `port` after `value` was read from it.
    pub open spec fn port_register(
        &self,
        port: usize,
        value: u32,
    ) -> crate::xhci::port::PortScEntry {
        crate::xhci::port::PortScEntry {
            ptr: self.regs.portsc.entries@[port - 1].ptr,
            value,
        }
    }

    /// Whether there is such a port.
    pub open spec fn has_port(&self, port: usize) -> bool {
        1 <= port <= self.regs.portsc.entries@.len()
    }

    /// One step on the way from a port to a slot, after `value` was read from the port's
    /// register: reset the port, and then, if it is enabled, ask for a slot.
    pub fn init_port(
        &mut self,
        port: usize,
        phase: PortReset,
        value: u32,
        stores: &mut Vec<Store>,
    ) -> (r: Result<InitPort, &'static str>)
        requires
            old(self).wf(),
        ensures
            final(self).wf(),
            !old(self).has_port(port) ==> r == Err::<InitPort, &'static str>("Port not found")
                && final(self).unchanged(old(self)) && final(stores)@ == old(stores)@,
            old(self).has_port(port) ==> {
                let entry = old(self).port_register(port, value);
                let (next, store) = entry.next_reset(phase);
                let written = match store {
                    Some(s) => old(stores)@.push(s),
                    None => old(stores)@,
                };
                if next != PortReset::Done {
                    &&& r == Ok::<InitPort, &'static str>(InitPort::Waiting(next))
                    &&& final(self).unchanged(old(self))
                    &&& final(stores)@ == written
                } else if !entry.usable() {
                    &&& r == Err::<InitPort, &'static str>("Port is not enabled")
                    &&& final(self).unchanged(old(self))
                    &&& final(stores)@ == written
                } else {
                    &&& r matches Ok(InitPort::Enabling(future))
                    &&& final(self).same_setup(old(self))
                    &&& final(self).command_started(
                        old(self),
                        GenericTrbEntry { data: 0, option: 0, control: 0x2400 },
                        written,
                        final(stores)@,
                        Ok(future),
                    )
                    &&& final(self).command_ring@ == old(self).command_ring@.pushed(
                        GenericTrbEntry::enable_cmd(),
                    )
                }
            },
    {
        let entry = match self.regs.portsc.get(port) {
            Some(e) => e.read(value),
            None => {
                return Err("Port not found");
            },
        };
        let (next, store) = entry.reset_port(phase);
        if let Some(s) = store {
            stores.push(s);
        }
        if next != PortReset::Done {
            return Ok(InitPort::Waiting(next));
        }
        if !entry.is_enabled() {
            return Err("Port is not enabled");
        }
        let future = self.send_command(GenericTrbEntry::cmd_enable_slot(), stores)?;
        Ok(InitPort::Enabling(future))
    }

    /// What addressing the device behind `port` comes to before the command: the packet size
    /// of its control endpoint, or what is wrong.
    pub open spec fn address_check(&self, port: usize, value: u32) -> Result<u16, &'static str> {
        if !(0 < port < 256) {
            Err("Port out of range")
        } else if !self.has_port(port) {
            Err("PORTSC was invalid")
        } else {
            self.port_register(port, value).speed().control_packet_size()
        }
    }

    /// Asks the controller to give the device behind `port` an address, as the device in
    /// `slot`, after `value` was read from the port's register.
    pub fn address_device(
        &mut self,
        port: usize,
        slot: u8,
        value: u32,
        output_context: u64,
        mem: EndpointMemory,
        stores: &mut Vec<Store>,
    ) -> (r: Result<EndpointSetup, &'static str>)
        requires
            old(self).wf(),
            slot >= 1,
            old(self).device_context_base_array.address() + 2048 <= u64::MAX,
            mem.ring % 4096 == 0,
        ensures
            final(self).wf(),
            final(self).regs == old(self).regs,
            final(self).device_context_base_array.address() == old(self).device_context_base_array.address(),
            final(self).device_context_base_array@ == old(self).device_context_base_array@.update(
                slot as int,
                output_context,
            ),
            match old(self).address_check(port, value) {
                Err(e) => {
                    &&& r == Err::<EndpointSetup, &'static str>(e)
                    &&& final(self).command_ring == old(self).command_ring
                    &&& final(self).primary_event_ring == old(self).primary_event_ring
                    &&& final(stores)@ == old(stores)@ + seq![
                        old(self).context_store(slot, output_context),
                    ]
                },
                Ok(max_packet) => {
                    &&& r matches Ok(setup)
                    &&& setup.says(
                        mem,
                        3,
                        0x800_0000 + 0x10_0000 * old(self).port_register(port, value).speed().id(),
                        0x1_0000 * port,
                        1,
                        EndpointContext::endpoint(EndpointType::Control, max_packet, mem.ring, 8),
                    )
                    &&& final(self).command_started(
                        old(self),
                        GenericTrbEntry {
                            data: mem.input_context,
                            option: 0,
                            control: (0x2c00 + 0x100_0000 * slot) as u32,
                        },
                        old(stores)@ + seq![
                            old(self).context_store(slot, output_context),
                            crate::xhci::store::fresh_link_store(mem.ring),
                        ],
                        final(stores)@,
                        Ok(setup.future),
                    )
                    &&& final(self).command_ring@ == old(self).command_ring@.pushed(
                        GenericTrbEntry::address_cmd(mem.input_context, slot),
                    )
                    &&& setup.addresses(port, value as int / 0x400 % 0x10, mem.ring)
                },
            },
    {
        self.set_output_context_for_slot(slot, output_context, stores);
        let mut input_ctrl_ctx = InputControlContext::default();
        input_ctrl_ctx.add_context(0)?;
        input_ctrl_ctx.add_context(1)?;
        assert((0u32 | (1u32 << 0usize)) | (1u32 << 1usize) == 3) by (bit_vector);
        let mut input_context = InputContext::default();
        input_context.set_input_ctrl_ctx(input_ctrl_ctx)?;
        input_context.set_root_hub_port_number(port)?;
        input_context.set_last_valid_dci(1)?;
        let portsc = match self.regs.portsc.get(port) {
            Some(e) => e.read(value),
            None => {
                return Err("PORTSC was invalid");
            },
        };
        input_context.set_port_speed(portsc.port_speed())?;
        let ring = CommandRing::new(mem.ring);
        let max_packet_size: u16 = portsc.max_packet_size()?;
        let ep = EndpointContext::new_control_endpoint(max_packet_size, ring.ring_phys_addr())?;
        input_context.set_ep_ctx(1, ep)?;
        stores.push(link_store(&ring));
        assert(stores@ =~= old(stores)@ + seq![
            old(self).context_store(slot, output_context),
            crate::xhci::store::fresh_link_store(mem.ring),
        ]);
        let cmd = GenericTrbEntry::cmd_address_device(mem.input_context, slot);
        let future = self.send_command(cmd, stores)?;
        let setup = EndpointSetup { ring, input_context, future };
        assert(setup.input_context.device_ctx.slot_ctx@ =~= seq![
            (0x800_0000 + 0x10_0000 * portsc.speed().id()) as u32,
            (0x1_0000 * port) as u32,
            0u32,
            0u32,
            0u32,
            0u32,
            0u32,
            0u32,
        ]);
        assert(setup.input_context.device_ctx.ep_ctx@ =~= Seq::new(
            31,
            |i: int| zero_endpoint(),
        ).update(0, ep));
        proof {
            crate::xhci::port::law_port_speed(portsc);
            crate::xhci::context::law_endpoint_context(
                EndpointType::Control,
                max_packet_size,
                mem.ring,
                8,
            );
        }
        Ok(setup)
    }

    /// The kind of a bulk endpoint.
    pub open spec fn bulk_kind(ep_desc: EndpointDescriptor) -> EndpointType {
        if ep_desc.inward() {
            EndpointType::BulkIn
        } else {
            EndpointType::BulkOut
        }
    }

    /// Asks the controller to set up a bulk endpoint of the device in `slot`, with the
    /// context index `dci`.
    pub fn configure_bulk_endpoint(
        &mut self,
        slot: u8,
        ep_desc: &EndpointDescriptor,
        dci: usize,
        mem: EndpointMemory,
        stores: &mut Vec<Store>,
    ) -> (r: Result<EndpointSetup, &'static str>)
        requires
            old(self).wf(),
            dci >= 1,
            mem.ring % 4096 == 0,
        ensures
            final(self).wf(),
            final(self).same_setup(old(self)),
            dci > 31 ==> r == Err::<EndpointSetup, &'static str>("Input context index out of range")
                && final(self).unchanged(old(self)) && final(stores)@ == old(stores)@,
            dci <= 31 ==> {
                &&& r matches Ok(setup)
                &&& setup.says(
                    mem,
                    1u32 | (1u32 << dci),
                    0x800_0000 * dci,
                    0,
                    dci as int,
                    EndpointContext::endpoint(
                        Self::bulk_kind(*ep_desc),
                        ep_desc.max_packet_size,
                        mem.ring,
                        ep_desc.max_packet_size,
                    ),
                )
                &&& final(self).command_started(
                    old(self),
                    GenericTrbEntry {
                        data: mem.input_context,
                        option: 0,
                        control: (0x3000 + 0x100_0000 * slot) as u32,
                    },
                    old(stores)@ + seq![crate::xhci::store::fresh_link_store(mem.ring)],
                    final(stores)@,
                    Ok(setup.future),
                )
                &&& final(self).command_ring@ == old(self).command_ring@.pushed(
                    GenericTrbEntry::configure_cmd(mem.input_context, slot),
                )
                &&& setup.configures(*ep_desc, dci, mem.ring)
            },
    {
        let ring = CommandRing::new(mem.ring);
        let mut input_ctrl_ctx = InputControlContext::default();
        input_ctrl_ctx.add_context(0)?;
        input_ctrl_ctx.add_context(dci)?;
        stores.push(link_store(&ring));
        assert(stores@ =~= old(stores)@ + seq![crate::xhci::store::fresh_link_store(mem.ring)]);
        assert(0u32 | (1u32 << 0usize) == 1) by (bit_vector);
        let mut input_context = InputContext::default();
        input_context.set_input_ctrl_ctx(input_ctrl_ctx)?;
        let ep_type = if ep_desc.is_in() {
            EndpointType::BulkIn
        } else {
            EndpointType::BulkOut
        };
        let ep = EndpointContext::new_bulk_endpoint(
            ep_desc.max_packet_size,
            ring.ring_phys_addr(),
            ep_type,
        )?;
        input_context.set_ep_ctx(dci, ep)?;
        input_context.set_last_valid_dci(dci)?;
        let cmd = GenericTrbEntry::cmd_configure_endpoint(mem.input_context, slot);
        let future = self.send_command(cmd, stores)?;
        let setup = EndpointSetup { ring, input_context, future };
        assert(setup.input_context.device_ctx.slot_ctx@ =~= seq![
            (0x800_0000 * dci) as u32,
            0u32,
            0u32,
            0u32,
            0u32,
            0u32,
            0u32,
            0u32,
        ]);
        assert(setup.input_context.device_ctx.ep_ctx@ =~= Seq::new(
            31,
            |i: int| zero_endpoint(),
        ).update(dci - 1, ep));
        proof {
            crate::xhci::context::law_endpoint_context(
                ep_type,
                ep_desc.max_packet_size,
                mem.ring,
                ep_desc.max_packet_size,
            );
            assert forall|j: usize| j < 32 implies ((#[trigger] ((1u32 | (1u32 << dci)) >> j)) & 1
                == 1 <==> j == 0 || j == dci) by {
                assert(j < 32 && 1 <= dci < 32 ==> (((1u32 | (1u32 << dci)) >> j) & 1 == 1 <==> j == 0
                    || j == dci)) by (bit_vector);
            }
        }
        Ok(setup)
    }
}

/// After an endpoint's doorbell was rung, the status register is written once: with ones in
/// the bits that are to be cleared, and with every other bit as it was read.
pub proof fn law_status_is_cleared_after_the_doorbell(
    xhc: Controller,
    slot: u8,
    dci: int,
    status: u32,
)
    requires
        xhc.wf(),
    ensures
        xhc.notify_stores(slot, dci).len() == 2,
        xhc.notify_stores(slot, dci)[0] == xhc.regs.doorbell_regs@[slot as int].ring(
            dci as u8,
            0,
        ),
        xhc.notify_stores(slot, dci)[1] matches Store::SetBits { addr, mask } && addr
            == xhc.regs.op_base + 4,
        xhc.notify_stores(slot, dci)[1].writes(status) == Some(status | 0x1c),
{
}

/// A transfer moves what its operation asks for: where the buffer is as long as what the
/// operation brings and sends, the block that moves the bytes says that length in its 32-bit
/// field, and the request for a descriptor says it in its 16-bit field.
pub proof fn law_transfers_move_what_is_asked_for(op: Op, buf: DmaBuffer)
    requires
        op is Descriptor || op is BulkOut || op is BulkIn,
        buf.len == op.brings() + op.sends().len(),
    ensures
        ({
            let trbs = Controller::op_trbs(op, buf);
            let block = trbs[Controller::op_awaited(op)];
            &&& block.data == buf.addr
            &&& block.option == (op.brings() + op.sends().len()) % 0x1_0000_0000
            &&& op is Descriptor ==> trbs[0].data as int / 0x1_0000_0000_0000 == op.brings()
                % 0x1_0000
        }),
{
}

/// Who gave a command gets its answer: when the controller completes the command, naming
/// the block that it was given in, and no one else is there whom the event is for, then the
/// round that takes the event brings it to the one who waits.
pub proof fn law_command_answer_comes_back(
    before: Controller,
    after: Controller,
    cmd: GenericTrbEntry,
    stores: Seq<Store>,
    stores_after: Seq<Store>,
    future: EventFuture,
    answer: GenericTrbEntry,
)
    requires
        before.wf(),
        after.command_started(&before, cmd, stores, stores_after, Ok(future)),
        answer.type_code() == TrbType::CommandCompletionEvent.code(),
        answer.data == before.command_ring@.ring.current_addr(),
        answer.cycle() == before.primary_event_ring@.ours,
        forall|k: int|
            0 <= k < before.primary_event_ring@.wait_list.len()
                ==> !before.primary_event_ring@.takes(
                #[trigger] before.primary_event_ring@.wait_list[k],
                answer,
            ),
    ensures
        after.observed(answer).has_event(),
        after.observed(answer).polled().arrived(future.id()) == Some(answer),
{
    let cond = EventFuture::command_cond(before.command_ring@.ring.current_addr() as u64);
    crate::xhci::event::law_event_reaches_its_waiter(before.observed(answer), future.id(), cond);
    assert(after.observed(answer) == before.observed(answer).awaiting(future.id(), cond));
}

/// Who started a transfer gets its answer: when the controller reports on the block that is
/// waited for, and no one else is there whom the event is for, then the round that takes the
/// event brings it to the one who waits.
pub proof fn law_transfer_answer_comes_back(
    before: Controller,
    after: Controller,
    ring: ProducerView,
    ring_after: ProducerView,
    trbs: Seq<GenericTrbEntry>,
    k: int,
    slot: u8,
    dci: int,
    stores: Seq<Store>,
    stores_after: Seq<Store>,
    future: EventFuture,
    answer: GenericTrbEntry,
)
    requires
        before.wf(),
        after.transfer_started(
            &before,
            ring,
            ring_after,
            trbs,
            k,
            slot,
            dci,
            stores,
            stores_after,
            Ok(future),
        ),
        answer.type_code() == TrbType::TransferEvent.code(),
        answer.data == block_addr(ring, trbs, k),
        answer.cycle() == before.primary_event_ring@.ours,
        forall|k: int|
            0 <= k < before.primary_event_ring@.wait_list.len()
                ==> !before.primary_event_ring@.takes(
                #[trigger] before.primary_event_ring@.wait_list[k],
                answer,
            ),
    ensures
        after.observed(answer).has_event(),
        after.observed(answer).polled().arrived(future.id()) == Some(answer),
{
    let cond = EventFuture::transfer_cond(block_addr(ring, trbs, k));
    crate::xhci::event::law_event_reaches_its_waiter(before.observed(answer), future.id(), cond);
    assert(after.observed(answer) == before.observed(answer).awaiting(future.id(), cond));
}

/// A doorbell is rung only after all blocks are in memory: the stores of a transfer end with
/// the doorbell and the status, and before them come the blocks alone.
pub proof fn law_doorbell_comes_last(
    before: Controller,
    after: Controller,
    ring: ProducerView,
    ring_after: ProducerView,
    trbs: Seq<GenericTrbEntry>,
    k: int,
    slot: u8,
    dci: int,
    stores: Seq<Store>,
    stores_after: Seq<Store>,
    future: EventFuture,
)
    requires
        after.transfer_started(
            &before,
            ring,
            ring_after,
            trbs,
            k,
            slot,
            dci,
            stores,
            stores_after,
            Ok(future),
        ),
    ensures
        stores_after.len() >= stores.len() + 2,
        stores_after[stores_after.len() - 2] == before.regs.doorbell_regs@[slot as int].ring(
            dci as u8,
            0,
        ),
        forall|i: int|
            stores.len() <= i < stores_after.len() - 2 ==> (#[trigger] stores_after[i]) is Trb,
{
    let pushed = crate::xhci::store::push_all_stores(ring, trbs);
    crate::xhci::store::lemma_only_blocks(ring, trbs);
    assert(stores_after.len() == stores.len() + pushed.len() + 2);
    assert forall|i: int| stores.len() <= i < stores_after.len() - 2 implies (
    #[trigger] stores_after[i]) is Trb by {
        assert(stores_after[i] == pushed[i - stores.len()]);
    }
}

/// The request that an operation starts with, in eight bytes, least significant first: what is to
/// be done, with what value, and for a descriptor its kind, index and language, and how many bytes
/// of it are to come.
pub proof fn law_requests_say_what_is_asked(op: Op, buf: DmaBuffer)
    ensures
        ({
            let data = Controller::op_trbs(op, buf)[0].data as int;
            &&& op matches Op::SetConfig { slot, value } ==> data == 0x900 + 0x1_0000 * value
            &&& op is StorageReset ==> data == 0xff21
            &&& op matches Op::ClearHalt { slot, address } ==> data == 0x102 + 0x1_0000_0000
                * address
            &&& op matches Op::Descriptor { slot, desc_type, index, lang_id, len } ==> data == 0x680
                + 0x1_0000 * index + 0x100_0000 * desc_type.code() + 0x1_0000_0000 * lang_id
                + 0x1_0000_0000_0000 * (buf.len as int % 0x1_0000)
        }),
{
}

/// The blocks of a transfer: a request, then the bytes that come, if any do, and then the
/// handshake, which goes the other way; or one block for bytes in bulk. The block that is waited
/// for is one of them, and asks for an event.
pub proof fn law_blocks_in_their_order(op: Op, buf: DmaBuffer)
    requires
        op.target() is Some,
    ensures
        ({
            let trbs = Controller::op_trbs(op, buf);
            let awaited = Controller::op_awaited(op);
            &&& op is SetConfig || op is StorageReset || op is ClearHalt ==> {
                &&& trbs.len() == 2
                &&& trbs[0].type_code() == 2
                &&& trbs[1].type_code() == 4
                &&& trbs[1].control as int / 0x1_0000 == 1
            }
            &&& op is Descriptor ==> {
                &&& trbs.len() == 3
                &&& trbs[0].type_code() == 2
                &&& trbs[1].type_code() == 3
                &&& trbs[1].control as int / 0x1_0000 == 1
                &&& trbs[1].data == buf.addr
                &&& trbs[2].type_code() == 4
                &&& trbs[2].control as int / 0x1_0000 == 0
            }
            &&& op is BulkOut || op is BulkIn ==> {
                &&& trbs.len() == 1
                &&& trbs[0].type_code() == 1
                &&& trbs[0].data == buf.addr
                &&& (trbs[0].control as int / 0x1_0000 == 1 <==> op is BulkIn)
            }
            &&& 0 <= awaited < trbs.len()
            &&& trbs[awaited].control as int / 0x20 % 2 == 1
        }),
{
    let (a, b, c, d, e) = match op {
        Op::Descriptor { slot, desc_type, index, lang_id, len } => (
            0x80u8,
            6u8,
            (0x100 * desc_type.code() + index) as u16,
            lang_id,
            buf.len16(),
        ),
        Op::SetConfig { slot, value } => (0u8, 9u8, value as u16, 0u16, 0u16),
        Op::ClearHalt { slot, address } => (2u8, 1u8, 0u16, address as u16, 0u16),
        _ => (0x21u8, 0xffu8, 0u16, 0u16, 0u16),
    };
    crate::xhci::stages::law_stages_say_what_they_are(a, b, c, d, e, buf);
    crate::xhci::stages::law_blocks_that_move_bytes(buf);
}

/// The endpoint of a slot can be rung if and only if the slot has a doorbell and the index fits
/// into a byte; the slot is looked at first.
pub proof fn law_which_endpoints_can_be_rung(xhc: Controller, slot: u8, dci: int)
    ensures
        xhc.notify_result(slot, dci) is Ok <==> slot < xhc.regs.doorbell_regs@.len() && dci < 256,
        slot >= xhc.regs.doorbell_regs@.len() ==> xhc.notify_result(slot, dci) == Err::<
            (),
            &'static str,
        >("Invalid slot"),
        slot < xhc.regs.doorbell_regs@.len() && dci >= 256 ==> xhc.notify_result(slot, dci) == Err::<
            (),
            &'static str,
        >("dci out of range"),
        0 <= dci < 256 ==> (xhc.notify_stores(slot, dci)[0] matches Store::Word { addr, value }
            && addr == xhc.regs.doorbell_regs@[slot as int].ptr && value == dci),
{
}

/// A command is followed by a store of zero to the first doorbell, and comes after nothing but
/// blocks; the event that is waited for names the block that the command is in.
pub proof fn law_commands_ring_the_first_doorbell(
    before: Controller,
    after: Controller,
    cmd: GenericTrbEntry,
    stores: Seq<Store>,
    stores_after: Seq<Store>,
    future: EventFuture,
)
    requires
        after.command_started(&before, cmd, stores, stores_after, Ok(future)),
    ensures
        stores_after.len() > stores.len(),
        stores_after.take(stores.len() as int) == stores,
        stores_after.last() == (Store::Word { addr: before.regs.doorbell_regs@[0].ptr, value: 0 }),
        forall|i: int|
            stores.len() <= i < stores_after.len() - 1 ==> (#[trigger] stores_after[i]) is Trb,
        after.primary_event_ring@.alive[future.id()].cond.trb_addr == Some(
            (before.command_ring@.ring.base + 16 * before.command_ring@.ring.index) as u64,
        ),
        after.command_ring@ == before.command_ring@.pushed(cmd),
{
    let pushed = crate::xhci::store::push_stores(before.command_ring@, cmd);
    assert(stores_after.take(stores.len() as int) =~= stores);
    assert forall|i: int| stores.len() <= i < stores_after.len() - 1 implies (
    #[trigger] stores_after[i]) is Trb by {
        assert(stores_after[i] == pushed[i - stores.len()]);
    }
}

/// The block that is waited for is where the wait says: once the stores are performed, memory
/// holds, at the address that the event is to name, the block itself, handed over.
pub proof fn law_awaited_block_is_there(
    mem: spec_fn(u64) -> GenericTrbEntry,
    ring: ProducerView,
    trbs: Seq<GenericTrbEntry>,
    k: int,
)
    requires
        ring.ring.wf(),
        ring.consistent(),
        crate::xhci::store::in_memory(mem, ring.ring),
        trbs.len() <= 15,
        0 <= k < trbs.len(),
        forall|i: int|
            0 <= i < trbs.len() ==> (#[trigger] trbs[i]).type_code() != TrbType::Link.code(),
    ensures
        ({
            let after = crate::xhci::store::all_stored(
                mem,
                crate::xhci::store::push_all_stores(ring, trbs),
            );
            after(block_addr(ring, trbs, k)) == trbs[k].with_cycle(
                ring.ours == (ring.ring.index + k >= 15),
            )
        }),
{
    crate::xhci::ring::law_pushed_blocks_are_found(ring, trbs, k);
    crate::xhci::store::law_memory_follows_the_ring(mem, ring, trbs);
    let place = (ring.ring.index + k) % 15;
    let w = ring.pushed_all(trbs);
    assert(w.ring.trbs[place] == w.ring.trbs[place]);
}

/// Where the context of a slot is noted: in entry `slot` of the array, eight bytes per entry, so
/// that no two slots share one.
pub proof fn law_contexts_are_noted_apart(xhc: Controller, a: u8, b: u8, context: u64)
    requires
        xhc.device_context_base_array.address() + 2048 <= u64::MAX,
    ensures
        xhc.context_store(a, context) matches Store::Long { addr, value } && value == context && addr
            - xhc.device_context_base_array.address() == 8 * a,
        xhc.context_store(a, context) == xhc.context_store(b, context) <==> a == b,
{
}

/// The registers of a controller that is set up: the lowest byte of the configuration says how
/// many slots there are, and its other bits stay; the array and the ring of commands are where
/// the memory is, the ring with the cycle bit one; all other registers stay.
pub proof fn law_registers_set_up(
    op: OperationalRegisters,
    regs: XhcRegisters,
    mem: ControllerMemory,
)
    requires
        mem.wf(),
    ensures
        ({
            let after = registers_set_up(op, regs, mem);
            &&& after.config as int % 0x100 == regs.cap_regs.hcsparams1 as int % 0x100
            &&& after.config as int / 0x100 == op.config as int / 0x100
            &&& after.dcbaap == mem.dcbaa
            &&& after.crcr - 1 == mem.command_ring
            &&& after.crcr as int % 2 == 1
            &&& after.usbcmd == op.usbcmd
            &&& after.usbsts == op.usbsts
            &&& after.pagesize == op.pagesize
            &&& after.dnctrl == op.dnctrl
        }),
{
}

/// The stores that set a controller up: the scratchpad buffers in their table, the table in the
/// first entry of the array, the links of both rings, the one segment of the event ring, the first
/// interrupter, and the three registers that say how many slots there are, where the array is and
/// where the ring of commands is.
pub proof fn law_setup_stores(op: OperationalRegisters, regs: XhcRegisters, mem: ControllerMemory)
    requires
        mem.wf(),
        regs.wf(),
    ensures
        ({
            let stores = setup_stores(op, regs, mem);
            let n = mem.scratchpad_bufs@.len() as int;
            let irs = regs.rt_regs.irs_stores(0, mem.erst, mem.event_ring);
            &&& stores.len() == n + 13
            &&& forall|i: int|
                0 <= i < n ==> ((#[trigger] stores[i]) matches Store::Long { addr, value } && addr
                    == mem.scratchpad_table + 8 * i && value == mem.scratchpad_bufs@[i])
            &&& stores[n] matches Store::Long { addr, value } && addr == mem.dcbaa && value
                == mem.scratchpad_table
            &&& stores[n + 1] matches Store::Trb { addr, trb } && addr == mem.event_ring + 240
                && trb.type_code() == 6 && trb.data == mem.event_ring
            &&& stores[n + 2] matches Store::Long { addr, value } && addr == mem.erst && value
                == mem.event_ring
            &&& stores[n + 3] matches Store::Word { addr, value } && addr == mem.erst + 8 && value
                == 16
            &&& stores[n + 4] matches Store::Trb { addr, trb } && addr == mem.command_ring + 240
                && trb.type_code() == 6 && trb.data == mem.command_ring
            &&& stores.subrange(n + 5, n + 10) == irs
            &&& stores[n + 10] matches Store::Long { addr, value } && addr == regs.op_base + 0x38
                && value as int % 0x100 == regs.cap_regs.hcsparams1 as int % 0x100 && value as int
                / 0x100 == op.config as int / 0x100
            &&& stores[n + 11] matches Store::Long { addr, value } && addr == regs.op_base + 0x30
                && value == mem.dcbaa
            &&& stores[n + 12] matches Store::Long { addr, value } && addr == regs.op_base + 0x18
                && value == mem.command_ring + 1
        }),
{
    let stores = setup_stores(op, regs, mem);
    let n = mem.scratchpad_bufs@.len() as int;
    let irs = regs.rt_regs.irs_stores(0, mem.erst, mem.event_ring);
    law_registers_set_up(op, regs, mem);
    assert(irs.len() == 5);
    assert(stores.subrange(n + 5, n + 10) =~= irs);
}

/// A controller that was set up knows no device, has nothing on its ring of commands, expects its
/// first event in the first position with the cycle bit one, and has no one waiting.
pub proof fn law_set_up_controllers_are_idle(
    xhc: Controller,
    regs: XhcRegisters,
    mem: ControllerMemory,
    slot: int,
)
    requires
        xhc.is_set_up(regs, mem),
        mem.wf(),
        1 <= slot < 256,
    ensures
        xhc.device_context_base_array@.len() == 256,
        xhc.device_context_base_array@[0] == mem.scratchpad_table,
        xhc.device_context_base_array@[slot] == 0,
        xhc.command_ring@.ring.index == 0,
        xhc.command_ring@.ring.base == mem.command_ring,
        !xhc.command_ring@.ours,
        xhc.primary_event_ring@.ring.index == 0,
        xhc.primary_event_ring@.ring.base == mem.event_ring,
        xhc.primary_event_ring@.ours,
        !xhc.primary_event_ring@.has_event(),
        xhc.primary_event_ring@.wait_list.len() == 0,
        xhc.primary_event_ring@.erdp matches Some(addr) && addr == regs.rt_regs.base + 0x38,
        xhc.primary_event_ring@.erst.ring_segment_base_address == mem.event_ring,
        xhc.primary_event_ring@.erst.ring_segment_size == 16,
{
}

/// When the device behind a port can be given an address: the port's number fits into a byte, the
/// controller has the port, and the port's register shows one of the four speeds, in bits 10 to
/// 13. Otherwise the first of these that fails says what is wrong.
pub proof fn law_when_devices_can_be_addressed(xhc: Controller, port: usize, value: u32)
    ensures
        ({
            let speed = value as int / 0x400 % 0x10;
            let known = 1 <= port <= xhc.regs.portsc.entries@.len();
            let r = xhc.address_check(port, value);
            &&& xhc.has_port(port) == known
            &&& r is Ok <==> port < 256 && known && 1 <= speed <= 4
            &&& port == 0 || port >= 256 ==> r == Err::<u16, &'static str>("Port out of range")
            &&& 0 < port < 256 && !known ==> r == Err::<u16, &'static str>("PORTSC was invalid")
            &&& port < 256 && known && !(1 <= speed <= 4) ==> r == Err::<u16, &'static str>(
                "unknown Protocol Speed ID",
            )
            &&& r matches Ok(size) ==> size == if speed == 4 {
                512int
            } else if speed == 3 {
                64
            } else {
                8
            }
            &&& known ==> xhc.port_register(port, value).value == value && xhc.port_register(
                port,
                value,
            ).ptr == xhc.regs.portsc.entries@[port - 1].ptr
        }),
{
    crate::xhci::port::law_port_speed(xhc.port_register(port, value));
}

/// What a set-up says lies in memory where the controller looks for it: the contexts to add, the
/// words of the slot, and the endpoint; all else is zero.
pub proof fn law_what_a_set_up_says(
    setup: EndpointSetup,
    mem: EndpointMemory,
    add: u32,
    word0: int,
    word1: int,
    dci: int,
    ep: EndpointContext,
    other: int,
)
    requires
        1 <= dci <= 31,
        1 <= other <= 31,
        other != dci,
        setup.says(mem, add, word0, word1, dci, ep),
    ensures
        setup.input_context.word(0) == 0,
        setup.input_context.word(1) == add,
        setup.input_context.word(8) == word0 as u32,
        setup.input_context.word(9) == word1 as u32,
        forall|i: int| 10 <= i < 16 ==> #[trigger] setup.input_context.word(i) == 0,
        forall|i: int|
            0 <= i < 8 ==> #[trigger] setup.input_context.word(8 + 8 * other + i) == 0,
        setup.input_context.device_ctx.ep_ctx@[dci - 1] == ep,
        setup.ring@.ring.base == mem.ring,
        setup.ring@.ring.index == 0,
{
    crate::xhci::context::law_input_context_layout(setup.input_context, dci, 0);
    crate::xhci::context::law_input_context_layout(setup.input_context, dci, 1);
    assert forall|i: int| 10 <= i < 16 implies #[trigger] setup.input_context.word(i) == 0 by {
        crate::xhci::context::law_input_context_layout(setup.input_context, dci, i - 8);
        assert(setup.input_context.device_ctx.slot_ctx@[i - 8] == 0);
    }
    assert forall|i: int| 0 <= i < 8 implies #[trigger] setup.input_context.word(
        8 + 8 * other + i,
    ) == 0 by {
        crate::xhci::context::law_input_context_layout(setup.input_context, other, i);
        assert(setup.input_context.device_ctx.ep_ctx@[other - 1] == zero_endpoint());
    }
}

/// What was read from the event ring's next position is in that position, and nothing else is
/// different.
pub proof fn law_events_are_observed(xhc: Controller, trb: GenericTrbEntry)
    requires
        xhc.wf(),
    ensures
        xhc.observed(trb).ring.trbs[xhc.primary_event_ring@.ring.index] == trb,
        xhc.observed(trb).ring.index == xhc.primary_event_ring@.ring.index,
        xhc.observed(trb).has_event() <==> (trb.control % 2 == 1) == xhc.primary_event_ring@.ours,
        xhc.observed(trb).alive == xhc.primary_event_ring@.alive,
        xhc.observed(trb).wait_list == xhc.primary_event_ring@.wait_list,
        xhc.observed(trb).erdp == xhc.primary_event_ring@.erdp,
{
}

/// What stays as it is: where only events and commands come and go, the registers and the array of
/// contexts do; where nothing was done at all, the rings do too.
pub proof fn law_what_stays(before: Controller, after: Controller)
    ensures
        after.same_setup(&before) <==> after.regs == before.regs && after.device_context_base_array
            == before.device_context_base_array,
        after.unchanged(&before) <==> after == before,
{
}

} // verus!
