//! Mass storage behind a controller: which endpoints to use, and what to ask in which order.
use crate::scsi::check_csw;
use crate::scsi::CSW_SIZE;
use crate::xhci::descriptor::ConfigDescriptor;
use crate::xhci::descriptor::EndpointDescriptor;
use crate::xhci::descriptor::InterfaceDescriptor;
use crate::xhci::descriptor::UsbDescriptor;
use crate::xhci::op::Op;
use crate::xhci::op::Reply;
use crate::xhci::op::ScsiCommand;
use vstd::prelude::*;

verus! {

/// The configuration of a device for bulk-only transport, and the endpoints to use.
#[derive(Debug, Copy, Clone, PartialEq, Eq, Structural)]
pub struct BulkTransport {
    pub config: ConfigDescriptor,
    pub interface: InterfaceDescriptor,
    pub bulk_in: EndpointDescriptor,
    pub bulk_out: EndpointDescriptor,
}

/// The configuration that a descriptor is.
pub open spec fn as_config(d: UsbDescriptor) -> Option<ConfigDescriptor> {
    match d {
        UsbDescriptor::Config(c) => Some(c),
        _ => None,
    }
}

/// The interface that a descriptor is.
pub open spec fn as_interface(d: UsbDescriptor) -> Option<InterfaceDescriptor> {
    match d {
        UsbDescriptor::Interface(i) => Some(i),
        _ => None,
    }
}

/// The bulk endpoint towards the host that a descriptor is.
pub open spec fn as_bulk_in(d: UsbDescriptor) -> Option<EndpointDescriptor> {
    match d {
        UsbDescriptor::Endpoint(e) => if e.bulk() && e.inward() {
            Some(e)
        } else {
            None
        },
        _ => None,
    }
}

/// The bulk endpoint away from the host that a descriptor is.
pub open spec fn as_bulk_out(d: UsbDescriptor) -> Option<EndpointDescriptor> {
    match d {
        UsbDescriptor::Endpoint(e) => if e.bulk() && !e.inward() {
            Some(e)
        } else {
            None
        },
        _ => None,
    }
}

/// The last of what `pick` picks from the descriptors.
pub open spec fn last_of<T>(
    ds: Seq<UsbDescriptor>,
    pick: spec_fn(UsbDescriptor) -> Option<T>,
) -> Option<T>
    decreases ds.len(),
{
    if ds.len() == 0 {
        None
    } else if pick(ds.last()) is Some {
        pick(ds.last())
    } else {
        last_of(ds.drop_last(), pick)
    }
}

/// The last configuration among the descriptors.
pub open spec fn last_config(ds: Seq<UsbDescriptor>) -> Option<ConfigDescriptor> {
    last_of(ds, |d: UsbDescriptor| as_config(d))
}

/// The last interface among the descriptors.
pub open spec fn last_interface(ds: Seq<UsbDescriptor>) -> Option<InterfaceDescriptor> {
    last_of(ds, |d: UsbDescriptor| as_interface(d))
}

/// The last bulk endpoint towards the host among the descriptors.
pub open spec fn last_bulk_in(ds: Seq<UsbDescriptor>) -> Option<EndpointDescriptor> {
    last_of(ds, |d: UsbDescriptor| as_bulk_in(d))
}

/// The last bulk endpoint away from the host among the descriptors.
pub open spec fn last_bulk_out(ds: Seq<UsbDescriptor>) -> Option<EndpointDescriptor> {
    last_of(ds, |d: UsbDescriptor| as_bulk_out(d))
}

/// Where looking stops, from `i` on: at the first configuration that comes after an
/// interface, or at the end.
pub open spec fn scan_end(ds: Seq<UsbDescriptor>, i: int) -> int
    decreases ds.len() - i,
{
    if i >= ds.len() {
        ds.len() as int
    } else if as_config(ds[i]) is Some && last_interface(ds.take(i)) is Some {
        i
    } else {
        scan_end(ds, i + 1)
    }
}

/// What to use of a device with these descriptors: the last configuration, interface and
/// bulk endpoints before looking stops; or the first of them that is missing.
pub open spec fn chosen(ds: Seq<UsbDescriptor>) -> Result<BulkTransport, &'static str> {
    let seen = ds.take(scan_end(ds, 0));
    if last_config(seen) is None {
        Err("Config descriptor not found")
    } else if last_interface(seen) is None {
        Err("Interface descriptor not found")
    } else if last_bulk_in(seen) is None {
        Err("Bulk IN endpoint not found")
    } else if last_bulk_out(seen) is None {
        Err("Bulk OUT endpoint not found")
    } else {
        Ok(
            BulkTransport {
                config: last_config(seen).unwrap(),
                interface: last_interface(seen).unwrap(),
                bulk_in: last_bulk_in(seen).unwrap(),
                bulk_out: last_bulk_out(seen).unwrap(),
            },
        )
    }
}

/// Where looking stops lies between where it starts and the end.
proof fn lemma_scan_end(ds: Seq<UsbDescriptor>, i: int)
    requires
        0 <= i <= ds.len(),
    ensures
        i <= scan_end(ds, i) <= ds.len(),
    decreases ds.len() - i,
{
    if i < ds.len() && !(as_config(ds[i]) is Some && last_interface(ds.take(i)) is Some) {
        lemma_scan_end(ds, i + 1);
    }
}

/// Chooses what to use of a device.
pub fn choose_transport(descriptors: &[UsbDescriptor]) -> (r: Result<BulkTransport, &'static str>)
    ensures
        r == chosen(descriptors@),
{
    let ghost ds = descriptors@;
    let mut bulk_in_ep: Option<EndpointDescriptor> = None;
    let mut bulk_out_ep: Option<EndpointDescriptor> = None;
    let mut config: Option<ConfigDescriptor> = None;
    let mut usb_interface: Option<InterfaceDescriptor> = None;
    let mut i: usize = 0;
    assert(ds.take(0) =~= Seq::empty());
    while i < descriptors.len()
        invariant_except_break
            scan_end(ds, 0) == scan_end(ds, i as int),
        invariant
            ds == descriptors@,
            i <= ds.len(),
            config == last_config(ds.take(i as int)),
            usb_interface == last_interface(ds.take(i as int)),
            bulk_in_ep == last_bulk_in(ds.take(i as int)),
            bulk_out_ep == last_bulk_out(ds.take(i as int)),
        ensures
            i == scan_end(ds, 0),
        decreases ds.len() - i,
    {
        proof {
            assert(ds.take(i + 1).drop_last() =~= ds.take(i as int));
            assert(ds.take(i + 1).last() == ds[i as int]);
        }
        match descriptors[i] {
            UsbDescriptor::Config(c) => {
                if usb_interface.is_some() {
                    break;
                }
                config = Some(c);
            },
            UsbDescriptor::Interface(e) => {
                usb_interface = Some(e);
            },
            UsbDescriptor::Endpoint(ep) => {
                if ep.is_bulk() {
                    if ep.is_in() {
                        bulk_in_ep = Some(ep);
                    } else {
                        bulk_out_ep = Some(ep);
                    }
                }
            },
            UsbDescriptor::Unknown { desc_len, desc_type } => {},
        }
        i += 1;
    }
    let config = match config {
        Some(c) => c,
        None => {
            return Err("Config descriptor not found");
        },
    };
    let interface = match usb_interface {
        Some(e) => e,
        None => {
            return Err("Interface descriptor not found");
        },
    };
    let bulk_in = match bulk_in_ep {
        Some(e) => e,
        None => {
            return Err("Bulk IN endpoint not found");
        },
    };
    let bulk_out = match bulk_out_ep {
        Some(e) => e,
        None => {
            return Err("Bulk OUT endpoint not found");
        },
    };
    Ok(BulkTransport { config, interface, bulk_in, bulk_out })
}

/// The endpoints that are chosen are bulk endpoints in the right directions, and what is
/// chosen stands among the descriptors.
pub proof fn law_chosen_endpoints(ds: Seq<UsbDescriptor>)
    requires
        chosen(ds) is Ok,
    ensures
        ({
            let t = chosen(ds)->Ok_0;
            &&& t.bulk_in.bulk() && t.bulk_in.inward() && t.bulk_in.dci() % 2 == 1
            &&& t.bulk_out.bulk() && !t.bulk_out.inward() && t.bulk_out.dci() % 2 == 0
            &&& ds.contains(UsbDescriptor::Config(t.config))
            &&& ds.contains(UsbDescriptor::Interface(t.interface))
            &&& ds.contains(UsbDescriptor::Endpoint(t.bulk_in))
            &&& ds.contains(UsbDescriptor::Endpoint(t.bulk_out))
        }),
{
    let seen = ds.take(scan_end(ds, 0));
    lemma_scan_end(ds, 0);
    lemma_last_of(ds, seen, |d: UsbDescriptor| as_config(d));
    lemma_last_of(ds, seen, |d: UsbDescriptor| as_interface(d));
    lemma_last_of(ds, seen, |d: UsbDescriptor| as_bulk_in(d));
    lemma_last_of(ds, seen, |d: UsbDescriptor| as_bulk_out(d));
}

/// What is picked last is picked from one of the descriptors.
proof fn lemma_last_of<T>(
    ds: Seq<UsbDescriptor>,
    seen: Seq<UsbDescriptor>,
    pick: spec_fn(UsbDescriptor) -> Option<T>,
)
    requires
        seen.len() <= ds.len(),
        seen =~= ds.take(seen.len() as int),
        last_of(seen, pick) is Some,
    ensures
        exists|d: UsbDescriptor| #[trigger] ds.contains(d) && pick(d) == last_of(seen, pick),
    decreases seen.len(),
{
    if pick(seen.last()) is Some {
        assert(ds[seen.len() - 1] == seen.last());
        assert(ds.contains(seen.last()));
    } else {
        lemma_last_of(ds, seen.drop_last(), pick);
    }
}

/// How far a SCSI command has come.
#[derive(Debug, Copy, Clone, PartialEq, Eq, Structural)]
pub enum ScsiStage {
    /// Its wrapper is being sent.
    Command,
    /// Its data is being received.
    Data,
    /// Its status is being received.
    Status,
    /// It is over.
    Finished,
}

/// What a task for a SCSI command holds.
pub struct ScsiView {
    pub command: ScsiCommand,
    pub slot: u8,
    pub bulk_in_dci: usize,
    pub bulk_out_dci: usize,
    pub stage: ScsiStage,
    pub data: Seq<u8>,
}

impl ScsiView {
    /// A command at its start.
    pub open spec fn start(
        command: ScsiCommand,
        slot: u8,
        bulk_in_dci: usize,
        bulk_out_dci: usize,
    ) -> Self {
        ScsiView {
            command,
            slot,
            bulk_in_dci,
            bulk_out_dci,
            stage: ScsiStage::Command,
            data: Seq::empty(),
        }
    }

    /// What is asked for at this stage: to send the wrapper, to receive the data, to receive
    /// the status.
    pub open spec fn op(self) -> Op {
        match self.stage {
            ScsiStage::Command => Op::BulkOut {
                slot: self.slot,
                dci: self.bulk_out_dci,
                command: self.command,
            },
            ScsiStage::Data => Op::BulkIn {
                slot: self.slot,
                dci: self.bulk_in_dci,
                len: self.command.data_size(),
            },
            ScsiStage::Status => Op::BulkIn {
                slot: self.slot,
                dci: self.bulk_in_dci,
                len: CSW_SIZE,
            },
            ScsiStage::Finished => Op::Done(Ok(())),
        }
    }

    /// What the status says: of a READ(10) it is looked at, of an INQUIRY it is not.
    pub open spec fn verdict(self, csw: Seq<u8>) -> Result<(), &'static str> {
        match self.command {
            ScsiCommand::Inquiry => Ok(()),
            ScsiCommand::Read10 { lba, transfer_length } => crate::scsi::csw_outcome(csw),
        }
    }

    /// The command at its end.
    pub open spec fn finished(self) -> Self {
        ScsiView { stage: ScsiStage::Finished, ..self }
    }

    /// What comes of a reply: the state after it, and what is asked for next. A failure ends
    /// the command.
    pub open spec fn next(self, result: Result<u8, &'static str>, data: Seq<u8>) -> (Self, Op) {
        match result {
            Err(e) => (self.finished(), Op::Done(Err(e))),
            Ok(_) => match self.stage {
                ScsiStage::Command => {
                    let after = ScsiView { stage: ScsiStage::Data, ..self };
                    (after, after.op())
                },
                ScsiStage::Data => {
                    let after = ScsiView { stage: ScsiStage::Status, data, ..self };
                    (after, after.op())
                },
                ScsiStage::Status => (self.finished(), Op::Done(self.verdict(data))),
                ScsiStage::Finished => (self, Op::Done(Ok(()))),
            },
        }
    }
}

/// A SCSI command on its way: its wrapper goes out, its data and its status come in.
#[derive(Debug)]
pub struct ScsiTask {
    command: ScsiCommand,
    slot: u8,
    bulk_in_dci: usize,
    bulk_out_dci: usize,
    stage: ScsiStage,
    data: Vec<u8>,
}

impl View for ScsiTask {
    type V = ScsiView;

    closed spec fn view(&self) -> ScsiView {
        ScsiView {
            command: self.command,
            slot: self.slot,
            bulk_in_dci: self.bulk_in_dci,
            bulk_out_dci: self.bulk_out_dci,
            stage: self.stage,
            data: self.data@,
        }
    }
}

impl ScsiTask {
    /// A command at its start.
    fn new(command: ScsiCommand, slot: u8, bulk_in_dci: usize, bulk_out_dci: usize) -> (r: Self)
        ensures
            r@ == ScsiView::start(command, slot, bulk_in_dci, bulk_out_dci),
    {
        ScsiTask {
            command,
            slot,
            bulk_in_dci,
            bulk_out_dci,
            stage: ScsiStage::Command,
            data: Vec::new(),
        }
    }

    /// Asks a unit what it is.
    pub fn scsi_inquiry(slot: u8, bulk_in_dci: usize, bulk_out_dci: usize) -> (r: Self)
        ensures
            r@ == ScsiView::start(ScsiCommand::Inquiry, slot, bulk_in_dci, bulk_out_dci),
    {
        Self::new(ScsiCommand::Inquiry, slot, bulk_in_dci, bulk_out_dci)
    }

    /// Reads `transfer_length` sectors from sector `lba` on.
    pub fn scsi_read_10(
        slot: u8,
        bulk_in_dci: usize,
        bulk_out_dci: usize,
        lba: u32,
        transfer_length: u16,
    ) -> (r: Self)
        ensures
            r@ == ScsiView::start(
                ScsiCommand::Read10 { lba, transfer_length },
                slot,
                bulk_in_dci,
                bulk_out_dci,
            ),
    {
        Self::new(ScsiCommand::Read10 { lba, transfer_length }, slot, bulk_in_dci, bulk_out_dci)
    }

    /// What is asked for at this stage.
    pub fn op(&self) -> (r: Op)
        ensures
            r == self@.op(),
    {
        match self.stage {
            ScsiStage::Command => Op::BulkOut {
                slot: self.slot,
                dci: self.bulk_out_dci,
                command: self.command,
            },
            ScsiStage::Data => Op::BulkIn {
                slot: self.slot,
                dci: self.bulk_in_dci,
                len: self.command.data_len(),
            },
            ScsiStage::Status => Op::BulkIn {
                slot: self.slot,
                dci: self.bulk_in_dci,
                len: CSW_SIZE,
            },
            ScsiStage::Finished => Op::Done(Ok(())),
        }
    }

    /// The data that came.
    pub fn data(&self) -> (r: &[u8])
        ensures
            r@ == self@.data,
    {
        self.data.as_slice()
    }

    /// Takes the reply to what was asked for last; answers what is asked for next.
    pub fn step(&mut self, reply: Reply) -> (r: Op)
        requires
            reply.answers(old(self)@.op()),
        ensures
            (final(self)@, r) == old(self)@.next(reply.result, reply.data@),
    {
        if let Err(e) = reply.result {
            self.stage = ScsiStage::Finished;
            return Op::Done(Err(e));
        }
        match self.stage {
            ScsiStage::Command => {
                self.stage = ScsiStage::Data;
                self.op()
            },
            ScsiStage::Data => {
                self.data = vstd::slice::slice_to_vec(reply.data);
                self.stage = ScsiStage::Status;
                self.op()
            },
            ScsiStage::Status => {
                self.stage = ScsiStage::Finished;
                match self.command {
                    ScsiCommand::Inquiry => Op::Done(Ok(())),
                    ScsiCommand::Read10 { lba, transfer_length } => Op::Done(check_csw(reply.data)),
                }
            },
            ScsiStage::Finished => Op::Done(Ok(())),
        }
    }
}

/// A command whose three transfers go well ends as its status says, with the data that came;
/// on the way it asks to send its wrapper, then for as much data as it brings, then for its
/// status.
pub proof fn law_scsi_command_runs(
    start: ScsiView,
    ok: u8,
    data: Seq<u8>,
    csw: Seq<u8>,
)
    requires
        start.stage == ScsiStage::Command,
    ensures
        ({
            let (a, op_a) = start.next(Ok(ok), Seq::empty());
            let (b, op_b) = a.next(Ok(ok), data);
            let (c, op_c) = b.next(Ok(ok), csw);
            &&& start.op() == Op::BulkOut {
                slot: start.slot,
                dci: start.bulk_out_dci,
                command: start.command,
            }
            &&& op_a == Op::BulkIn {
                slot: start.slot,
                dci: start.bulk_in_dci,
                len: start.command.data_size(),
            }
            &&& op_a.brings() == crate::bytes::le32(start.command.wrapper(), 8)
            &&& op_b == Op::BulkIn { slot: start.slot, dci: start.bulk_in_dci, len: 13 }
            &&& op_c == Op::Done(start.verdict(csw))
            &&& start.command is Inquiry ==> op_c == Op::Done(Ok(()))
            &&& start.command is Read10 ==> (op_c == Op::Done(Ok(())) <==> csw[0] == 0x55 && csw[1]
                == 0x53 && csw[2] == 0x42 && csw[3] == 0x53 && csw[12] == 0)
            &&& c.data == data
        }),
{
    crate::xhci::op::law_data_is_what_the_wrapper_announces(start.command);
    crate::scsi::law_status_says_how_it_went(csw);
}

/// A transfer of a command that fails ends the command with the error that came.
pub proof fn law_scsi_failures(view: ScsiView, e: &'static str, data: Seq<u8>)
    ensures
        view.next(Err(e), data).1 == Op::Done(Err(e)),
        view.next(Err(e), data).0.data == view.data,
{
}

/// How far the handling of a mass storage device has come.
#[derive(Debug, Copy, Clone, PartialEq, Eq, Structural)]
pub enum StorageStage {
    SetConfig,
    Reset,
    ConfigureOut,
    ConfigureIn,
    ClearIn,
    ClearOut,
    Read,
    Finished,
}

/// What a task for a mass storage device holds.
pub struct StorageView {
    pub slot: u8,
    pub transport: BulkTransport,
    pub stage: StorageStage,
    pub scsi: ScsiView,
}

impl StorageView {
    /// A device at its start: its first sector is to be read.
    pub open spec fn start(slot: u8, transport: BulkTransport) -> Self {
        StorageView {
            slot,
            transport,
            stage: StorageStage::SetConfig,
            scsi: ScsiView::start(
                ScsiCommand::Read10 { lba: 0, transfer_length: 1 },
                slot,
                transport.bulk_in.dci() as usize,
                transport.bulk_out.dci() as usize,
            ),
        }
    }

    /// What is asked for at this stage.
    pub open spec fn op(self) -> Op {
        match self.stage {
            StorageStage::SetConfig => Op::SetConfig {
                slot: self.slot,
                value: self.transport.config.config_value,
            },
            StorageStage::Reset => Op::StorageReset { slot: self.slot },
            StorageStage::ConfigureOut => Op::ConfigureBulk {
                slot: self.slot,
                ep: self.transport.bulk_out,
                dci: self.transport.bulk_out.dci() as usize,
            },
            StorageStage::ConfigureIn => Op::ConfigureBulk {
                slot: self.slot,
                ep: self.transport.bulk_in,
                dci: self.transport.bulk_in.dci() as usize,
            },
            StorageStage::ClearIn => Op::ClearHalt {
                slot: self.slot,
                address: self.transport.bulk_in.endpoint_address,
            },
            StorageStage::ClearOut => Op::ClearHalt {
                slot: self.slot,
                address: self.transport.bulk_out.endpoint_address,
            },
            StorageStage::Read => self.scsi.op(),
            StorageStage::Finished => Op::Done(Ok(())),
        }
    }

    /// The stage after this one.
    pub open spec fn stage_after(self) -> StorageStage {
        match self.stage {
            StorageStage::SetConfig => StorageStage::Reset,
            StorageStage::Reset => StorageStage::ConfigureOut,
            StorageStage::ConfigureOut => StorageStage::ConfigureIn,
            StorageStage::ConfigureIn => StorageStage::ClearIn,
            StorageStage::ClearIn => StorageStage::ClearOut,
            StorageStage::ClearOut => StorageStage::Read,
            StorageStage::Read => StorageStage::Finished,
            StorageStage::Finished => StorageStage::Finished,
        }
    }

    /// A failure at this stage does not matter: a halt that could not be ended.
    pub open spec fn forgiving(self) -> bool {
        self.stage == StorageStage::ClearIn || self.stage == StorageStage::ClearOut
    }

    /// What comes of a reply: the state after it, and what is asked for next. A failure ends
    /// the task unless the stage forgives it.
    pub open spec fn next(self, result: Result<u8, &'static str>, data: Seq<u8>) -> (Self, Op) {
        if self.stage == StorageStage::Read {
            let (scsi, op) = self.scsi.next(result, data);
            (
                StorageView {
                    scsi,
                    stage: if op is Done {
                        StorageStage::Finished
                    } else {
                        StorageStage::Read
                    },
                    ..self
                },
                op,
            )
        } else if result is Err && !self.forgiving() {
            (
                StorageView { stage: StorageStage::Finished, ..self },
                Op::Done(Err(result->Err_0)),
            )
        } else {
            let after = StorageView { stage: self.stage_after(), ..self };
            (after, after.op())
        }
    }
}

/// The handling of a mass storage device: select the configuration, reset the interface, set
/// up both endpoints, end their halts, and read the first sector.
#[derive(Debug)]
pub struct StorageTask {
    slot: u8,
    transport: BulkTransport,
    stage: StorageStage,
    scsi: ScsiTask,
}

impl View for StorageTask {
    type V = StorageView;

    closed spec fn view(&self) -> StorageView {
        StorageView {
            slot: self.slot,
            transport: self.transport,
            stage: self.stage,
            scsi: self.scsi@,
        }
    }
}

impl StorageTask {
    /// Starts to handle the mass storage device in `slot` with these descriptors.
    pub fn handle_mass_storage_device(slot: u8, descriptors: &[UsbDescriptor]) -> (r: Result<
        Self,
        &'static str,
    >)
        ensures
            match chosen(descriptors@) {
                Ok(transport) => r matches Ok(task) && task@ == StorageView::start(slot, transport),
                Err(e) => r == Err::<Self, &'static str>(e),
            },
    {
        let transport = choose_transport(descriptors)?;
        let bulk_out_dci: usize = transport.bulk_out.context_index();
        let bulk_in_dci: usize = transport.bulk_in.context_index();
        Ok(
            StorageTask {
                slot,
                transport,
                stage: StorageStage::SetConfig,
                scsi: ScsiTask::scsi_read_10(slot, bulk_in_dci, bulk_out_dci, 0, 1),
            },
        )
    }

    /// What is asked for at this stage.
    pub fn op(&self) -> (r: Op)
        ensures
            r == self@.op(),
    {
        match self.stage {
            StorageStage::SetConfig => Op::SetConfig {
                slot: self.slot,
                value: self.transport.config.config_value(),
            },
            StorageStage::Reset => Op::StorageReset { slot: self.slot },
            StorageStage::ConfigureOut => Op::ConfigureBulk {
                slot: self.slot,
                ep: self.transport.bulk_out,
                dci: self.transport.bulk_out.context_index(),
            },
            StorageStage::ConfigureIn => Op::ConfigureBulk {
                slot: self.slot,
                ep: self.transport.bulk_in,
                dci: self.transport.bulk_in.context_index(),
            },
            StorageStage::ClearIn => Op::ClearHalt {
                slot: self.slot,
                address: self.transport.bulk_in.endpoint_address,
            },
            StorageStage::ClearOut => Op::ClearHalt {
                slot: self.slot,
                address: self.transport.bulk_out.endpoint_address,
            },
            StorageStage::Read => self.scsi.op(),
            StorageStage::Finished => Op::Done(Ok(())),
        }
    }

    /// The sector that came.
    pub fn sector(&self) -> (r: &[u8])
        ensures
            r@ == self@.scsi.data,
    {
        self.scsi.data()
    }

    /// Takes the reply to what was asked for last; answers what is asked for next.
    pub fn step(&mut self, reply: Reply) -> (r: Op)
        requires
            reply.answers(old(self)@.op()),
        ensures
            (final(self)@, r) == old(self)@.next(reply.result, reply.data@),
    {
        let after = match self.stage {
            StorageStage::SetConfig => StorageStage::Reset,
            StorageStage::Reset => StorageStage::ConfigureOut,
            StorageStage::ConfigureOut => StorageStage::ConfigureIn,
            StorageStage::ConfigureIn => StorageStage::ClearIn,
            StorageStage::ClearIn => StorageStage::ClearOut,
            StorageStage::ClearOut => StorageStage::Read,
            StorageStage::Read => {
                let op = self.scsi.step(reply);
                if let Op::Done(_) = op {
                    self.stage = StorageStage::Finished;
                }
                return op;
            },
            StorageStage::Finished => StorageStage::Finished,
        };
        if let Err(e) = reply.result {
            if self.stage != StorageStage::ClearIn && self.stage != StorageStage::ClearOut {
                self.stage = StorageStage::Finished;
                return Op::Done(Err(e));
            }
        }
        self.stage = after;
        self.op()
    }
}

impl ScsiView {
    /// How many replies are still to come.
    pub open spec fn to_come(self) -> nat {
        match self.stage {
            ScsiStage::Command => 3,
            ScsiStage::Data => 2,
            ScsiStage::Status => 1,
            ScsiStage::Finished => 0,
        }
    }
}

impl StorageView {
    /// How many replies are still to come.
    pub open spec fn to_come(self) -> nat {
        match self.stage {
            StorageStage::SetConfig => 9,
            StorageStage::Reset => 8,
            StorageStage::ConfigureOut => 7,
            StorageStage::ConfigureIn => 6,
            StorageStage::ClearIn => 5,
            StorageStage::ClearOut => 4,
            StorageStage::Read => self.scsi.to_come(),
            StorageStage::Finished => 0,
        }
    }
}

/// The handling of a device ends after at most nine replies, whatever they are: each brings
/// the end or leaves fewer to come.
pub proof fn law_storage_task_ends(
    view: StorageView,
    result: Result<u8, &'static str>,
    data: Seq<u8>,
)
    ensures
        ({
            let (after, op) = view.next(result, data);
            op is Done || after.to_come() < view.to_come()
        }),
        view.to_come() <= 9,
{
}

/// A halt that cannot be ended changes nothing: the handling goes on as if it had been. Any
/// other failure ends it, with the error that came.
pub proof fn law_storage_failures(view: StorageView, e: &'static str, ok: u8, data: Seq<u8>)
    ensures
        view.forgiving() <==> view.op() is ClearHalt,
        view.forgiving() ==> view.next(Err(e), data) == view.next(Ok(ok), data),
        !view.forgiving() ==> view.next(Err(e), data).1 == Op::Done(Err(e)),
{
}

/// A device whose replies are all good is asked, in this order, to take the configuration,
/// to reset, to have its endpoints set up and their halts ended, and for its first sector;
/// the handling ends as the sector's status says.
pub proof fn law_storage_task_runs(
    slot: u8,
    transport: BulkTransport,
    ok: u8,
    none: Seq<u8>,
    sector: Seq<u8>,
    csw: Seq<u8>,
)
    ensures
        ({
            let out_dci = 2 * (transport.bulk_out.endpoint_address as int % 0x10)
                + transport.bulk_out.endpoint_address as int / 0x80;
            let in_dci = 2 * (transport.bulk_in.endpoint_address as int % 0x10)
                + transport.bulk_in.endpoint_address as int / 0x80;
            let s0 = StorageView::start(slot, transport);
            let (s1, op1) = s0.next(Ok(ok), none);
            let (s2, op2) = s1.next(Ok(ok), none);
            let (s3, op3) = s2.next(Ok(ok), none);
            let (s4, op4) = s3.next(Ok(ok), none);
            let (s5, op5) = s4.next(Ok(ok), none);
            let (s6, op6) = s5.next(Ok(ok), none);
            let (s7, op7) = s6.next(Ok(ok), none);
            let (s8, op8) = s7.next(Ok(ok), sector);
            let (s9, op9) = s8.next(Ok(ok), csw);
            &&& s0.op() == Op::SetConfig { slot, value: transport.config.config_value }
            &&& op1 == Op::StorageReset { slot }
            &&& op2 matches Op::ConfigureBulk { slot: s, ep, dci } && s == slot && ep
                == transport.bulk_out && dci == out_dci
            &&& op3 matches Op::ConfigureBulk { slot: s, ep, dci } && s == slot && ep
                == transport.bulk_in && dci == in_dci
            &&& op4 == Op::ClearHalt { slot, address: transport.bulk_in.endpoint_address }
            &&& op5 == Op::ClearHalt { slot, address: transport.bulk_out.endpoint_address }
            &&& op6 == Op::BulkOut {
                slot,
                dci: out_dci as usize,
                command: ScsiCommand::Read10 { lba: 0, transfer_length: 1 },
            }
            &&& op7 == Op::BulkIn { slot, dci: in_dci as usize, len: 512 }
            &&& op8 == Op::BulkIn { slot, dci: in_dci as usize, len: 13 }
            &&& op9 == Op::Done(crate::scsi::csw_outcome(csw))
            &&& s9.scsi.data == sector
        }),
{
}

/// What [`last_of`] finds: the last that is picked, and none if nothing is.
proof fn lemma_last_one<T>(ds: Seq<UsbDescriptor>, pick: spec_fn(UsbDescriptor) -> Option<T>)
    ensures
        last_of(ds, pick) is None <==> forall|k: int|
            0 <= k < ds.len() ==> pick(#[trigger] ds[k]) is None,
        last_of(ds, pick) is Some ==> exists|k: int|
            0 <= k < ds.len() && pick(#[trigger] ds[k]) == last_of(ds, pick) && forall|j: int|
                k < j < ds.len() ==> pick(#[trigger] ds[j]) is None,
    decreases ds.len(),
{
    if ds.len() > 0 {
        let head = ds.drop_last();
        let n = ds.len() - 1;
        assert(ds[n] == ds.last());
        lemma_last_one(head, pick);
        if pick(ds.last()) is Some {
            assert(pick(ds[n]) == last_of(ds, pick));
        } else {
            assert forall|k: int| 0 <= k < head.len() implies #[trigger] ds[k] == head[k] by {}
            if last_of(head, pick) is Some {
                let k = choose|k: int|
                    0 <= k < head.len() && pick(#[trigger] head[k]) == last_of(head, pick)
                        && forall|j: int| k < j < head.len() ==> pick(#[trigger] head[j]) is None;
                assert(pick(ds[k]) == last_of(ds, pick));
                assert forall|j: int| k < j < ds.len() implies pick(#[trigger] ds[j]) is None by {
                    if j < n {
                        assert(pick(head[j]) is None);
                    }
                }
            } else {
                assert forall|k: int| 0 <= k < ds.len() implies pick(#[trigger] ds[k]) is None by {
                    if k < n {
                        assert(pick(head[k]) is None);
                    }
                }
            }
            if forall|k: int| 0 <= k < ds.len() ==> pick(#[trigger] ds[k]) is None {
                assert forall|k: int| 0 <= k < head.len() implies pick(#[trigger] head[k]) is None by {
                    assert(ds[k] == head[k]);
                }
            }
        }
    }
}

/// A bulk endpoint in a direction, by its attributes and its address.
pub open spec fn moves_bulk(d: UsbDescriptor, inward: bool) -> bool {
    d matches UsbDescriptor::Endpoint(e) && e.attributes as int % 4 == 2 && (inward <==> e.endpoint_address
        >= 0x80)
}

/// Where looking stops, as the first configuration after an interface.
proof fn lemma_stop(ds: Seq<UsbDescriptor>, i: int, stop: int)
    requires
        0 <= i <= stop <= ds.len(),
        forall|a: int, b: int|
            0 <= a < b < stop ==> !((#[trigger] ds[a]) is Interface && (#[trigger] ds[b]) is Config),
        stop < ds.len() ==> ds[stop] is Config && exists|a: int|
            0 <= a < stop && (#[trigger] ds[a]) is Interface,
    ensures
        scan_end(ds, i) == stop,
    decreases stop - i,
{
    let pick = |d: UsbDescriptor| as_interface(d);
    if i < ds.len() {
        let seen = ds.take(i);
        lemma_last_one(seen, pick);
        if i < stop {
            if last_interface(seen) is Some {
                let k = choose|k: int|
                    0 <= k < seen.len() && pick(#[trigger] seen[k]) == last_of(seen, pick)
                        && forall|j: int| k < j < seen.len() ==> pick(#[trigger] seen[j]) is None;
                assert(ds[k] == seen[k]);
                assert(ds[k] is Interface);
                assert(!(ds[i] is Config));
            }
            lemma_stop(ds, i + 1, stop);
        } else {
            let a = choose|a: int| 0 <= a < stop && (#[trigger] ds[a]) is Interface;
            assert(seen[a] == ds[a]);
            assert(pick(seen[a]) is Some);
        }
    }
}

/// Which configuration, interface and endpoints are used: the descriptors count up to the first
/// configuration that comes after an interface, and of each kind the last one counts. Where a
/// kind is missing, the first that is missing of configuration, interface, bulk in and bulk out
/// is the error.
pub proof fn law_the_last_of_each_kind_counts(ds: Seq<UsbDescriptor>, stop: int)
    requires
        0 <= stop <= ds.len(),
        forall|a: int, b: int|
            0 <= a < b < stop ==> !((#[trigger] ds[a]) is Interface && (#[trigger] ds[b]) is Config),
        stop < ds.len() ==> ds[stop] is Config && exists|a: int|
            0 <= a < stop && (#[trigger] ds[a]) is Interface,
    ensures
        ({
            let config = exists|k: int| 0 <= k < stop && (#[trigger] ds[k]) is Config;
            let interface = exists|k: int| 0 <= k < stop && (#[trigger] ds[k]) is Interface;
            let bulk_in = exists|k: int| 0 <= k < stop && moves_bulk(#[trigger] ds[k], true);
            let bulk_out = exists|k: int| 0 <= k < stop && moves_bulk(#[trigger] ds[k], false);
            &&& chosen(ds) is Ok <==> config && interface && bulk_in && bulk_out
            &&& !config ==> chosen(ds) == Err::<BulkTransport, &'static str>(
                "Config descriptor not found",
            )
            &&& config && !interface ==> chosen(ds) == Err::<BulkTransport, &'static str>(
                "Interface descriptor not found",
            )
            &&& config && interface && !bulk_in ==> chosen(ds) == Err::<
                BulkTransport,
                &'static str,
            >("Bulk IN endpoint not found")
            &&& config && interface && bulk_in && !bulk_out ==> chosen(ds) == Err::<
                BulkTransport,
                &'static str,
            >("Bulk OUT endpoint not found")
        }),
        chosen(ds) matches Ok(t) ==> {
            &&& exists|k: int|
                0 <= k < stop && #[trigger] ds[k] == UsbDescriptor::Config(t.config) && forall|j: int|
                    k < j < stop ==> !((#[trigger] ds[j]) is Config)
            &&& exists|k: int|
                0 <= k < stop && #[trigger] ds[k] == UsbDescriptor::Interface(t.interface)
                    && forall|j: int| k < j < stop ==> !((#[trigger] ds[j]) is Interface)
            &&& exists|k: int|
                0 <= k < stop && #[trigger] ds[k] == UsbDescriptor::Endpoint(t.bulk_in) && moves_bulk(
                    ds[k],
                    true,
                ) && forall|j: int| k < j < stop ==> !moves_bulk(#[trigger] ds[j], true)
            &&& exists|k: int|
                0 <= k < stop && #[trigger] ds[k] == UsbDescriptor::Endpoint(t.bulk_out)
                    && moves_bulk(ds[k], false) && forall|j: int|
                    k < j < stop ==> !moves_bulk(#[trigger] ds[j], false)
        },
{
    lemma_stop(ds, 0, stop);
    let seen = ds.take(stop);
    assert forall|k: int| 0 <= k < stop implies #[trigger] ds[k] == seen[k] by {}
    let pc = |d: UsbDescriptor| as_config(d);
    let pi = |d: UsbDescriptor| as_interface(d);
    let pa = |d: UsbDescriptor| as_bulk_in(d);
    let pb = |d: UsbDescriptor| as_bulk_out(d);
    lemma_last_one(seen, pc);
    lemma_last_one(seen, pi);
    lemma_last_one(seen, pa);
    lemma_last_one(seen, pb);
    assert forall|k: int| 0 <= k < stop implies {
        &&& pc(#[trigger] ds[k]) is Some <==> ds[k] is Config
        &&& pi(ds[k]) is Some <==> ds[k] is Interface
        &&& pa(ds[k]) is Some <==> moves_bulk(ds[k], true)
        &&& pb(ds[k]) is Some <==> moves_bulk(ds[k], false)
    } by {}
    lemma_there(ds, seen, stop, pc);
    lemma_there(ds, seen, stop, pi);
    lemma_there(ds, seen, stop, pa);
    lemma_there(ds, seen, stop, pb);
    if chosen(ds) is Ok {
        let c = choose|k: int|
            0 <= k < stop && pc(#[trigger] ds[k]) == last_of(seen, pc) && forall|j: int|
                k < j < stop ==> pc(#[trigger] ds[j]) is None;
        let f = choose|k: int|
            0 <= k < stop && pi(#[trigger] ds[k]) == last_of(seen, pi) && forall|j: int|
                k < j < stop ==> pi(#[trigger] ds[j]) is None;
        let a = choose|k: int|
            0 <= k < stop && pa(#[trigger] ds[k]) == last_of(seen, pa) && forall|j: int|
                k < j < stop ==> pa(#[trigger] ds[j]) is None;
        let b = choose|k: int|
            0 <= k < stop && pb(#[trigger] ds[k]) == last_of(seen, pb) && forall|j: int|
                k < j < stop ==> pb(#[trigger] ds[j]) is None;
        let t = chosen(ds)->Ok_0;
        assert(ds[c] == UsbDescriptor::Config(t.config));
        assert(ds[f] == UsbDescriptor::Interface(t.interface));
        assert(ds[a] == UsbDescriptor::Endpoint(t.bulk_in));
        assert(ds[b] == UsbDescriptor::Endpoint(t.bulk_out));
    }
}

/// What is picked last from the start of the descriptors, in their own terms.
proof fn lemma_there<T>(
    ds: Seq<UsbDescriptor>,
    seen: Seq<UsbDescriptor>,
    stop: int,
    pick: spec_fn(UsbDescriptor) -> Option<T>,
)
    requires
        0 <= stop <= ds.len(),
        seen == ds.take(stop),
    ensures
        last_of(seen, pick) is Some <==> exists|k: int|
            0 <= k < stop && pick(#[trigger] ds[k]) is Some,
        last_of(seen, pick) is Some ==> exists|k: int|
            0 <= k < stop && pick(#[trigger] ds[k]) == last_of(seen, pick) && forall|j: int|
                k < j < stop ==> pick(#[trigger] ds[j]) is None,
{
    lemma_last_one(seen, pick);
    if last_of(seen, pick) is Some {
        let k = choose|k: int|
            0 <= k < seen.len() && pick(#[trigger] seen[k]) == last_of(seen, pick) && forall|j: int|
                k < j < seen.len() ==> pick(#[trigger] seen[j]) is None;
        assert(ds[k] == seen[k]);
        assert forall|j: int| k < j < stop implies pick(#[trigger] ds[j]) is None by {
            assert(pick(seen[j]) is None);
        }
    } else {
        assert forall|k: int| 0 <= k < stop implies pick(#[trigger] ds[k]) is None by {
            assert(pick(seen[k]) is None);
        }
    }
}

/// A command starts by sending itself, with nothing received yet, and a device by selecting its
/// configuration.
pub proof fn law_storage_starts(
    command: ScsiCommand,
    slot: u8,
    bulk_in: usize,
    bulk_out: usize,
    transport: BulkTransport,
)
    ensures
        ScsiView::start(command, slot, bulk_in, bulk_out).op() == (Op::BulkOut {
            slot,
            dci: bulk_out,
            command,
        }),
        ScsiView::start(command, slot, bulk_in, bulk_out).bulk_in_dci == bulk_in,
        ScsiView::start(command, slot, bulk_in, bulk_out).data.len() == 0,
        StorageView::start(slot, transport).op() == (Op::SetConfig {
            slot,
            value: transport.config.config_value,
        }),
        StorageView::start(slot, transport).scsi.data.len() == 0,
{
}

/// What is over is over: after the end, or after a failure that is not forgiven, every further
/// good reply is answered with the end, and what was received stays.
pub proof fn law_storage_stays_over(
    scsi: ScsiView,
    view: StorageView,
    e: &'static str,
    ok: u8,
    data: Seq<u8>,
    more: Seq<u8>,
)
    ensures
        ({
            let after = scsi.next(Err(e), data).0;
            after.next(Ok(ok), more) == (after, Op::Done(Ok(())))
        }),
        !view.forgiving() ==> {
            let after = view.next(Err(e), data).0;
            after.next(Ok(ok), more) == (after, Op::Done(Ok(()))) && after.scsi.data
                == view.scsi.data
        },
{
}

} // verus!
