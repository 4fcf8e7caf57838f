//! The driver: which controllers it takes, how it takes one, and what it asks of the
//! devices behind it.
use crate::bytes::read_le16;
use crate::mbr::analyze_sector_zero;
use crate::mbr::SectorZero;
use crate::text::string_from_descriptor;
use crate::xhci::descriptor::collect_descriptors;
use crate::xhci::descriptor::ConfigDescriptor;
use crate::xhci::descriptor::UsbDescriptor;
use crate::xhci::descriptor::UsbDescriptorType;
use crate::xhci::descriptor::UsbDeviceDescriptor;
use crate::xhci::op::Op;
use crate::xhci::op::Reply;
use crate::xhci::port::PortSc;
use crate::xhci::port::PortScEntry;
use crate::xhci::registers::CapabilityRegisters;
use crate::xhci::registers::Doorbell;
use crate::xhci::registers::RuntimeRegisters;
use crate::xhci::registers::XhcRegisters;
use crate::xhci::storage::StorageTask;
use crate::xhci::storage::StorageView;
use vstd::prelude::*;

verus! {

/// What a PCI function says of who made it and what it is.
#[derive(Debug, Copy, Clone, PartialEq, Eq, Structural)]
pub struct VendorDeviceId {
    pub vendor: u16,
    pub device: u16,
}

/// What is to be done to take a controller.
#[derive(Debug, Copy, Clone, PartialEq, Eq)]
pub enum Attach {
    /// Stop the function from raising interrupts.
    DisableInterrupt,
    /// Let the function read and write memory.
    EnableBusMastering,
    /// Find the memory that holds its registers.
    FindBar0,
    /// Make that memory uncached.
    DisableCache,
    /// Lay out the registers and start the controller.
    SetUp,
    /// Start to serve the devices behind it.
    Spawn,
    /// Nothing: the controller is taken.
    Attached,
    /// Nothing: it could not be taken.
    Failed(&'static str),
}

impl Attach {
    /// What follows once this is done. Where it failed, nothing does; making memory
    /// uncached and starting to serve do not fail.
    pub open spec fn after(self, result: Result<(), &'static str>) -> Self {
        match self {
            Attach::DisableCache => Attach::SetUp,
            Attach::Spawn => Attach::Attached,
            Attach::Attached => self,
            Attach::Failed(_) => self,
            _ => match result {
                Err(e) => Attach::Failed(e),
                Ok(_) => match self {
                    Attach::DisableInterrupt => Attach::EnableBusMastering,
                    Attach::EnableBusMastering => Attach::FindBar0,
                    Attach::FindBar0 => Attach::DisableCache,
                    _ => Attach::Spawn,
                },
            },
        }
    }
}

/// The ports that a device is connected to, by their registers' values: port `i + 1` has
/// the value `values[i]`.
pub open spec fn connected(values: Seq<u32>) -> Seq<usize>
    decreases values.len(),
{
    if values.len() == 0 {
        seq![]
    } else if values.last() % 2 == 1 {
        connected(values.drop_last()).push(values.len() as usize)
    } else {
        connected(values.drop_last())
    }
}

/// The ports that a device is connected to, in ascending order.
pub fn connected_ports(values: &[u32]) -> (r: Vec<usize>)
    requires
        values@.len() < usize::MAX,
    ensures
        r@ == connected(values@),
{
    let mut ports: Vec<usize> = Vec::new();
    let mut i: usize = 0;
    assert(values@.take(0) =~= seq![]);
    while i < values.len()
        invariant
            i <= values@.len() < usize::MAX,
            ports@ == connected(values@.take(i as int)),
        decreases values@.len() - i,
    {
        assert(values@.take(i + 1).drop_last() =~= values@.take(i as int));
        assert(values@.take(i + 1).last() == values@[i as int]);
        let entry = PortScEntry::new(0).read(values[i]);
        if entry.ccs() {
            ports.push(i + 1);
        }
        i += 1;
    }
    assert(values@.take(values@.len() as int) =~= values@);
    ports
}

/// The ports that are found are those whose register has its lowest bit set, each once,
/// in ascending order.
pub proof fn law_connected_ports(values: Seq<u32>)
    requires
        values.len() < usize::MAX,
    ensures
        forall|k: int|
            0 <= k < connected(values).len() ==> 1 <= #[trigger] connected(values)[k]
                <= values.len() && values[connected(values)[k] - 1] % 2 == 1,
        forall|j: int, k: int|
            0 <= j < k < connected(values).len() ==> #[trigger] connected(values)[j]
                < #[trigger] connected(values)[k],
        forall|p: usize|
            1 <= p <= values.len() && #[trigger] values[p - 1] % 2 == 1 ==> connected(
                values,
            ).contains(p),
    decreases values.len(),
{
    if values.len() > 0 {
        let init = values.drop_last();
        law_connected_ports(init);
        assert forall|p: usize|
            1 <= p <= values.len() && #[trigger] values[p - 1] % 2 == 1 implies connected(
            values,
        ).contains(p) by {
            if p == values.len() {
                assert(connected(values).last() == p);
            } else {
                assert(init[p - 1] == values[p - 1]);
                let k = choose|k: int|
                    0 <= k < connected(init).len() && connected(init)[k] == p;
                assert(connected(values)[k] == p);
            }
        }
    }
}

/// Takes controllers, and serves the devices behind them.
pub struct PciXhciDriver {}

impl PciXhciDriver {
    /// The controllers that the driver takes.
    pub open spec fn known(vd: VendorDeviceId) -> bool {
        ||| vd.vendor == 0x1b36 && vd.device == 0x000d
        ||| vd.vendor == 0x8086 && vd.device == 0x31a8
        ||| vd.vendor == 0x8086 && vd.device == 0x02ed
        ||| vd.vendor == 0x8086 && vd.device == 0x9d2f
    }

    /// Whether the driver takes this controller.
    pub fn supports(vd: VendorDeviceId) -> (r: bool)
        ensures
            r == Self::known(vd),
    {
        let list: [VendorDeviceId; 4] = [
            VendorDeviceId { vendor: 0x1b36, device: 0x000d },
            VendorDeviceId { vendor: 0x8086, device: 0x31a8 },
            VendorDeviceId { vendor: 0x8086, device: 0x02ed },
            VendorDeviceId { vendor: 0x8086, device: 0x9d2f },
        ];
        let mut i: usize = 0;
        while i < 4
            invariant
                i <= 4,
                list[0] == (VendorDeviceId { vendor: 0x1b36, device: 0x000d }),
                list[1] == (VendorDeviceId { vendor: 0x8086, device: 0x31a8 }),
                list[2] == (VendorDeviceId { vendor: 0x8086, device: 0x02ed }),
                list[3] == (VendorDeviceId { vendor: 0x8086, device: 0x9d2f }),
                forall|j: int| 0 <= j < i ==> list[j] != vd,
            decreases 4 - i,
        {
            if list[i] == vd {
                return true;
            }
            i += 1;
        }
        assert(list[0] != vd && list[1] != vd && list[2] != vd && list[3] != vd);
        false
    }

    /// Lays out the registers of a controller with these capabilities in the space that
    /// starts at `bar0`.
    pub fn setup_xhc_registers(bar0: u64, cap_regs: CapabilityRegisters) -> (r: XhcRegisters)
        requires
            XhcRegisters::fits(bar0, cap_regs),
        ensures
            r.laid_out(bar0, cap_regs),
            r.wf(),
    {
        let op_base: u64 = bar0 + cap_regs.caplength() as u64;
        let rt_regs = RuntimeRegisters { base: bar0 + cap_regs.rtsoff() as u64 };
        let num_slots: usize = cap_regs.num_of_ports();
        let portsc = PortSc::new(op_base, num_slots);
        let doorbells: u64 = bar0 + cap_regs.dboff() as u64;
        let mut doorbell_regs: Vec<Doorbell> = Vec::new();
        let mut i: usize = 0;
        while i <= num_slots
            invariant
                i <= num_slots + 1,
                num_slots <= 255,
                doorbells + 4 * num_slots + 4 <= u64::MAX,
                doorbell_regs@ =~= Seq::new(
                    i as nat,
                    |j: int| Doorbell { ptr: (doorbells + 4 * j) as u64 },
                ),
            decreases num_slots + 1 - i,
        {
            doorbell_regs.push(Doorbell::new(doorbells + 4 * (i as u64)));
            i += 1;
        }
        XhcRegisters { cap_regs, op_base, rt_regs, doorbell_regs, portsc }
    }

    /// What is to be done next to take a controller, once `done` has been done with this
    /// result.
    pub fn attach(done: Attach, result: Result<(), &'static str>) -> (r: Attach)
        ensures
            r == done.after(result),
    {
        match done {
            Attach::DisableCache => {
                return Attach::SetUp;
            },
            Attach::Spawn => {
                return Attach::Attached;
            },
            Attach::Attached | Attach::Failed(_) => {
                return done;
            },
            _ => {},
        }
        match result {
            Err(e) => Attach::Failed(e),
            Ok(_) => match done {
                Attach::DisableInterrupt => Attach::EnableBusMastering,
                Attach::EnableBusMastering => Attach::FindBar0,
                Attach::FindBar0 => Attach::DisableCache,
                _ => Attach::Spawn,
            },
        }
    }

    /// Starts to serve the devices behind a controller whose ports have these values.
    pub fn run(values: &[u32]) -> (r: RunTask)
        requires
            values@.len() < usize::MAX,
        ensures
            r.wf(),
            r@ == RunView::start(connected(values@)),
    {
        RunTask::new(connected_ports(values))
    }
}

/// Taking a controller comes to an end after at most six steps, whatever their results;
/// it succeeds if and only if none of the four steps that can fail does.
pub proof fn law_attach_ends(results: Seq<Result<(), &'static str>>)
    requires
        results.len() == 6,
    ensures
        ({
            let a1 = Attach::DisableInterrupt.after(results[0]);
            let a2 = a1.after(results[1]);
            let a3 = a2.after(results[2]);
            let a4 = a3.after(results[3]);
            let a5 = a4.after(results[4]);
            let a6 = a5.after(results[5]);
            &&& a6 is Attached || a6 is Failed
            &&& a6 is Attached <==> results[0] is Ok && results[1] is Ok && results[2] is Ok
                && results[4] is Ok
        }),
{
}

/// How far the driver has come with the device at a port.
#[derive(Debug, Copy, Clone, PartialEq, Eq, Structural)]
pub enum RunStage {
    InitPort,
    Address,
    Device,
    StringZero,
    Vendor,
    Product,
    Serial,
    Config,
    Rest,
    Storage,
    Finished,
}

/// What the driver's task holds.
pub struct RunView {
    pub ports: Seq<usize>,
    pub at: int,
    pub stage: RunStage,
    pub slot: u8,
    pub device: UsbDeviceDescriptor,
    pub lang_id: u16,
    pub vendor: Option<Seq<char>>,
    pub product: Option<Seq<char>>,
    pub serial: Option<Seq<char>>,
    pub total_length: usize,
    pub descriptors: Seq<UsbDescriptor>,
    pub interface: int,
    pub storage: Option<StorageView>,
    pub sector: Option<Seq<u8>>,
}

/// A descriptor of an interface for bulk-only mass storage.
pub open spec fn is_storage(d: UsbDescriptor) -> bool {
    d matches UsbDescriptor::Interface(i) && i.bulk_storage()
}

/// The first interface for bulk-only mass storage from `i` on; the length if there is none.
pub open spec fn next_storage(descriptors: Seq<UsbDescriptor>, i: int) -> int
    decreases descriptors.len() - i,
{
    if i >= descriptors.len() {
        descriptors.len() as int
    } else if is_storage(descriptors[i]) {
        i
    } else {
        next_storage(descriptors, i + 1)
    }
}

/// The text of a string descriptor.
pub open spec fn text_of(data: Seq<u8>) -> Seq<char> {
    crate::text::without_nuls(crate::text::lossy_utf8(data.skip(2)))
}

/// The words of string descriptor zero, after its header the languages of the strings.
pub fn string_zero(data: &[u8]) -> (r: Vec<u16>)
    ensures
        r@ == Seq::new(data@.len() / 2, |i: int| crate::bytes::le16(data@, 2 * i) as u16),
        data@.len() - 1 <= 2 * r@.len() <= data@.len(),
        forall|i: int|
            0 <= i < r@.len() ==> #[trigger] r@[i] == data@[2 * i] + 0x100 * data@[2 * i + 1],
{
    let mut words: Vec<u16> = Vec::new();
    let mut i: usize = 0;
    while i < data.len() / 2
        invariant
            i <= data@.len() / 2,
            words@ =~= Seq::new(i as nat, |j: int| crate::bytes::le16(data@, 2 * j) as u16),
        decreases data@.len() - i,
    {
        words.push(read_le16(data, 2 * i));
        i += 1;
    }
    words
}

impl RunView {
    /// The task at its start, with these ports to serve.
    pub open spec fn start(ports: Seq<usize>) -> Self {
        RunView {
            ports,
            at: 0,
            stage: if ports.len() == 0 {
                RunStage::Finished
            } else {
                RunStage::InitPort
            },
            slot: 0,
            device: UsbDeviceDescriptor::blank(),
            lang_id: 0,
            vendor: None,
            product: None,
            serial: None,
            total_length: 0,
            descriptors: seq![],
            interface: 0,
            storage: None,
            sector: None,
        }
    }

    /// What is asked for at this stage.
    pub open spec fn op(self) -> Op {
        match self.stage {
            RunStage::InitPort => Op::InitPort { port: self.ports[self.at] },
            RunStage::Address => Op::AddressDevice { port: self.ports[self.at], slot: self.slot },
            RunStage::Device => Op::Descriptor {
                slot: self.slot,
                desc_type: UsbDescriptorType::Device,
                index: 0,
                lang_id: 0,
                len: 18,
            },
            RunStage::StringZero => self.ask_string(0, 0, 16),
            RunStage::Vendor => self.ask_string(self.device.manufacturer_index, self.lang_id, 128),
            RunStage::Product => self.ask_string(self.device.product_index, self.lang_id, 128),
            RunStage::Serial => self.ask_string(self.device.serial_idx, self.lang_id, 128),
            RunStage::Config => self.ask_config(9),
            RunStage::Rest => self.ask_config(self.total_length),
            RunStage::Storage => match self.storage {
                Some(s) => s.op(),
                None => Op::Done(Ok(())),
            },
            RunStage::Finished => Op::Done(Ok(())),
        }
    }

    /// Asks for a string.
    pub open spec fn ask_string(self, index: u8, lang_id: u16, len: usize) -> Op {
        Op::Descriptor {
            slot: self.slot,
            desc_type: UsbDescriptorType::String,
            index,
            lang_id,
            len,
        }
    }

    /// Asks for the start of the configuration.
    pub open spec fn ask_config(self, len: usize) -> Op {
        Op::Descriptor {
            slot: self.slot,
            desc_type: UsbDescriptorType::Config,
            index: 0,
            lang_id: 0,
            len,
        }
    }

    /// The task at its end.
    pub open spec fn ended(self, result: Result<(), &'static str>) -> (Self, Op) {
        (RunView { stage: RunStage::Finished, ..self }, Op::Done(result))
    }

    /// The task at another stage.
    pub open spec fn at_stage(self, stage: RunStage) -> (Self, Op) {
        let after = RunView { stage, ..self };
        (after, after.op())
    }

    /// On to the next port; after the last one the task is over.
    pub open spec fn next_port(self) -> (Self, Op) {
        let after = RunView { at: self.at + 1, ..self };
        if after.at < after.ports.len() {
            after.at_stage(RunStage::InitPort)
        } else {
            after.ended(Ok(()))
        }
    }

    /// On to the serial number, if the device has one, else to the configuration.
    pub open spec fn to_serial(self) -> (Self, Op) {
        if self.device.serial_idx != 0 {
            self.at_stage(RunStage::Serial)
        } else {
            self.at_stage(RunStage::Config)
        }
    }

    /// On to the product's name, if the device has one, else to what follows it.
    pub open spec fn to_product(self) -> (Self, Op) {
        if self.device.product_index != 0 {
            self.at_stage(RunStage::Product)
        } else {
            self.to_serial()
        }
    }

    /// On to the vendor's name, if the device has one, else to what follows it.
    pub open spec fn to_vendor(self) -> (Self, Op) {
        if self.device.manufacturer_index != 0 {
            self.at_stage(RunStage::Vendor)
        } else {
            self.to_product()
        }
    }

    /// On to the first interface for mass storage from descriptor `i` on, if there is one,
    /// else to the next port. Where it lacks what bulk-only transport needs, the task is
    /// over.
    pub open spec fn to_storage(self, i: int) -> (Self, Op) {
        let found = next_storage(self.descriptors, i);
        if found >= self.descriptors.len() {
            RunView { interface: found, ..self }.next_port()
        } else {
            match crate::xhci::storage::chosen(self.descriptors) {
                Err(e) => RunView { interface: found, ..self }.ended(Err(e)),
                Ok(transport) => RunView {
                    interface: found,
                    storage: Some(StorageView::start(self.slot, transport)),
                    ..self
                }.at_stage(RunStage::Storage),
            }
        }
    }

    /// What comes of a failure: a device that cannot be addressed, that does not describe
    /// itself or that has no strings is passed over; any other failure ends the task.
    pub open spec fn failed(self, e: &'static str) -> (Self, Op) {
        match self.stage {
            RunStage::Address | RunStage::Device | RunStage::StringZero => self.next_port(),
            _ => self.ended(Err(e)),
        }
    }

    /// What comes of a reply: the state after it, and what is asked for next. The sector that
    /// the last reply completed, if it did, is forgotten.
    pub open spec fn next(self, result: Result<u8, &'static str>, data: Seq<u8>) -> (Self, Op) {
        let quiet = RunView { sector: None, ..self };
        match self.stage {
            RunStage::Finished => (quiet, Op::Done(Ok(()))),
            RunStage::Storage => quiet.served(result, data),
            _ => match result {
                Err(e) => quiet.failed(e),
                Ok(slot) => quiet.learned(slot, data),
            },
        }
    }

    /// What comes of a reply to the task for mass storage. When that is over, its sector is
    /// noted, and the next interface for mass storage is served.
    pub open spec fn served(self, result: Result<u8, &'static str>, data: Seq<u8>) -> (Self, Op) {
        match self.storage {
            None => self.ended(Ok(())),
            Some(s) => {
                let (after, op) = s.next(result, data);
                let now = RunView { storage: Some(after), ..self };
                match op {
                    Op::Done(Ok(_)) => RunView {
                        sector: Some(after.scsi.data),
                        ..now
                    }.to_storage(self.interface + 1),
                    Op::Done(Err(e)) => now.ended(Err(e)),
                    _ => (now, op),
                }
            },
        }
    }

    /// What comes of an operation that went well, before any mass storage is served.
    pub open spec fn learned(self, slot: u8, data: Seq<u8>) -> (Self, Op) {
        match self.stage {
            RunStage::InitPort => RunView { slot, ..self }.at_stage(RunStage::Address),
            RunStage::Address => self.at_stage(RunStage::Device),
            RunStage::Device => RunView {
                device: UsbDeviceDescriptor::decoded(data, 0),
                ..self
            }.at_stage(RunStage::StringZero),
            RunStage::StringZero => RunView {
                lang_id: crate::bytes::le16(data, 2) as u16,
                vendor: None,
                product: None,
                serial: None,
                ..self
            }.to_vendor(),
            RunStage::Vendor => RunView { vendor: Some(text_of(data)), ..self }.to_product(),
            RunStage::Product => RunView { product: Some(text_of(data)), ..self }.to_serial(),
            RunStage::Serial => RunView { serial: Some(text_of(data)), ..self }.at_stage(
                RunStage::Config,
            ),
            RunStage::Config => RunView {
                total_length: ConfigDescriptor::decoded(data, 0).total_length as usize,
                ..self
            }.at_stage(RunStage::Rest),
            RunStage::Rest => RunView {
                descriptors: crate::xhci::descriptor::walk(data, 0),
                ..self
            }.to_storage(0),
            _ => self.ended(Ok(())),
        }
    }
}

/// Serves the devices behind a controller, one port after the other: gets each an address,
/// reads what it says of itself, and reads the first sector where it is mass storage.
#[derive(Debug)]
pub struct RunTask {
    ports: Vec<usize>,
    at: usize,
    stage: RunStage,
    slot: u8,
    device: UsbDeviceDescriptor,
    lang_id: u16,
    vendor: Option<String>,
    product: Option<String>,
    serial: Option<String>,
    total_length: usize,
    descriptors: Vec<UsbDescriptor>,
    interface: usize,
    storage: Option<StorageTask>,
    sector: Option<Vec<u8>>,
}

/// The characters of a text that may be missing.
pub open spec fn chars_of(s: Option<String>) -> Option<Seq<char>> {
    match s {
        Some(t) => Some(t@),
        None => None,
    }
}

impl View for RunTask {
    type V = RunView;

    closed spec fn view(&self) -> RunView {
        RunView {
            ports: self.ports@,
            at: self.at as int,
            stage: self.stage,
            slot: self.slot,
            device: self.device,
            lang_id: self.lang_id,
            vendor: chars_of(self.vendor),
            product: chars_of(self.product),
            serial: chars_of(self.serial),
            total_length: self.total_length,
            descriptors: self.descriptors@,
            interface: self.interface as int,
            storage: match self.storage {
                Some(s) => Some(s@),
                None => None,
            },
            sector: match self.sector {
                Some(s) => Some(s@),
                None => None,
            },
        }
    }
}

impl RunView {
    /// There is a port to serve and, while mass storage is served, its task; a
    /// configuration is at most as long as its length can say.
    pub open spec fn wf(self) -> bool {
        &&& 0 <= self.at <= self.ports.len()
        &&& self.stage != RunStage::Finished ==> self.at < self.ports.len()
        &&& self.stage == RunStage::Storage ==> self.storage is Some && 0 <= self.interface
            < self.descriptors.len()
        &&& self.total_length <= 0xffff
    }

    /// A reply that the task can take: one to what was asked for, and a configuration
    /// whose descriptors come to an end.
    pub open spec fn takes(self, result: Result<u8, &'static str>, data: Seq<u8>) -> bool {
        &&& result is Ok ==> data.len() == self.op().brings()
        &&& self.stage == RunStage::Rest && result is Ok
            ==> crate::xhci::descriptor::walk_ends(data, 0)
    }
}

impl RunTask {
    /// The task is in one of the states that it can be in.
    pub open spec fn wf(&self) -> bool {
        self@.wf()
    }

    /// The task at its start.
    fn new(ports: Vec<usize>) -> (r: Self)
        ensures
            r.wf(),
            r@ == RunView::start(ports@),
    {
        let stage = if ports.len() == 0 {
            RunStage::Finished
        } else {
            RunStage::InitPort
        };
        let r = RunTask {
            ports,
            at: 0,
            stage,
            slot: 0,
            device: UsbDeviceDescriptor::default(),
            lang_id: 0,
            vendor: None,
            product: None,
            serial: None,
            total_length: 0,
            descriptors: Vec::new(),
            interface: 0,
            storage: None,
            sector: None,
        };
        assert(r@.descriptors =~= seq![]);
        r
    }

    /// What is asked for at this stage.
    pub fn op(&self) -> (r: Op)
        requires
            self.wf(),
        ensures
            r == self@.op(),
    {
        match self.stage {
            RunStage::InitPort => Op::InitPort { port: self.ports[self.at] },
            RunStage::Address => Op::AddressDevice { port: self.ports[self.at], slot: self.slot },
            RunStage::Device => Op::Descriptor {
                slot: self.slot,
                desc_type: UsbDescriptorType::Device,
                index: 0,
                lang_id: 0,
                len: UsbDeviceDescriptor::SIZE,
            },
            RunStage::StringZero => self.string_op(0, 0, 16),
            RunStage::Vendor => self.string_op(
                self.device.manufacturer_index,
                self.lang_id,
                128,
            ),
            RunStage::Product => self.string_op(self.device.product_index, self.lang_id, 128),
            RunStage::Serial => self.string_op(self.device.serial_idx, self.lang_id, 128),
            RunStage::Config => self.config_op(ConfigDescriptor::SIZE),
            RunStage::Rest => self.config_op(self.total_length),
            RunStage::Storage => match &self.storage {
                Some(s) => s.op(),
                None => Op::Done(Ok(())),
            },
            RunStage::Finished => Op::Done(Ok(())),
        }
    }

    /// Asks for a string.
    fn string_op(&self, index: u8, lang_id: u16, len: usize) -> (r: Op)
        ensures
            r == self@.ask_string(index, lang_id, len),
    {
        Op::Descriptor {
            slot: self.slot,
            desc_type: UsbDescriptorType::String,
            index,
            lang_id,
            len,
        }
    }

    /// Asks for the start of the configuration.
    fn config_op(&self, len: usize) -> (r: Op)
        ensures
            r == self@.ask_config(len),
    {
        Op::Descriptor {
            slot: self.slot,
            desc_type: UsbDescriptorType::Config,
            index: 0,
            lang_id: 0,
            len,
        }
    }

    /// How far the task has come.
    pub fn stage(&self) -> (r: RunStage)
        ensures
            r == self@.stage,
    {
        self.stage
    }

    /// What the device at hand says of itself.
    pub fn device(&self) -> (r: &UsbDeviceDescriptor)
        ensures
            *r == self@.device,
    {
        &self.device
    }

    /// The name of the vendor of the device at hand.
    pub fn vendor(&self) -> (r: &Option<String>)
        ensures
            chars_of(*r) == self@.vendor,
    {
        &self.vendor
    }

    /// The name of the device at hand.
    pub fn product(&self) -> (r: &Option<String>)
        ensures
            chars_of(*r) == self@.product,
    {
        &self.product
    }

    /// The serial number of the device at hand.
    pub fn serial(&self) -> (r: &Option<String>)
        ensures
            chars_of(*r) == self@.serial,
    {
        &self.serial
    }

    /// What the sector says that the last step completed, if it completed one.
    pub fn report(&self) -> (r: Option<SectorZero>)
        ensures
            r is Some <==> (self@.sector matches Some(data) && data.len() >= 512),
            r matches Some(z) ==> z.says(self@.sector.unwrap()),
    {
        match &self.sector {
            Some(data) => analyze_sector_zero(data.as_slice()),
            None => None,
        }
    }

    /// Goes to another stage.
    fn go(&mut self, stage: RunStage) -> (r: Op)
        requires
            old(self)@.at_stage(stage).0.wf(),
        ensures
            final(self).wf(),
            (final(self)@, r) == old(self)@.at_stage(stage),
    {
        self.stage = stage;
        self.op()
    }

    /// Goes to the next port.
    fn go_next_port(&mut self) -> (r: Op)
        requires
            old(self)@.at < old(self)@.ports.len(),
            old(self)@.total_length <= 0xffff,
        ensures
            final(self).wf(),
            (final(self)@, r) == old(self)@.next_port(),
    {
        let count: usize = self.ports.len();
        self.at = self.at + 1;
        if self.at < count {
            self.go(RunStage::InitPort)
        } else {
            self.stage = RunStage::Finished;
            Op::Done(Ok(()))
        }
    }

    /// Goes to the serial number or past it.
    fn go_serial(&mut self) -> (r: Op)
        requires
            old(self).wf(),
            old(self)@.at < old(self)@.ports.len(),
        ensures
            final(self).wf(),
            (final(self)@, r) == old(self)@.to_serial(),
    {
        if self.device.serial_idx != 0 {
            self.go(RunStage::Serial)
        } else {
            self.go(RunStage::Config)
        }
    }

    /// Goes to the product's name or past it.
    fn go_product(&mut self) -> (r: Op)
        requires
            old(self).wf(),
            old(self)@.at < old(self)@.ports.len(),
        ensures
            final(self).wf(),
            (final(self)@, r) == old(self)@.to_product(),
    {
        if self.device.product_index != 0 {
            self.go(RunStage::Product)
        } else {
            self.go_serial()
        }
    }

    /// Goes to the vendor's name or past it.
    fn go_vendor(&mut self) -> (r: Op)
        requires
            old(self).wf(),
            old(self)@.at < old(self)@.ports.len(),
        ensures
            final(self).wf(),
            (final(self)@, r) == old(self)@.to_vendor(),
    {
        if self.device.manufacturer_index != 0 {
            self.go(RunStage::Vendor)
        } else {
            self.go_product()
        }
    }

    /// Goes to the next interface for mass storage from descriptor `i` on, or past them.
    fn go_storage(&mut self, i: usize) -> (r: Op)
        requires
            old(self).wf(),
            old(self)@.at < old(self)@.ports.len(),
            i <= old(self)@.descriptors.len(),
        ensures
            final(self).wf(),
            (final(self)@, r) == old(self)@.to_storage(i as int),
    {
        let mut found: usize = i;
        while found < self.descriptors.len()
            invariant_except_break
                next_storage(self.descriptors@, i as int) == next_storage(
                    self.descriptors@,
                    found as int,
                ),
            invariant
                i <= found <= self.descriptors@.len(),
            ensures
                found == next_storage(self.descriptors@, i as int),
            decreases self.descriptors@.len() - found,
        {
            if let UsbDescriptor::Interface(interface) = &self.descriptors[found] {
                if interface.is_bulk_storage() {
                    break;
                }
            }
            found += 1;
        }
        self.interface = found;
        if found >= self.descriptors.len() {
            return self.go_next_port();
        }
        match StorageTask::handle_mass_storage_device(self.slot, self.descriptors.as_slice()) {
            Err(e) => {
                self.stage = RunStage::Finished;
                Op::Done(Err(e))
            },
            Ok(task) => {
                self.storage = Some(task);
                self.go(RunStage::Storage)
            },
        }
    }

    /// Takes a failure.
    fn fail(&mut self, e: &'static str) -> (r: Op)
        requires
            old(self).wf(),
            old(self)@.at < old(self)@.ports.len(),
        ensures
            final(self).wf(),
            (final(self)@, r) == old(self)@.failed(e),
    {
        match self.stage {
            RunStage::Address | RunStage::Device | RunStage::StringZero => self.go_next_port(),
            _ => {
                self.stage = RunStage::Finished;
                Op::Done(Err(e))
            },
        }
    }

    /// Takes what an operation brought that went well.
    fn learn(&mut self, slot: u8, data: &[u8]) -> (r: Op)
        requires
            old(self).wf(),
            old(self)@.stage != RunStage::Storage,
            old(self)@.stage != RunStage::Finished,
            old(self)@.takes(Ok(slot), data@),
        ensures
            final(self).wf(),
            (final(self)@, r) == old(self)@.learned(slot, data@),
    {
        match self.stage {
            RunStage::InitPort => {
                self.slot = slot;
                self.go(RunStage::Address)
            },
            RunStage::Address => self.go(RunStage::Device),
            RunStage::Device => {
                if let Ok(device) = UsbDeviceDescriptor::copy_from_slice(data) {
                    self.device = device;
                }
                self.go(RunStage::StringZero)
            },
            RunStage::StringZero => {
                let words = string_zero(data);
                self.lang_id = words[1];
                self.vendor = None;
                self.product = None;
                self.serial = None;
                self.go_vendor()
            },
            RunStage::Vendor => {
                self.vendor = Some(string_from_descriptor(data));
                self.go_product()
            },
            RunStage::Product => {
                self.product = Some(string_from_descriptor(data));
                self.go_serial()
            },
            RunStage::Serial => {
                self.serial = Some(string_from_descriptor(data));
                self.go(RunStage::Config)
            },
            RunStage::Config => {
                if let Ok(config) = ConfigDescriptor::copy_from_slice(data) {
                    self.total_length = config.total_length();
                }
                self.go(RunStage::Rest)
            },
            RunStage::Rest => {
                if let Some(descriptors) = collect_descriptors(data) {
                    self.descriptors = descriptors;
                }
                self.go_storage(0)
            },
            _ => {
                self.stage = RunStage::Finished;
                Op::Done(Ok(()))
            },
        }
    }

    /// Takes the reply to what the task for mass storage asked for.
    fn step_storage(&mut self, reply: Reply) -> (r: Op)
        requires
            old(self).wf(),
            old(self)@.stage == RunStage::Storage,
            old(self)@.takes(reply.result, reply.data@),
        ensures
            final(self).wf(),
            (final(self)@, r) == old(self)@.served(reply.result, reply.data@),
    {
        let op = match &mut self.storage {
            Some(s) => s.step(reply),
            None => Op::Done(Ok(())),
        };
        match op {
            Op::Done(Ok(_)) => {
                if let Some(s) = &self.storage {
                    self.sector = Some(vstd::slice::slice_to_vec(s.sector()));
                }
                let count: usize = self.descriptors.len();
                assert(self.interface < count);
                let next: usize = self.interface + 1;
                self.go_storage(next)
            },
            Op::Done(Err(e)) => {
                self.stage = RunStage::Finished;
                Op::Done(Err(e))
            },
            _ => op,
        }
    }

    /// Takes the reply to what was asked for last; answers what is asked for next.
    pub fn step(&mut self, reply: Reply) -> (r: Op)
        requires
            old(self).wf(),
            old(self)@.takes(reply.result, reply.data@),
        ensures
            final(self).wf(),
            (final(self)@, r) == old(self)@.next(reply.result, reply.data@),
    {
        self.sector = None;
        match self.stage {
            RunStage::Finished => {
                return Op::Done(Ok(()));
            },
            RunStage::Storage => {
                return self.step_storage(reply);
            },
            _ => {},
        }
        match reply.result {
            Err(e) => self.fail(e),
            Ok(slot) => self.learn(slot, reply.data),
        }
    }
}

impl RunView {
    /// How many stages are still before the device at hand.
    pub open spec fn stages_left(self) -> nat {
        match self.stage {
            RunStage::InitPort => 10,
            RunStage::Address => 9,
            RunStage::Device => 8,
            RunStage::StringZero => 7,
            RunStage::Vendor => 6,
            RunStage::Product => 5,
            RunStage::Serial => 4,
            RunStage::Config => 3,
            RunStage::Rest => 2,
            RunStage::Storage => 1,
            RunStage::Finished => 0,
        }
    }

    /// How many replies the mass storage at hand still waits for.
    pub open spec fn storage_left(self) -> nat {
        match self.storage {
            Some(s) => s.to_come(),
            None => 0,
        }
    }

    /// The task after the first `n` of these replies.
    pub open spec fn after(
        self,
        replies: spec_fn(nat) -> (Result<u8, &'static str>, Seq<u8>),
        n: nat,
    ) -> Self
        decreases n,
    {
        if n == 0 {
            self
        } else {
            let before = self.after(replies, (n - 1) as nat);
            before.next(replies((n - 1) as nat).0, replies((n - 1) as nat).1).0
        }
    }
}

proof fn lemma_next_storage(descriptors: Seq<UsbDescriptor>, i: int)
    requires
        0 <= i <= descriptors.len(),
    ensures
        i <= next_storage(descriptors, i) <= descriptors.len(),
    decreases descriptors.len() - i,
{
    if i < descriptors.len() && !is_storage(descriptors[i]) {
        lemma_next_storage(descriptors, i + 1);
    }
}

/// Whatever a reply is, the task stays in one of the states that it can be in.
pub proof fn law_run_stays_well_formed(
    view: RunView,
    result: Result<u8, &'static str>,
    data: Seq<u8>,
)
    requires
        view.wf(),
    ensures
        view.next(result, data).0.wf(),
        view.next(result, data).0.ports == view.ports,
{
    lemma_next_storage(crate::xhci::descriptor::walk(data, 0), 0);
    if view.stage == RunStage::Storage {
        lemma_next_storage(view.descriptors, view.interface + 1);
    }
}

/// Ports are served one after the other: a reply leaves the task at its port or brings it
/// to the next one, and a port is only reset when its turn has come. A task that ends well
/// has been at all ports.
pub proof fn law_ports_in_order(view: RunView, result: Result<u8, &'static str>, data: Seq<u8>)
    requires
        view.wf(),
        view.stage != RunStage::Finished,
    ensures
        ({
            let (after, op) = view.next(result, data);
            &&& after.at == view.at || after.at == view.at + 1
            &&& op matches Op::InitPort { port } ==> port == view.ports[after.at]
            &&& op == Op::Done(Ok(())) ==> after.at == view.ports.len()
        }),
{
    lemma_next_storage(crate::xhci::descriptor::walk(data, 0), 0);
    if view.stage == RunStage::Storage {
        lemma_next_storage(view.descriptors, view.interface + 1);
    }
}

/// A device that cannot be addressed, that does not describe itself or that has no strings
/// does not keep the others from being served. Any other failure, but for a halt that
/// cannot be ended, ends the task with the error that came.
pub proof fn law_run_failures(view: RunView, e: &'static str, data: Seq<u8>)
    requires
        view.wf(),
        view.stage != RunStage::Finished,
    ensures
        ({
            let (after, op) = view.next(Err(e), data);
            match view.stage {
                RunStage::Address | RunStage::Device | RunStage::StringZero => {
                    &&& after.at == view.at + 1
                    &&& op == if after.at < view.ports.len() {
                        Op::InitPort { port: view.ports[after.at] }
                    } else {
                        Op::Done(Ok(()))
                    }
                },
                RunStage::Storage => view.storage.unwrap().forgiving() || op == Op::Done(Err(e)),
                _ => op == Op::Done(Err(e)),
            }
        }),
{
}

/// Every sector that was read is there to be looked at: when the task for a mass storage
/// interface ends well, its data is noted, whatever is served next. It is noted at no other
/// time.
pub proof fn law_every_sector_is_noted(
    view: RunView,
    result: Result<u8, &'static str>,
    data: Seq<u8>,
)
    requires
        view.wf(),
    ensures
        ({
            let after = view.next(result, data).0;
            if view.stage == RunStage::Storage && view.storage.unwrap().next(result, data).1
                == Op::Done(Ok(())) {
                after.sector == Some(view.storage.unwrap().next(result, data).0.scsi.data)
            } else {
                after.sector is None
            }
        }),
{
}

/// A reply brings the end, or leaves less to do.
proof fn lemma_progress(view: RunView, result: Result<u8, &'static str>, data: Seq<u8>)
    requires
        view.wf(),
        view.stage != RunStage::Finished,
    ensures
        ({
            let after = view.next(result, data).0;
            after.stage == RunStage::Finished || decreases_to!(
                view.ports.len() - view.at, view.stages_left(),
                view.descriptors.len() - view.interface, view.storage_left() =>
                after.ports.len() - after.at, after.stages_left(),
                after.descriptors.len() - after.interface, after.storage_left())
        }),
{
    lemma_next_storage(crate::xhci::descriptor::walk(data, 0), 0);
    if view.stage == RunStage::Storage {
        lemma_next_storage(view.descriptors, view.interface + 1);
    }
}

/// The task after `k` replies, and then after `n` more.
proof fn lemma_run_ends_from(
    view: RunView,
    replies: spec_fn(nat) -> (Result<u8, &'static str>, Seq<u8>),
    k: nat,
) -> (n: nat)
    requires
        view.after(replies, k).wf(),
    ensures
        view.after(replies, n).stage == RunStage::Finished,
    decreases
            view.after(replies, k).ports.len() - view.after(replies, k).at,
            view.after(replies, k).stages_left(),
            view.after(replies, k).descriptors.len() - view.after(replies, k).interface,
            view.after(replies, k).storage_left(),
{
    let now = view.after(replies, k);
    if now.stage == RunStage::Finished {
        k
    } else {
        let (result, data) = replies(k);
        law_run_stays_well_formed(now, result, data);
        lemma_progress(now, result, data);
        assert(view.after(replies, k + 1) == now.next(result, data).0);
        lemma_run_ends_from(view, replies, k + 1)
    }
}

/// Serving the devices comes to an end, whatever they reply.
pub proof fn law_run_ends(
    ports: Seq<usize>,
    replies: spec_fn(nat) -> (Result<u8, &'static str>, Seq<u8>),
) -> (n: nat)
    ensures
        RunView::start(ports).after(replies, n).stage == RunStage::Finished,
{
    let start = RunView::start(ports);
    assert(start.after(replies, 0) == start);
    lemma_run_ends_from(start, replies, 0)
}

/// The driver takes four controllers, by vendor and device, and no others.
pub proof fn law_supported_controllers(vd: VendorDeviceId)
    ensures
        PciXhciDriver::known(vd) <==> set![
            0x1b36_000dint,
            0x8086_31a8int,
            0x8086_02edint,
            0x8086_9d2fint,
        ].contains(0x1_0000 * vd.vendor + vd.device),
{
}

/// Taking a controller goes through its steps in this order, and what goes wrong first is how it
/// fails.
pub proof fn law_attach_order(ok: (), e: &'static str, any: Result<(), &'static str>)
    ensures
        Attach::DisableInterrupt.after(Ok(ok)) == Attach::EnableBusMastering,
        Attach::EnableBusMastering.after(Ok(ok)) == Attach::FindBar0,
        Attach::FindBar0.after(Ok(ok)) == Attach::DisableCache,
        Attach::DisableCache.after(any) == Attach::SetUp,
        Attach::SetUp.after(Ok(ok)) == Attach::Spawn,
        Attach::Spawn.after(any) == Attach::Attached,
        Attach::DisableInterrupt.after(Err(e)) == Attach::Failed(e),
        Attach::EnableBusMastering.after(Err(e)) == Attach::Failed(e),
        Attach::FindBar0.after(Err(e)) == Attach::Failed(e),
        Attach::SetUp.after(Err(e)) == Attach::Failed(e),
        Attach::Attached.after(any) == Attach::Attached,
        Attach::Failed(e).after(any) == Attach::Failed(e),
{
}

/// Serving starts with the first port, if there is one, and is over at once if there is none.
pub proof fn law_run_starts(ports: Seq<usize>)
    ensures
        RunView::start(ports).wf(),
        RunView::start(ports).device == UsbDeviceDescriptor::blank(),
        RunView::start(ports).vendor is None,
        RunView::start(ports).product is None,
        RunView::start(ports).serial is None,
        RunView::start(ports).sector is None,
        ports.len() == 0 ==> RunView::start(ports).op() == Op::Done(Ok(())),
        ports.len() > 0 ==> RunView::start(ports).op() == (Op::InitPort { port: ports[0] }),
{
}

/// A device that was found is given an address in the slot that it got, and is then asked for its
/// descriptor and for the languages of its strings; what it says of itself is kept.
pub proof fn law_device_is_read(
    view: RunView,
    slot: u8,
    any: u8,
    none: Seq<u8>,
    data: Seq<u8>,
)
    requires
        view.wf(),
        view.stage == RunStage::InitPort,
    ensures
        ({
            let (v1, op1) = view.next(Ok(slot), none);
            let (v2, op2) = v1.next(Ok(any), none);
            let (v3, op3) = v2.next(Ok(any), data);
            &&& view.op() == Op::InitPort { port: view.ports[view.at] }
            &&& op1 == Op::AddressDevice { port: view.ports[view.at], slot }
            &&& op2 == Op::Descriptor {
                slot,
                desc_type: UsbDescriptorType::Device,
                index: 0,
                lang_id: 0,
                len: 18,
            }
            &&& op3 == Op::Descriptor {
                slot,
                desc_type: UsbDescriptorType::String,
                index: 0,
                lang_id: 0,
                len: 16,
            }
            &&& v3.stage == RunStage::StringZero
            &&& v3.at == view.at
            &&& v3.device.vendor_id == data[8] + 0x100 * data[9]
            &&& v3.device.product_id == data[10] + 0x100 * data[11]
            &&& v3.device.manufacturer_index == data[14]
            &&& v3.device.product_index == data[15]
            &&& v3.device.serial_idx == data[16]
        }),
{
    crate::xhci::descriptor::law_device_descriptor_fields(data, 0);
}

impl RunView {
    /// The task after these replies, all of them good, and what it asks for then.
    pub open spec fn answered(self, replies: Seq<Seq<u8>>) -> (Self, Op)
        decreases replies.len(),
    {
        if replies.len() == 0 {
            (self, self.op())
        } else {
            self.answered(replies.drop_last()).0.next(Ok(0), replies.last())
        }
    }
}

proof fn lemma_answered(view: RunView, replies: Seq<Seq<u8>>, data: Seq<u8>)
    ensures
        view.answered(replies.push(data)) == view.answered(replies).0.next(Ok(0), data),
{
    assert(replies.push(data).drop_last() =~= replies);
    assert(replies.push(data).last() == data);
}

/// The strings of a device: its vendor, its own name and its serial number are each asked for if
/// and only if the device gives an index for it, whatever it gives for the others, in this order,
/// in the first of its languages; then the configuration is asked for. What is then known of each
/// is what was answered, and nothing if it was not asked for.
#[verifier::rlimit(60)]
pub proof fn law_strings_are_asked_for(
    view: RunView,
    zero: Seq<u8>,
    vendor: Seq<u8>,
    product: Seq<u8>,
    serial: Seq<u8>,
)
    requires
        view.wf(),
        view.stage == RunStage::StringZero,
    ensures
        ({
            let device = view.device;
            let has = seq![
                device.manufacturer_index != 0,
                device.product_index != 0,
                device.serial_idx != 0,
            ];
            let index = seq![device.manufacturer_index, device.product_index, device.serial_idx];
            let answer = seq![vendor, product, serial];
            let kept = |k: int|
                (if has[0] && k > 0 {
                    seq![answer[0]]
                } else {
                    seq![]
                }) + (if has[1] && k > 1 {
                    seq![answer[1]]
                } else {
                    seq![]
                }) + (if has[2] && k > 2 {
                    seq![answer[2]]
                } else {
                    seq![]
                });
            let told = |k: int| crate::text::without_nuls(crate::text::lossy_utf8(answer[k].skip(2)));
            let (after, op) = view.answered(seq![zero] + kept(3));
            &&& forall|k: int|
                0 <= k < 3 && #[trigger] has[k] ==> view.answered(seq![zero] + kept(k)).1
                    == Op::Descriptor {
                    slot: view.slot,
                    desc_type: UsbDescriptorType::String,
                    index: index[k],
                    lang_id: (zero[2] + 0x100 * zero[3]) as u16,
                    len: 128,
                }
            &&& op == Op::Descriptor {
                slot: view.slot,
                desc_type: UsbDescriptorType::Config,
                index: 0,
                lang_id: 0,
                len: 9,
            }
            &&& after.stage == RunStage::Config
            &&& after.at == view.at
            &&& after.slot == view.slot
            &&& after.device == device
            &&& after.vendor == if has[0] {
                Some(told(0))
            } else {
                None
            }
            &&& after.product == if has[1] {
                Some(told(1))
            } else {
                None
            }
            &&& after.serial == if has[2] {
                Some(told(2))
            } else {
                None
            }
        }),
{
    let device = view.device;
    let (m, p, s) = (
        device.manufacturer_index != 0,
        device.product_index != 0,
        device.serial_idx != 0,
    );
    let none = Seq::<Seq<u8>>::empty();
    let a0 = seq![zero];
    let a1 = if m {
        a0.push(vendor)
    } else {
        a0
    };
    let a2 = if p {
        a1.push(product)
    } else {
        a1
    };
    let a3 = if s {
        a2.push(serial)
    } else {
        a2
    };
    assert(none.push(zero) =~= a0);
    lemma_answered(view, none, zero);
    lemma_answered(view, a0, vendor);
    lemma_answered(view, a1, product);
    lemma_answered(view, a2, serial);
    let k1: Seq<Seq<u8>> = if m {
        seq![vendor]
    } else {
        seq![]
    };
    let k2: Seq<Seq<u8>> = if p {
        seq![product]
    } else {
        seq![]
    };
    let k3: Seq<Seq<u8>> = if s {
        seq![serial]
    } else {
        seq![]
    };
    assert(seq![zero] + (none + none + none) =~= a0);
    assert(seq![zero] + (k1 + none + none) =~= a1);
    assert(seq![zero] + (k1 + k2 + none) =~= a2);
    assert(seq![zero] + (k1 + k2 + k3) =~= a3);
    let has = seq![m, p, s];
    assert(has[0] == m && has[1] == p && has[2] == s);
}

/// The configuration is asked for as a whole, as long as its first bytes say that it is.
pub proof fn law_whole_configuration_is_read(view: RunView, any: u8, data: Seq<u8>)
    requires
        view.wf(),
        view.stage == RunStage::Config,
    ensures
        ({
            let (after, op) = view.next(Ok(any), data);
            &&& op matches Op::Descriptor { slot, desc_type, index, lang_id, len } && {
                &&& slot == view.slot
                &&& desc_type == UsbDescriptorType::Config
                &&& index == 0
                &&& lang_id == 0
                &&& len == data[2] + 0x100 * data[3]
            }
            &&& after.stage == RunStage::Rest
            &&& after.at == view.at
            &&& after.slot == view.slot
        }),
{
}

/// A descriptor of an interface that takes SCSI commands over bulk endpoints, by its class,
/// subclass and protocol.
pub open spec fn takes_scsi_in_bulk(d: UsbDescriptor) -> bool {
    d matches UsbDescriptor::Interface(i) && i.interface_class == 8 && i.interface_subclass == 6
        && i.interface_protocol == 0x50
}

proof fn lemma_first_storage(descriptors: Seq<UsbDescriptor>, i: int, k: int)
    requires
        0 <= i <= k <= descriptors.len(),
        forall|j: int| i <= j < k ==> !takes_scsi_in_bulk(#[trigger] descriptors[j]),
        k < descriptors.len() ==> takes_scsi_in_bulk(descriptors[k]),
    ensures
        next_storage(descriptors, i) == k,
    decreases k - i,
{
    if i < k {
        assert(!takes_scsi_in_bulk(descriptors[i]));
        lemma_first_storage(descriptors, i + 1, k);
    }
}

/// What is done with the descriptors of a device, from one of them on: the first interface for
/// mass storage is served, with the endpoints that were chosen, and without any the next port is
/// served, if there is one. Where the endpoints are missing, that is how the task ends.
pub open spec fn serves_first(
    before: RunView,
    after: RunView,
    op: Op,
    descriptors: Seq<UsbDescriptor>,
    k: int,
) -> bool {
    &&& after.descriptors == descriptors
    &&& if k == descriptors.len() {
        &&& after.at == before.at + 1
        &&& op == if before.at + 1 < before.ports.len() {
            Op::InitPort { port: before.ports[before.at + 1] }
        } else {
            Op::Done(Ok(()))
        }
    } else {
        &&& after.at == before.at
        &&& match crate::xhci::storage::chosen(descriptors) {
            Ok(t) => {
                &&& after.stage == RunStage::Storage
                &&& after.interface == k
                &&& after.storage == Some(StorageView::start(before.slot, t))
                &&& op == Op::SetConfig { slot: before.slot, value: t.config.config_value }
            },
            Err(e) => op == Op::Done(Err(e)),
        }
    }
}

/// All interfaces for mass storage of a device are served, in the order of its descriptors: the
/// first of them when the configuration was read, and the next one each time when one was
/// served well.
pub proof fn law_interfaces_in_order(
    view: RunView,
    result: Result<u8, &'static str>,
    data: Seq<u8>,
    k: int,
)
    requires
        view.wf(),
    ensures
        ({
            let (after, op) = view.next(result, data);
            let walked = crate::xhci::descriptor::walk(data, 0);
            &&& view.stage == RunStage::Rest && result is Ok && 0 <= k <= walked.len() && (forall|
                j: int,
            |
                0 <= j < k ==> !takes_scsi_in_bulk(#[trigger] walked[j])) && (k < walked.len()
                ==> takes_scsi_in_bulk(walked[k])) ==> serves_first(view, after, op, walked, k)
            &&& view.stage == RunStage::Storage && view.storage.unwrap().next(result, data).1
                == Op::Done(Ok(())) && view.interface < k <= view.descriptors.len() && (forall|
                j: int,
            |
                view.interface < j < k ==> !takes_scsi_in_bulk(#[trigger] view.descriptors[j])) && (k
                < view.descriptors.len() ==> takes_scsi_in_bulk(view.descriptors[k]))
                ==> serves_first(view, after, op, view.descriptors, k)
        }),
{
    let walked = crate::xhci::descriptor::walk(data, 0);
    if view.stage == RunStage::Rest && result is Ok && 0 <= k <= walked.len() && (forall|j: int|
        0 <= j < k ==> !takes_scsi_in_bulk(#[trigger] walked[j])) && (k < walked.len()
        ==> takes_scsi_in_bulk(walked[k])) {
        lemma_first_storage(walked, 0, k);
    }
    if view.stage == RunStage::Storage && view.interface < k <= view.descriptors.len() && (forall|
        j: int,
    |
        view.interface < j < k ==> !takes_scsi_in_bulk(#[trigger] view.descriptors[j])) && (k
        < view.descriptors.len() ==> takes_scsi_in_bulk(view.descriptors[k])) {
        lemma_first_storage(view.descriptors, view.interface + 1, k);
    }
}

/// While mass storage is served, its task is asked what to do: what it asks for is asked for, and
/// a failure of it ends all.
pub proof fn law_storage_has_its_way(view: RunView, result: Result<u8, &'static str>, data: Seq<u8>)
    requires
        view.wf(),
        view.stage == RunStage::Storage,
    ensures
        ({
            let (after, op) = view.next(result, data);
            let (task, asked) = view.storage.unwrap().next(result, data);
            &&& view.op() == view.storage.unwrap().op()
            &&& !(asked is Done) ==> {
                &&& op == asked
                &&& after == RunView { storage: Some(task), sector: None, ..view }
            }
            &&& asked matches Op::Done(Err(e)) ==> op == Op::Done(Err(e)) && after.stage
                == RunStage::Finished
        }),
{
}

/// What is known of the device at hand stays known until it is learned anew, and a task that is
/// over stays as it is.
pub proof fn law_what_is_known_stays(view: RunView, result: Result<u8, &'static str>, data: Seq<u8>)
    requires
        view.wf(),
    ensures
        ({
            let (after, op) = view.next(result, data);
            &&& view.stage != RunStage::InitPort ==> after.slot == view.slot
            &&& view.stage != RunStage::Device ==> after.device == view.device
            &&& view.stage != RunStage::StringZero ==> {
                &&& after.lang_id == view.lang_id
                &&& view.stage != RunStage::Vendor ==> after.vendor == view.vendor
                &&& view.stage != RunStage::Product ==> after.product == view.product
                &&& view.stage != RunStage::Serial ==> after.serial == view.serial
            }
            &&& view.stage != RunStage::Rest ==> after.descriptors == view.descriptors
            &&& view.stage == RunStage::Finished ==> after.stage == RunStage::Finished && after.at
                == view.at && op == Op::Done(Ok(()))
        }),
{
}

} // verus!
