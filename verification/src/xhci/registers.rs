//! The controller's registers.
use crate::bits::extract_bits;
use crate::xhci::event::EventRing;
use crate::xhci::port::PortSc;
use crate::xhci::ring::CommandRing;
use crate::xhci::store::Store;
use vstd::arithmetic::power2::*;
use vstd::prelude::*;

verus! {

/// The capability registers, as they were read.
#[derive(Debug, Copy, Clone, PartialEq, Eq, Structural)]
pub struct CapabilityRegisters {
    pub caplength: u8,
    pub version: u16,
    pub hcsparams1: u32,
    pub hcsparams2: u32,
    pub hcsparams3: u32,
    pub hccparams1: u32,
    pub dboff: u32,
    pub rtsoff: u32,
    pub hccparams2: u32,
}

impl CapabilityRegisters {
    /// The registers from the eight words at the start of the register space.
    pub fn from_words(words: [u32; 8]) -> (r: Self)
        ensures
            r.caplength == words[0] % 0x100,
            r.version == words[0] / 0x1_0000,
            (words[0] - r.caplength) % 0x100 == 0,
            0x1_0000 * r.version <= words[0] < 0x1_0000 * (r.version + 1),
            r.hcsparams1 == words[1],
            r.hcsparams2 == words[2],
            r.hcsparams3 == words[3],
            r.hccparams1 == words[4],
            r.dboff == words[5],
            r.rtsoff == words[6],
            r.hccparams2 == words[7],
    {
        CapabilityRegisters {
            caplength: (words[0] % 0x100) as u8,
            version: (words[0] / 0x1_0000) as u16,
            hcsparams1: words[1],
            hcsparams2: words[2],
            hcsparams3: words[3],
            hccparams1: words[4],
            dboff: words[5],
            rtsoff: words[6],
            hccparams2: words[7],
        }
    }

    /// The number of device slots: bits 0 to 7 of HCSPARAMS1.
    pub open spec fn slots(self) -> int {
        self.hcsparams1 as int % 0x100
    }

    /// The number of ports: bits 24 to 31 of HCSPARAMS1.
    pub open spec fn ports(self) -> int {
        self.hcsparams1 as int / 0x100_0000
    }

    /// The number of scratchpad buffers: bits 21 to 25 of HCSPARAMS2 over bits 27 to 31.
    pub open spec fn scratchpads(self) -> int {
        self.hcsparams2 as int / 0x20_0000 % 0x20 * 0x20 + self.hcsparams2 as int / 0x800_0000
    }

    /// Where the operational registers start.
    pub fn caplength(&self) -> (r: usize)
        ensures
            r == self.caplength,
    {
        self.caplength as usize
    }

    /// Where the runtime registers start.
    pub fn rtsoff(&self) -> (r: usize)
        ensures
            r == self.rtsoff,
    {
        self.rtsoff as usize
    }

    /// The number of device slots.
    pub fn num_of_device_slots(&self) -> (r: usize)
        ensures
            r == self.slots(),
    {
        proof {
            lemma2_to64();
        }
        extract_bits(self.hcsparams1, 0, 8) as usize
    }

    /// The number of scratchpad buffers that the controller asks for.
    pub fn num_scratchpad_bufs(&self) -> (r: usize)
        ensures
            r == self.scratchpads(),
            r < 0x400,
    {
        proof {
            lemma2_to64();
        }
        let hi: u32 = extract_bits(self.hcsparams2, 21, 5);
        let lo: u32 = extract_bits(self.hcsparams2, 27, 5);
        assert((hi << 5) | lo == hi * 0x20 + lo) by (bit_vector)
            requires
                hi < 0x20,
                lo < 0x20,
        ;
        ((hi << 5) | lo) as usize
    }

    /// The number of root hub ports.
    pub fn num_of_ports(&self) -> (r: usize)
        ensures
            r == self.ports(),
            r <= 255,
    {
        proof {
            lemma2_to64();
        }
        extract_bits(self.hcsparams1, 24, 8) as usize
    }

    /// Where the doorbell registers start.
    pub fn dboff(&self) -> (r: usize)
        ensures
            r == self.dboff,
    {
        self.dboff as usize
    }
}

/// How far stopping and resetting the controller has come.
#[derive(PartialEq, Eq, Debug, Clone, Copy, Structural)]
pub enum ControllerReset {
    /// Nothing was done yet.
    Start,
    /// The controller was told to stop.
    Stopping,
    /// The controller was told to reset.
    Resetting,
    /// The reset is over.
    Done,
}

/// How far starting the controller has come.
#[derive(PartialEq, Eq, Debug, Clone, Copy, Structural)]
pub enum ControllerStart {
    /// Nothing was done yet.
    Start,
    /// The controller was told to run.
    Starting,
    /// The controller runs.
    Done,
}

/// The operational registers: what was read from them, and what is to be written.
#[derive(Debug, Copy, Clone, PartialEq, Eq, Structural)]
pub struct OperationalRegisters {
    pub usbcmd: u32,
    pub usbsts: u32,
    pub pagesize: u32,
    pub dnctrl: u32,
    pub crcr: u64,
    pub dcbaap: u64,
    pub config: u64,
}

impl OperationalRegisters {
    pub const STATUS_HC_HALTED: u32 = 1;

    pub const CMD_RUN_STOP: u32 = 1;

    pub const CMD_HC_RESET: u32 = 2;

    /// Where each register lies, from the first.
    pub const USBCMD: u64 = 0;

    pub const USBSTS: u64 = 4;

    pub const PAGESIZE: u64 = 8;

    pub const DNCTRL: u64 = 0x14;

    pub const CRCR: u64 = 0x18;

    pub const DCBAAP: u64 = 0x30;

    pub const CONFIG: u64 = 0x38;

    /// The status register as it was read.
    pub fn usbsts(&self) -> (r: u32)
        ensures
            r == self.usbsts,
    {
        self.usbsts
    }

    /// Whether `bits` is a power of two below 2^16.
    pub open spec fn one_bit(bits: int) -> bool {
        ||| bits == 1 || bits == 2 || bits == 4 || bits == 8
        ||| bits == 0x10 || bits == 0x20 || bits == 0x40 || bits == 0x80
        ||| bits == 0x100 || bits == 0x200 || bits == 0x400 || bits == 0x800
        ||| bits == 0x1000 || bits == 0x2000 || bits == 0x4000 || bits == 0x8000
    }

    /// The page size in bytes: 4096 times the one bit that the register's low half shows.
    pub open spec fn page_bytes(self) -> Result<usize, &'static str> {
        let bits = self.pagesize as int % 0x1_0000;
        if Self::one_bit(bits) {
            Ok((bits * 4096) as usize)
        } else {
            Err("Invalid page size bits")
        }
    }

    /// The page size that the controller works with.
    pub fn page_size(&self) -> (r: Result<usize, &'static str>)
        ensures
            r == self.page_bytes(),
            r matches Ok(n) ==> 4096 <= n <= 0x800_0000,
    {
        let bits: u32 = self.pagesize % 0x1_0000;
        let mut shift: u32 = 0;
        let mut weight: u32 = 1;
        proof {
            lemma2_to64();
        }
        while shift < 16
            invariant
                shift <= 16,
                weight == pow2(shift as nat),
                weight <= 0x1_0000,
                bits == self.pagesize % 0x1_0000,
                forall|s: nat| s < shift ==> bits != #[trigger] pow2(s),
            decreases 16 - shift,
        {
            proof {
                lemma2_to64();
            }
            if bits == weight {
                return Ok((weight as usize) * 4096);
            }
            proof {
                lemma_pow2_unfold((shift + 1) as nat);
            }
            shift += 1;
            weight = weight * 2;
        }
        proof {
            lemma2_to64();
        }
        Err("Invalid page size bits")
    }

    /// Sets bits of the command register.
    pub fn set_command_bits(&mut self, bits: u32)
        ensures
            *final(self) == (OperationalRegisters {
                usbcmd: old(self).usbcmd | bits,
                ..*old(self)
            }),
    {
        self.usbcmd = self.usbcmd | bits;
    }

    /// Clears bits of the command register.
    pub fn clear_command_bits(&mut self, bits: u32)
        ensures
            *final(self) == (OperationalRegisters {
                usbcmd: old(self).usbcmd & !bits,
                ..*old(self)
            }),
    {
        self.usbcmd = self.usbcmd & !bits;
    }

    /// What comes next in the controller's reset, after the registers were read: stop it,
    /// wait until it has halted, reset it, wait until the status no longer shows bit 1.
    pub open spec fn next_reset(self, phase: ControllerReset) -> (Self, ControllerReset) {
        match phase {
            ControllerReset::Start => (
                OperationalRegisters { usbcmd: self.usbcmd & !1u32, ..self },
                ControllerReset::Stopping,
            ),
            ControllerReset::Stopping => if self.usbsts % 2 == 1 {
                (
                    OperationalRegisters { usbcmd: self.usbcmd | 2, ..self },
                    ControllerReset::Resetting,
                )
            } else {
                (self, ControllerReset::Stopping)
            },
            ControllerReset::Resetting => if self.usbsts / 2 % 2 == 1 {
                (self, ControllerReset::Resetting)
            } else {
                (self, ControllerReset::Done)
            },
            ControllerReset::Done => (self, ControllerReset::Done),
        }
    }

    /// One step of the controller's reset, after the registers were read. The command
    /// register is to be written with what this leaves in it.
    pub fn reset_xhc(&mut self, phase: ControllerReset) -> (r: ControllerReset)
        ensures
            (*final(self), r) == old(self).next_reset(phase),
    {
        let sts: u32 = self.usbsts;
        assert(sts & 1 == 0 <==> sts % 2 == 0) by (bit_vector);
        assert(sts & 2 != 0 <==> sts / 2 % 2 == 1) by (bit_vector);
        match phase {
            ControllerReset::Start => {
                self.clear_command_bits(Self::CMD_RUN_STOP);
                ControllerReset::Stopping
            },
            ControllerReset::Stopping => {
                if self.usbsts & Self::STATUS_HC_HALTED == 0 {
                    ControllerReset::Stopping
                } else {
                    self.set_command_bits(Self::CMD_HC_RESET);
                    ControllerReset::Resetting
                }
            },
            ControllerReset::Resetting => {
                if self.usbsts & Self::CMD_HC_RESET != 0 {
                    ControllerReset::Resetting
                } else {
                    ControllerReset::Done
                }
            },
            ControllerReset::Done => ControllerReset::Done,
        }
    }

    /// What comes next in starting the controller, after the registers were read: set it
    /// running, wait until it has not halted any more.
    pub open spec fn next_start(self, phase: ControllerStart) -> (Self, ControllerStart) {
        match phase {
            ControllerStart::Start => (
                OperationalRegisters { usbcmd: self.usbcmd | 1, ..self },
                ControllerStart::Starting,
            ),
            ControllerStart::Starting => if self.usbsts % 2 == 1 {
                (self, ControllerStart::Starting)
            } else {
                (self, ControllerStart::Done)
            },
            ControllerStart::Done => (self, ControllerStart::Done),
        }
    }

    /// One step of starting the controller, after the registers were read. The command
    /// register is to be written with what this leaves in it.
    pub fn start_xhc(&mut self, phase: ControllerStart) -> (r: ControllerStart)
        ensures
            (*final(self), r) == old(self).next_start(phase),
    {
        let sts: u32 = self.usbsts;
        assert(sts & 1 == 0 <==> sts % 2 == 0) by (bit_vector);
        match phase {
            ControllerStart::Start => {
                self.set_command_bits(Self::CMD_RUN_STOP);
                ControllerStart::Starting
            },
            ControllerStart::Starting => {
                if self.usbsts & Self::STATUS_HC_HALTED != 0 {
                    ControllerStart::Starting
                } else {
                    ControllerStart::Done
                }
            },
            ControllerStart::Done => ControllerStart::Done,
        }
    }

    /// Tells the controller where the command ring is, with the cycle state one.
    pub fn set_cmd_ring_ctrl(&mut self, ring: &CommandRing)
        requires
            ring.wf(),
        ensures
            *final(self) == (OperationalRegisters {
                crcr: (ring@.ring.base + 1) as u64,
                ..*old(self)
            }),
    {
        let base: u64 = ring.ring_phys_addr();
        assert(base | 1 == base + 1) by (bit_vector)
            requires
                base % 4096 == 0,
        ;
        self.crcr = base | 1;
    }

    /// Tells the controller where the device context base address array is.
    pub fn set_dcbaa_ptr(&mut self, dcbaa: u64) -> (r: Result<(), &'static str>)
        ensures
            r == Ok::<(), &'static str>(()),
            *final(self) == (OperationalRegisters { dcbaap: dcbaa, ..*old(self) }),
    {
        self.dcbaap = dcbaa;
        Ok(())
    }

    /// Tells the controller how many device slots are in use.
    pub fn set_num_device_slots(&mut self, num: usize) -> (r: Result<(), &'static str>)
        ensures
            r == Ok::<(), &'static str>(()),
            *final(self) == (OperationalRegisters {
                config: (old(self).config & !0xffu64) | (num as u64),
                ..*old(self)
            }),
            num < 256 ==> final(self).config == old(self).config - old(self).config % 256 + num,
    {
        let c: u64 = self.config;
        let n: u64 = num as u64;
        assert(n < 256 ==> (c & !0xffu64) | n == c - c % 256 + n) by (bit_vector);
        let c: u64 = c & !0xffu64;
        let c: u64 = c | n;
        self.config = c;
        Ok(())
    }
}

/// One interrupter's registers.
pub struct InterrupterRegisterSet {}

impl InterrupterRegisterSet {
    /// Where each register lies, from the first.
    pub const MANAGEMENT: u64 = 0;

    pub const MODERATION: u64 = 4;

    pub const ERST_SIZE: u64 = 8;

    pub const ERST_BASE: u64 = 0x10;

    pub const ERDP: u64 = 0x18;
}

/// Where the runtime registers lie.
#[derive(Debug, Copy, Clone, PartialEq, Eq, Structural)]
pub struct RuntimeRegisters {
    pub base: u64,
}

impl RuntimeRegisters {
    /// How many interrupters there are.
    pub const NUM_IRS: usize = 1024;

    /// The address of interrupter `index`.
    pub open spec fn irs_addr(self, index: int) -> int {
        self.base + 0x20 + 0x20 * index
    }

    /// The address of interrupter `index`.
    pub fn irs(&self, index: usize) -> (r: u64)
        requires
            index < 1024,
            self.base + 0x8020 <= u64::MAX,
        ensures
            r == self.irs_addr(index as int),
    {
        self.base + 0x20 + 0x20 * (index as u64)
    }

    /// The stores that set an interrupter up for an event ring: one segment, where the
    /// segment table and the ring are, no moderation, interrupts enabled.
    pub open spec fn irs_stores(self, index: int, erst: u64, ring: u64) -> Seq<Store> {
        let at = self.irs_addr(index);
        seq![
            Store::Word { addr: (at + 8) as u64, value: 1 },
            Store::Long { addr: (at + 0x10) as u64, value: erst },
            Store::Long { addr: (at + 0x18) as u64, value: ring },
            Store::Word { addr: (at + 4) as u64, value: 0 },
            Store::Word { addr: at as u64, value: 1 },
        ]
    }

    /// Sets interrupter `index` up for `ring`, and tells the ring where the interrupter's
    /// dequeue pointer register lies.
    pub fn init_irs(&self, index: usize, ring: &mut EventRing, stores: &mut Vec<Store>) -> (r:
        Result<(), &'static str>)
        requires
            old(ring).wf(),
            self.base + 0x8020 <= u64::MAX,
        ensures
            final(ring).wf(),
            index < 1024 ==> {
                &&& r == Ok::<(), &'static str>(())
                &&& final(ring)@ == (crate::xhci::event::EventRingView {
                    erdp: Some((self.irs_addr(index as int) + 0x18) as u64),
                    ..old(ring)@
                })
                &&& final(stores)@ == old(stores)@ + self.irs_stores(
                    index as int,
                    old(ring)@.erst_addr,
                    old(ring)@.ring.base as u64,
                )
            },
            index >= 1024 ==> {
                &&& r == Err::<(), &'static str>("Index out of range")
                &&& final(ring)@ == old(ring)@
                &&& final(stores)@ == old(stores)@
            },
    {
        if index >= Self::NUM_IRS {
            return Err("Index out of range");
        }
        let irs: u64 = self.irs(index);
        let erdp: u64 = ring.ring_phys_addr();
        stores.push(Store::Word { addr: irs + InterrupterRegisterSet::ERST_SIZE, value: 1 });
        stores.push(
            Store::Long {
                addr: irs + InterrupterRegisterSet::ERST_BASE,
                value: ring.erst_phys_addr(),
            },
        );
        stores.push(Store::Long { addr: irs + InterrupterRegisterSet::ERDP, value: erdp });
        stores.push(Store::Word { addr: irs + InterrupterRegisterSet::MODERATION, value: 0 });
        stores.push(Store::Word { addr: irs + InterrupterRegisterSet::MANAGEMENT, value: 1 });
        ring.set_erdp(irs + InterrupterRegisterSet::ERDP);
        Ok(())
    }
}

/// A doorbell register: where it lies.
#[derive(Debug, Copy, Clone, PartialEq, Eq, Structural)]
pub struct Doorbell {
    pub ptr: u64,
}

impl Doorbell {
    /// The doorbell at `ptr`.
    pub fn new(ptr: u64) -> (r: Self)
        ensures
            r.ptr == ptr,
    {
        Doorbell { ptr }
    }

    /// The store that rings the doorbell: the target in the low byte, the task in the
    /// high half.
    pub open spec fn ring(self, target: u8, task: u16) -> Store {
        Store::Word { addr: self.ptr, value: (target + 0x1_0000 * task) as u32 }
    }

    /// The store that rings the doorbell.
    pub fn notify(&self, target: u8, task: u16) -> (r: Store)
        ensures
            r == self.ring(target, task),
    {
        assert((target as u32) | ((task as u32) << 16) == target + 0x1_0000 * task) by (bit_vector);
        Store::Word { addr: self.ptr, value: (target as u32) | ((task as u32) << 16) }
    }
}

/// All registers of a controller: what its capabilities are, and where the others lie.
#[derive(Debug)]
pub struct XhcRegisters {
    pub cap_regs: CapabilityRegisters,
    pub op_base: u64,
    pub rt_regs: RuntimeRegisters,
    pub doorbell_regs: Vec<Doorbell>,
    pub portsc: PortSc,
}

impl XhcRegisters {
    /// All registers have addresses.
    pub open spec fn fits(bar0: u64, cap: CapabilityRegisters) -> bool {
        &&& bar0 + cap.caplength + 0x400 + 16 * cap.ports() <= u64::MAX
        &&& bar0 + cap.rtsoff + 0x8020 <= u64::MAX
        &&& bar0 + cap.dboff + 4 * cap.ports() + 4 <= u64::MAX
    }

    /// The registers lie where the capabilities say, in a space that starts at `bar0`;
    /// there is one doorbell for the controller and one per port.
    pub open spec fn laid_out(&self, bar0: u64, cap: CapabilityRegisters) -> bool {
        &&& self.cap_regs == cap
        &&& self.op_base == bar0 + cap.caplength
        &&& self.rt_regs.base == bar0 + cap.rtsoff
        &&& self.doorbell_regs@ == Seq::new(
            (1 + cap.ports()) as nat,
            |i: int| Doorbell { ptr: (bar0 + cap.dboff + 4 * i) as u64 },
        )
        &&& self.portsc.entries@ == Seq::new(
            cap.ports() as nat,
            |i: int|
                crate::xhci::port::PortScEntry {
                    ptr: PortSc::address(self.op_base, i) as u64,
                    value: 0,
                },
        )
    }

    /// The addresses of the interrupters and the operational registers are addresses, and
    /// there is a doorbell for the controller.
    pub open spec fn wf(&self) -> bool {
        &&& self.rt_regs.base + 0x8020 <= u64::MAX
        &&& self.op_base + 0x40 <= u64::MAX
        &&& self.doorbell_regs@.len() >= 1
    }
}

/// How many slots, ports and scratchpad buffers a controller has: the lowest byte of the first
/// parameter word, its highest byte, and two fields of five bits of the second word, the upper
/// of which is the lower part of the number.
pub proof fn law_capability_fields(cap: CapabilityRegisters)
    ensures
        0 <= cap.slots() < 0x100,
        (cap.hcsparams1 - cap.slots()) % 0x100 == 0,
        0x100_0000 * cap.ports() <= cap.hcsparams1 < 0x100_0000 * (cap.ports() + 1),
        0 <= cap.scratchpads() < 0x400,
        0x800_0000 * (cap.scratchpads() % 0x20) <= cap.hcsparams2 < 0x800_0000 * (
        cap.scratchpads() % 0x20 + 1),
        cap.scratchpads() / 0x20 == cap.hcsparams2 as int % 0x400_0000 / 0x20_0000,
{
}

/// The page size is known if and only if exactly one bit of the register's low half is set; it
/// is 4096 shifted by the number of that bit.
pub proof fn law_page_size(op: OperationalRegisters, k: nat)
    ensures
        op.page_bytes() matches Ok(n) ==> n == 4096 * (op.pagesize as int % 0x1_0000) && exists|
            j: nat,
        |
            j < 16 && #[trigger] pow2(j) == op.pagesize as int % 0x1_0000,
        k < 16 && op.pagesize as int % 0x1_0000 == pow2(k) ==> op.page_bytes() == Ok::<
            usize,
            &'static str,
        >((4096 * pow2(k)) as usize),
        op.page_bytes() is Err ==> op.page_bytes() == Err::<usize, &'static str>(
            "Invalid page size bits",
        ),
{
    lemma2_to64();
    let bits = op.pagesize as int % 0x1_0000;
    if op.page_bytes() is Ok {
        assert(OperationalRegisters::one_bit(bits));
        assert(exists|j: nat| j < 16 && #[trigger] pow2(j) == bits) by {
            if bits == pow2(0) {
            } else if bits == pow2(1) {
            } else if bits == pow2(2) {
            } else if bits == pow2(3) {
            } else if bits == pow2(4) {
            } else if bits == pow2(5) {
            } else if bits == pow2(6) {
            } else if bits == pow2(7) {
            } else if bits == pow2(8) {
            } else if bits == pow2(9) {
            } else if bits == pow2(10) {
            } else if bits == pow2(11) {
            } else if bits == pow2(12) {
            } else if bits == pow2(13) {
            } else if bits == pow2(14) {
            } else {
                assert(bits == pow2(15));
            }
        }
    }
    if k < 16 && bits == pow2(k) {
        assert(k == 0 || k == 1 || k == 2 || k == 3 || k == 4 || k == 5 || k == 6 || k == 7 || k
            == 8 || k == 9 || k == 10 || k == 11 || k == 12 || k == 13 || k == 14 || k == 15);
        assert(OperationalRegisters::one_bit(bits));
    }
}

/// A controller is told to reset only when its status shows that it has halted, and counts as
/// reset only when bit 1 of the status is gone; it counts as running only when the status no
/// longer shows that it has halted. Only its command register is touched.
pub proof fn law_controller_waits(
    op: OperationalRegisters,
    reset: ControllerReset,
    start: ControllerStart,
)
    ensures
        ({
            let (after, next) = op.next_reset(reset);
            let halted = op.usbsts as int % 2 == 1;
            let busy = op.usbsts as int % 4 >= 2;
            &&& reset == ControllerReset::Start ==> next == ControllerReset::Stopping
                && after.usbcmd == op.usbcmd & !1u32
            &&& reset == ControllerReset::Stopping ==> (next == ControllerReset::Resetting
                <==> halted) && (next == ControllerReset::Stopping <==> !halted) && after.usbcmd
                == (if halted {
                op.usbcmd | 2
            } else {
                op.usbcmd
            })
            &&& reset == ControllerReset::Resetting ==> (next == ControllerReset::Done <==> !busy)
                && (next == ControllerReset::Resetting <==> busy) && after.usbcmd == op.usbcmd
            &&& after == OperationalRegisters { usbcmd: after.usbcmd, ..op }
        }),
        ({
            let (after, next) = op.next_start(start);
            let halted = op.usbsts as int % 2 == 1;
            &&& start == ControllerStart::Start ==> next == ControllerStart::Starting
                && after.usbcmd == op.usbcmd | 1
            &&& start == ControllerStart::Starting ==> (next == ControllerStart::Done
                <==> !halted) && (next == ControllerStart::Starting <==> halted) && after.usbcmd
                == op.usbcmd
            &&& after == OperationalRegisters { usbcmd: after.usbcmd, ..op }
        }),
{
}

/// The registers of an interrupter lie thirty-two bytes after those of the one before it, the
/// first thirty-two bytes above the runtime registers.
pub proof fn law_interrupters_apart(rt: RuntimeRegisters, index: int)
    ensures
        rt.irs_addr(0) - rt.base == 0x20,
        rt.irs_addr(index + 1) - rt.irs_addr(index) == 0x20,
{
}

/// Setting an interrupter up writes each of its registers once, the one that enables it last.
pub proof fn law_interrupter_stores(rt: RuntimeRegisters, index: int, erst: u64, ring: u64)
    requires
        0 <= index < 1024,
        rt.base + 0x8020 <= u64::MAX,
    ensures
        ({
            let stores = rt.irs_stores(index, erst, ring);
            let at = rt.base + 0x20 * (index + 1);
            &&& stores.len() == 5
            &&& stores.contains(Store::Word { addr: (at + 8) as u64, value: 1 })
            &&& stores.contains(Store::Long { addr: (at + 0x10) as u64, value: erst })
            &&& stores.contains(Store::Long { addr: (at + 0x18) as u64, value: ring })
            &&& stores.contains(Store::Word { addr: (at + 4) as u64, value: 0 })
            &&& stores[4] == Store::Word { addr: at as u64, value: 1 }
        }),
{
    let stores = rt.irs_stores(index, erst, ring);
    assert(stores[0] == stores[0] && stores[1] == stores[1] && stores[2] == stores[2] && stores[3]
        == stores[3]);
}

/// A doorbell gets its target in the lowest byte and its task in the upper half.
pub proof fn law_doorbell_value(bell: Doorbell, target: u8, task: u16)
    ensures
        bell.ring(target, task) matches Store::Word { addr, value } && addr == bell.ptr && value
            as int % 0x1_0000 == target && value as int / 0x1_0000 == task,
{
}

/// Where all registers lie: the operational and runtime registers where the capabilities say,
/// one doorbell more than there are ports, four bytes apart, and one register per port,
/// sixteen bytes apart.
pub proof fn law_register_layout(
    regs: XhcRegisters,
    bar0: u64,
    cap: CapabilityRegisters,
    i: int,
)
    requires
        XhcRegisters::fits(bar0, cap),
        regs.laid_out(bar0, cap),
    ensures
        regs.cap_regs == cap,
        regs.op_base - bar0 == cap.caplength,
        regs.rt_regs.base - bar0 == cap.rtsoff,
        regs.doorbell_regs@.len() == cap.hcsparams1 as int / 0x100_0000 + 1,
        regs.doorbell_regs@[0].ptr - bar0 == cap.dboff,
        0 <= i < cap.hcsparams1 as int / 0x100_0000 ==> regs.doorbell_regs@[i + 1].ptr
            - regs.doorbell_regs@[i].ptr == 4,
        regs.portsc.entries@.len() == cap.hcsparams1 as int / 0x100_0000,
        0 <= i < regs.portsc.entries@.len() ==> regs.portsc.entries@[i].ptr == bar0
            + cap.caplength + 0x400 + 16 * i,
{
}

} // verus!
