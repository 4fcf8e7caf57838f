//! Root hub ports.
use crate::bits::extract_bits;
use crate::xhci::store::Store;
use core::ops::Range;
use vstd::arithmetic::power2::*;
use vstd::prelude::*;

verus! {

/// The speed of a device on a port.
#[derive(PartialEq, Eq, Debug, Clone, Copy, Structural)]
pub enum UsbMode {
    Unknown(u32),
    FullSpeed,
    LowSpeed,
    HighSpeed,
    SuperSpeed,
}

impl UsbMode {
    /// The protocol speed ID that stands for the speed.
    pub open spec fn id(self) -> u32 {
        match self {
            UsbMode::FullSpeed => 1,
            UsbMode::LowSpeed => 2,
            UsbMode::HighSpeed => 3,
            UsbMode::SuperSpeed => 4,
            UsbMode::Unknown(psi) => psi,
        }
    }

    /// The speed that a protocol speed ID stands for.
    pub open spec fn of_id(psi: u32) -> Self {
        if psi == 1 {
            UsbMode::FullSpeed
        } else if psi == 2 {
            UsbMode::LowSpeed
        } else if psi == 3 {
            UsbMode::HighSpeed
        } else if psi == 4 {
            UsbMode::SuperSpeed
        } else {
            UsbMode::Unknown(psi)
        }
    }

    /// The largest packet of the control endpoint at this speed, where it is known.
    pub open spec fn control_packet_size(self) -> Result<u16, &'static str> {
        match self {
            UsbMode::FullSpeed => Ok(8),
            UsbMode::LowSpeed => Ok(8),
            UsbMode::HighSpeed => Ok(64),
            UsbMode::SuperSpeed => Ok(512),
            UsbMode::Unknown(_) => Err("unknown Protocol Speed ID"),
        }
    }

    /// The protocol speed ID that stands for the speed.
    pub fn psi(&self) -> (r: u32)
        ensures
            r == self.id(),
    {
        match *self {
            UsbMode::FullSpeed => 1,
            UsbMode::LowSpeed => 2,
            UsbMode::HighSpeed => 3,
            UsbMode::SuperSpeed => 4,
            UsbMode::Unknown(psi) => psi,
        }
    }
}

/// A speed survives the way through its ID, unless it is an unknown one with the ID of a
/// known one.
pub proof fn law_speed_round_trip(mode: UsbMode)
    requires
        mode matches UsbMode::Unknown(psi) ==> psi == 0 || psi > 4,
    ensures
        UsbMode::of_id(mode.id()) == mode,
{
}

/// How far the reset of a port has come.
#[derive(PartialEq, Eq, Debug, Clone, Copy, Structural)]
pub enum PortReset {
    /// Nothing was done yet.
    Start,
    /// The port was told to power up.
    PowerUp,
    /// The port was told to reset.
    Resetting,
    /// The reset is over.
    Done,
}

/// A port's status and control register: where it lies, and what was last read from it.
#[derive(PartialEq, Eq, Debug, Clone, Copy, Structural)]
pub struct PortScEntry {
    pub ptr: u64,
    pub value: u32,
}

impl PortScEntry {
    /// The bits that a write must give back as they were read.
    pub const PRESERVE_MASK: u32 = 0x4f01_ffe9;

    /// Whether bit `pos` was read as one.
    pub open spec fn has_bit(self, pos: nat) -> bool {
        crate::bits::field(self.value as int, pow2(pos) as int, 2) == 1
    }

    /// A device is connected.
    pub open spec fn connected(self) -> bool {
        self.value % 2 == 1
    }

    /// The port is enabled.
    pub open spec fn enabled_bit(self) -> bool {
        self.value / 2 % 2 == 1
    }

    /// The port is being reset.
    pub open spec fn resetting(self) -> bool {
        self.value / 0x10 % 2 == 1
    }

    /// The port has power.
    pub open spec fn powered(self) -> bool {
        self.value / 0x200 % 2 == 1
    }

    /// The speed of the device: bits 10 to 13.
    pub open spec fn speed(self) -> UsbMode {
        UsbMode::of_id((self.value / 0x400 % 16) as u32)
    }

    /// The store that sets the one bit `bit`.
    pub open spec fn store_with(self, bit: u32) -> Store {
        Store::Word { addr: self.ptr, value: (self.value & Self::PRESERVE_MASK) | bit }
    }

    /// The register at `ptr`, not read yet.
    pub fn new(ptr: u64) -> (r: Self)
        ensures
            r == (PortScEntry { ptr, value: 0 }),
    {
        PortScEntry { ptr, value: 0 }
    }

    /// The register, after `value` was read from it.
    pub fn read(&self, value: u32) -> (r: Self)
        ensures
            r == (PortScEntry { ptr: self.ptr, value }),
    {
        PortScEntry { ptr: self.ptr, value }
    }

    /// What was read.
    pub fn value(&self) -> (r: u32)
        ensures
            r == self.value,
    {
        self.value
    }

    /// Whether bit `pos` was read as one.
    pub fn bit(&self, pos: u32) -> (r: bool)
        requires
            pos < 32,
        ensures
            r == self.has_bit(pos as nat),
    {
        proof {
            lemma2_to64();
        }
        extract_bits(self.value, pos, 1) != 0
    }

    /// Whether a device is connected.
    pub fn ccs(&self) -> (r: bool)
        ensures
            r == self.connected(),
    {
        proof {
            lemma2_to64();
        }
        self.bit(0)
    }

    /// The store that sets bit `pos` and keeps what a write must keep.
    pub fn assert_bit(&self, pos: u32) -> (r: Store)
        requires
            pos < 32,
        ensures
            r == self.store_with(1u32 << pos),
    {
        Store::Word { addr: self.ptr, value: (self.value & Self::PRESERVE_MASK) | (1u32 << pos) }
    }

    /// Whether the port has power.
    pub fn pp(&self) -> (r: bool)
        ensures
            r == self.powered(),
    {
        proof {
            lemma2_to64();
        }
        self.bit(9)
    }

    /// The store that gives the port power.
    pub fn assert_pp(&self) -> (r: Store)
        ensures
            r == self.store_with(0x200),
    {
        assert(1u32 << 9u32 == 0x200) by (bit_vector);
        self.assert_bit(9)
    }

    /// Whether the port is being reset.
    pub fn pr(&self) -> (r: bool)
        ensures
            r == self.resetting(),
    {
        proof {
            lemma2_to64();
        }
        self.bit(4)
    }

    /// The store that resets the port.
    pub fn assert_pr(&self) -> (r: Store)
        ensures
            r == self.store_with(0x10),
    {
        assert(1u32 << 4u32 == 0x10) by (bit_vector);
        self.assert_bit(4)
    }

    /// What comes next in a port's reset, after the register was read.
    pub open spec fn next_reset(self, phase: PortReset) -> (PortReset, Option<Store>) {
        match phase {
            PortReset::Start => (PortReset::PowerUp, Some(self.store_with(0x200))),
            PortReset::PowerUp => if self.powered() {
                (PortReset::Resetting, Some(self.store_with(0x10)))
            } else {
                (PortReset::PowerUp, None)
            },
            PortReset::Resetting => if self.resetting() {
                (PortReset::Resetting, None)
            } else {
                (PortReset::Done, None)
            },
            PortReset::Done => (PortReset::Done, None),
        }
    }

    /// One step of a port's reset, after the register was read: power it up, wait for the
    /// power, reset it, wait for the end.
    pub fn reset_port(&self, phase: PortReset) -> (r: (PortReset, Option<Store>))
        ensures
            r == self.next_reset(phase),
    {
        match phase {
            PortReset::Start => (PortReset::PowerUp, Some(self.assert_pp())),
            PortReset::PowerUp => if !self.pp() {
                (PortReset::PowerUp, None)
            } else {
                (PortReset::Resetting, Some(self.assert_pr()))
            },
            PortReset::Resetting => if self.pr() {
                (PortReset::Resetting, None)
            } else {
                (PortReset::Done, None)
            },
            PortReset::Done => (PortReset::Done, None),
        }
    }

    /// Whether the port is enabled.
    pub fn ped(&self) -> (r: bool)
        ensures
            r == self.enabled_bit(),
    {
        proof {
            lemma2_to64();
        }
        self.bit(1)
    }

    /// Powered, connected, enabled and not in reset.
    pub open spec fn usable(self) -> bool {
        self.powered() && self.connected() && self.enabled_bit() && !self.resetting()
    }

    /// Whether a device behind the port can be talked to.
    pub fn is_enabled(&self) -> (r: bool)
        ensures
            r == self.usable(),
    {
        self.pp() && self.ccs() && self.ped() && !self.pr()
    }

    /// The largest packet of the control endpoint of the device behind the port.
    pub fn max_packet_size(&self) -> (r: Result<u16, &'static str>)
        ensures
            r == self.speed().control_packet_size(),
    {
        match self.port_speed() {
            UsbMode::FullSpeed | UsbMode::LowSpeed => Ok(8),
            UsbMode::HighSpeed => Ok(64),
            UsbMode::SuperSpeed => Ok(512),
            _ => Err("unknown Protocol Speed ID"),
        }
    }

    /// The speed of the device behind the port.
    pub fn port_speed(&self) -> (r: UsbMode)
        ensures
            r == self.speed(),
            r.id() < 16,
    {
        proof {
            lemma2_to64();
        }
        match extract_bits(self.value, 10, 4) {
            1 => UsbMode::FullSpeed,
            2 => UsbMode::LowSpeed,
            3 => UsbMode::HighSpeed,
            4 => UsbMode::SuperSpeed,
            v => UsbMode::Unknown(v),
        }
    }
}

/// Powering up or resetting a port neither disables it (bit 1) nor acknowledges a change
/// (bits 17 to 23): those bits, which act when one is written, are written as zero, and
/// what else may be kept is kept.
pub proof fn law_port_stores_are_harmless(port: PortScEntry)
    ensures
        ({
            let v = (port.value & PortScEntry::PRESERVE_MASK) | 0x200;
            &&& port.store_with(0x200) == Store::Word { addr: port.ptr, value: v }
            &&& v & 0x00fe_0002 == 0
            &&& v & PortScEntry::PRESERVE_MASK == (port.value | 0x200) & PortScEntry::PRESERVE_MASK
            &&& v & 0x200 == 0x200
        }),
        ({
            let v = (port.value & PortScEntry::PRESERVE_MASK) | 0x10;
            &&& port.store_with(0x10) == Store::Word { addr: port.ptr, value: v }
            &&& v & 0x00fe_0002 == 0
            &&& v & PortScEntry::PRESERVE_MASK == port.value & PortScEntry::PRESERVE_MASK
            &&& v & 0x10 == 0x10
        }),
{
    let x = port.value;
    assert(((x & 0x4f01_ffe9) | 0x200) & 0x00fe_0002 == 0 && ((x & 0x4f01_ffe9) | 0x200)
        & 0x4f01_ffe9 == (x | 0x200) & 0x4f01_ffe9 && ((x & 0x4f01_ffe9) | 0x200) & 0x200 == 0x200)
        by (bit_vector);
    assert(((x & 0x4f01_ffe9) | 0x10) & 0x00fe_0002 == 0 && ((x & 0x4f01_ffe9) | 0x10)
        & 0x4f01_ffe9 == x & 0x4f01_ffe9 && ((x & 0x4f01_ffe9) | 0x10) & 0x10 == 0x10)
        by (bit_vector);
}

/// The status and control registers of all ports.
#[derive(Debug)]
pub struct PortSc {
    pub entries: Vec<PortScEntry>,
}

impl PortSc {
    /// The address of the register of the `i`-th port, counted from zero.
    pub open spec fn address(op_base: u64, i: int) -> int {
        op_base + 0x400 + 16 * i
    }

    /// The registers of `num_ports` ports: sixteen bytes apart, 0x400 above the
    /// operational registers at `op_base`.
    pub fn new(op_base: u64, num_ports: usize) -> (r: Self)
        requires
            op_base + 0x400 + 16 * num_ports <= u64::MAX,
        ensures
            r.entries@ == Seq::new(
                num_ports as nat,
                |i: int| PortScEntry { ptr: Self::address(op_base, i) as u64, value: 0 },
            ),
    {
        let mut entries: Vec<PortScEntry> = Vec::new();
        let mut i: usize = 0;
        while i < num_ports
            invariant
                i <= num_ports,
                op_base + 0x400 + 16 * num_ports <= u64::MAX,
                entries@ =~= Seq::new(
                    i as nat,
                    |j: int| PortScEntry { ptr: Self::address(op_base, j) as u64, value: 0 },
                ),
            decreases num_ports - i,
        {
            entries.push(PortScEntry::new(op_base + 0x400 + 16 * (i as u64)));
            i += 1;
        }
        PortSc { entries }
    }

    /// The register of a port, if there is such a port: they are counted from one.
    pub open spec fn at(self, port: int) -> Option<PortScEntry> {
        if 1 <= port <= self.entries@.len() {
            Some(self.entries@[port - 1])
        } else {
            None
        }
    }

    /// The number after that of the last port.
    pub open spec fn range_end(self) -> int {
        self.entries@.len() as int + 1
    }

    /// The numbers of the ports: they start at one.
    pub fn port_range(&self) -> (r: Range<usize>)
        requires
            self.entries@.len() < usize::MAX,
        ensures
            r.start == 1,
            r.end == self.range_end(),
    {
        1..self.entries.len() + 1
    }

    /// The register of a port, if there is such a port.
    pub fn get(&self, port: usize) -> (r: Option<PortScEntry>)
        ensures
            r == self.at(port as int),
    {
        let i: usize = port.wrapping_sub(1);
        if i < self.entries.len() {
            Some(self.entries[i])
        } else {
            None
        }
    }
}

/// A port has a register if and only if its number lies in the range of the ports' numbers;
/// port zero has none.
pub proof fn law_ports_lie_in_their_range(ports: PortSc, port: int)
    ensures
        ports.at(port) is Some <==> 1 <= port < ports.range_end(),
        ports.at(port) is Some ==> ports.at(port) == Some(ports.entries@[port - 1]),
        ports.at(0) is None,
        ports.range_end() - 1 == ports.entries@.len(),
        forall|i: int|
            0 <= i < ports.entries@.len() ==> ports.at(i + 1) == Some(#[trigger] ports.entries@[i]),
{
}

/// Which bit of a port's register says what: bit 0 that a device is connected, bit 1 that the
/// port is enabled, bit 4 that it is being reset, bit 9 that it has power.
pub proof fn law_port_bits(port: PortScEntry)
    ensures
        port.connected() == port.has_bit(0),
        port.enabled_bit() == port.has_bit(1),
        port.resetting() == port.has_bit(4),
        port.powered() == port.has_bit(9),
        port.usable() <==> port.has_bit(0) && port.has_bit(1) && port.has_bit(9) && !port.has_bit(
            4,
        ),
        port.has_bit(0) <==> port.value as int % 2 == 1,
        port.has_bit(1) <==> port.value as int % 4 >= 2,
        port.has_bit(4) <==> port.value as int % 0x20 >= 0x10,
        port.has_bit(9) <==> port.value as int % 0x400 >= 0x200,
{
    lemma2_to64();
}

/// Whether a bit was read as one is what shifting it down shows.
pub proof fn law_any_bit(port: PortScEntry, pos: u32)
    requires
        pos < 32,
    ensures
        port.has_bit(pos as nat) <==> (port.value >> pos) % 2 == 1,
{
    lemma2_to64();
    vstd::bits::lemma_u32_shr_is_div(port.value, pos);
}

/// The speed is bits 10 to 13 of a port's register, and it comes back as the same number. The
/// control endpoint's packets have eight bytes at full and low speed, sixty-four at high speed
/// and five hundred and twelve at super speed; of another speed nothing is known.
pub proof fn law_port_speed(port: PortScEntry)
    ensures
        ({
            let id = port.value as int / 0x400 % 16;
            let size = port.speed().control_packet_size();
            &&& port.speed().id() == id
            &&& id == 1 <==> port.speed() == UsbMode::FullSpeed
            &&& id == 2 <==> port.speed() == UsbMode::LowSpeed
            &&& id == 3 <==> port.speed() == UsbMode::HighSpeed
            &&& id == 4 <==> port.speed() == UsbMode::SuperSpeed
            &&& size is Ok <==> 1 <= id <= 4
            &&& id == 1 || id == 2 ==> size == Ok::<u16, &'static str>(8)
            &&& id == 3 ==> size == Ok::<u16, &'static str>(64)
            &&& id == 4 ==> size == Ok::<u16, &'static str>(512)
            &&& size is Err ==> size == Err::<u16, &'static str>("unknown Protocol Speed ID")
        }),
{
}

/// The reset of a port waits for what it asked for: it is told to reset only when it has power,
/// and the reset is over only when the port says so. Each is told once, to the port's own
/// register.
pub proof fn law_port_reset_waits(port: PortScEntry, phase: PortReset)
    ensures
        ({
            let (next, store) = port.next_reset(phase);
            &&& next == PortReset::Done ==> phase == PortReset::Done || (phase
                == PortReset::Resetting && port.value as int % 0x20 < 0x10)
            &&& next == PortReset::Resetting && phase != next ==> phase == PortReset::PowerUp
                && port.value as int % 0x400 >= 0x200
            &&& phase == PortReset::Start ==> next == PortReset::PowerUp
            &&& phase == PortReset::PowerUp && port.value as int % 0x400 >= 0x200 ==> next
                == PortReset::Resetting
            &&& phase == PortReset::Resetting && port.value as int % 0x20 < 0x10 ==> next
                == PortReset::Done
            &&& store is Some <==> phase == PortReset::Start || (phase == PortReset::PowerUp && next
                == PortReset::Resetting)
            &&& store matches Some(s) ==> s matches Store::Word { addr, value } && addr == port.ptr
                && (phase == PortReset::Start ==> value == port.value & 0x4f01_ffe9 | 0x200) && (
            phase == PortReset::PowerUp ==> value == port.value & 0x4f01_ffe9 | 0x10)
        }),
{
}

/// The registers of the ports lie sixteen bytes apart, the first 0x400 above the operational
/// registers.
pub proof fn law_port_registers_apart(op_base: u64, i: int)
    ensures
        PortSc::address(op_base, 0) - op_base == 0x400,
        PortSc::address(op_base, i + 1) - PortSc::address(op_base, i) == 16,
{
}

/// The numbers of the speeds; a speed that is not known has the number that it was read as.
pub proof fn law_speed_numbers(psi: u32)
    ensures
        UsbMode::FullSpeed.id() == 1,
        UsbMode::LowSpeed.id() == 2,
        UsbMode::HighSpeed.id() == 3,
        UsbMode::SuperSpeed.id() == 4,
        UsbMode::Unknown(psi).id() == psi,
        UsbMode::of_id(psi).id() == psi,
        UsbMode::of_id(psi) is Unknown <==> psi == 0 || psi > 4,
{
}

/// What a store to a port's register writes, bit by bit: the bits to set as ones; bits 0, 3, 5 to
/// 16, 24 to 27 and 30 as they were read; all others as zeroes.
pub proof fn law_port_stores_bit_by_bit(port: PortScEntry, bit: u32, pos: u32)
    requires
        pos < 32,
    ensures
        port.store_with(bit) matches Store::Word { addr, value } && addr == port.ptr && ((value >> pos)
            & 1 == 1 <==> (bit >> pos) & 1 == 1 || ((pos == 0 || pos == 3 || 5 <= pos <= 16 || 24
            <= pos <= 27 || pos == 30) && (port.value >> pos) & 1 == 1)),
{
    let v = port.value;
    assert((((v & 0x4f01_ffe9) | bit) >> pos) & 1 == 1 <==> (bit >> pos) & 1 == 1 || ((pos == 0 || pos
        == 3 || 5 <= pos <= 16 || 24 <= pos <= 27 || pos == 30) && (v >> pos) & 1 == 1))
        by (bit_vector)
        requires
            pos < 32,
    ;
}

} // verus!
