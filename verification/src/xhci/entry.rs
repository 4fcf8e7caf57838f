//! Transfer request blocks in their general form.
use crate::bits::extract_bits;
use crate::bits::write_bits;
use vstd::arithmetic::div_mod::*;
use vstd::arithmetic::power2::*;
use vstd::prelude::*;

verus! {

/// The kinds of transfer request block that the driver knows.
#[derive(Debug, Clone, Copy, PartialEq, Eq, Structural)]
#[non_exhaustive]
pub enum TrbType {
    Normal,
    SetupStage,
    DataStage,
    StatusStage,
    Link,
    EnableSlotCommand,
    AddressDeviceCommand,
    ConfigureEndpointCommand,
    EvaluateContextCommand,
    NoOpCommand,
    TransferEvent,
    CommandCompletionEvent,
    PortStatusChangeEvent,
    HostControllerEvent,
}

impl TrbType {
    /// The number that stands for the kind in a block's control word.
    pub open spec fn code(self) -> u32 {
        match self {
            TrbType::Normal => 1,
            TrbType::SetupStage => 2,
            TrbType::DataStage => 3,
            TrbType::StatusStage => 4,
            TrbType::Link => 6,
            TrbType::EnableSlotCommand => 9,
            TrbType::AddressDeviceCommand => 11,
            TrbType::ConfigureEndpointCommand => 12,
            TrbType::EvaluateContextCommand => 13,
            TrbType::NoOpCommand => 23,
            TrbType::TransferEvent => 32,
            TrbType::CommandCompletionEvent => 33,
            TrbType::PortStatusChangeEvent => 34,
            TrbType::HostControllerEvent => 37,
        }
    }

    /// The number that stands for the kind in a block's control word.
    pub fn number(self) -> (r: u32)
        ensures
            r == self.code(),
    {
        match self {
            TrbType::Normal => 1,
            TrbType::SetupStage => 2,
            TrbType::DataStage => 3,
            TrbType::StatusStage => 4,
            TrbType::Link => 6,
            TrbType::EnableSlotCommand => 9,
            TrbType::AddressDeviceCommand => 11,
            TrbType::ConfigureEndpointCommand => 12,
            TrbType::EvaluateContextCommand => 13,
            TrbType::NoOpCommand => 23,
            TrbType::TransferEvent => 32,
            TrbType::CommandCompletionEvent => 33,
            TrbType::PortStatusChangeEvent => 34,
            TrbType::HostControllerEvent => 37,
        }
    }
}

/// A transfer request block: sixteen bytes that the controller and the driver exchange.
#[derive(Debug, Clone, Copy, PartialEq, Eq, Structural)]
pub struct GenericTrbEntry {
    pub data: u64,
    pub option: u32,
    pub control: u32,
}

impl Default for GenericTrbEntry {
    /// A block of zeroes.
    fn default() -> (r: Self)
        ensures
            r == (GenericTrbEntry { data: 0, option: 0, control: 0 }),
    {
        GenericTrbEntry { data: 0, option: 0, control: 0 }
    }
}

impl GenericTrbEntry {
    pub const CTRL_BIT_INTERRUPT_ON_SHORT_PACKET: u32 = 0x4;

    pub const CTRL_BIT_INTERRUPT_ON_COMPLETION: u32 = 0x20;

    pub const CTRL_BIT_IMMEDIATE_DATA: u32 = 0x40;

    pub const CTRL_BIT_DATA_DIR_OUT: u32 = 0;

    pub const CTRL_BIT_DATA_DIR_IN: u32 = 0x1_0000;

    /// The block's kind: bits 10 to 15 of the control word.
    pub open spec fn type_code(self) -> int {
        crate::bits::field(self.control as int, 0x400, 0x40)
    }

    /// The slot that the block names: bits 24 to 31 of the control word.
    pub open spec fn slot(self) -> int {
        crate::bits::field(self.control as int, 0x100_0000, 0x100)
    }

    /// The cycle bit: bit 0 of the control word.
    pub open spec fn cycle(self) -> bool {
        self.control % 2 == 1
    }

    /// The toggle-cycle bit of a link: bit 1 of the control word.
    pub open spec fn toggle(self) -> bool {
        crate::bits::field(self.control as int, 2, 2) == 1
    }

    /// The completion code of an event: bits 24 to 31 of the option word.
    pub open spec fn code(self) -> int {
        crate::bits::field(self.option as int, 0x100_0000, 0x100)
    }

    /// The block with its control word replaced in one field.
    pub open spec fn with_control_field(self, lo: int, size: int, x: int) -> Self {
        GenericTrbEntry {
            data: self.data,
            option: self.option,
            control: crate::bits::with_field(self.control as int, lo, size, x) as u32,
        }
    }

    /// The block with its cycle bit set to `cycle`.
    pub open spec fn with_cycle(self, cycle: bool) -> Self {
        self.with_control_field(
            1,
            2,
            if cycle {
                1
            } else {
                0
            },
        )
    }

    /// Sets the block's kind.
    pub fn set_trb_type(&mut self, trb_type: TrbType)
        ensures
            *final(self) == old(self).with_control_field(0x400, 0x40, trb_type.code() as int),
            final(self).type_code() == trb_type.code(),
    {
        proof {
            lemma2_to64();
            crate::bits::lemma_with_field(
                self.control as int,
                0x400,
                0x40,
                trb_type.code() as int,
            );
        }
        self.control = write_bits(self.control, 10, 6, trb_type.number());
    }

    /// Sets the cycle bit.
    pub fn set_cycle_state(&mut self, cycle: bool)
        ensures
            *final(self) == old(self).with_cycle(cycle),
            final(self).cycle() == cycle,
    {
        proof {
            lemma2_to64();
        }
        self.control = write_bits(
            self.control,
            0,
            1,
            if cycle {
                1
            } else {
                0
            },
        );
    }

    /// Sets the toggle-cycle bit of a link.
    pub fn set_toggle_cycle(&mut self, value: bool)
        ensures
            *final(self) == old(self).with_control_field(
                2,
                2,
                if value {
                    1
                } else {
                    0
                },
            ),
            final(self).toggle() == value,
    {
        proof {
            lemma2_to64();
        }
        self.control = write_bits(
            self.control,
            1,
            1,
            if value {
                1
            } else {
                0
            },
        );
    }

    /// Sets the slot that the block names.
    pub fn set_slot_id(&mut self, slot: u8)
        ensures
            *final(self) == old(self).with_control_field(0x100_0000, 0x100, slot as int),
            final(self).slot() == slot,
    {
        proof {
            lemma2_to64();
        }
        self.control = write_bits(self.control, 24, 8, slot as u32);
    }

    /// The block's first eight bytes; of an event, the address of the block it is about.
    pub fn data(&self) -> (r: u64)
        ensures
            r == self.data,
    {
        self.data
    }

    /// The slot that the block names.
    pub fn slot_id(&self) -> (r: u8)
        ensures
            r == self.slot(),
    {
        proof {
            lemma2_to64();
        }
        extract_bits(self.control, 24, 8) as u8
    }

    /// The number of the block's kind.
    pub fn trb_type(&self) -> (r: u32)
        ensures
            r == self.type_code(),
    {
        proof {
            lemma2_to64();
        }
        extract_bits(self.control, 10, 6)
    }

    /// The cycle bit.
    pub fn cycle_state(&self) -> (r: bool)
        ensures
            r == self.cycle(),
    {
        proof {
            lemma2_to64();
        }
        extract_bits(self.control, 0, 1) != 0
    }

    /// The completion code of an event.
    pub fn completion_code(&self) -> (r: u32)
        ensures
            r == self.code(),
    {
        proof {
            lemma2_to64();
        }
        extract_bits(self.option, 24, 8)
    }

    /// The link block that leads from a ring's end back to `ring_addr`.
    pub open spec fn link_to(ring_addr: u64) -> Self {
        GenericTrbEntry { data: ring_addr, option: 0, control: 0x1802 }
    }

    /// The link block that leads from a ring's end back to its first block at `ring_addr`.
    pub fn trb_link(ring_addr: u64) -> (r: Self)
        ensures
            r == Self::link_to(ring_addr),
            r.type_code() == TrbType::Link.code(),
            r.toggle(),
            !r.cycle(),
    {
        let mut trb = GenericTrbEntry::default();
        trb.set_trb_type(TrbType::Link);
        trb.data = ring_addr;
        trb.set_toggle_cycle(true);
        trb
    }

    /// The command that asks for a device slot.
    pub fn cmd_enable_slot() -> (r: Self)
        ensures
            r == (GenericTrbEntry { data: 0, option: 0, control: 0x2400 }),
            r == Self::enable_cmd(),
            r.type_code() == TrbType::EnableSlotCommand.code(),
    {
        let mut trb = Self::default();
        trb.set_trb_type(TrbType::EnableSlotCommand);
        trb
    }

    /// The command that gives the device in `slot` its address.
    pub open spec fn address_cmd(input_context: u64, slot: u8) -> Self {
        GenericTrbEntry {
            data: input_context,
            option: 0,
            control: (0x2c00 + 0x100_0000 * slot) as u32,
        }
    }

    /// The command that sets up the endpoints of the device in `slot`.
    pub open spec fn configure_cmd(input_context: u64, slot: u8) -> Self {
        GenericTrbEntry {
            data: input_context,
            option: 0,
            control: (0x3000 + 0x100_0000 * slot) as u32,
        }
    }

    /// The command that asks for a device slot.
    pub open spec fn enable_cmd() -> Self {
        GenericTrbEntry { data: 0, option: 0, control: 0x2400 }
    }

    /// The command that gives the device in `slot` its address, from the input context
    /// at `input_context`.
    pub fn cmd_address_device(input_context: u64, slot: u8) -> (r: Self)
        ensures
            r.data == input_context,
            r.option == 0,
            r.control == 0x2c00 + 0x100_0000 * slot,
            r == Self::address_cmd(input_context, slot),
            r.type_code() == TrbType::AddressDeviceCommand.code(),
            r.slot() == slot,
    {
        let mut trb = Self::default();
        trb.set_trb_type(TrbType::AddressDeviceCommand);
        trb.data = input_context;
        trb.set_slot_id(slot);
        trb
    }

    /// The command that sets up the endpoints of the device in `slot`, from the input
    /// context at `input_context`.
    pub fn cmd_configure_endpoint(input_context: u64, slot: u8) -> (r: Self)
        ensures
            r.data == input_context,
            r.option == 0,
            r.control == 0x3000 + 0x100_0000 * slot,
            r == Self::configure_cmd(input_context, slot),
            r.type_code() == TrbType::ConfigureEndpointCommand.code(),
            r.slot() == slot,
    {
        let mut trb = Self::default();
        trb.set_trb_type(TrbType::ConfigureEndpointCommand);
        trb.data = input_context;
        trb.set_slot_id(slot);
        trb
    }

    /// Whether this event reports a command that succeeded.
    pub fn cmd_result_ok(&self) -> (r: Result<(), &'static str>)
        ensures
            r == self.command_outcome(),
    {
        if self.trb_type() != TrbType::CommandCompletionEvent.number() {
            Err("Not a Command Completion Event")
        } else if self.completion_code() != 1 {
            Err("Command Completion Event with error code")
        } else {
            Ok(())
        }
    }

    /// What an event says of a command: it must be a completion event with code 1.
    pub open spec fn command_outcome(self) -> Result<(), &'static str> {
        if self.type_code() != TrbType::CommandCompletionEvent.code() {
            Err("Not a Command Completion Event")
        } else if self.code() != 1 {
            Err("Command Completion Event with error code")
        } else {
            Ok(())
        }
    }

    /// Whether this event reports a transfer that succeeded.
    pub fn transfer_result_ok(&self) -> (r: Result<(), &'static str>)
        ensures
            r == self.transfer_outcome(),
    {
        if self.trb_type() != TrbType::TransferEvent.number() {
            Err("Not a TransferEvent")
        } else if self.completion_code() != 1 && self.completion_code() != 13 {
            Err("Transfer Event with error code")
        } else {
            Ok(())
        }
    }

    /// What an event says of a transfer: it must be a transfer event with code 1, or
    /// with code 13, a short packet.
    pub open spec fn transfer_outcome(self) -> Result<(), &'static str> {
        if self.type_code() != TrbType::TransferEvent.code() {
            Err("Not a TransferEvent")
        } else if self.code() != 1 && self.code() != 13 {
            Err("Transfer Event with error code")
        } else {
            Ok(())
        }
    }
}

/// Setting one field of a block leaves the others as they were.
pub proof fn law_fields_are_independent(trb: GenericTrbEntry, t: TrbType, slot: u8, cycle: bool)
    ensures
        trb.with_cycle(cycle).type_code() == trb.type_code(),
        trb.with_cycle(cycle).slot() == trb.slot(),
        trb.with_cycle(cycle).toggle() == trb.toggle(),
        trb.with_control_field(0x400, 0x40, t.code() as int).slot() == trb.slot(),
        trb.with_control_field(0x400, 0x40, t.code() as int).cycle() == trb.cycle(),
        trb.with_control_field(0x100_0000, 0x100, slot as int).type_code() == trb.type_code(),
        trb.with_control_field(0x100_0000, 0x100, slot as int).cycle() == trb.cycle(),
{
    lemma_cycle_alone(trb, cycle);
    lemma_kind_alone(trb, t.code() as int);
    lemma_slot_alone(trb, slot);
}

proof fn lemma_cycle_alone(trb: GenericTrbEntry, cycle: bool)
    ensures
        trb.with_cycle(cycle).type_code() == trb.type_code(),
        trb.with_cycle(cycle).slot() == trb.slot(),
        trb.with_cycle(cycle).toggle() == trb.toggle(),
{
    let c = trb.control as int;
    let n = trb.with_cycle(cycle).control as int;
    assert(n / 2 == c / 2);
    lemma_div_denominator(n, 2, 0x200);
    lemma_div_denominator(c, 2, 0x200);
    lemma_div_denominator(n, 2, 0x80_0000);
    lemma_div_denominator(c, 2, 0x80_0000);
}

proof fn lemma_kind_alone(trb: GenericTrbEntry, k: int)
    requires
        0 <= k < 0x40,
    ensures
        trb.with_control_field(0x400, 0x40, k).slot() == trb.slot(),
        trb.with_control_field(0x400, 0x40, k).cycle() == trb.cycle(),
{
    let c = trb.control as int;
    let n = crate::bits::with_field(c, 0x400, 0x40, k);
    crate::bits::lemma_with_field(c, 0x400, 0x40, k);
    lemma_same_top(c, n);
    lemma_div_denominator(n, 0x1_0000, 0x100);
    lemma_div_denominator(c, 0x1_0000, 0x100);
    lemma_mod_mod(n, 2, 0x200);
    lemma_mod_mod(c, 2, 0x200);
}

proof fn lemma_slot_alone(trb: GenericTrbEntry, slot: u8)
    ensures
        trb.with_control_field(0x100_0000, 0x100, slot as int).type_code() == trb.type_code(),
        trb.with_control_field(0x100_0000, 0x100, slot as int).cycle() == trb.cycle(),
{
    let c = trb.control as int;
    let n = crate::bits::with_field(c, 0x100_0000, 0x100, slot as int);
    crate::bits::lemma_with_field(c, 0x100_0000, 0x100, slot as int);
    assert(c / 0x1_0000_0000 == 0);
    lemma_same_top(c, n);
    lemma_low_part(n);
    lemma_low_part(c);
    lemma_mod_mod(n, 2, 0x80_0000);
    lemma_mod_mod(c, 2, 0x80_0000);
}

/// A number that agrees with one of 32 bits above them has 32 bits too.
proof fn lemma_same_top(c: int, n: int)
    requires
        0 <= c < 0x1_0000_0000,
        n >= 0,
        n / 0x1_0000 == c / 0x1_0000 || n / 0x1_0000_0000 == c / 0x1_0000_0000,
    ensures
        n < 0x1_0000_0000,
{
}

/// Bits 10 to 15 are those of what lies below bit 24.
proof fn lemma_low_part(n: int)
    requires
        0 <= n,
    ensures
        n / 0x400 % 0x40 == n % 0x100_0000 / 0x400 % 0x40,
{
    let q = n / 0x100_0000;
    let r = n % 0x100_0000;
    assert(n == 0x400 * (0x4000 * q) + r);
    assert(n / 0x400 == 0x4000 * q + r / 0x400);
}

/// Where the parts of a block lie: the cycle bit, the toggle bit, six bits of kind from bit 10
/// on, and the slot in the highest byte make up the control word with what lies between them;
/// the completion code is the highest byte of the option word.
pub proof fn law_where_fields_lie(trb: GenericTrbEntry)
    ensures
        trb.cycle() <==> (trb.control as int) % 2 == 1,
        trb.toggle() <==> (trb.control as int) % 4 >= 2,
        (trb.control as int) % 0x1_0000 - (trb.control as int) % 0x400 == 0x400 * trb.type_code(),
        trb.control - (trb.control as int) % 0x100_0000 == 0x100_0000 * trb.slot(),
        trb.option - (trb.option as int) % 0x100_0000 == 0x100_0000 * trb.code(),
{
}

/// Turning the cycle bit moves the control word by at most one and leaves the rest.
pub proof fn law_turning_the_cycle_bit(trb: GenericTrbEntry, cycle: bool)
    ensures
        trb.with_cycle(cycle).cycle() == cycle,
        trb.with_cycle(cycle).control as int / 2 == trb.control as int / 2,
        trb.with_cycle(cycle).data == trb.data,
        trb.with_cycle(cycle).option == trb.option,
{
}

/// A command went well if and only if its event is a command completion, kind 33, with the code
/// one; another kind counts before another code.
pub proof fn law_command_results(trb: GenericTrbEntry)
    ensures
        ({
            let kind = (trb.control as int) / 0x400 % 0x40;
            let code = (trb.option as int) / 0x100_0000;
            &&& trb.command_outcome() is Ok <==> kind == 33 && code == 1
            &&& kind != 33 ==> trb.command_outcome() == Err::<(), &'static str>(
                "Not a Command Completion Event",
            )
            &&& kind == 33 && code != 1 ==> trb.command_outcome() == Err::<(), &'static str>(
                "Command Completion Event with error code",
            )
        }),
{
}

/// A transfer went well if and only if its event is a transfer event, kind 32, with the code one
/// or, for a short packet, thirteen.
pub proof fn law_transfer_results(trb: GenericTrbEntry)
    ensures
        ({
            let kind = (trb.control as int) / 0x400 % 0x40;
            let code = (trb.option as int) / 0x100_0000;
            &&& trb.transfer_outcome() is Ok <==> kind == 32 && (code == 1 || code == 13)
            &&& kind != 32 ==> trb.transfer_outcome() == Err::<(), &'static str>(
                "Not a TransferEvent",
            )
            &&& kind == 32 && code != 1 && code != 13 ==> trb.transfer_outcome() == Err::<
                (),
                &'static str,
            >("Transfer Event with error code")
        }),
{
}

/// The commands say what they are, which slot they are for and where the context is, and no
/// more; a link leads to its ring and turns the cycle bit.
pub proof fn law_commands_say_what_they_are(addr: u64, slot: u8)
    ensures
        GenericTrbEntry::enable_cmd().type_code() == 9,
        GenericTrbEntry::enable_cmd().slot() == 0,
        GenericTrbEntry::address_cmd(addr, slot).type_code() == 11,
        GenericTrbEntry::address_cmd(addr, slot).slot() == slot,
        GenericTrbEntry::address_cmd(addr, slot).data == addr,
        !GenericTrbEntry::address_cmd(addr, slot).cycle(),
        GenericTrbEntry::configure_cmd(addr, slot).type_code() == 12,
        GenericTrbEntry::configure_cmd(addr, slot).slot() == slot,
        GenericTrbEntry::configure_cmd(addr, slot).data == addr,
        !GenericTrbEntry::configure_cmd(addr, slot).cycle(),
        GenericTrbEntry::link_to(addr).type_code() == 6,
        GenericTrbEntry::link_to(addr).data == addr,
        GenericTrbEntry::link_to(addr).toggle(),
        !GenericTrbEntry::link_to(addr).cycle(),
{
}

/// The numbers of the kinds of block: those of transfers, then those of commands, then those of
/// events.
pub proof fn law_block_kinds()
    ensures
        TrbType::Normal.code() == 1,
        TrbType::SetupStage.code() == 2,
        TrbType::DataStage.code() == 3,
        TrbType::StatusStage.code() == 4,
        TrbType::Link.code() == 6,
        TrbType::EnableSlotCommand.code() == 9,
        TrbType::AddressDeviceCommand.code() == 11,
        TrbType::ConfigureEndpointCommand.code() == 12,
        TrbType::EvaluateContextCommand.code() == 13,
        TrbType::NoOpCommand.code() == 23,
        TrbType::TransferEvent.code() == 32,
        TrbType::CommandCompletionEvent.code() == 33,
        TrbType::PortStatusChangeEvent.code() == 34,
        TrbType::HostControllerEvent.code() == 37,
{
}

} // verus!
