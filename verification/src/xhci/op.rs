//! What a task asks for, and what it is told in return.
use crate::scsi::inquiry_cbw;
use crate::scsi::read_10_cbw;
use crate::scsi::INQUIRY_SIZE;
use crate::xhci::descriptor::EndpointDescriptor;
use crate::xhci::descriptor::UsbDescriptorType;
use crate::xhci::entry::GenericTrbEntry;
use vstd::prelude::*;

verus! {

/// A SCSI command.
#[derive(Debug, Copy, Clone, PartialEq, Eq, Structural)]
pub enum ScsiCommand {
    /// Asks a unit what it is.
    Inquiry,
    /// Reads sectors of 512 bytes.
    Read10 { lba: u32, transfer_length: u16 },
}

impl ScsiCommand {
    /// How many bytes the command brings.
    pub open spec fn data_size(self) -> usize {
        match self {
            ScsiCommand::Inquiry => INQUIRY_SIZE,
            ScsiCommand::Read10 { lba, transfer_length } => (transfer_length * 512) as usize,
        }
    }

    /// The wrapper that the command travels in.
    pub open spec fn wrapper(self) -> Seq<u8> {
        match self {
            ScsiCommand::Inquiry => crate::scsi::inquiry_bytes(),
            ScsiCommand::Read10 { lba, transfer_length } => crate::scsi::read_10_bytes(
                lba,
                transfer_length,
            ),
        }
    }

    /// How many bytes the command brings.
    pub fn data_len(&self) -> (r: usize)
        ensures
            r == self.data_size(),
    {
        match *self {
            ScsiCommand::Inquiry => INQUIRY_SIZE,
            ScsiCommand::Read10 { lba, transfer_length } => (transfer_length as usize) * 512,
        }
    }

    /// The wrapper that the command travels in.
    pub fn to_bytes(&self) -> (r: Vec<u8>)
        ensures
            r@ == self.wrapper(),
            r@.len() == 31,
    {
        match *self {
            ScsiCommand::Inquiry => inquiry_cbw(),
            ScsiCommand::Read10 { lba, transfer_length } => read_10_cbw(lba, transfer_length),
        }
    }
}

/// An endpoint of the device in a slot, by which the ring of its transfers is found.
#[derive(Debug, Copy, Clone, PartialEq, Eq, Hash, Structural)]
pub enum Endpoint {
    /// The endpoint that takes requests.
    Control { slot: u8 },
    /// A bulk endpoint, by the index of its context.
    Bulk { slot: u8, dci: usize },
}

impl Endpoint {
    /// The slot of the device.
    pub open spec fn slot(self) -> u8 {
        match self {
            Endpoint::Control { slot } => slot,
            Endpoint::Bulk { slot, dci } => slot,
        }
    }

    /// The index of the endpoint's context.
    pub open spec fn dci(self) -> usize {
        match self {
            Endpoint::Control { slot } => 1,
            Endpoint::Bulk { slot, dci } => dci,
        }
    }
}

/// One operation that a task asks for. All of them end with an event, or fail before.
#[derive(Debug, Copy, Clone, PartialEq, Eq)]
pub enum Op {
    /// Reset a port and get a slot for the device behind it; the slot is the answer.
    InitPort { port: usize },
    /// Give the device behind a port its address.
    AddressDevice { port: usize, slot: u8 },
    /// Bring `len` bytes of a descriptor.
    Descriptor { slot: u8, desc_type: UsbDescriptorType, index: u8, lang_id: u16, len: usize },
    /// Select a configuration.
    SetConfig { slot: u8, value: u8 },
    /// Reset bulk-only mass storage.
    StorageReset { slot: u8 },
    /// Set up a bulk endpoint.
    ConfigureBulk { slot: u8, ep: EndpointDescriptor, dci: usize },
    /// End an endpoint's halt.
    ClearHalt { slot: u8, address: u8 },
    /// Send a command to a bulk endpoint.
    BulkOut { slot: u8, dci: usize, command: ScsiCommand },
    /// Bring `len` bytes from a bulk endpoint.
    BulkIn { slot: u8, dci: usize, len: usize },
    /// Nothing more: this is how the task ended.
    Done(Result<(), &'static str>),
}

impl Op {
    /// How many bytes the operation brings.
    pub open spec fn brings(self) -> usize {
        match self {
            Op::Descriptor { slot, desc_type, index, lang_id, len } => len,
            Op::BulkIn { slot, dci, len } => len,
            _ => 0,
        }
    }

    /// How many bytes the operation brings.
    pub fn received_len(&self) -> (r: usize)
        ensures
            r == self.brings(),
    {
        match *self {
            Op::Descriptor { len, .. } => len,
            Op::BulkIn { len, .. } => len,
            _ => 0,
        }
    }

    /// The bytes that the operation sends.
    pub open spec fn sends(self) -> Seq<u8> {
        match self {
            Op::BulkOut { slot, dci, command } => command.wrapper(),
            _ => seq![],
        }
    }

    /// The bytes that the operation sends.
    pub fn sent_bytes(&self) -> (r: Vec<u8>)
        ensures
            r@ == self.sends(),
    {
        match *self {
            Op::BulkOut { command, .. } => command.to_bytes(),
            _ => Vec::new(),
        }
    }

    /// The endpoint that the operation is a transfer to or from; none if it is a command or
    /// nothing at all.
    pub open spec fn target(self) -> Option<Endpoint> {
        match self {
            Op::Descriptor { slot, desc_type, index, lang_id, len } => Some(
                Endpoint::Control { slot },
            ),
            Op::SetConfig { slot, value } => Some(Endpoint::Control { slot }),
            Op::StorageReset { slot } => Some(Endpoint::Control { slot }),
            Op::ClearHalt { slot, address } => Some(Endpoint::Control { slot }),
            Op::BulkOut { slot, dci, command } => Some(Endpoint::Bulk { slot, dci }),
            Op::BulkIn { slot, dci, len } => Some(Endpoint::Bulk { slot, dci }),
            _ => None,
        }
    }

    /// The endpoint that the operation is a transfer to or from.
    pub fn endpoint(&self) -> (r: Option<Endpoint>)
        ensures
            r == self.target(),
    {
        match *self {
            Op::Descriptor { slot, .. } => Some(Endpoint::Control { slot }),
            Op::SetConfig { slot, .. } => Some(Endpoint::Control { slot }),
            Op::StorageReset { slot } => Some(Endpoint::Control { slot }),
            Op::ClearHalt { slot, .. } => Some(Endpoint::Control { slot }),
            Op::BulkOut { slot, dci, .. } => Some(Endpoint::Bulk { slot, dci }),
            Op::BulkIn { slot, dci, .. } => Some(Endpoint::Bulk { slot, dci }),
            _ => None,
        }
    }

    /// The endpoint that the operation sets up, if it sets one up.
    pub open spec fn prepares(self) -> Option<Endpoint> {
        match self {
            Op::AddressDevice { port, slot } => Some(Endpoint::Control { slot }),
            Op::ConfigureBulk { slot, ep, dci } => Some(Endpoint::Bulk { slot, dci }),
            _ => None,
        }
    }

    /// The endpoint that the operation sets up, if it sets one up.
    pub fn prepared_endpoint(&self) -> (r: Option<Endpoint>)
        ensures
            r == self.prepares(),
    {
        match *self {
            Op::AddressDevice { slot, .. } => Some(Endpoint::Control { slot }),
            Op::ConfigureBulk { slot, dci, .. } => Some(Endpoint::Bulk { slot, dci }),
            _ => None,
        }
    }

    /// What the event that ends the operation says of it: a port's slot, whatever else the
    /// event says; for a command, whether it completed; for a transfer, whether it went
    /// well.
    pub open spec fn outcome(self, event: GenericTrbEntry) -> Result<u8, &'static str> {
        match self {
            Op::InitPort { port } => Ok(event.slot() as u8),
            Op::AddressDevice { port, slot } => match event.command_outcome() {
                Ok(_) => Ok(0),
                Err(e) => Err(e),
            },
            Op::ConfigureBulk { slot, ep, dci } => match event.command_outcome() {
                Ok(_) => Ok(0),
                Err(e) => Err(e),
            },
            _ => match event.transfer_outcome() {
                Ok(_) => Ok(0),
                Err(e) => Err(e),
            },
        }
    }

    /// What the event that ends the operation says of it.
    pub fn settle(&self, event: &GenericTrbEntry) -> (r: Result<u8, &'static str>)
        ensures
            r == self.outcome(*event),
    {
        match *self {
            Op::InitPort { .. } => Ok(event.slot_id()),
            Op::AddressDevice { .. } | Op::ConfigureBulk { .. } => {
                event.cmd_result_ok()?;
                Ok(0)
            },
            _ => {
                event.transfer_result_ok()?;
                Ok(0)
            },
        }
    }
}

/// How an operation ended: the slot where one was asked for (zero else), and the bytes that
/// came, or why it failed.
#[derive(Debug, Copy, Clone)]
pub struct Reply<'a> {
    pub result: Result<u8, &'static str>,
    pub data: &'a [u8],
}

impl<'a> Reply<'a> {
    /// A reply to `op`: where it went well, it has the bytes that were asked for.
    pub open spec fn answers(self, op: Op) -> bool {
        self.result is Ok ==> self.data@.len() == op.brings()
    }
}

/// A command receives as much data as its own wrapper announces: the length at byte 8 of the
/// wrapper is the length of what is received, and for a READ(10) that is 512 bytes for each
/// sector.
pub proof fn law_data_is_what_the_wrapper_announces(command: ScsiCommand)
    ensures
        command.wrapper().len() == 31,
        crate::bytes::le32(command.wrapper(), 8) == command.data_size(),
        command.wrapper()[12] == 0x80,
        command matches ScsiCommand::Read10 { lba, transfer_length } ==> command.data_size()
            == 512 * transfer_length && command.wrapper()[15] == 0x28 && crate::bytes::be32(
            command.wrapper(),
            17,
        ) == lba && 0x100 * command.wrapper()[22] + command.wrapper()[23] == transfer_length,
        command is Inquiry ==> command.data_size() == 36 && command.wrapper()[15] == 0x12
            && command.wrapper()[19] == 36,
{
    match command {
        ScsiCommand::Inquiry => {
            crate::scsi::law_inquiry_fields(0);
        },
        ScsiCommand::Read10 { lba, transfer_length } => {
            crate::scsi::law_read_10_fields(lba, transfer_length);
        },
    }
}

/// An operation on a device goes to that device: requests to its control endpoint, which has the
/// index one, bulk transfers to the endpoint that they name; the others are no transfers. Only
/// descriptors and bulk transfers towards the host bring bytes, as many as they say, and only
/// bulk transfers towards the device send any.
pub proof fn law_operations_go_where_they_say(op: Op, slot: u8, dci: usize, len: usize)
    ensures
        (op matches Op::Descriptor { slot: s, len: n, .. } && s == slot && n == len) ==> {
            &&& op.target() matches Some(e) && e.slot() == slot && e.dci() == 1
            &&& op.brings() == len && op.sends().len() == 0
        },
        (op matches Op::SetConfig { slot: s, .. } && s == slot) || (op matches Op::StorageReset {
            slot: s,
        } && s == slot) || (op matches Op::ClearHalt { slot: s, .. } && s == slot) ==> {
            &&& op.target() matches Some(e) && e.slot() == slot && e.dci() == 1
            &&& op.brings() == 0 && op.sends().len() == 0
        },
        (op matches Op::BulkIn { slot: s, dci: d, len: n } && s == slot && d == dci && n == len)
            ==> {
            &&& op.target() matches Some(Endpoint::Bulk { slot: s, dci: d }) && s == slot && d == dci
            &&& op.brings() == len && op.sends().len() == 0
        },
        (op matches Op::BulkOut { slot: s, dci: d, .. } && s == slot && d == dci) ==> {
            &&& op.target() matches Some(Endpoint::Bulk { slot: s, dci: d }) && s == slot && d == dci
            &&& op.brings() == 0 && op.sends().len() == 31
        },
        op is InitPort || op is AddressDevice || op is ConfigureBulk || op is Done ==> op.target()
            is None && op.brings() == 0 && op.sends().len() == 0,
{
    if let Op::BulkOut { slot: s, dci: d, command } = op {
        law_data_is_what_the_wrapper_announces(command);
    }
}

/// What an event says of an operation: of a port its slot, the highest byte of the control word,
/// whatever else the event says; of a command whether it completed with the code one; of a
/// transfer whether it ended with the code one or thirteen.
pub proof fn law_events_settle_operations(op: Op, event: GenericTrbEntry)
    ensures
        ({
            let kind = event.control as int / 0x400 % 0x40;
            let code = event.option as int / 0x100_0000;
            let command = op is AddressDevice || op is ConfigureBulk;
            &&& op is InitPort ==> (op.outcome(event) matches Ok(slot) && slot
                == event.control as int / 0x100_0000)
            &&& command ==> (op.outcome(event) is Ok <==> kind == 33 && code == 1)
            &&& !command && !(op is InitPort) ==> (op.outcome(event) is Ok <==> kind == 32 && (code
                == 1 || code == 13))
            &&& op.outcome(event) matches Err(e) ==> (command ==> event.command_outcome() == Err::<
                (),
                &'static str,
            >(e)) && (!command ==> event.transfer_outcome() == Err::<(), &'static str>(e))
        }),
{
}

/// Addressing a device sets up its control endpoint, configuring an endpoint sets up that one,
/// and nothing else sets one up.
pub proof fn law_what_is_set_up(op: Op)
    ensures
        op matches Op::AddressDevice { port, slot } ==> op.prepares() == Some(
            Endpoint::Control { slot },
        ),
        op matches Op::ConfigureBulk { slot, ep, dci } ==> op.prepares() == Some(
            Endpoint::Bulk { slot, dci },
        ),
        op.prepares() is Some ==> op is AddressDevice || op is ConfigureBulk,
{
}

} // verus!
