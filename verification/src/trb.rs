//! A transfer request block for sending alone.
use crate::xhci::entry::GenericTrbEntry;
use crate::xhci::entry::TrbType;
use crate::xhci::stages::DmaBuffer;
use vstd::prelude::*;

verus! {

/// A transfer from memory to a device that says when it is complete.
#[derive(Debug, Copy, Clone, PartialEq, Eq, Structural)]
pub struct NormalTrb {
    pub data_buffer_pointer: u64,
    pub trb_transfer_length: u32,
    pub control: u32,
}

impl NormalTrb {
    /// A transfer from `buf` to the device.
    pub fn new_out(buf: DmaBuffer) -> (r: Self)
        ensures
            r == (NormalTrb {
                data_buffer_pointer: buf.addr,
                trb_transfer_length: buf.len32(),
                control: 0x420,
            }),
            (buf.len - r.trb_transfer_length) % 0x1_0000_0000 == 0,
            r.control as int / 0x400 == 1,
            r.control as int % 0x400 == 0x20,
    {
        proof {
            assert((1u32 << 10) | 0x20 == 0x420) by (bit_vector);
        }
        NormalTrb {
            data_buffer_pointer: buf.addr,
            trb_transfer_length: (buf.len % 0x1_0000_0000) as u32,
            control: (TrbType::Normal.number() << 10)
                | GenericTrbEntry::CTRL_BIT_INTERRUPT_ON_COMPLETION,
        }
    }
}

impl From<NormalTrb> for GenericTrbEntry {
    fn from(trb: NormalTrb) -> (r: GenericTrbEntry) {
        GenericTrbEntry {
            data: trb.data_buffer_pointer,
            option: trb.trb_transfer_length,
            control: trb.control,
        }
    }
}

impl vstd::std_specs::convert::FromSpecImpl<NormalTrb> for GenericTrbEntry {
    open spec fn obeys_from_spec() -> bool {
        true
    }

    open spec fn from_spec(trb: NormalTrb) -> GenericTrbEntry {
        GenericTrbEntry {
            data: trb.data_buffer_pointer,
            option: trb.trb_transfer_length,
            control: trb.control,
        }
    }
}

/// The block that goes onto a ring says what the transfer says: where the bytes are, how many they
/// are, and what is to be done with them.
pub proof fn law_block_of_a_transfer(trb: NormalTrb)
    ensures
        ({
            let block = <GenericTrbEntry as vstd::std_specs::convert::FromSpec<NormalTrb>>::from_spec(
                trb,
            );
            &&& block.data == trb.data_buffer_pointer
            &&& block.option == trb.trb_transfer_length
            &&& block.control == trb.control
        }),
{
}

} // verus!
