//! The transfer request blocks that make up control and bulk transfers.
use crate::xhci::entry::GenericTrbEntry;
use crate::xhci::entry::TrbType;
use vstd::prelude::*;

verus! {

/// Memory that a device reads from or writes to: where it lies and how many bytes it has.
#[derive(Debug, Copy, Clone, PartialEq, Eq, Structural)]
pub struct DmaBuffer {
    pub addr: u64,
    pub len: u64,
}

impl DmaBuffer {
    /// The length as a transfer block's 32-bit field holds it.
    pub open spec fn len32(self) -> u32 {
        (self.len % 0x1_0000_0000) as u32
    }

    /// The length as a request's 16-bit field holds it.
    pub open spec fn len16(self) -> u16 {
        (self.len % 0x1_0000) as u16
    }
}

/// The first block of a control transfer: the request itself.
#[derive(Debug, Copy, Clone, PartialEq, Eq, Structural)]
pub struct SetupStageTrb {
    pub request_type: u8,
    pub request: u8,
    pub value: u16,
    pub index: u16,
    pub length: u16,
    pub option: u32,
    pub control: u32,
}

impl SetupStageTrb {
    pub const REQ_TYPE_DIR_DEVICE_TO_HOST: u8 = 0x80;

    pub const REQ_TYPE_DIR_HOST_TO_DEVICE: u8 = 0;

    pub const REQ_TYPE_TYPE_CLASS: u8 = 0x20;

    pub const REQ_TYPE_TYPE_VENDOR: u8 = 0x40;

    pub const REQ_TYPE_TO_DEVICE: u8 = 0;

    pub const REQ_TYPE_TO_INTERFACE: u8 = 1;

    pub const REQ_TYPE_TO_ENDPOINT: u8 = 2;

    pub const REQ_GET_REPORT: u8 = 1;

    pub const REQ_CLEAR_FEATURE: u8 = 1;

    pub const REQ_SET_FEATURE: u8 = 3;

    pub const REQ_GET_DESCRIPTOR: u8 = 6;

    pub const REQ_SET_CONFIGURATION: u8 = 9;

    pub const REQ_SET_INTERFACE: u8 = 11;

    pub const REQ_SET_PROTOCOL: u8 = 0x0b;

    pub const TRT_NO_DATA_STAGE: u32 = 0;

    pub const TRT_OUT_DATA_STAGE: u32 = 2;

    pub const TRT_IN_DATA_STAGE: u32 = 3;

    /// The transfer type that the block names: none for a request without data, else by
    /// the top bit of the request number.
    pub open spec fn transfer_type(request: u8, length: u16) -> u32 {
        if length == 0 {
            Self::TRT_NO_DATA_STAGE
        } else if request >= 0x80 {
            Self::TRT_IN_DATA_STAGE
        } else {
            Self::TRT_OUT_DATA_STAGE
        }
    }

    /// The block for a request: its five fields, the eight bytes of immediate data that
    /// they make up, and the control word.
    pub open spec fn request(
        request_type: u8,
        request: u8,
        value: u16,
        index: u16,
        length: u16,
    ) -> Self {
        SetupStageTrb {
            request_type,
            request,
            value,
            index,
            length,
            option: 8,
            control: (Self::transfer_type(request, length) * 0x1_0000 + 0x840) as u32,
        }
    }

    /// The block for a request.
    pub fn new(request_type: u8, request: u8, value: u16, index: u16, length: u16) -> (r: Self)
        ensures
            r == Self::request(request_type, request, value, index, length),
    {
        proof {
            assert(request & 0x80 != 0 <==> request >= 0x80) by (bit_vector);
            assert(forall|t: u32|
                t < 4 ==> (#[trigger] (t << 16) | (2u32 << 10) | 0x40) == t * 0x1_0000 + 0x840)
                by (bit_vector);
        }
        let transfer_type: u32 = if length == 0 {
            Self::TRT_NO_DATA_STAGE
        } else if request & Self::REQ_TYPE_DIR_DEVICE_TO_HOST != 0 {
            Self::TRT_IN_DATA_STAGE
        } else {
            Self::TRT_OUT_DATA_STAGE
        };
        SetupStageTrb {
            request_type,
            request,
            value,
            index,
            length,
            option: 8,
            control: (transfer_type << 16) | (TrbType::SetupStage.number() << 10)
                | GenericTrbEntry::CTRL_BIT_IMMEDIATE_DATA,
        }
    }
}

/// The second block of a control transfer: the buffer for its data.
#[derive(Debug, Copy, Clone, PartialEq, Eq, Structural)]
pub struct DataStageTrb {
    pub buf: u64,
    pub option: u32,
    pub control: u32,
}

impl DataStageTrb {
    /// A data stage from the device to `buf`.
    pub fn new_in(buf: DmaBuffer) -> (r: Self)
        ensures
            r == (DataStageTrb { buf: buf.addr, option: buf.len32(), control: 0x1_0c24 }),
            r.control as int / 0x400 % 0x40 == 3,
            r.control as int / 0x1_0000 == 1,
            r.control as int % 0x400 == 0x24,
    {
        proof {
            assert((3u32 << 10) | 0x1_0000 | 0x20 | 0x4 == 0x1_0c24) by (bit_vector);
        }
        DataStageTrb {
            buf: buf.addr,
            option: (buf.len % 0x1_0000_0000) as u32,
            control: (TrbType::DataStage.number() << 10) | GenericTrbEntry::CTRL_BIT_DATA_DIR_IN
                | GenericTrbEntry::CTRL_BIT_INTERRUPT_ON_COMPLETION
                | GenericTrbEntry::CTRL_BIT_INTERRUPT_ON_SHORT_PACKET,
        }
    }

    /// A data stage from `buf` to the device.
    pub fn new_out(buf: DmaBuffer) -> (r: Self)
        ensures
            r == (DataStageTrb { buf: buf.addr, option: buf.len32(), control: 0xc24 }),
            (buf.len - r.option) % 0x1_0000_0000 == 0,
            r.control as int / 0x400 % 0x40 == 3,
            r.control as int / 0x1_0000 == 0,
            r.control as int % 0x400 == 0x24,
    {
        proof {
            assert((3u32 << 10) | 0 | 0x20 | 0x4 == 0xc24) by (bit_vector);
        }
        DataStageTrb {
            buf: buf.addr,
            option: (buf.len % 0x1_0000_0000) as u32,
            control: (TrbType::DataStage.number() << 10) | GenericTrbEntry::CTRL_BIT_DATA_DIR_OUT
                | GenericTrbEntry::CTRL_BIT_INTERRUPT_ON_COMPLETION
                | GenericTrbEntry::CTRL_BIT_INTERRUPT_ON_SHORT_PACKET,
        }
    }
}

/// The last block of a control transfer: the handshake.
#[derive(Debug, Copy, Clone, PartialEq, Eq, Structural)]
pub struct StatusStageTrb {
    pub reserved: u64,
    pub option: u32,
    pub control: u32,
}

impl StatusStageTrb {
    /// A handshake from the host, after data that came in.
    pub fn new_out() -> (r: Self)
        ensures
            r == (StatusStageTrb { reserved: 0, option: 0, control: 0x1000 }),
    {
        proof {
            assert(4u32 << 10 == 0x1000) by (bit_vector);
        }
        StatusStageTrb { reserved: 0, option: 0, control: TrbType::StatusStage.number() << 10 }
    }

    /// A handshake from the device, after data that went out or none at all.
    pub fn new_in() -> (r: Self)
        ensures
            r == (StatusStageTrb { reserved: 0, option: 0, control: 0x1_1024 }),
    {
        proof {
            assert((4u32 << 10) | 0x1_0000 | 0x20 | 0x4 == 0x1_1024) by (bit_vector);
        }
        StatusStageTrb {
            reserved: 0,
            option: 0,
            control: (TrbType::StatusStage.number() << 10) | GenericTrbEntry::CTRL_BIT_DATA_DIR_IN
                | GenericTrbEntry::CTRL_BIT_INTERRUPT_ON_COMPLETION
                | GenericTrbEntry::CTRL_BIT_INTERRUPT_ON_SHORT_PACKET,
        }
    }
}

/// The block of a bulk transfer.
#[derive(Debug, Copy, Clone, PartialEq, Eq, Structural)]
pub struct NormalTrb {
    pub buf: u64,
    pub option: u32,
    pub control: u32,
}

impl NormalTrb {
    /// A bulk transfer from the device to `buf`.
    pub fn new_in(buf: DmaBuffer) -> (r: Self)
        ensures
            r == (NormalTrb { buf: buf.addr, option: buf.len32(), control: 0x1_0424 }),
    {
        proof {
            assert((1u32 << 10) | 0x1_0000 | 0x20 | 0x4 == 0x1_0424) by (bit_vector);
        }
        NormalTrb {
            buf: buf.addr,
            option: (buf.len % 0x1_0000_0000) as u32,
            control: (TrbType::Normal.number() << 10) | GenericTrbEntry::CTRL_BIT_DATA_DIR_IN
                | GenericTrbEntry::CTRL_BIT_INTERRUPT_ON_COMPLETION
                | GenericTrbEntry::CTRL_BIT_INTERRUPT_ON_SHORT_PACKET,
        }
    }

    /// A bulk transfer from `buf` to the device.
    pub fn new_out(buf: DmaBuffer) -> (r: Self)
        ensures
            r == (NormalTrb { buf: buf.addr, option: buf.len32(), control: 0x424 }),
    {
        proof {
            assert((1u32 << 10) | 0x4 | 0x20 | 0 == 0x424) by (bit_vector);
        }
        NormalTrb {
            buf: buf.addr,
            option: (buf.len % 0x1_0000_0000) as u32,
            control: (TrbType::Normal.number() << 10)
                | GenericTrbEntry::CTRL_BIT_INTERRUPT_ON_SHORT_PACKET
                | GenericTrbEntry::CTRL_BIT_INTERRUPT_ON_COMPLETION
                | GenericTrbEntry::CTRL_BIT_DATA_DIR_OUT,
        }
    }
}

/// The eight bytes of a request as one number, the request type in the lowest byte.
pub open spec fn setup_data(trb: SetupStageTrb) -> u64 {
    (trb.request_type + 0x100 * trb.request + 0x1_0000 * trb.value + 0x1_0000_0000 * trb.index
        + 0x1_0000_0000_0000 * trb.length) as u64
}

/// The block of a request.
pub open spec fn setup_trb(
    request_type: u8,
    request: u8,
    value: u16,
    index: u16,
    length: u16,
) -> GenericTrbEntry {
    let trb = SetupStageTrb::request(request_type, request, value, index, length);
    GenericTrbEntry { data: setup_data(trb), option: trb.option, control: trb.control }
}

/// The block of a data stage from the device to `buf`.
pub open spec fn data_in_trb(buf: DmaBuffer) -> GenericTrbEntry {
    GenericTrbEntry { data: buf.addr, option: buf.len32(), control: 0x1_0c24 }
}

/// The block of a handshake from the host.
pub open spec fn status_out_trb() -> GenericTrbEntry {
    GenericTrbEntry { data: 0, option: 0, control: 0x1000 }
}

/// The block of a handshake from the device.
pub open spec fn status_in_trb() -> GenericTrbEntry {
    GenericTrbEntry { data: 0, option: 0, control: 0x1_1024 }
}

/// The block of a bulk transfer from the device to `buf`.
pub open spec fn normal_in_trb(buf: DmaBuffer) -> GenericTrbEntry {
    GenericTrbEntry { data: buf.addr, option: buf.len32(), control: 0x1_0424 }
}

/// The block of a bulk transfer from `buf` to the device.
pub open spec fn normal_out_trb(buf: DmaBuffer) -> GenericTrbEntry {
    GenericTrbEntry { data: buf.addr, option: buf.len32(), control: 0x424 }
}

impl From<SetupStageTrb> for GenericTrbEntry {
    fn from(trb: SetupStageTrb) -> (r: GenericTrbEntry) {
        GenericTrbEntry {
            data: trb.request_type as u64 + 0x100 * trb.request as u64 + 0x1_0000 * trb.value as u64
                + 0x1_0000_0000 * trb.index as u64 + 0x1_0000_0000_0000 * trb.length as u64,
            option: trb.option,
            control: trb.control,
        }
    }
}

impl vstd::std_specs::convert::FromSpecImpl<SetupStageTrb> for GenericTrbEntry {
    open spec fn obeys_from_spec() -> bool {
        true
    }

    open spec fn from_spec(trb: SetupStageTrb) -> GenericTrbEntry {
        GenericTrbEntry { data: setup_data(trb), option: trb.option, control: trb.control }
    }
}

impl From<DataStageTrb> for GenericTrbEntry {
    fn from(trb: DataStageTrb) -> (r: GenericTrbEntry) {
        GenericTrbEntry { data: trb.buf, option: trb.option, control: trb.control }
    }
}

impl vstd::std_specs::convert::FromSpecImpl<DataStageTrb> for GenericTrbEntry {
    open spec fn obeys_from_spec() -> bool {
        true
    }

    open spec fn from_spec(trb: DataStageTrb) -> GenericTrbEntry {
        GenericTrbEntry { data: trb.buf, option: trb.option, control: trb.control }
    }
}

impl From<StatusStageTrb> for GenericTrbEntry {
    fn from(trb: StatusStageTrb) -> (r: GenericTrbEntry) {
        GenericTrbEntry { data: trb.reserved, option: trb.option, control: trb.control }
    }
}

impl vstd::std_specs::convert::FromSpecImpl<StatusStageTrb> for GenericTrbEntry {
    open spec fn obeys_from_spec() -> bool {
        true
    }

    open spec fn from_spec(trb: StatusStageTrb) -> GenericTrbEntry {
        GenericTrbEntry { data: trb.reserved, option: trb.option, control: trb.control }
    }
}

impl From<NormalTrb> for GenericTrbEntry {
    fn from(trb: NormalTrb) -> (r: GenericTrbEntry) {
        GenericTrbEntry { data: trb.buf, option: trb.option, control: trb.control }
    }
}

impl vstd::std_specs::convert::FromSpecImpl<NormalTrb> for GenericTrbEntry {
    open spec fn obeys_from_spec() -> bool {
        true
    }

    open spec fn from_spec(trb: NormalTrb) -> GenericTrbEntry {
        GenericTrbEntry { data: trb.buf, option: trb.option, control: trb.control }
    }
}

/// The blocks of transfers say what they are; none is a link, so rings take them all, and
/// none comes with the cycle bit set.
pub proof fn law_stages_say_what_they_are(
    request_type: u8,
    request: u8,
    value: u16,
    index: u16,
    length: u16,
    buf: DmaBuffer,
)
    ensures
        ({
            let setup = setup_trb(request_type, request, value, index, length);
            setup.type_code() == TrbType::SetupStage.code() && !setup.cycle()
        }),
        data_in_trb(buf).type_code() == TrbType::DataStage.code() && !data_in_trb(buf).cycle(),
        status_out_trb().type_code() == TrbType::StatusStage.code() && !status_out_trb().cycle(),
        status_in_trb().type_code() == TrbType::StatusStage.code() && !status_in_trb().cycle(),
        normal_in_trb(buf).type_code() == TrbType::Normal.code() && !normal_in_trb(buf).cycle(),
        normal_out_trb(buf).type_code() == TrbType::Normal.code() && !normal_out_trb(buf).cycle(),
{
}

/// A buffer's length as a field holds it differs from the length by a multiple of what the
/// field can hold; a length that fits is held as it is.
pub proof fn law_buffer_lengths(buf: DmaBuffer)
    ensures
        (buf.len - buf.len32()) % 0x1_0000_0000 == 0,
        buf.len <= u32::MAX ==> buf.len32() == buf.len,
        (buf.len - buf.len16()) % 0x1_0000 == 0,
        buf.len <= u16::MAX ==> buf.len16() == buf.len,
{
}

/// The eight bytes of a request lie in a block as they travel: request type, request, value,
/// index and length, each least significant byte first; and the block says that eight bytes
/// are in it.
pub proof fn law_request_bytes(
    request_type: u8,
    request: u8,
    value: u16,
    index: u16,
    length: u16,
)
    ensures
        ({
            let trb = setup_trb(request_type, request, value, index, length);
            let data = trb.data as int;
            &&& data % 0x100 == request_type
            &&& data / 0x100 % 0x100 == request
            &&& data / 0x1_0000 % 0x1_0000 == value
            &&& data / 0x1_0000_0000 % 0x1_0000 == index
            &&& data / 0x1_0000_0000_0000 == length
            &&& trb.option == 8
            &&& trb.type_code() == 2
            &&& trb.control as int / 0x40 % 2 == 1
        }),
{
    let trb = setup_trb(request_type, request, value, index, length);
    let data = trb.data as int;
    let low = request_type + 0x100 * request;
    let mid = low + 0x1_0000 * value;
    let high = mid + 0x1_0000_0000 * index;
    assert(0 <= low < 0x1_0000 && 0 <= mid < 0x1_0000_0000 && 0 <= high < 0x1_0000_0000_0000);
    assert(data == high + 0x1_0000_0000_0000 * length);
    assert(data / 0x1_0000_0000_0000 == length);
    assert(data / 0x1_0000_0000 == index + 0x1_0000 * length);
    assert(data / 0x1_0000 == value + 0x1_0000 * (index + 0x1_0000 * length));
    assert(data / 0x100 == request + 0x100 * (value + 0x1_0000 * (index + 0x1_0000 * length)));
}

/// A request without data has no data stage. Of the others those with the top bit of the
/// request number set have one towards the host, the rest one towards the device.
pub proof fn law_request_direction(
    request_type: u8,
    request: u8,
    value: u16,
    index: u16,
    length: u16,
)
    ensures
        ({
            let kind = setup_trb(request_type, request, value, index, length).control as int
                / 0x1_0000;
            &&& length == 0 <==> kind == 0
            &&& length > 0 && request >= 0x80 <==> kind == 3
            &&& length > 0 && request < 0x80 <==> kind == 2
        }),
{
}

/// The blocks that move bytes say where the buffer is and how long it is, ask for an event at
/// the end and at a short packet, and say in bit 16 whether the bytes go towards the host.
pub proof fn law_blocks_that_move_bytes(buf: DmaBuffer)
    ensures
        forall|trb: GenericTrbEntry|
            trb == data_in_trb(buf) || trb == normal_in_trb(buf) || trb == normal_out_trb(buf)
                ==> #[trigger] trb.data == buf.addr && (buf.len - trb.option) % 0x1_0000_0000 == 0
                && trb.control as int / 0x20 % 2 == 1 && trb.control as int / 4 % 2 == 1,
        data_in_trb(buf).control as int / 0x1_0000 == 1,
        normal_in_trb(buf).control as int / 0x1_0000 == 1,
        normal_out_trb(buf).control as int / 0x1_0000 == 0,
        status_in_trb().control as int / 0x1_0000 == 1,
        status_in_trb().control as int / 0x20 % 2 == 1,
        status_out_trb().control as int / 0x1_0000 == 0,
{
}

/// The blocks that go onto a ring say what the stages say: the first eight bytes are the request
/// or the buffer's address, and the two words follow.
pub proof fn law_blocks_of_stages(
    setup: SetupStageTrb,
    data: DataStageTrb,
    status: StatusStageTrb,
    normal: NormalTrb,
)
    ensures
        ({
            let block = <GenericTrbEntry as vstd::std_specs::convert::FromSpec<
                SetupStageTrb,
            >>::from_spec(setup);
            &&& block.data == setup.request_type + 0x100 * setup.request + 0x1_0000 * setup.value
                + 0x1_0000_0000 * setup.index + 0x1_0000_0000_0000 * setup.length
            &&& block.option == setup.option
            &&& block.control == setup.control
        }),
        ({
            let block = <GenericTrbEntry as vstd::std_specs::convert::FromSpec<
                DataStageTrb,
            >>::from_spec(data);
            &&& block.data == data.buf
            &&& block.option == data.option
            &&& block.control == data.control
        }),
        ({
            let block = <GenericTrbEntry as vstd::std_specs::convert::FromSpec<
                StatusStageTrb,
            >>::from_spec(status);
            &&& block.data == status.reserved
            &&& block.option == status.option
            &&& block.control == status.control
        }),
        ({
            let block = <GenericTrbEntry as vstd::std_specs::convert::FromSpec<
                NormalTrb,
            >>::from_spec(normal);
            &&& block.data == normal.buf
            &&& block.option == normal.option
            &&& block.control == normal.control
        }),
{
}

} // verus!
