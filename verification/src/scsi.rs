//! SCSI commands over bulk-only transport.
use crate::bytes::read_be32;
use crate::bytes::read_le32;
use crate::cbw::CommandBlockWrapper;
use vstd::prelude::*;

verus! {

/// How many bytes a command status wrapper has.
pub const CSW_SIZE: usize = 13;

/// The letters USBS.
pub const CSW_SIGNATURE: u32 = 0x5342_5355;

/// How many bytes an INQUIRY asks for.
pub const INQUIRY_SIZE: usize = 36;

/// The bytes of the wrapper that asks a unit what it is.
pub open spec fn inquiry_bytes() -> Seq<u8> {
    crate::bytes::le32_bytes(0x4342_5355) + crate::bytes::le32_bytes(1) + crate::bytes::le32_bytes(
        36,
    ) + seq![0x80u8, 0u8, 6u8] + seq![
        0x12u8,
        0u8,
        0u8,
        0u8,
        36u8,
        0u8,
        0u8,
        0u8,
        0u8,
        0u8,
        0u8,
        0u8,
        0u8,
        0u8,
        0u8,
        0u8,
    ]
}

/// The wrapper that asks a unit what it is.
pub fn inquiry_cbw() -> (r: Vec<u8>)
    ensures
        r@ == inquiry_bytes(),
        r@.len() == 31,
{
    let mut cbw = CommandBlockWrapper {
        signature: CommandBlockWrapper::SIGNATURE,
        tag: 1,
        data_transfer_length: 36,
        flags: CommandBlockWrapper::FLAG_DATA_IN,
        lun: 0,
        cb_length: 6,
        command_block: [0; 16],
    };
    cbw.command_block[0] = 0x12;
    cbw.command_block[4] = 36;
    let r = cbw.to_bytes();
    assert(r@ =~= inquiry_bytes());
    r
}

/// The bytes of the wrapper that reads `transfer_length` sectors from sector `lba` on.
pub open spec fn read_10_bytes(lba: u32, transfer_length: u16) -> Seq<u8> {
    crate::bytes::le32_bytes(0x4342_5355) + crate::bytes::le32_bytes(3) + crate::bytes::le32_bytes(
        (transfer_length * 512) as u32,
    ) + seq![0x80u8, 0u8, 10u8] + CommandBlockWrapper::read_10_block(lba, transfer_length)
}

/// The wrapper that reads `transfer_length` sectors from sector `lba` on.
pub fn read_10_cbw(lba: u32, transfer_length: u16) -> (r: Vec<u8>)
    ensures
        r@ == read_10_bytes(lba, transfer_length),
        r@.len() == 31,
{
    CommandBlockWrapper::new_read_10(lba, transfer_length, 3).to_bytes()
}

/// Where the fields of a READ(10) lie, as the device finds them: the signature and the
/// transfer length in bytes little-endian, the sector and the number of sectors
/// big-endian.
pub proof fn law_read_10_fields(lba: u32, transfer_length: u16)
    ensures
        read_10_bytes(lba, transfer_length).len() == 31,
        crate::bytes::le32(read_10_bytes(lba, transfer_length), 0) == 0x4342_5355,
        crate::bytes::le32(read_10_bytes(lba, transfer_length), 4) == 3,
        crate::bytes::le32(read_10_bytes(lba, transfer_length), 8) == 512 * transfer_length,
        read_10_bytes(lba, transfer_length)[12] == 0x80,
        read_10_bytes(lba, transfer_length)[14] == 10,
        read_10_bytes(lba, transfer_length)[15] == 0x28,
        crate::bytes::be32(read_10_bytes(lba, transfer_length), 17) == lba,
        0x100 * read_10_bytes(lba, transfer_length)[22] + read_10_bytes(lba, transfer_length)[23]
            == transfer_length,
{
    let s = read_10_bytes(lba, transfer_length);
    let bytes = (transfer_length * 512) as u32;
    assert(s.subrange(0, 4) =~= crate::bytes::le32_bytes(0x4342_5355));
    assert(s.subrange(4, 8) =~= crate::bytes::le32_bytes(3));
    assert(s.subrange(8, 12) =~= crate::bytes::le32_bytes(bytes));
    assert(s.subrange(17, 21) =~= crate::bytes::be32_bytes(lba));
    assert(s.subrange(22, 24) =~= crate::bytes::be16_bytes(transfer_length));
    crate::bytes::law_le32_round_trip(0x4342_5355);
    crate::bytes::law_le32_round_trip(3);
    crate::bytes::law_le32_round_trip(bytes);
    crate::bytes::law_be32_round_trip(lba);
    lemma_le32_in(s, 0);
    lemma_le32_in(s, 4);
    lemma_le32_in(s, 8);
    lemma_be32_in(s, 17);
    assert(s[22] == s.subrange(22, 24)[0] && s[23] == s.subrange(22, 24)[1]);
}

/// An integer lies in the whole as it lies in its four bytes alone.
proof fn lemma_le32_in(s: Seq<u8>, i: int)
    requires
        0 <= i,
        i + 4 <= s.len(),
    ensures
        crate::bytes::le32(s, i) == crate::bytes::le32(s.subrange(i, i + 4), 0),
{
}

/// An integer lies in the whole as it lies in its four bytes alone.
proof fn lemma_be32_in(s: Seq<u8>, i: int)
    requires
        0 <= i,
        i + 4 <= s.len(),
    ensures
        crate::bytes::be32(s, i) == crate::bytes::be32(s.subrange(i, i + 4), 0),
{
}

/// What a command status wrapper says of its command.
pub open spec fn csw_outcome(csw: Seq<u8>) -> Result<(), &'static str> {
    if crate::bytes::le32(csw, 0) != CSW_SIGNATURE {
        Err("Invalid CSW signature")
    } else if csw[12] != 0 {
        Err("SCSI command failed")
    } else {
        Ok(())
    }
}

/// Whether a command status wrapper reports success.
pub fn check_csw(csw: &[u8]) -> (r: Result<(), &'static str>)
    requires
        csw@.len() >= 13,
    ensures
        r == csw_outcome(csw@),
{
    let csw_signature: u32 = read_le32(csw, 0);
    let csw_status: u8 = csw[12];
    if csw_signature != CSW_SIGNATURE {
        return Err("Invalid CSW signature");
    }
    if csw_status != 0 {
        return Err("SCSI command failed");
    }
    Ok(())
}

/// The last sector and the sector size from the answer to READ CAPACITY(10).
pub fn parse_read_capacity_response(data: &[u8]) -> (r: Result<(u32, u32), &'static str>)
    ensures
        r == (if data@.len() >= 8 {
            Ok::<(u32, u32), &'static str>(
                (crate::bytes::be32(data@, 0) as u32, crate::bytes::be32(data@, 4) as u32),
            )
        } else {
            Err("READ CAPACITY response too short")
        }),
        r matches Ok(found) ==> found == capacity(data@),
{
    if data.len() < 8 {
        return Err("READ CAPACITY response too short");
    }
    let last_lba: u32 = read_be32(data, 0);
    let block_size: u32 = read_be32(data, 4);
    Ok((last_lba, block_size))
}

/// The number of sectors and the size in MiB of a unit with the last sector `last_lba` and
/// sectors of `block_size` bytes.
pub open spec fn totals(last_lba: u32, block_size: u32) -> (int, int) {
    (last_lba + 1, (last_lba + 1) * block_size / 0x10_0000)
}

/// The last sector and the sector size that an answer to READ CAPACITY(10) says.
pub open spec fn capacity(data: Seq<u8>) -> (u32, u32) {
    (crate::bytes::be32(data, 0) as u32, crate::bytes::be32(data, 4) as u32)
}

/// The answer to READ CAPACITY(10) is two integers, most significant byte first: the last
/// sector, then the sector size.
pub proof fn law_capacity_fields(data: Seq<u8>)
    ensures
        capacity(data).0 == 0x100_0000 * data[0] + 0x1_0000 * data[1] + 0x100 * data[2] + data[3],
        capacity(data).1 == 0x100_0000 * data[4] + 0x1_0000 * data[5] + 0x100 * data[6] + data[7],
{
}

/// Sectors are counted from zero, so there is one more than the number of the last; and the
/// size is the whole number of MiB that they fill.
pub proof fn law_capacity_totals(last_lba: u32, block_size: u32)
    ensures
        totals(last_lba, block_size).0 - last_lba == 1,
        totals(last_lba, block_size).1 * 0x10_0000 <= (last_lba + 1) * block_size,
        (last_lba + 1) * block_size < (totals(last_lba, block_size).1 + 1) * 0x10_0000,
{
}

/// The number of sectors and the size in MiB, rounded down, of a unit with the last sector
/// `last_lba` and sectors of `block_size` bytes.
pub fn capacity_totals(last_lba: u32, block_size: u32) -> (r: (u32, u64))
    requires
        last_lba < u32::MAX,
    ensures
        r.0 == totals(last_lba, block_size).0,
        r.1 == totals(last_lba, block_size).1,
        r.0 == last_lba + 1,
        r.1 == (last_lba + 1) * block_size / 0x10_0000,
{
    let total_blocks: u32 = last_lba + 1;
    assert(0 <= total_blocks * block_size <= 0xffff_ffff * 0xffff_ffff) by (nonlinear_arith)
        requires
            0 <= total_blocks <= 0xffff_ffff,
            0 <= block_size <= 0xffff_ffff,
    ;
    let total_size_mb: u64 = (total_blocks as u64 * block_size as u64) / (1024 * 1024);
    (total_blocks, total_size_mb)
}

/// The rest of a READ(10) is zero: the logical unit, the flags, the group, the control byte and
/// what the command does not use.
pub proof fn law_read_10_leaves_the_rest_zero(lba: u32, transfer_length: u16, i: int)
    requires
        i == 13 || i == 16 || i == 21 || 24 <= i < 31,
    ensures
        read_10_bytes(lba, transfer_length)[i] == 0,
{
}

/// What an INQUIRY says: the signature, its own tag, thirty-six bytes towards the host, a
/// command of six bytes with the operation code 0x12 that asks for thirty-six bytes, and
/// nothing else.
pub proof fn law_inquiry_fields(i: int)
    requires
        0 <= i < 31,
    ensures
        inquiry_bytes().len() == 31,
        crate::bytes::le32(inquiry_bytes(), 0) == 0x4342_5355,
        crate::bytes::le32(inquiry_bytes(), 4) == 1,
        crate::bytes::le32(inquiry_bytes(), 8) == 36,
        inquiry_bytes()[12] == 0x80,
        inquiry_bytes()[14] == 6,
        inquiry_bytes()[15] == 0x12,
        inquiry_bytes()[19] == 36,
        i == 13 || 16 <= i < 19 || i > 19 ==> inquiry_bytes()[i] == 0,
{
    let s = inquiry_bytes();
    assert(s.subrange(0, 4) =~= crate::bytes::le32_bytes(0x4342_5355));
    assert(s.subrange(4, 8) =~= crate::bytes::le32_bytes(1));
    assert(s.subrange(8, 12) =~= crate::bytes::le32_bytes(36));
    crate::bytes::law_le32_round_trip(0x4342_5355);
    crate::bytes::law_le32_round_trip(1);
    crate::bytes::law_le32_round_trip(36);
    lemma_le32_in(s, 0);
    lemma_le32_in(s, 4);
    lemma_le32_in(s, 8);
}

/// A status reports success if and only if it starts with the letters USBS and its last byte
/// is zero; a wrong start counts before a failure.
pub proof fn law_status_says_how_it_went(csw: Seq<u8>)
    ensures
        ({
            let signed = csw[0] == 0x55 && csw[1] == 0x53 && csw[2] == 0x42 && csw[3] == 0x53;
            &&& csw_outcome(csw) is Ok <==> signed && csw[12] == 0
            &&& !signed ==> csw_outcome(csw) == Err::<(), &'static str>("Invalid CSW signature")
            &&& signed && csw[12] != 0 ==> csw_outcome(csw) == Err::<(), &'static str>(
                "SCSI command failed",
            )
        }),
{
    crate::bytes::law_le_digits(csw, 0);
}

} // verus!
