//! Command block wrappers: how SCSI commands travel over bulk-only transport.
use crate::bytes::put_le32;
use vstd::prelude::*;

verus! {

/// A command block wrapper: a SCSI command and what the transport needs to know of it.
#[derive(Debug, Copy, Clone)]
pub struct CommandBlockWrapper {
    /// Always [`CommandBlockWrapper::SIGNATURE`].
    pub signature: u32,
    /// By which the command and its status belong together.
    pub tag: u32,
    /// How many bytes of data are to follow.
    pub data_transfer_length: u32,
    /// The direction of the data in bit 7: one towards the host.
    pub flags: u8,
    /// The logical unit.
    pub lun: u8,
    /// How many bytes of the command block count.
    pub cb_length: u8,
    /// The SCSI command.
    pub command_block: [u8; 16],
}

impl CommandBlockWrapper {
    /// The letters USBC.
    pub const SIGNATURE: u32 = 0x4342_5355;

    pub const FLAG_DATA_IN: u8 = 0x80;

    pub const FLAG_DATA_OUT: u8 = 0x00;

    /// The command block that reads `transfer_length` sectors from sector `lba` on.
    pub open spec fn read_10_block(lba: u32, transfer_length: u16) -> Seq<u8> {
        seq![0x28u8, 0u8] + crate::bytes::be32_bytes(lba) + seq![0u8] + crate::bytes::be16_bytes(
            transfer_length,
        ) + seq![0u8, 0u8, 0u8, 0u8, 0u8, 0u8, 0u8]
    }

    /// The thirty-one bytes of the wrapper, as they travel.
    pub open spec fn bytes(self) -> Seq<u8> {
        crate::bytes::le32_bytes(self.signature) + crate::bytes::le32_bytes(self.tag)
            + crate::bytes::le32_bytes(self.data_transfer_length) + seq![
            self.flags,
            self.lun,
            self.cb_length,
        ] + self.command_block@
    }

    /// The wrapper of the command that reads `transfer_length` sectors of 512 bytes from
    /// sector `lba` on.
    pub fn new_read_10(lba: u32, transfer_length: u16, tag: u32) -> (r: Self)
        ensures
            r.signature == Self::SIGNATURE,
            r.tag == tag,
            r.data_transfer_length == transfer_length * 512,
            r.flags == Self::FLAG_DATA_IN,
            r.lun == 0,
            r.cb_length == 10,
            r.command_block@ == Self::read_10_block(lba, transfer_length),
    {
        let mut cbw = CommandBlockWrapper {
            signature: Self::SIGNATURE,
            tag,
            data_transfer_length: (transfer_length as u32) * 512,
            flags: Self::FLAG_DATA_IN,
            lun: 0,
            cb_length: 10,
            command_block: [0; 16],
        };
        cbw.command_block[0] = 0x28;
        cbw.command_block[1] = 0x00;
        cbw.command_block[2] = (lba / 0x100_0000) as u8;
        cbw.command_block[3] = (lba / 0x1_0000 % 0x100) as u8;
        cbw.command_block[4] = (lba / 0x100 % 0x100) as u8;
        cbw.command_block[5] = (lba % 0x100) as u8;
        cbw.command_block[6] = 0x00;
        cbw.command_block[7] = (transfer_length / 0x100) as u8;
        cbw.command_block[8] = (transfer_length % 0x100) as u8;
        cbw.command_block[9] = 0x00;
        assert(cbw.command_block@ =~= Self::read_10_block(lba, transfer_length));
        cbw
    }

    /// The wrapper as it travels.
    pub fn to_bytes(&self) -> (r: Vec<u8>)
        ensures
            r@ == self.bytes(),
            r@.len() == 31,
    {
        let mut out: Vec<u8> = Vec::new();
        put_le32(&mut out, self.signature);
        put_le32(&mut out, self.tag);
        put_le32(&mut out, self.data_transfer_length);
        out.push(self.flags);
        out.push(self.lun);
        out.push(self.cb_length);
        let ghost head = out@;
        let mut i: usize = 0;
        while i < 16
            invariant
                i <= 16,
                out@ =~= head + self.command_block@.take(i as int),
            decreases 16 - i,
        {
            out.push(self.command_block[i]);
            i += 1;
        }
        assert(self.command_block@.take(16) =~= self.command_block@);
        assert(out@ =~= self.bytes());
        out
    }
}

/// Where the fields of a wrapper lie as it travels.
pub proof fn law_wrapper_fields(w: CommandBlockWrapper, i: int)
    requires
        0 <= i < 16,
    ensures
        w.bytes().len() == 31,
        crate::bytes::le32(w.bytes(), 0) == w.signature,
        crate::bytes::le32(w.bytes(), 4) == w.tag,
        crate::bytes::le32(w.bytes(), 8) == w.data_transfer_length,
        w.bytes()[12] == w.flags,
        w.bytes()[13] == w.lun,
        w.bytes()[14] == w.cb_length,
        w.bytes()[15 + i] == w.command_block@[i],
{
    let s = w.bytes();
    assert(s.len() == 31);
    crate::bytes::law_le32_round_trip(w.signature);
    assert(s.subrange(0, 4) =~= crate::bytes::le32_bytes(w.signature));
    assert(crate::bytes::le32(s, 0) == crate::bytes::le32(s.subrange(0, 4), 0));
    crate::bytes::law_le32_round_trip(w.tag);
    assert(s.subrange(4, 8) =~= crate::bytes::le32_bytes(w.tag));
    assert(crate::bytes::le32(s, 4) == crate::bytes::le32(s.subrange(4, 8), 0));
    crate::bytes::law_le32_round_trip(w.data_transfer_length);
    assert(s.subrange(8, 12) =~= crate::bytes::le32_bytes(w.data_transfer_length));
    assert(crate::bytes::le32(s, 8) == crate::bytes::le32(s.subrange(8, 12), 0));
}

/// The command that reads sectors: the operation code, the first sector and the number of
/// sectors most significant byte first, zeroes between and after them.
pub proof fn law_read_10_block_fields(lba: u32, transfer_length: u16, i: int)
    requires
        0 <= i < 16,
    ensures
        ({
            let block = CommandBlockWrapper::read_10_block(lba, transfer_length);
            &&& block.len() == 16
            &&& block[0] == 0x28
            &&& 0x100_0000 * block[2] + 0x1_0000 * block[3] + 0x100 * block[4] + block[5] == lba
            &&& 0x100 * block[7] + block[8] == transfer_length
            &&& i == 1 || i == 6 || i >= 9 ==> block[i] == 0
        }),
{
}

} // verus!
