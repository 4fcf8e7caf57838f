use mushix::bits::{extract_bits, write_bits, write_bits64};
use mushix::bytes::{put_le32, read_be32, read_le16, read_le32};
use mushix::cbw::CommandBlockWrapper;
use mushix::mbr::{
    analyze_partition_entry, analyze_sector_zero, find_ascii_strings, partition_type_name,
};
use mushix::scsi::{
    capacity_totals, check_csw, inquiry_cbw, parse_read_capacity_response, read_10_cbw,
    CSW_SIGNATURE, CSW_SIZE, INQUIRY_SIZE,
};
use mushix::serial::SerialStep;
use mushix::text::{string_from_descriptor, strip_nuls};

#[test]
fn integers_lie_in_their_byte_order() {
    let data: [u8; 6] = [0x00, 0x78, 0x56, 0x34, 0x12, 0xff];
    assert_eq!(read_le16(&data, 1), 0x5678);
    assert_eq!(read_le32(&data, 1), 0x1234_5678);
    assert_eq!(read_be32(&data, 1), 0x7856_3412);
    let mut out = vec![9u8];
    put_le32(&mut out, 0x1234_5678);
    assert_eq!(out, vec![9, 0x78, 0x56, 0x34, 0x12]);
}

#[test]
fn written_integers_read_back() {
    for v in [0u32, 1, 0xff, 0x100, 0xdead_beef, u32::MAX] {
        let mut out: Vec<u8> = Vec::new();
        put_le32(&mut out, v);
        assert_eq!(read_le32(&out, 0), v);
        assert_eq!(read_be32(&v.to_be_bytes(), 0), v);
    }
}

#[test]
fn bit_fields_are_cut_out_and_put_in() {
    assert_eq!(extract_bits(0x1234_5678, 8, 8), 0x56);
    assert_eq!(extract_bits(0xf800_0000, 27, 5), 0x1f);
    assert_eq!(write_bits(0xffff_ffff, 10, 6, 6), 0xffff_1bff);
    assert_eq!(write_bits64(0xf, 4, 60, 0x100), 0x100f);
}

#[test]
fn a_read_10_is_wrapped_byte_for_byte() {
    let cbw = CommandBlockWrapper::new_read_10(0x0102_0304, 0x0506, 7);
    assert_eq!(cbw.signature, 0x4342_5355);
    assert_eq!(cbw.tag, 7);
    assert_eq!(cbw.data_transfer_length, 0x0506 * 512);
    assert_eq!(cbw.flags, 0x80);
    assert_eq!(cbw.lun, 0);
    assert_eq!(cbw.cb_length, 10);
    assert_eq!(
        cbw.command_block,
        [0x28, 0, 1, 2, 3, 4, 0, 5, 6, 0, 0, 0, 0, 0, 0, 0]
    );
    let bytes = cbw.to_bytes();
    assert_eq!(bytes.len(), 31);
    assert_eq!(&bytes[0..4], b"USBC");
    assert_eq!(&bytes[4..8], &[7, 0, 0, 0]);
    assert_eq!(&bytes[8..12], &(0x0506u32 * 512).to_le_bytes());
    assert_eq!(&bytes[12..15], &[0x80, 0, 10]);
    assert_eq!(&bytes[15..31], &cbw.command_block);
}

#[test]
fn commands_have_the_fields_a_device_looks_for() {
    let read = read_10_cbw(0x1122_3344, 1);
    assert_eq!(read.len(), 31);
    assert_eq!(read_le32(&read, 0), 0x4342_5355);
    assert_eq!(read_le32(&read, 4), 3);
    assert_eq!(read_le32(&read, 8), 512);
    assert_eq!(read[12], 0x80);
    assert_eq!(read[14], 10);
    assert_eq!(read[15], 0x28);
    assert_eq!(read_be32(&read, 17), 0x1122_3344);
    assert_eq!(&read[21..31], &[0, 0, 1, 0, 0, 0, 0, 0, 0, 0]);
    let widest = read_10_cbw(u32::MAX, u16::MAX);
    assert_eq!(read_le32(&widest, 8), 65535 * 512);

    let inquiry = inquiry_cbw();
    assert_eq!(inquiry.len(), 31);
    assert_eq!(&inquiry[0..4], b"USBC");
    assert_eq!(read_le32(&inquiry, 4), 1);
    assert_eq!(read_le32(&inquiry, 8), INQUIRY_SIZE as u32);
    assert_eq!(&inquiry[12..21], &[0x80, 0, 6, 0x12, 0, 0, 0, 36, 0]);
    assert!(inquiry[21..].iter().all(|b| *b == 0));
}

fn csw(signature: u32, status: u8) -> Vec<u8> {
    let mut data: Vec<u8> = Vec::new();
    data.extend_from_slice(&signature.to_le_bytes());
    data.extend_from_slice(&3u32.to_le_bytes());
    data.extend_from_slice(&0u32.to_le_bytes());
    data.push(status);
    data
}

#[test]
fn a_status_is_checked() {
    assert_eq!(CSW_SIGNATURE.to_le_bytes(), *b"USBS");
    assert_eq!(csw(0, 0).len(), CSW_SIZE);
    assert_eq!(check_csw(&csw(0x5342_5355, 0)), Ok(()));
    assert_eq!(check_csw(&csw(0x5342_5354, 0)), Err("Invalid CSW signature"));
    assert_eq!(check_csw(&csw(0x5342_5354, 1)), Err("Invalid CSW signature"));
    assert_eq!(check_csw(&csw(0x5342_5355, 1)), Err("SCSI command failed"));
}

#[test]
fn a_capacity_is_read() {
    let data = [0x00, 0x1f, 0xff, 0xff, 0x00, 0x00, 0x02, 0x00];
    assert_eq!(parse_read_capacity_response(&data), Ok((0x1f_ffff, 512)));
    assert_eq!(
        parse_read_capacity_response(&data[..7]),
        Err("READ CAPACITY response too short")
    );
    assert_eq!(capacity_totals(0x1f_ffff, 512), (0x20_0000, 1024));
    assert_eq!(capacity_totals(0, 512), (1, 0));
    assert_eq!(capacity_totals(u32::MAX - 1, u32::MAX), (u32::MAX, 0xffff_ffff * 0xffff_ffff / 0x10_0000));
}

#[test]
fn partition_types_have_names() {
    let names: [(u8, &str); 14] = [
        (0x00, "Empty"),
        (0x01, "FAT12"),
        (0x04, "FAT16 <32MB"),
        (0x05, "Extended"),
        (0x06, "FAT16"),
        (0x07, "NTFS/HPFS/exFAT"),
        (0x0b, "FAT32"),
        (0x0c, "FAT32 LBA"),
        (0x0e, "FAT16 LBA"),
        (0x0f, "Extended LBA"),
        (0x82, "Linux Swap"),
        (0x83, "Linux"),
        (0xee, "GPT Protective"),
        (0x42, "Unknown"),
    ];
    for (number, name) in names {
        assert_eq!(partition_type_name(number), name);
    }
}

#[test]
fn a_partition_entry_is_read() {
    let entry: [u8; 16] = [
        0x80, 1, 0xc1, 2, 0x0c, 3, 0x44, 5, 0x00, 0x08, 0, 0, 0x00, 0x00, 0x10, 0x00,
    ];
    let p = analyze_partition_entry(2, &entry).unwrap();
    assert_eq!(p.number, 2);
    assert_eq!(p.boot_flag, 0x80);
    assert_eq!((p.start_cylinder, p.start_head, p.start_sector), (2, 1, 1));
    assert_eq!((p.end_cylinder, p.end_head, p.end_sector), (5, 3, 4));
    assert_eq!(p.partition_type, 0x0c);
    assert_eq!(p.lba_start, 2048);
    assert_eq!(p.sector_count, 0x10_0000);
    assert_eq!(p.size_mb, Some(512));
    assert_eq!(analyze_partition_entry(1, &[0; 16]).unwrap().size_mb, None);
    assert!(analyze_partition_entry(1, &entry[..15]).is_none());
}

#[test]
fn text_is_found_in_bytes() {
    let found = find_ascii_strings(b"abc\0GRUB loader\x01xyz \xffend!");
    let found: Vec<(usize, String)> = found.into_iter().map(|f| (f.offset, f.text)).collect();
    assert_eq!(
        found,
        vec![
            (4, String::from("GRUB loader")),
            (16, String::from("xyz ")),
            (21, String::from("end!")),
        ]
    );
    assert!(find_ascii_strings(b"").is_empty());
    assert!(find_ascii_strings(b"abc").is_empty());
}

#[test]
fn a_first_sector_is_read() {
    let mut sector = vec![0u8; 512];
    sector[510] = 0x55;
    sector[511] = 0xaa;
    sector[446 + 16 + 4] = 0x83;
    sector[446 + 16 + 8] = 63;
    sector[446 + 16 + 12] = 1;
    sector[3..8].copy_from_slice(b"MSDOS");
    let z = analyze_sector_zero(&sector).unwrap();
    assert_eq!(z.boot_signature, 0xaa55);
    assert!(z.valid);
    assert_eq!(z.partitions.len(), 4);
    assert_eq!(z.partitions[0].partition_type, 0);
    assert_eq!(z.partitions[1].number, 2);
    assert_eq!(z.partitions[1].partition_type, 0x83);
    assert_eq!(z.partitions[1].lba_start, 63);
    assert_eq!(z.partitions[1].size_mb, Some(0));
    assert_eq!(z.strings.len(), 1);
    assert_eq!(z.strings[0].offset, 3);
    assert_eq!(z.strings[0].text, "MSDOS");

    sector[511] = 0;
    assert!(!analyze_sector_zero(&sector).unwrap().valid);
    assert!(analyze_sector_zero(&sector[..511]).is_none());
}

#[test]
fn the_text_of_a_string_descriptor_has_no_nuls() {
    assert_eq!(string_from_descriptor(b"\x0a\x03Q\0E\0M\0U\0"), "QEMU");
    assert_eq!(string_from_descriptor(&[2, 3]), "");
    assert_eq!(strip_nuls("\0a\0\0b"), "ab");
}

#[test]
fn text_that_is_no_utf8_gets_replacement_characters() {
    assert_eq!(string_from_descriptor(&[6, 3, b'a', 0xff, b'b', 0]), "a\u{fffd}b");
    assert_eq!(string_from_descriptor(&[4, 3, 0xc3, 0xa9]), "\u{e9}");
}

#[test]
fn the_serial_port_is_monitored() {
    let mut step = SerialStep::LoopbackTest.next(true);
    for _ in 0..3 {
        assert_eq!(step, SerialStep::Read);
        step = step.next(true);
        assert_eq!(step, SerialStep::Sleep { millis: 20 });
        step = step.next(true);
    }
    let failed = SerialStep::LoopbackTest.next(false);
    assert_eq!(failed, SerialStep::Failed("serial loopback test failed"));
    assert_eq!(failed.next(true), failed);
}
