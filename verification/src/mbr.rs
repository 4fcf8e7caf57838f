//! What the first sector of a disk says.
use crate::bytes::read_le16;
use crate::bytes::read_le32;
use vstd::prelude::*;

verus! {

/// The name of a partition type.
pub open spec fn name_of_type(partition_type: u8) -> &'static str {
    match partition_type {
        0x00 => "Empty",
        0x01 => "FAT12",
        0x04 => "FAT16 <32MB",
        0x05 => "Extended",
        0x06 => "FAT16",
        0x07 => "NTFS/HPFS/exFAT",
        0x0B => "FAT32",
        0x0C => "FAT32 LBA",
        0x0E => "FAT16 LBA",
        0x0F => "Extended LBA",
        0x82 => "Linux Swap",
        0x83 => "Linux",
        0xEE => "GPT Protective",
        _ => "Unknown",
    }
}

/// The name of a partition type.
pub fn partition_type_name(partition_type: u8) -> (r: &'static str)
    ensures
        r == name_of_type(partition_type),
{
    match partition_type {
        0x00 => "Empty",
        0x01 => "FAT12",
        0x04 => "FAT16 <32MB",
        0x05 => "Extended",
        0x06 => "FAT16",
        0x07 => "NTFS/HPFS/exFAT",
        0x0B => "FAT32",
        0x0C => "FAT32 LBA",
        0x0E => "FAT16 LBA",
        0x0F => "Extended LBA",
        0x82 => "Linux Swap",
        0x83 => "Linux",
        0xEE => "GPT Protective",
        _ => "Unknown",
    }
}

/// One entry of the partition table.
#[derive(Debug, Copy, Clone, PartialEq, Eq, Structural)]
pub struct PartitionEntry {
    pub number: usize,
    pub boot_flag: u8,
    pub start_head: u8,
    pub start_sector: u8,
    pub start_cylinder: u8,
    pub partition_type: u8,
    pub end_head: u8,
    pub end_sector: u8,
    pub end_cylinder: u8,
    pub lba_start: u32,
    pub sector_count: u32,
    /// The size in MiB of an entry that has sectors.
    pub size_mb: Option<u64>,
}

impl PartitionEntry {
    /// The entry that lies in `s` from `at` on. Of a cylinder number only the low byte
    /// counts; the size is that of sectors of 512 bytes, rounded down.
    pub open spec fn decoded(number: usize, s: Seq<u8>, at: int) -> Self {
        let sectors = crate::bytes::le32(s, at + 12);
        PartitionEntry {
            number,
            boot_flag: s[at],
            start_head: s[at + 1],
            start_sector: (s[at + 2] % 0x40) as u8,
            start_cylinder: s[at + 3],
            partition_type: s[at + 4],
            end_head: s[at + 5],
            end_sector: (s[at + 6] % 0x40) as u8,
            end_cylinder: s[at + 7],
            lba_start: crate::bytes::le32(s, at + 8) as u32,
            sector_count: sectors as u32,
            size_mb: if sectors > 0 {
                Some((sectors * 512 / 0x10_0000) as u64)
            } else {
                None
            },
        }
    }
}

/// Reads an entry of the partition table, if it is whole.
pub fn analyze_partition_entry(partition_num: usize, entry: &[u8]) -> (r: Option<PartitionEntry>)
    ensures
        r == (if entry@.len() >= 16 {
            Some(PartitionEntry::decoded(partition_num, entry@, 0))
        } else {
            None::<PartitionEntry>
        }),
{
    if entry.len() < 16 {
        return None;
    }
    let b2: u8 = entry[2];
    let b3: u8 = entry[3];
    let b6: u8 = entry[6];
    let b7: u8 = entry[7];
    assert(b2 & 0x3F == b2 % 0x40 && ((b2 & 0xC0) << 2) | b3 == b3) by (bit_vector);
    assert(b6 & 0x3F == b6 % 0x40 && ((b6 & 0xC0) << 2) | b7 == b7) by (bit_vector);
    let sector_count: u32 = read_le32(entry, 12);
    Some(
        PartitionEntry {
            number: partition_num,
            boot_flag: entry[0],
            start_head: entry[1],
            start_sector: b2 & 0x3F,
            start_cylinder: ((b2 & 0xC0) << 2) | b3,
            partition_type: entry[4],
            end_head: entry[5],
            end_sector: b6 & 0x3F,
            end_cylinder: ((b6 & 0xC0) << 2) | b7,
            lba_start: read_le32(entry, 8),
            sector_count,
            size_mb: if sector_count > 0 {
                Some((sector_count as u64 * 512) / (1024 * 1024))
            } else {
                None
            },
        },
    )
}

/// A character that is shown: a graphic ASCII character or a space.
pub open spec fn printable(byte: u8) -> bool {
    0x20 <= byte <= 0x7e
}

/// The bytes from `a` to before `b` are printable, and there are no more on either side.
pub open spec fn is_run(s: Seq<u8>, a: int, b: int) -> bool {
    &&& 0 <= a < b <= s.len()
    &&& forall|i: int| a <= i < b ==> printable(#[trigger] s[i])
    &&& a == 0 || !printable(s[a - 1])
    &&& b == s.len() || !printable(s[b])
}

/// Text found among bytes.
#[derive(Debug)]
pub struct FoundString {
    pub offset: usize,
    pub text: String,
}

impl FoundString {
    /// Where the text ends.
    pub open spec fn end(&self) -> int {
        self.offset + self.text@.len()
    }

    /// This is a run of printable bytes, at least four, and its text.
    pub open spec fn found_in(&self, s: Seq<u8>) -> bool {
        &&& is_run(s, self.offset as int, self.end())
        &&& self.text@.len() >= 4
        &&& self.text@ == crate::text::ascii_chars(s.subrange(self.offset as int, self.end()))
    }
}

/// The printable bytes from `a` to before `b` as text.
fn text_of(data: &[u8], a: usize, b: usize) -> (r: String)
    requires
        a <= b <= data@.len(),
        forall|i: int| a <= i < b ==> printable(#[trigger] data@[i]),
    ensures
        r@ == crate::text::ascii_chars(data@.subrange(a as int, b as int)),
{
    let mut out = String::new();
    let mut i: usize = a;
    while i < b
        invariant
            a <= i <= b <= data@.len(),
            out@ =~= crate::text::ascii_chars(data@.subrange(a as int, i as int)),
        decreases b - i,
    {
        out.push(data[i] as char);
        i += 1;
    }
    out
}

/// All runs of four or more printable bytes, from first to last.
pub fn find_ascii_strings(data: &[u8]) -> (r: Vec<FoundString>)
    ensures
        forall|k: int| 0 <= k < r@.len() ==> (#[trigger] r@[k]).found_in(data@),
        forall|j: int, k: int|
            0 <= j < k < r@.len() ==> (#[trigger] r@[j]).offset < (#[trigger] r@[k]).offset,
        forall|a: int, b: int|
            #[trigger] is_run(data@, a, b) && b - a >= 4 ==> exists|k: int|
                0 <= k < r@.len() && (#[trigger] r@[k]).offset == a && r@[k].end() == b,
{
    let mut out: Vec<FoundString> = Vec::new();
    let mut start: usize = 0;
    let mut i: usize = 0;
    while i < data.len()
        invariant
            start <= i <= data@.len(),
            start == 0 || !printable(data@[start - 1]),
            forall|j: int| start <= j < i ==> printable(#[trigger] data@[j]),
            forall|k: int|
                0 <= k < out@.len() ==> (#[trigger] out@[k]).found_in(data@) && out@[k].end()
                    < start,
            forall|j: int, k: int|
                0 <= j < k < out@.len() ==> (#[trigger] out@[j]).offset < (
                #[trigger] out@[k]).offset,
            forall|a: int, b: int|
                #[trigger] is_run(data@, a, b) && b - a >= 4 && b < start ==> exists|k: int|
                    0 <= k < out@.len() && (#[trigger] out@[k]).offset == a && out@[k].end() == b,
        decreases data@.len() - i,
    {
        let byte: u8 = data[i];
        if !(0x20 <= byte && byte <= 0x7e) {
            let ghost before = out@;
            if i - start >= 4 {
                let text = text_of(data, start, i);
                out.push(FoundString { offset: start, text });
                assert(out@.drop_last() =~= before);
            }
            proof {
                lemma_run_found(data@, before, out@, start as int, i as int);
            }
            start = i + 1;
        }
        i += 1;
    }
    let ghost before = out@;
    if i - start >= 4 {
        let text = text_of(data, start, i);
        out.push(FoundString { offset: start, text });
        assert(out@.drop_last() =~= before);
    }
    proof {
        lemma_run_found(data@, before, out@, start as int, i as int);
    }
    out
}

/// At the end of a stretch of printable bytes, noting it if it is long enough keeps the
/// list complete.
proof fn lemma_run_found(
    s: Seq<u8>,
    before: Seq<FoundString>,
    after: Seq<FoundString>,
    start: int,
    i: int,
)
    requires
        0 <= start <= i <= s.len(),
        start == 0 || !printable(s[start - 1]),
        i == s.len() || !printable(s[i]),
        forall|j: int| start <= j < i ==> printable(#[trigger] s[j]),
        forall|k: int|
            0 <= k < before.len() ==> (#[trigger] before[k]).found_in(s) && before[k].end() < start,
        forall|j: int, k: int|
            0 <= j < k < before.len() ==> (#[trigger] before[j]).offset < (
            #[trigger] before[k]).offset,
        forall|a: int, b: int|
            #[trigger] is_run(s, a, b) && b - a >= 4 && b < start ==> exists|k: int|
                0 <= k < before.len() && (#[trigger] before[k]).offset == a && before[k].end()
                    == b,
        i - start < 4 ==> after == before,
        i - start >= 4 ==> after.len() == before.len() + 1 && after.drop_last() == before
            && after.last().offset == start && after.last().text@ == crate::text::ascii_chars(
            s.subrange(start, i),
        ),
    ensures
        forall|k: int|
            0 <= k < after.len() ==> (#[trigger] after[k]).found_in(s) && after[k].end() <= i,
        forall|j: int, k: int|
            0 <= j < k < after.len() ==> (#[trigger] after[j]).offset < (
            #[trigger] after[k]).offset,
        forall|a: int, b: int|
            #[trigger] is_run(s, a, b) && b - a >= 4 && b <= i ==> exists|k: int|
                0 <= k < after.len() && (#[trigger] after[k]).offset == a && after[k].end() == b,
{
    let n = before.len() as int;
    if i - start >= 4 {
        assert(after[n] == after.last());
        assert(is_run(s, start, i));
        assert(after[n].found_in(s));
        assert forall|k: int| 0 <= k < n implies #[trigger] after[k] == before[k] by {
            assert(after.drop_last()[k] == after[k]);
        }
    }
    assert forall|a: int, b: int|
        #[trigger] is_run(s, a, b) && b - a >= 4 && b <= i implies exists|k: int|
        0 <= k < after.len() && (#[trigger] after[k]).offset == a && after[k].end() == b by {
        if b < start {
            let k = choose|k: int|
                0 <= k < before.len() && (#[trigger] before[k]).offset == a && before[k].end()
                    == b;
            assert(after[k] == before[k]);
        } else {
            if b == start {
                assert(printable(s[start - 1]));
            }
            if b < i {
                assert(printable(s[b]));
            }
            if a < start {
                assert(printable(s[start - 1]));
            }
            if a > start {
                assert(printable(s[a - 1]));
            }
            assert(after[n].offset == a && after[n].end() == b);
        }
    }
}

/// What the first sector says: its signature, the four partitions, and the text in it.
#[derive(Debug)]
pub struct SectorZero {
    pub boot_signature: u16,
    pub valid: bool,
    pub partitions: Vec<PartitionEntry>,
    pub strings: Vec<FoundString>,
}

impl SectorZero {
    /// This is what a sector says: its last two bytes as the signature, its four
    /// partitions, and all runs of at least four printable characters, in order.
    pub open spec fn says(&self, data: Seq<u8>) -> bool {
        &&& self.boot_signature == crate::bytes::le16(data, 510)
        &&& self.valid == (self.boot_signature == 0xAA55)
        &&& self.partitions@ == Seq::new(
            4,
            |i: int| PartitionEntry::decoded((i + 1) as usize, data, 446 + 16 * i),
        )
        &&& forall|k: int|
            0 <= k < self.strings@.len() ==> (#[trigger] self.strings@[k]).found_in(data)
        &&& forall|j: int, k: int|
            0 <= j < k < self.strings@.len() ==> (#[trigger] self.strings@[j]).offset < (
            #[trigger] self.strings@[k]).offset
        &&& forall|a: int, b: int|
            #[trigger] is_run(data, a, b) && b - a >= 4 ==> exists|k: int|
                0 <= k < self.strings@.len() && (#[trigger] self.strings@[k]).offset == a
                    && self.strings@[k].end() == b
    }
}

/// Reads a first sector, if it is whole.
pub fn analyze_sector_zero(data: &[u8]) -> (r: Option<SectorZero>)
    ensures
        r is Some <==> data@.len() >= 512,
        r matches Some(z) ==> z.says(data@),
{
    if data.len() < 512 {
        return None;
    }
    let boot_signature: u16 = read_le16(data, 510);
    let mut partitions: Vec<PartitionEntry> = Vec::new();
    let mut i: usize = 0;
    while i < 4
        invariant
            i <= 4,
            data@.len() >= 512,
            partitions@ =~= Seq::new(
                i as nat,
                |j: int| PartitionEntry::decoded((j + 1) as usize, data@, 446 + 16 * j),
            ),
        decreases 4 - i,
    {
        let offset: usize = 446 + i * 16;
        let partition = vstd::slice::slice_subrange(data, offset, offset + 16);
        if let Some(entry) = analyze_partition_entry(i + 1, partition) {
            assert(entry == PartitionEntry::decoded((i + 1) as usize, data@, offset as int));
            partitions.push(entry);
        }
        i += 1;
    }
    let strings = find_ascii_strings(data);
    Some(
        SectorZero { boot_signature, valid: boot_signature == 0xAA55, partitions, strings },
    )
}

/// An entry says what its sixteen bytes say: its flag, type and heads as they are, of a sector
/// byte the low six bits, of a cylinder the byte itself, and the first sector and the number
/// of sectors least significant byte first.
pub proof fn law_partition_entry_fields(number: usize, s: Seq<u8>, at: int)
    ensures
        ({
            let e = PartitionEntry::decoded(number, s, at);
            &&& e.number == number
            &&& e.boot_flag == s[at]
            &&& e.start_head == s[at + 1]
            &&& e.start_sector < 0x40 && (s[at + 2] - e.start_sector) % 0x40 == 0
            &&& e.start_cylinder == s[at + 3]
            &&& e.partition_type == s[at + 4]
            &&& e.end_head == s[at + 5]
            &&& e.end_sector < 0x40 && (s[at + 6] - e.end_sector) % 0x40 == 0
            &&& e.end_cylinder == s[at + 7]
            &&& e.lba_start == s[at + 8] + 0x100 * s[at + 9] + 0x1_0000 * s[at + 10] + 0x100_0000
                * s[at + 11]
            &&& e.sector_count == s[at + 12] + 0x100 * s[at + 13] + 0x1_0000 * s[at + 14]
                + 0x100_0000 * s[at + 15]
        }),
{
}

/// The size of an entry is the whole number of MiB that its sectors fill, two thousand and
/// forty-eight of them each; an entry without sectors has none.
pub proof fn law_partition_size(number: usize, s: Seq<u8>, at: int)
    ensures
        ({
            let e = PartitionEntry::decoded(number, s, at);
            &&& e.size_mb is None <==> e.sector_count == 0
            &&& e.size_mb matches Some(mb) ==> mb * 2048 <= e.sector_count < (mb + 1) * 2048
        }),
{
}

/// A partition with more sectors is never reported smaller.
pub proof fn law_larger_partitions_are_larger(a: Seq<u8>, b: Seq<u8>, n: usize, m: usize)
    ensures
        ({
            let p = PartitionEntry::decoded(n, a, 0);
            let q = PartitionEntry::decoded(m, b, 0);
            p.size_mb matches Some(x) ==> q.size_mb matches Some(y) ==> p.sector_count
                <= q.sector_count ==> x <= y
        }),
{
    law_partition_size(n, a, 0);
    law_partition_size(m, b, 0);
}

/// Types that are not known have no name of their own.
pub proof fn law_unknown_partition_types(t: u8)
    requires
        t != 0x00 && t != 0x01 && !(0x04 <= t <= 0x07) && t != 0x0b && t != 0x0c && t != 0x0e && t
            != 0x0f && t != 0x82 && t != 0x83 && t != 0xee,
    ensures
        name_of_type(t) == "Unknown",
{
}

/// A first sector says what its bytes say: it is valid if and only if it ends with 0x55 0xaa,
/// and its four partitions lie from byte 446 on, sixteen bytes each.
pub proof fn law_sector_zero_fields(z: SectorZero, data: Seq<u8>, i: int)
    requires
        z.says(data),
        0 <= i < 4,
    ensures
        z.valid <==> data[510] == 0x55 && data[511] == 0xaa,
        z.boot_signature == data[510] + 0x100 * data[511],
        z.partitions@.len() == 4,
        z.partitions@[i].number == i + 1,
        z.partitions@[i].boot_flag == data[446 + 16 * i],
        z.partitions@[i].partition_type == data[450 + 16 * i],
        z.partitions@[i].lba_start == data[454 + 16 * i] + 0x100 * data[455 + 16 * i] + 0x1_0000
            * data[456 + 16 * i] + 0x100_0000 * data[457 + 16 * i],
        z.partitions@[i].sector_count == data[458 + 16 * i] + 0x100 * data[459 + 16 * i] + 0x1_0000
            * data[460 + 16 * i] + 0x100_0000 * data[461 + 16 * i],
{
    law_partition_entry_fields((i + 1) as usize, data, 446 + 16 * i);
    assert(z.partitions@[i] == PartitionEntry::decoded((i + 1) as usize, data, 446 + 16 * i));
}

/// The texts of a first sector are its longest stretches of characters from space to tilde,
/// each with at least four, and all of them are found.
pub proof fn law_sector_zero_texts(z: SectorZero, data: Seq<u8>, k: int, a: int, b: int)
    requires
        z.says(data),
        0 <= k < z.strings@.len(),
        0 <= a,
        a + 4 <= b <= data.len(),
        forall|i: int| a <= i < b ==> 0x20 <= #[trigger] data[i] <= 0x7e,
        a == 0 || !(0x20 <= data[a - 1] <= 0x7e),
        b == data.len() || !(0x20 <= data[b] <= 0x7e),
    ensures
        ({
            let s = z.strings@[k];
            let end = s.offset + s.text@.len();
            &&& s.text@.len() >= 4
            &&& end <= data.len()
            &&& forall|i: int|
                0 <= i < s.text@.len() ==> (#[trigger] s.text@[i]) as int == data[s.offset + i]
                    && 0x20 <= data[s.offset + i] <= 0x7e
            &&& s.offset == 0 || !(0x20 <= data[s.offset - 1] <= 0x7e)
            &&& end == data.len() || !(0x20 <= data[end] <= 0x7e)
        }),
        exists|j: int|
            0 <= j < z.strings@.len() && (#[trigger] z.strings@[j]).offset == a
                && z.strings@[j].text@.len() == b - a,
{
    let s = z.strings@[k];
    assert(s.found_in(data));
    assert forall|i: int| 0 <= i < s.text@.len() implies (#[trigger] s.text@[i]) as int
        == data[s.offset + i] && 0x20 <= data[s.offset + i] <= 0x7e by {
        assert(printable(data[s.offset + i]));
    }
    assert forall|i: int| a <= i < b implies printable(#[trigger] data[i]) by {
        assert(0x20 <= data[i] <= 0x7e);
    }
    assert(is_run(data, a, b));
    let j = choose|j: int|
        0 <= j < z.strings@.len() && (#[trigger] z.strings@[j]).offset == a && z.strings@[j].end()
            == b;
    assert(z.strings@[j].offset == a && z.strings@[j].text@.len() == b - a);
}

/// The types that are known, and their names: the four FAT types, two of them also with block
/// addresses, what holds further partitions, and the rest.
pub proof fn law_known_partition_types()
    ensures
        name_of_type(0x00) == "Empty",
        name_of_type(0x01) == "FAT12",
        name_of_type(0x04) == "FAT16 <32MB",
        name_of_type(0x06) == "FAT16",
        name_of_type(0x0b) == "FAT32",
        name_of_type(0x0e) == "FAT16 LBA",
        name_of_type(0x0c) == "FAT32 LBA",
        name_of_type(0x05) == "Extended",
        name_of_type(0x0f) == "Extended LBA",
        name_of_type(0x07) == "NTFS/HPFS/exFAT",
        name_of_type(0x82) == "Linux Swap",
        name_of_type(0x83) == "Linux",
        name_of_type(0xee) == "GPT Protective",
{
}

} // verus!
