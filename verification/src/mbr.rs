//! The master boot record, as the `mbrs` crate reads it from a boot sector.
use vstd::prelude::*;

verus! {

/// One entry of an MBR partition table.
#[derive(Debug, Clone, Copy, PartialEq, Eq)]
pub struct PartInfo {
    /// Whether the boot flag is set (byte `0x80`).
    pub bootable: bool,
    /// The raw cylinder-head-sector address of the first sector.
    pub first_sector_chs: [u8; 3],
    /// The partition type byte (`0x83` for Linux, `0x82` for Linux swap, ...).
    pub part_type: u8,
    /// The raw cylinder-head-sector address of the last sector.
    pub last_sector_chs: [u8; 3],
    /// The logical block address of the first sector.
    pub start_sector_lba: u32,
    /// The number of sectors.
    pub sector_count_lba: u32,
}

impl PartInfo {
    /// The logical block address of the first sector.
    pub fn start_sector_lba(&self) -> (r: u32)
        ensures
            r == self.start_sector_lba,
    {
        self.start_sector_lba
    }

    /// The number of sectors.
    pub fn sector_count_lba(&self) -> (r: u32)
        ensures
            r == self.sector_count_lba,
    {
        self.sector_count_lba
    }

    /// The partition type byte.
    pub fn part_type(&self) -> (r: u8)
        ensures
            r == self.part_type,
    {
        self.part_type
    }
}

/// The four entries of an MBR partition table; `None` marks an unused slot.
#[derive(Debug, Clone, Copy, PartialEq, Eq)]
pub struct MbrPartTable {
    pub entries: [Option<PartInfo>; 4],
}

/// A master boot record.
#[derive(Debug, Clone, Copy, PartialEq, Eq)]
pub struct Mbr {
    pub bootloader: [u8; 440],
    pub drive_signature: [u8; 4],
    pub partition_table: MbrPartTable,
    pub bootsector_signature: [u8; 2],
}

/// The little-endian 32-bit number at `off` in `b`.
pub open spec fn le_u32_at(b: Seq<u8>, off: int) -> int {
    b[off] + 256 * b[off + 1] + 65536 * b[off + 2] + 16777216 * b[off + 3]
}

/// The 16 bytes of partition table slot `i` of a boot sector.
pub open spec fn entry_at(block: Seq<u8>, i: int) -> Seq<u8> {
    block.subrange(446 + 16 * i, 462 + 16 * i)
}

/// The partition type bytes that `mbrs::PartType` knows.
pub open spec fn known_part_type(code: u8) -> bool {
    ||| code == 0x00 || code == 0x01 || code == 0x02 || code == 0x04 || code == 0x05
    ||| code == 0x06 || code == 0x07 || code == 0x0B || code == 0x0C || code == 0x0E
    ||| code == 0x0F || code == 0x12 || code == 0x14 || code == 0x17 || code == 0x1B
    ||| code == 0x1C || code == 0x1E || code == 0x27 || code == 0x42 || code == 0x75
    ||| code == 0x82 || code == 0x83 || code == 0x84 || code == 0x8E || code == 0xA5
    ||| code == 0xA6 || code == 0xA9 || code == 0xAF || code == 0xBF || code == 0xEB
    ||| code == 0xEE || code == 0xEF || code == 0xFD
}

/// Whether the 16 bytes `e` read as a partition entry: the boot flag is `0x00` or
/// `0x80` and the type byte is a known one.
pub open spec fn entry_parses(e: Seq<u8>) -> bool {
    (e[0] == 0x00 || e[0] == 0x80) && known_part_type(e[4])
}

/// Whether all 16 bytes of an entry are zero, which marks an unused slot.
pub open spec fn entry_is_zero(e: Seq<u8>) -> bool {
    forall|k: int| 0 <= k < 16 ==> e[k] == 0
}

/// Whether slot `i` of the boot sector `block` holds a partition.
pub open spec fn slot_used(block: Seq<u8>, i: int) -> bool {
    entry_parses(entry_at(block, i)) && !entry_is_zero(entry_at(block, i))
}

/// Whether `p` holds the fields of the 16-byte entry `e`.
pub open spec fn part_info_matches(p: PartInfo, e: Seq<u8>) -> bool {
    &&& p.bootable == (e[0] == 0x80)
    &&& p.first_sector_chs@ == e.subrange(1, 4)
    &&& p.part_type == e[4]
    &&& p.last_sector_chs@ == e.subrange(5, 8)
    &&& p.start_sector_lba == le_u32_at(e, 8)
    &&& p.sector_count_lba == le_u32_at(e, 12)
}

/// Whether the two bytes before the partition table are `00 00` or `5A 5A`, the
/// condition under which `mbrs` reads a boot sector.
pub open spec fn null_sector_ok(block: Seq<u8>) -> bool {
    (block[444] == 0 && block[445] == 0) || (block[444] == 0x5A && block[445] == 0x5A)
}

/// Whether `m` is the MBR that the boot sector `block` holds.
pub open spec fn mbr_matches_block(m: Mbr, block: Seq<u8>) -> bool {
    &&& m.bootloader@ == block.subrange(0, 440)
    &&& m.drive_signature@ == block.subrange(440, 444)
    &&& m.bootsector_signature@ == block.subrange(510, 512)
    &&& forall|i: int|
        0 <= i < 4 ==> match #[trigger] m.partition_table.entries@[i] {
            Some(p) => slot_used(block, i) && part_info_matches(p, entry_at(block, i)),
            None => !slot_used(block, i),
        }
}

/// Reads a boot sector with `mbrs::Mbr::try_from_bytes`.
///
/// What is claimed, from the crate's source: the sector is refused exactly when the two
/// bytes before the partition table are neither `00 00` nor `5A 5A`; otherwise the boot
/// loader, drive signature and boot sector signature are the bytes at their offsets, and
/// each slot holds an entry exactly when its boot flag is `0x00` or `0x80`, its type
/// byte is one that `PartType` knows and not all of its bytes are zero, the entry's
/// fields being the bytes of the slot (addresses little-endian).  The type byte is
/// recovered from `PartType` with the crate's own conversion back to `u8`.
#[verifier::external_body]
pub(crate) fn mbrs_read_boot_sector(block: &[u8; 512]) -> (r: Option<Mbr>)
    ensures
        r is Some <==> null_sector_ok(block@),
        r matches Some(m) ==> mbr_matches_block(m, block@),
{
    let m = mbrs::Mbr::try_from_bytes(block).ok()?;
    let conv = |p: mbrs::PartInfo| PartInfo {
        bootable: p.bootable(),
        first_sector_chs: p.first_sector_chs().raw,
        part_type: u8::try_from(*p.part_type()).unwrap_or(0),
        last_sector_chs: p.last_sector_chs().raw,
        start_sector_lba: p.start_sector_lba(),
        sector_count_lba: p.sector_count_lba(),
    };
    let partition_table = MbrPartTable { entries: m.partition_table.entries.map(|e| e.map(conv)) };
    let (bootloader, drive_signature, bootsector_signature) =
        (m.bootloader, m.drive_signature, m.bootsector_signature);
    Some(Mbr { bootloader, drive_signature, partition_table, bootsector_signature })
}

} // verus!
