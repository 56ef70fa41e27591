//! The partition manager: MBR and GPT partition tables and where the root partition
//! starts.
use crate::cmdline::{BootArgsFileSystem, BootArgsSpec, RootDevice, RootDeviceSpec};
use crate::gpt::{efi_guid_bytes, utf16_name, GPTHeader, GPTPartition, Uuid};
use crate::mbr::{mbr_matches_block, mbrs_read_boot_sector, null_sector_ok, Mbr, PartInfo};
use crate::parse::{
    device_path_spec, parse_device_label, parse_device_partuuid, parse_device_path,
    parse_device_uuid, parse_major_minor,
};
use crate::text::{chars_equal, chars_of};
use crate::{DeviceType, PartManError, BLOCK_SIZE};
use vstd::prelude::*;

verus! {

/// The kind of partition table on a disk.
#[derive(Debug, Clone, Copy, PartialEq, Eq, Structural)]
pub enum PartitionTableType {
    MBR,
    GPT,
}

/// Whether one of the four partition slots of the boot sector `data` has type `0xEE`,
/// which marks a protective MBR in front of a GUID partition table.
pub open spec fn is_protective_mbr_spec(data: Seq<u8>) -> bool {
    exists|i: int| 0 <= i < 4 && #[trigger] slot_type_byte(data, i) == 0xEE
}

/// The type byte of partition slot `i` of the boot sector `data`.
pub open spec fn slot_type_byte(data: Seq<u8>, i: int) -> u8 {
    data[446 + 16 * i + 4]
}

/// Tests whether the boot sector `data` is a protective MBR, which announces a GUID
/// partition table.
pub fn is_protective_mbr(data: &[u8; 512]) -> (r: bool)
    ensures
        r == is_protective_mbr_spec(data@),
{
    let mut has_gpt_protective = false;
    let mut i: usize = 0;
    while i < 4
        invariant
            0 <= i <= 4,
            has_gpt_protective == exists|j: int|
                0 <= j < i && #[trigger] slot_type_byte(data@, j) == 0xEE,
        decreases 4 - i,
    {
        let offset = 446 + i * 16;
        let partition_type = data[offset + 4];
        assert(partition_type == slot_type_byte(data@, i as int));
        if partition_type == 0xEE {
            has_gpt_protective = true;
        }
        i = i + 1;
    }
    has_gpt_protective
}

// ---------------------------------------------------------------------------
// Disk information
// ---------------------------------------------------------------------------

/// Disk information structure (GPT only).
#[derive(Debug, Clone)]
pub struct DiskInfo {
    pub first_usable_lba: u64,
    pub last_usable_lba: u64,
    pub total_usable_sectors: u64,
    pub used_sectors: u64,
    pub free_sectors: u64,
    pub partition_count: usize,
}

impl DiskInfo {
    /// Returns total usable space in bytes.
    pub fn total_usable_bytes(&self) -> (r: u64)
        requires
            self.total_usable_sectors * 512 <= u64::MAX,
        ensures
            r == self.total_usable_sectors * 512,
    {
        self.total_usable_sectors * 512
    }

    /// Returns used space in bytes.
    pub fn used_bytes(&self) -> (r: u64)
        requires
            self.used_sectors * 512 <= u64::MAX,
        ensures
            r == self.used_sectors * 512,
    {
        self.used_sectors * 512
    }

    /// Returns free space in bytes.
    pub fn free_bytes(&self) -> (r: u64)
        requires
            self.free_sectors * 512 <= u64::MAX,
        ensures
            r == self.free_sectors * 512,
    {
        self.free_sectors * 512
    }
}

// ---------------------------------------------------------------------------
// MBR partitions
// ---------------------------------------------------------------------------

/// A partition of an MBR partition table with its number (1 to 4).
#[derive(Clone, Copy)]
pub struct MbrPartition {
    partition_index: u8,
    part_info: PartInfo,
}

impl View for MbrPartition {
    type V = (u8, PartInfo);

    closed spec fn view(&self) -> (u8, PartInfo) {
        (self.partition_index, self.part_info)
    }
}

impl MbrPartition {
    /// Pairs a partition number with its table entry.
    pub fn new(partition_index: u8, part_info: PartInfo) -> (r: Self)
        ensures
            r@ == (partition_index, part_info),
    {
        MbrPartition { partition_index, part_info }
    }

    /// The partition number (1 to 4).
    pub fn partition_index(&self) -> (r: u8)
        ensures
            r == self@.0,
    {
        self.partition_index
    }

    /// The partition table entry.
    pub fn part_info(&self) -> (r: &PartInfo)
        ensures
            *r == self@.1,
    {
        &self.part_info
    }
}

// ---------------------------------------------------------------------------
// The partition manager
// ---------------------------------------------------------------------------

/// What a partition manager holds, as plain values.
pub struct PartManagerView {
    pub table_type: PartitionTableType,
    pub mbr: Option<Mbr>,
    pub gpt_header: Option<GPTHeader>,
    pub gpt_partitions: Seq<GPTPartition>,
    pub rootargs: BootArgsSpec,
}

/// Unified partition manager.
/// Supports MBR and GPT partition tables.
pub struct PartManager {
    table_type: PartitionTableType,
    mbr: Option<Mbr>,
    gpt_header: Option<GPTHeader>,
    gpt_partitions: Vec<GPTPartition>,
    rootargs: BootArgsFileSystem,
}

/// Whether `v` has the shape that a manager of its table type has: an MBR manager holds
/// an MBR and no GPT data; a GPT manager holds a GPT header and no MBR.
pub open spec fn manager_shape(v: PartManagerView) -> bool {
    match v.table_type {
        PartitionTableType::MBR => v.mbr is Some && v.gpt_header is None
            && v.gpt_partitions.len() == 0,
        PartitionTableType::GPT => v.gpt_header is Some && v.mbr is None,
    }
}

/// Whether `v` is the manager of the MBR that the boot sector `block` holds.
pub open spec fn is_mbr_manager(v: PartManagerView, block: Seq<u8>, rootargs: BootArgsSpec) -> bool {
    &&& v.table_type == PartitionTableType::MBR
    &&& v.mbr matches Some(m) && mbr_matches_block(m, block)
    &&& v.gpt_header is None
    &&& v.gpt_partitions.len() == 0
    &&& v.rootargs == rootargs
}

/// Whether `v` is the manager of the GUID partition table with `header` and `parts`.
pub open spec fn is_gpt_manager(
    v: PartManagerView,
    header: GPTHeader,
    parts: Seq<GPTPartition>,
    rootargs: BootArgsSpec,
) -> bool {
    &&& v.table_type == PartitionTableType::GPT
    &&& v.mbr is None
    &&& v.gpt_header == Some(header)
    &&& v.gpt_partitions == parts
    &&& v.rootargs == rootargs
}

// ---------------------------------------------------------------------------
// What the queries of a partition manager answer
// ---------------------------------------------------------------------------

/// Index of the first partition in `parts` whose name is `name`, or `parts.len()`.
pub open spec fn first_named(parts: Seq<GPTPartition>, name: Seq<char>) -> int
    decreases parts.len(),
{
    if parts.len() == 0 {
        0
    } else if utf16_name(parts[0].name@) == Some(name) {
        0
    } else {
        1 + first_named(parts.skip(1), name)
    }
}

/// `first_named` is the index of the first partition with that name.
pub proof fn lemma_first_named(parts: Seq<GPTPartition>, name: Seq<char>)
    ensures
        0 <= first_named(parts, name) <= parts.len(),
        first_named(parts, name) < parts.len() ==> utf16_name(
            parts[first_named(parts, name)].name@,
        ) == Some(name),
        forall|j: int|
            0 <= j < first_named(parts, name) ==> utf16_name(#[trigger] parts[j].name@) != Some(
                name,
            ),
    decreases parts.len(),
{
    if parts.len() > 0 && utf16_name(parts[0].name@) != Some(name) {
        lemma_first_named(parts.skip(1), name);
        assert forall|j: int| 0 <= j < first_named(parts, name) implies utf16_name(
            #[trigger] parts[j].name@,
        ) != Some(name) by {
            if j > 0 {
                assert(parts[j] == parts.skip(1)[j - 1]);
            }
        }
        if first_named(parts, name) < parts.len() {
            assert(parts[first_named(parts, name)] == parts.skip(1)[first_named(
                parts.skip(1),
                name,
            )]);
        }
    }
}

/// The partitions of `parts` whose type GUID is `t`, in table order.
pub open spec fn partitions_of_type(parts: Seq<GPTPartition>, t: Seq<u8>) -> Seq<GPTPartition>
    decreases parts.len(),
{
    if parts.len() == 0 {
        Seq::empty()
    } else {
        let prev = partitions_of_type(parts.drop_last(), t);
        if parts.last().part_type.bytes@ == t {
            prev.push(parts.last())
        } else {
            prev
        }
    }
}

/// Whether the partition type byte `code` is a Linux type: native (`0x83`), swap
/// (`0x82`) or LVM (`0x8E`).
pub open spec fn is_linux_type(code: u8) -> bool {
    code == 0x83 || code == 0x82 || code == 0x8E
}

/// How much a Linux partition type is preferred for the root file system: native
/// first, then LVM, then swap.
pub open spec fn linux_priority(code: u8) -> int {
    if code == 0x83 {
        1
    } else if code == 0x8E {
        2
    } else if code == 0x82 {
        3
    } else {
        255
    }
}

/// Whether slot `e` holds a Linux partition.
pub open spec fn is_linux_entry(e: Option<PartInfo>) -> bool {
    e matches Some(p) && is_linux_type(p.part_type)
}

/// The preference of slot `e` (lower is better).
pub open spec fn entry_priority(e: Option<PartInfo>) -> int {
    match e {
        Some(p) => linux_priority(p.part_type),
        None => 256,
    }
}

/// Among the first `n` slots, the Linux partition of best preference, the earliest one
/// where several share it.
pub open spec fn best_linux_upto(entries: Seq<Option<PartInfo>>, n: int) -> Option<int>
    decreases n,
{
    if n <= 0 {
        None
    } else {
        let prev = best_linux_upto(entries, n - 1);
        if is_linux_entry(entries[n - 1]) && (prev is None || entry_priority(entries[n - 1])
            < entry_priority(entries[prev->0])) {
            Some(n - 1)
        } else {
            prev
        }
    }
}

/// The partition number that the root device path of `rootargs` names, if any.
pub open spec fn root_partition_number(rootargs: BootArgsSpec) -> Option<u8> {
    match rootargs.root {
        Some(RootDeviceSpec::DevicePath(p)) => match device_path_spec(p) {
            Some(t) => Some(t.2),
            None => None,
        },
        _ => None,
    }
}

/// What looking up MBR partition number `n` gives: its slot's entry when `n` is 1 to 4
/// and the slot is used.
pub open spec fn mbr_by_number(mbr: Option<Mbr>, n: u8) -> Result<(u8, PartInfo), PartManError> {
    if n == 0 || n > 4 {
        Err(PartManError::PartitionNotFound)
    } else {
        match mbr {
            None => Err(PartManError::NoLinuxPartition),
            Some(m) => match m.partition_table.entries@[n - 1] {
                Some(p) => Ok((n, p)),
                None => Err(PartManError::PartitionNotFound),
            },
        }
    }
}

/// The MBR partition that the smart guess picks: the best Linux partition.
pub open spec fn mbr_smart_guess(mbr: Option<Mbr>) -> Result<(u8, PartInfo), PartManError> {
    match mbr {
        None => Err(PartManError::NoLinuxPartition),
        Some(m) => {
            let entries = m.partition_table.entries@;
            match best_linux_upto(entries, 4) {
                Some(i) => Ok(((i + 1) as u8, entries[i]->0)),
                None => Err(PartManError::NoLinuxPartition),
            }
        },
    }
}

/// The MBR partition that the root device path names.
pub open spec fn mbr_from_rootargs(v: PartManagerView) -> Result<(u8, PartInfo), PartManError> {
    match root_partition_number(v.rootargs) {
        None => Err(PartManError::BootargsParseError),
        Some(n) => mbr_by_number(v.mbr, n),
    }
}

/// The MBR partition (its number and entry) whose start is the partition offset: the
/// one the root device path names when that slot is used, and otherwise the best Linux
/// partition.
pub open spec fn mbr_choice(v: PartManagerView) -> Result<(u8, PartInfo), PartManError> {
    match mbr_from_rootargs(v) {
        Ok(c) => Ok(c),
        Err(_) => mbr_smart_guess(v.mbr),
    }
}

/// An MBR partition as its number and entry.
pub open spec fn mbr_result(r: Result<MbrPartition, PartManError>) -> Result<
    (u8, PartInfo),
    PartManError,
> {
    match r {
        Ok(m) => Ok(m@),
        Err(e) => Err(e),
    }
}

/// The first block of the GPT partition that the root label names, if any.
pub open spec fn gpt_choice(v: PartManagerView) -> Option<u64> {
    match v.rootargs.root {
        Some(RootDeviceSpec::Label(l)) => {
            let k = first_named(v.gpt_partitions, l);
            if k < v.gpt_partitions.len() {
                Some(v.gpt_partitions[k].first_lba)
            } else {
                None
            }
        },
        _ => None,
    }
}

/// The byte offset of the root partition of `v`, if there is one.
pub open spec fn part_offset_value(v: PartManagerView) -> Option<int> {
    match v.table_type {
        PartitionTableType::GPT => match gpt_choice(v) {
            Some(lba) => Some(lba * 512),
            None => None,
        },
        PartitionTableType::MBR => match mbr_choice(v) {
            Ok(c) => Some(c.1.start_sector_lba * 512),
            Err(_) => None,
        },
    }
}

/// The message with which `part_offset` fails for a table type.
pub open spec fn part_offset_error(t: PartitionTableType) -> Seq<char> {
    match t {
        PartitionTableType::GPT => "Failed to parse root device label for GPT partition offset"@,
        PartitionTableType::MBR => "No suitable MBR partition found"@,
    }
}

/// Whether `part_offset` can answer for `v`: the root device is of a kind the table
/// type handles (a label for GPT; a device path or a label for MBR, where a label
/// beginning with `PARTLABEL=` cannot be looked up), and the offset fits in a `usize`.
pub open spec fn part_offset_defined(v: PartManagerView) -> bool {
    match v.table_type {
        PartitionTableType::GPT => {
            &&& (v.rootargs.root is None || v.rootargs.root matches Some(RootDeviceSpec::Label(_)))
            &&& (gpt_choice(v) matches Some(lba) ==> lba * 512 <= usize::MAX)
        },
        PartitionTableType::MBR => {
            &&& match v.rootargs.root {
                None => true,
                Some(RootDeviceSpec::DevicePath(_)) => true,
                Some(RootDeviceSpec::Label(l)) => !"PARTLABEL="@.is_prefix_of(l),
                _ => false,
            }
            &&& (mbr_choice(v) matches Ok(c) ==> c.1.start_sector_lba * 512 <= usize::MAX)
        },
    }
}

/// The slots of `entries` below `n` that hold a partition, with their numbers.
pub open spec fn used_slots_upto(entries: Seq<Option<PartInfo>>, n: int) -> Seq<(u8, PartInfo)>
    decreases n,
{
    if n <= 0 {
        Seq::empty()
    } else {
        let prev = used_slots_upto(entries, n - 1);
        match entries[n - 1] {
            Some(p) => prev.push((n as u8, p)),
            None => prev,
        }
    }
}

/// The number of blocks of a GPT partition.
pub open spec fn part_sectors(p: GPTPartition) -> int {
    p.last_lba - p.first_lba + 1
}

/// The number of blocks of the first `n` partitions together.
pub open spec fn used_sectors_upto(parts: Seq<GPTPartition>, n: int) -> int
    decreases n,
{
    if n <= 0 {
        0
    } else {
        used_sectors_upto(parts, n - 1) + part_sectors(parts[n - 1])
    }
}

/// Whether the disk information of `v` can be computed without overflow: the usable
/// range and every partition's range are non-empty and their sizes fit in a `u64`, and
/// so does the sum of the partition sizes.
pub open spec fn disk_info_defined(v: PartManagerView) -> bool {
    v.table_type == PartitionTableType::GPT ==> {
        let h = v.gpt_header->0;
        let parts = v.gpt_partitions;
        &&& h.first_usable <= h.last_usable
        &&& h.last_usable - h.first_usable + 1 <= u64::MAX
        &&& forall|i: int|
            0 <= i < parts.len() ==> #[trigger] parts[i].first_lba <= parts[i].last_lba
                && part_sectors(parts[i]) <= u64::MAX
        &&& used_sectors_upto(parts, parts.len() as int) <= u64::MAX
    }
}

impl View for PartManager {
    type V = PartManagerView;

    closed spec fn view(&self) -> PartManagerView {
        PartManagerView {
            table_type: self.table_type,
            mbr: self.mbr,
            gpt_header: self.gpt_header,
            gpt_partitions: self.gpt_partitions@,
            rootargs: self.rootargs@,
        }
    }
}

impl PartManager {
    #[verifier::type_invariant]
    spec fn shape_invariant(self) -> bool {
        manager_shape(self@)
    }

    /// Creates the manager of the MBR in the boot sector `mbr_data`; fails with
    /// "Invalid MBR data" when `mbrs` refuses the sector.
    pub fn new_mbr(mbr_data: &[u8; 512], rootargs: BootArgsFileSystem) -> (r: Result<
        Self,
        &'static str,
    >)
        ensures
            match r {
                Ok(m) => null_sector_ok(mbr_data@) && is_mbr_manager(m@, mbr_data@, rootargs@),
                Err(e) => !null_sector_ok(mbr_data@) && e@ == "Invalid MBR data"@,
            },
    {
        match mbrs_read_boot_sector(mbr_data) {
            Some(mbr) => Ok(
                PartManager {
                    table_type: PartitionTableType::MBR,
                    mbr: Some(mbr),
                    gpt_header: None,
                    gpt_partitions: Vec::new(),
                    rootargs,
                },
            ),
            None => Err("Invalid MBR data"),
        }
    }

    /// Creates the manager of the GUID partition table with `gpt_header` and the used
    /// entries `partitions`.
    pub fn new_gpt(
        gpt_header: GPTHeader,
        partitions: Vec<GPTPartition>,
        rootargs: BootArgsFileSystem,
    ) -> (r: Self)
        ensures
            is_gpt_manager(r@, gpt_header, partitions@, rootargs@),
    {
        PartManager {
            table_type: PartitionTableType::GPT,
            mbr: None,
            gpt_header: Some(gpt_header),
            gpt_partitions: partitions,
            rootargs,
        }
    }

    /// Returns the partition table type.
    pub fn table_type(&self) -> (r: &PartitionTableType)
        ensures
            *r == self@.table_type,
    {
        &self.table_type
    }

    /// Returns boot arguments.
    pub fn rootargs(&self) -> (r: &BootArgsFileSystem)
        ensures
            r@ == self@.rootargs,
    {
        &self.rootargs
    }

    /// Returns MBR (valid only if the table type is MBR).
    pub fn mbr(&self) -> (r: Option<&Mbr>)
        ensures
            match r {
                Some(m) => self@.mbr == Some(*m),
                None => self@.mbr is None,
            },
            r is Some <==> self@.table_type == PartitionTableType::MBR,
    {
        proof {
            use_type_invariant(self);
        }
        self.mbr.as_ref()
    }

    /// Returns GPT header (valid only if the table type is GPT).
    pub fn gpt_header(&self) -> (r: Option<&GPTHeader>)
        ensures
            match r {
                Some(h) => self@.gpt_header == Some(*h),
                None => self@.gpt_header is None,
            },
            r is Some <==> self@.table_type == PartitionTableType::GPT,
    {
        proof {
            use_type_invariant(self);
        }
        self.gpt_header.as_ref()
    }

    /// Returns GPT partition list (valid only if the table type is GPT).
    pub fn gpt_partitions(&self) -> (r: &[GPTPartition])
        ensures
            r@ == self@.gpt_partitions,
            self@.table_type == PartitionTableType::MBR ==> r@.len() == 0,
    {
        proof {
            use_type_invariant(self);
        }
        self.gpt_partitions.as_slice()
    }

    /// Finds GPT partition by name: the first partition whose decoded name is `name`.
    pub fn find_gpt_partition_by_name(&self, name: &str) -> (r: Option<&GPTPartition>)
        ensures
            ({
                let parts = self@.gpt_partitions;
                let k = first_named(parts, name@);
                match r {
                    Some(p) => k < parts.len() && *p == parts[k],
                    None => k == parts.len(),
                }
            }),
    {
        let ghost parts = self@.gpt_partitions;
        proof {
            lemma_first_named(parts, name@);
        }
        let target = chars_of(name);
        let n = self.gpt_partitions.len();
        let mut i: usize = 0;
        while i < n
            invariant
                parts == self.gpt_partitions@,
                n == parts.len(),
                0 <= i <= n,
                target@ == name@,
                forall|j: int| 0 <= j < i ==> utf16_name(#[trigger] parts[j].name@) != Some(name@),
                0 <= first_named(parts, name@) <= parts.len(),
                first_named(parts, name@) < parts.len() ==> utf16_name(
                    parts[first_named(parts, name@)].name@,
                ) == Some(name@),
                forall|j: int|
                    0 <= j < first_named(parts, name@) ==> utf16_name(#[trigger] parts[j].name@)
                        != Some(name@),
            decreases n - i,
        {
            let part = &self.gpt_partitions[i];
            if let Some(part_name) = part.name_chars() {
                if chars_equal(&part_name, &target) {
                    assert(utf16_name(parts[i as int].name@) == Some(name@));
                    return Some(part);
                }
            }
            i = i + 1;
        }
        None
    }

    /// Finds GPT partitions by type GUID, in table order.
    pub fn find_gpt_partitions_by_type(&self, part_type: &Uuid) -> (r: Vec<&GPTPartition>)
        ensures
            ({
                let found = partitions_of_type(self@.gpt_partitions, part_type.bytes@);
                &&& r@.len() == found.len()
                &&& forall|i: int| 0 <= i < r@.len() ==> *r@[i] == found[i]
            }),
    {
        let ghost parts = self@.gpt_partitions;
        let ghost t = part_type.bytes@;
        let mut found: Vec<&GPTPartition> = Vec::new();
        let n = self.gpt_partitions.len();
        let mut i: usize = 0;
        assert(parts.take(0) =~= Seq::<GPTPartition>::empty());
        while i < n
            invariant
                parts == self.gpt_partitions@,
                t == part_type.bytes@,
                n == parts.len(),
                0 <= i <= n,
                found@.len() == partitions_of_type(parts.take(i as int), t).len(),
                forall|j: int|
                    0 <= j < found@.len() ==> *found@[j] == partitions_of_type(
                        parts.take(i as int),
                        t,
                    )[j],
            decreases n - i,
        {
            let part = &self.gpt_partitions[i];
            assert(parts.take(i + 1).drop_last() =~= parts.take(i as int));
            assert(parts.take(i + 1).last() == parts[i as int]);
            if part.part_type.same_as(part_type) {
                found.push(part);
            }
            i = i + 1;
        }
        assert(parts.take(n as int) =~= parts);
        found
    }

    /// Returns the EFI system partition: the first partition of the EFI system
    /// partition type.
    pub fn get_efi_system_partition(&self) -> (r: Option<&GPTPartition>)
        ensures
            ({
                let found = partitions_of_type(self@.gpt_partitions, efi_guid_bytes());
                match r {
                    Some(p) => found.len() > 0 && *p == found[0],
                    None => found.len() == 0,
                }
            }),
    {
        let efi_uuid = Uuid::efi();
        let found = self.find_gpt_partitions_by_type(&efi_uuid);
        if found.len() > 0 {
            Some(found[0])
        } else {
            None
        }
    }

    /// Creates an MBR partition offset object.
    fn create_mbr_partition_offset(&self, partition_index: u8, partinfo: &PartInfo) -> (r:
        Result<MbrPartition, PartManError>)
        ensures
            r matches Ok(m) && m@ == (partition_index, *partinfo),
    {
        let mbr_partition = MbrPartition::new(partition_index, *partinfo);
        Ok(mbr_partition)
    }

    /// Checks whether the partition is a Linux partition.
    fn is_linux_partition(&self, partinfo: &PartInfo) -> (r: bool)
        ensures
            r == is_linux_type(partinfo.part_type),
            r <==> (partinfo.part_type == 0x83 || partinfo.part_type == 0x82 || partinfo.part_type
                == 0x8E),
    {
        let t = partinfo.part_type;
        t == 0x83 || t == 0x82 || t == 0x8E
    }

    /// Gets all valid MBR partitions, numbered 1 to 4 after their slots.
    pub fn get_all_mbr_partitions(&self) -> (r: Vec<MbrPartition>)
        ensures
            r@.map_values(|m: MbrPartition| m@) == match self@.mbr {
                Some(m) => used_slots_upto(m.partition_table.entries@, 4),
                None => Seq::empty(),
            },
    {
        let mut partitions: Vec<MbrPartition> = Vec::new();
        if let Some(mbr) = &self.mbr {
            let ghost entries = mbr.partition_table.entries@;
            let mut idx: usize = 0;
            while idx < 4
                invariant
                    entries == mbr.partition_table.entries@,
                    0 <= idx <= 4,
                    partitions@.map_values(|m: MbrPartition| m@) == used_slots_upto(
                        entries,
                        idx as int,
                    ),
                decreases 4 - idx,
            {
                if let Some(partinfo) = &mbr.partition_table.entries[idx] {
                    if let Ok(offset) = self.create_mbr_partition_offset(
                        idx as u8 + 1,
                        partinfo,
                    ) {
                        partitions.push(offset);
                    }
                }
                idx = idx + 1;
                assert(partitions@.map_values(|m: MbrPartition| m@) =~= used_slots_upto(
                    entries,
                    idx as int,
                ));
            }
        }
        proof {
            if self@.mbr is None {
                assert(partitions@.map_values(|m: MbrPartition| m@) =~= Seq::<
                    (u8, PartInfo),
                >::empty());
            }
        }
        partitions
    }

    /// Checks if the partition table is valid: a GPT table with at least one partition,
    /// or an MBR whose boot sector signature is `55 AA`.
    pub fn is_valid(&self) -> (r: bool)
        ensures
            r == match self@.table_type {
                PartitionTableType::GPT => self@.gpt_partitions.len() > 0,
                PartitionTableType::MBR => self@.mbr matches Some(m)
                    && m.bootsector_signature@ == seq![0x55u8, 0xAAu8],
            },
    {
        match self.table_type {
            PartitionTableType::GPT => self.gpt_partitions.len() > 0,
            PartitionTableType::MBR => match &self.mbr {
                Some(mbr) => {
                    let ok = mbr.bootsector_signature[0] == 0x55
                        && mbr.bootsector_signature[1] == 0xAA;
                    assert(ok == (mbr.bootsector_signature@ =~= seq![0x55u8, 0xAAu8]));
                    ok
                },
                None => false,
            },
        }
    }

    /// Gets disk info (GPT only): the usable range, its size, the blocks the partitions
    /// take together, what is left of the usable range (zero when the partitions take
    /// more) and the number of partitions.
    pub fn get_disk_info(&self) -> (r: Option<DiskInfo>)
        requires
            disk_info_defined(self@),
        ensures
            match self@.table_type {
                PartitionTableType::MBR => r is None,
                PartitionTableType::GPT => {
                    let h = self@.gpt_header->0;
                    let parts = self@.gpt_partitions;
                    let total = h.last_usable - h.first_usable + 1;
                    let used = used_sectors_upto(parts, parts.len() as int);
                    r matches Some(d) && d.first_usable_lba == h.first_usable
                        && d.last_usable_lba == h.last_usable && d.total_usable_sectors == total
                        && d.used_sectors == used && d.free_sectors == (if used <= total {
                        total - used
                    } else {
                        0
                    }) && d.partition_count == parts.len()
                },
            },
    {
        proof {
            use_type_invariant(self);
        }
        match self.table_type {
            PartitionTableType::GPT => {
                let gpt_header = match &self.gpt_header {
                    Some(h) => h,
                    None => {
                        return None;
                    },
                };
                let first_usable = gpt_header.first_usable;
                let last_usable = gpt_header.last_usable;
                let total_usable_sectors = last_usable - first_usable + 1;
                let ghost parts = self@.gpt_partitions;
                let mut used_sectors = 0u64;
                let n = self.gpt_partitions.len();
                let mut i: usize = 0;
                while i < n
                    invariant
                        parts == self.gpt_partitions@,
                        n == parts.len(),
                        0 <= i <= n,
                        disk_info_defined(self@),
                        self@.table_type == PartitionTableType::GPT,
                        self@.gpt_partitions == parts,
                        used_sectors == used_sectors_upto(parts, i as int),
                    decreases n - i,
                {
                    let partition = &self.gpt_partitions[i];
                    let start = partition.first_lba;
                    let end = partition.last_lba;
                    assert(parts[i as int].first_lba <= parts[i as int].last_lba);
                    proof {
                        lemma_used_sectors_monotone(parts, i + 1, parts.len() as int);
                    }
                    used_sectors = used_sectors + (end - start + 1);
                    i = i + 1;
                }
                let free_sectors = if total_usable_sectors >= used_sectors {
                    total_usable_sectors - used_sectors
                } else {
                    0
                };
                Some(
                    DiskInfo {
                        first_usable_lba: first_usable,
                        last_usable_lba: last_usable,
                        total_usable_sectors,
                        used_sectors,
                        free_sectors,
                        partition_count: n,
                    },
                )
            },
            PartitionTableType::MBR => None,
        }
    }

    /// Reads the root device of the boot arguments as a device path.
    fn parse_root_device(&self) -> (r: Option<(DeviceType, u8, u8)>)
        requires
            match self@.rootargs.root {
                None => true,
                Some(RootDeviceSpec::DevicePath(_)) => true,
                Some(RootDeviceSpec::Label(l)) => !"PARTLABEL="@.is_prefix_of(l),
                _ => false,
            },
        ensures
            r == match self@.rootargs.root {
                Some(RootDeviceSpec::DevicePath(p)) => device_path_spec(p),
                _ => None,
            },
    {
        match self.rootargs.root_device() {
            Some(RootDevice::DevicePath(path)) => parse_device_path(path.as_str()),
            Some(RootDevice::Uuid(uuid)) => parse_device_uuid(uuid.as_str()),
            Some(RootDevice::Label(label)) => parse_device_label(label.as_str()),
            Some(RootDevice::PartUuid(partuuid)) => parse_device_partuuid(partuuid.as_str()),
            Some(RootDevice::MajorMinor(major, minor)) => parse_major_minor(major, minor),
            None => None,
        }
    }

    /// Gets MBR partition offset by partition number (1 to 4).
    fn get_mbr_partition_offset_by_number(&self, partition_num: u8) -> (r: Result<
        MbrPartition,
        PartManError,
    >)
        ensures
            mbr_result(r) == mbr_by_number(self@.mbr, partition_num),
    {
        if partition_num == 0 || partition_num > 4 {
            return Err(PartManError::PartitionNotFound);
        }
        let mbr = match &self.mbr {
            Some(m) => m,
            None => {
                return Err(PartManError::NoLinuxPartition);
            },
        };
        let idx = (partition_num - 1) as usize;
        if let Some(partinfo) = &mbr.partition_table.entries[idx] {
            self.create_mbr_partition_offset(partition_num, partinfo)
        } else {
            Err(PartManError::PartitionNotFound)
        }
    }

    /// Smart guessing MBR offset: the Linux partition of best preference (native, then
    /// LVM, then swap), the first one in table order among equals.
    fn mbr_smart_guess_offset(&self) -> (r: Result<MbrPartition, PartManError>)
        ensures
            mbr_result(r) == mbr_smart_guess(self@.mbr),
    {
        let mbr = match &self.mbr {
            Some(m) => m,
            None => {
                return Err(PartManError::NoLinuxPartition);
            },
        };
        let ghost entries = mbr.partition_table.entries@;
        let mut best: Option<(usize, u8)> = None;
        let mut idx: usize = 0;
        while idx < 4
            invariant
                entries == mbr.partition_table.entries@,
                0 <= idx <= 4,
                match best {
                    Some((b, prio)) => best_linux_upto(entries, idx as int) == Some(b as int)
                        && b < idx && prio == entry_priority(entries[b as int]),
                    None => best_linux_upto(entries, idx as int) is None,
                },
            decreases 4 - idx,
        {
            if let Some(partinfo) = &mbr.partition_table.entries[idx] {
                if self.is_linux_partition(partinfo) {
                    let t = partinfo.part_type;
                    let prio: u8 = if t == 0x83 {
                        1
                    } else if t == 0x8E {
                        2
                    } else if t == 0x82 {
                        3
                    } else {
                        255
                    };
                    let better = match best {
                        Some((_, p)) => prio < p,
                        None => true,
                    };
                    if better {
                        best = Some((idx, prio));
                    }
                }
            }
            idx = idx + 1;
        }
        match best {
            Some((idx, _)) => {
                let partinfo = match &mbr.partition_table.entries[idx] {
                    Some(p) => p,
                    None => {
                        assert(false);
                        return Err(PartManError::NoLinuxPartition);
                    },
                };
                self.create_mbr_partition_offset(idx as u8 + 1, partinfo)
            },
            None => Err(PartManError::NoLinuxPartition),
        }
    }
}

impl PartManager {
    /// Calculates MBR offset from boot arguments.
    fn mbr_offset_from_rootargs(&self) -> (r: Result<MbrPartition, PartManError>)
        requires
            match self@.rootargs.root {
                None => true,
                Some(RootDeviceSpec::DevicePath(_)) => true,
                Some(RootDeviceSpec::Label(l)) => !"PARTLABEL="@.is_prefix_of(l),
                _ => false,
            },
        ensures
            mbr_result(r) == mbr_from_rootargs(self@),
    {
        let (_device_type, _device_index, partition_num) = match self.parse_root_device() {
            Some(t) => t,
            None => {
                return Err(PartManError::BootargsParseError);
            },
        };
        self.get_mbr_partition_offset_by_number(partition_num)
    }

    /// MBR offset calculation logic: the partition the boot arguments name, falling
    /// back to the smart guess.
    fn mbr_calculate_offset(&self) -> (r: Result<MbrPartition, PartManError>)
        requires
            match self@.rootargs.root {
                None => true,
                Some(RootDeviceSpec::DevicePath(_)) => true,
                Some(RootDeviceSpec::Label(l)) => !"PARTLABEL="@.is_prefix_of(l),
                _ => false,
            },
        ensures
            mbr_result(r) == mbr_choice(self@),
    {
        match self.mbr_offset_from_rootargs() {
            Ok(offset) => {
                return Ok(offset);
            },
            Err(_) => {},
        }
        self.mbr_smart_guess_offset()
    }

    /// MBR partition offset calculation.
    fn mbr_part_offset(&mut self) -> (r: Result<usize, &'static str>)
        requires
            old(self)@.table_type == PartitionTableType::MBR,
            part_offset_defined(old(self)@),
        ensures
            *final(self) == *old(self),
            match part_offset_value(old(self)@) {
                Some(off) => r matches Ok(o) && o == off,
                None => r matches Err(e) && e@ == part_offset_error(PartitionTableType::MBR),
            },
    {
        match self.mbr_calculate_offset() {
            Ok(partition) => {
                let start_sector = partition.part_info().start_sector_lba() as usize * BLOCK_SIZE;
                Ok(start_sector)
            },
            Err(_) => Err("No suitable MBR partition found"),
        }
    }

    /// Looks up the first block of the GPT partition named `label`.
    fn parse_gpt_device_label(&self, label: &str) -> (r: Option<u64>)
        ensures
            ({
                let parts = self@.gpt_partitions;
                let k = first_named(parts, label@);
                r == if k < parts.len() {
                    Some(parts[k].first_lba)
                } else {
                    None
                }
            }),
    {
        match self.find_gpt_partition_by_name(label) {
            Some(part) => Some(part.first_lba),
            None => None,
        }
    }

    /// GPT partition offset calculation.
    fn gpt_part_offset(&mut self) -> (r: Result<usize, &'static str>)
        requires
            old(self)@.table_type == PartitionTableType::GPT,
            part_offset_defined(old(self)@),
        ensures
            *final(self) == *old(self),
            match part_offset_value(old(self)@) {
                Some(off) => r matches Ok(o) && o == off,
                None => r matches Err(e) && e@ == part_offset_error(PartitionTableType::GPT),
            },
    {
        let first_lba: Option<u64> = match self.rootargs().root_device() {
            Some(RootDevice::Label(label)) => self.parse_gpt_device_label(label.as_str()),
            Some(_) => {
                assert(false);
                None
            },
            None => None,
        };
        if let Some(lba) = first_lba {
            let offset = lba as usize * BLOCK_SIZE;
            Ok(offset)
        } else {
            Err("Failed to parse root device label for GPT partition offset")
        }
    }

    /// Calculates the partition offset: the byte offset of the root partition.  For a
    /// GPT table it is the start of the first partition whose name is the root label;
    /// for an MBR it is the start of the partition the root device path names, or else
    /// of the best Linux partition.
    pub fn part_offset(&mut self) -> (r: Result<usize, &'static str>)
        requires
            part_offset_defined(old(self)@),
        ensures
            *final(self) == *old(self),
            match part_offset_value(old(self)@) {
                Some(off) => r matches Ok(o) && o == off,
                None => r matches Err(e) && e@ == part_offset_error(old(self)@.table_type),
            },
    {
        match self.table_type {
            PartitionTableType::GPT => self.gpt_part_offset(),
            PartitionTableType::MBR => self.mbr_part_offset(),
        }
    }
}

/// A longer prefix of the partitions takes no fewer blocks.
pub proof fn lemma_used_sectors_monotone(parts: Seq<GPTPartition>, i: int, j: int)
    requires
        0 <= i <= j <= parts.len(),
        forall|k: int| 0 <= k < parts.len() ==> #[trigger] parts[k].first_lba <= parts[k].last_lba,
    ensures
        used_sectors_upto(parts, i) <= used_sectors_upto(parts, j),
    decreases j - i,
{
    if i < j {
        lemma_used_sectors_monotone(parts, i, j - 1);
        assert(parts[j - 1].first_lba <= parts[j - 1].last_lba);
    }
}

} // verus!
