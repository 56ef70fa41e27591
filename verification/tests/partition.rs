use partman::cmdline::{BootArgsFileSystem, RootDevice};
use partman::gpt::{GPTHeader, GPTPartition, Uuid};
use partman::partition::{is_protective_mbr, DiskInfo, MbrPartition, PartitionTableType};
use partman::setup::{PartSetup, SetupEvent, SetupRequest, SetupStep};
use partman::{PartManError, PartManager};

/// A boot sector with the given (boot flag, type, start, count) entries and signature.
fn boot_sector(entries: &[(u8, u8, u32, u32)]) -> [u8; 512] {
    let mut b = [0u8; 512];
    for (i, (flag, ty, start, count)) in entries.iter().enumerate() {
        let o = 446 + 16 * i;
        b[o] = *flag;
        b[o + 1] = if *ty != 0 { 1 } else { 0 };
        b[o + 4] = *ty;
        b[o + 8..o + 12].copy_from_slice(&start.to_le_bytes());
        b[o + 12..o + 16].copy_from_slice(&count.to_le_bytes());
    }
    b[510] = 0x55;
    b[511] = 0xAA;
    b
}

fn args(root: Option<RootDevice>) -> BootArgsFileSystem {
    let mut a = BootArgsFileSystem::new();
    a.root = root;
    a
}

fn path(p: &str) -> Option<RootDevice> {
    Some(RootDevice::DevicePath(p.to_string()))
}

/// Runs the detection on a boot sector alone (an MBR disk).
fn detect_mbr(block: [u8; 512], rootargs: BootArgsFileSystem) -> Result<PartManager, &'static str> {
    let (setup, req) = PartSetup::start(rootargs);
    assert!(matches!(req, SetupRequest::ReadBlock(0)));
    let ev = SetupEvent::BlockRead(Ok(block));
    assert!(setup.accepts_event(&ev));
    match setup.step(ev) {
        SetupStep::Done(r) => r,
        SetupStep::Pending(..) => panic!("an MBR disk needs no more blocks"),
    }
}

#[test]
fn detection_reads_mbr() {
    let block = boot_sector(&[(0x80, 0x0C, 2048, 1000), (0x00, 0x83, 4096, 5000)]);
    assert!(!is_protective_mbr(&block));
    let m = detect_mbr(block, args(path("/dev/sda2"))).unwrap();
    assert_eq!(*m.table_type(), PartitionTableType::MBR);
    assert!(m.is_valid());
    assert!(m.gpt_header().is_none());
    assert!(m.gpt_partitions().is_empty());
    let mbr = m.mbr().unwrap();
    let e0 = mbr.partition_table.entries[0].unwrap();
    assert!(e0.bootable);
    assert_eq!(e0.part_type(), 0x0C);
    assert_eq!(e0.start_sector_lba(), 2048);
    assert_eq!(e0.sector_count_lba(), 1000);
    assert_eq!(e0.first_sector_chs, [1, 0, 0]);
    assert!(mbr.partition_table.entries[2].is_none());
    assert_eq!(mbr.bootsector_signature, [0x55, 0xAA]);
    assert_eq!(m.rootargs().root, path("/dev/sda2"));
}

#[test]
fn detection_errors_on_boot_sector() {
    let (setup, _) = PartSetup::start(args(None));
    match setup.step(SetupEvent::BlockRead(Err(PartManError::MbrReadFailed))) {
        SetupStep::Done(Err(e)) => assert_eq!(e, "Failed to read MBR"),
        _ => panic!("expected an error"),
    }
    let mut block = boot_sector(&[(0x00, 0x83, 1, 1)]);
    block[511] = 0;
    assert_eq!(detect_mbr(block, args(None)).err(), Some("Invalid MBR signature"));
    let mut block = boot_sector(&[(0x00, 0x83, 1, 1)]);
    block[444] = 1;
    assert_eq!(detect_mbr(block, args(None)).err(), Some("Invalid MBR data"));
    let mut block = boot_sector(&[(0x00, 0x83, 1, 1)]);
    block[444] = 0x5A;
    block[445] = 0x5A;
    assert!(detect_mbr(block, args(None)).is_ok());
}

#[test]
fn mbr_entries_that_mbrs_refuses_are_unused() {
    // Boot flag 0x01 is unclear and type 0x99 is unknown: neither slot holds a partition.
    let block = boot_sector(&[(0x01, 0x83, 1, 1), (0x00, 0x99, 1, 1), (0x00, 0x83, 7, 8)]);
    let m = detect_mbr(block, args(None)).unwrap();
    let all = m.get_all_mbr_partitions();
    assert_eq!(all.len(), 1);
    assert_eq!(all[0].partition_index(), 3);
    assert_eq!(all[0].part_info().start_sector_lba(), 7);
}

#[test]
fn mbr_offset_from_root_path() {
    let block = boot_sector(&[(0x80, 0x0C, 2048, 1000), (0x00, 0x07, 4096, 5000)]);
    let mut m = detect_mbr(block, args(path("/dev/sda2"))).unwrap();
    assert_eq!(m.part_offset(), Ok(4096 * 512));
    let mut m = detect_mbr(block, args(path("/dev/mmcblk0p1"))).unwrap();
    assert_eq!(m.part_offset(), Ok(2048 * 512));
}

#[test]
fn mbr_offset_smart_guess_prefers_native_linux() {
    let block = boot_sector(&[
        (0x00, 0x82, 100, 10),
        (0x00, 0x8E, 200, 10),
        (0x00, 0x83, 300, 10),
        (0x00, 0x83, 400, 10),
    ]);
    // No root device: the guess takes the first native Linux partition.
    let mut m = detect_mbr(block, args(None)).unwrap();
    assert_eq!(m.part_offset(), Ok(300 * 512));
    // The root path names an unused slot number: the guess is taken instead.
    let block2 = boot_sector(&[(0x00, 0x82, 100, 10), (0x00, 0x8E, 200, 10)]);
    let mut m = detect_mbr(block2, args(path("/dev/sda4"))).unwrap();
    assert_eq!(m.part_offset(), Ok(200 * 512));
    // A root path that does not read as a device: the guess is taken too.
    let mut m = detect_mbr(block2, args(path("/dev/nvme0n1p1"))).unwrap();
    assert_eq!(m.part_offset(), Ok(200 * 512));
    // A label root device cannot be looked up for an MBR: the guess is taken.
    let mut m = detect_mbr(block2, args(Some(RootDevice::Label("root".to_string())))).unwrap();
    assert_eq!(m.part_offset(), Ok(200 * 512));
}

#[test]
fn mbr_offset_without_linux_partition() {
    let block = boot_sector(&[(0x80, 0x07, 2048, 1000)]);
    let mut m = detect_mbr(block, args(path("/dev/sdb3"))).unwrap();
    assert_eq!(m.part_offset(), Err("No suitable MBR partition found"));
    assert!(m.get_disk_info().is_none());
}

#[test]
fn all_mbr_partitions_numbered_by_slot() {
    let block = boot_sector(&[(0x00, 0x83, 1, 2), (0, 0, 0, 0), (0x80, 0x0B, 5, 6), (0x00, 0x82, 9, 9)]);
    let m = detect_mbr(block, args(None)).unwrap();
    let all = m.get_all_mbr_partitions();
    let numbers: Vec<u8> = all.iter().map(|p| p.partition_index()).collect();
    assert_eq!(numbers, vec![1, 3, 4]);
    assert_eq!(all[1].part_info().part_type(), 0x0B);
}

#[test]
fn empty_type_entry_with_data_is_kept() {
    // An entry of type 0x00 counts as unused only when all of its bytes are zero.
    let mut block = boot_sector(&[(0x00, 0x83, 1, 2), (0, 0, 0, 0)]);
    block[446 + 16 + 8] = 5;
    let m = detect_mbr(block, args(None)).unwrap();
    let numbers: Vec<u8> = m.get_all_mbr_partitions().iter().map(|p| p.partition_index()).collect();
    assert_eq!(numbers, vec![1, 2]);
}

#[test]
fn mbr_partition_accessors() {
    let block = boot_sector(&[(0x00, 0x83, 11, 22)]);
    let m = detect_mbr(block, args(None)).unwrap();
    let info = m.mbr().unwrap().partition_table.entries[0].unwrap();
    let p = MbrPartition::new(1, info);
    assert_eq!(p.partition_index(), 1);
    assert_eq!(*p.part_info(), info);
    assert_eq!(p.part_info().sector_count_lba(), 22);
}

fn guid(first: u8) -> Uuid {
    let mut b = [0u8; 16];
    b[0] = first;
    Uuid { bytes: b }
}

fn name(s: &str) -> [u16; 36] {
    let mut n = [0u16; 36];
    for (i, u) in s.encode_utf16().enumerate() {
        n[i] = u;
    }
    n
}

fn partition(ty: Uuid, first: u64, last: u64, label: &str) -> GPTPartition {
    GPTPartition { part_type: ty, id: guid(9), first_lba: first, last_lba: last, attr: [0; 8], name: name(label) }
}

fn header(num_parts: u32, part_size: u32, first_usable: u64, last_usable: u64) -> GPTHeader {
    GPTHeader {
        signature: *b"EFI PART",
        revision: 0x0001_0000,
        header_size_le: 92,
        header_crc32: 0,
        reserved: 0,
        current_lba: 1,
        backup_lba: 1000,
        first_usable,
        last_usable,
        disk_guid: guid(7),
        part_start_lba: 2,
        num_parts,
        part_size,
        part_table_crc32: 0,
    }
}

/// Runs the detection of a GPT disk, answering the parse requests with `hdr` and `parts`.
fn detect_gpt(
    hdr: GPTHeader,
    parts: Vec<GPTPartition>,
    rootargs: BootArgsFileSystem,
    reads: &mut Vec<u64>,
) -> Result<PartManager, &'static str> {
    let protective = boot_sector(&[(0x00, 0xEE, 1, 0xFFFF_FFFF)]);
    assert!(is_protective_mbr(&protective));
    let (mut setup, mut req) = PartSetup::start(rootargs);
    let mut parts = Some(parts);
    loop {
        let ev = match req {
            SetupRequest::ReadBlock(lba) => {
                reads.push(lba);
                let mut b = [0u8; 512];
                b[0] = lba as u8;
                SetupEvent::BlockRead(Ok(if lba == 0 { protective } else { b }))
            }
            SetupRequest::ParseGptHeader(b) => {
                assert_eq!(b[0], 1);
                SetupEvent::GptHeaderParsed(Ok(hdr))
            }
            SetupRequest::ParseGptEntries { data, part_size, slots } => {
                assert_eq!(part_size, hdr.part_size);
                assert_eq!(slots, (hdr.part_size as usize / 128) * hdr.num_parts as usize);
                assert_eq!(data.len() % 512, 0);
                SetupEvent::GptEntriesParsed(parts.take().unwrap())
            }
        };
        assert!(setup.accepts_event(&ev));
        match setup.step(ev) {
            SetupStep::Pending(s, r) => {
                setup = s;
                req = r;
            }
            SetupStep::Done(r) => return r,
        }
    }
}

fn efi_partition_set() -> Vec<GPTPartition> {
    vec![
        partition(guid(1), 2048, 4095, "boot"),
        partition(Uuid::efi(), 4096, 8191, "EFI"),
        partition(guid(1), 8192, 20479, "rootfs"),
        partition(Uuid::efi(), 20480, 20481, "EFI2"),
    ]
}

#[test]
fn detection_reads_gpt_table_blocks() {
    let mut reads = Vec::new();
    let m = detect_gpt(header(128, 128, 34, 99966), efi_partition_set(), args(None), &mut reads).unwrap();
    // 128 entries of 128 bytes are 32 blocks, starting at block 2.
    let mut expected = vec![0, 1];
    expected.extend(2..34);
    assert_eq!(reads, expected);
    assert_eq!(*m.table_type(), PartitionTableType::GPT);
    assert!(m.mbr().is_none());
    assert_eq!(m.gpt_header().unwrap().num_parts, 128);
    assert_eq!(m.gpt_partitions().len(), 4);
    assert!(m.is_valid());
}

#[test]
fn detection_with_empty_entry_array() {
    let mut reads = Vec::new();
    let m = detect_gpt(header(0, 128, 34, 100), vec![], args(None), &mut reads).unwrap();
    assert_eq!(reads, vec![0, 1]);
    assert!(!m.is_valid());
}

#[test]
fn detection_gpt_errors() {
    let protective = boot_sector(&[(0x00, 0xEE, 1, 100)]);
    let (setup, _) = PartSetup::start(args(None));
    let setup = match setup.step(SetupEvent::BlockRead(Ok(protective))) {
        SetupStep::Pending(s, SetupRequest::ReadBlock(1)) => s,
        _ => panic!("expected a request for block 1"),
    };
    match setup.step(SetupEvent::BlockRead(Err(PartManError::InvalidData))) {
        SetupStep::Done(Err(e)) => assert_eq!(e, "Failed to read GPT header"),
        _ => panic!("expected an error"),
    }
    let (setup, _) = PartSetup::start(args(None));
    let setup = match setup.step(SetupEvent::BlockRead(Ok(protective))) {
        SetupStep::Pending(s, _) => s,
        _ => panic!(),
    };
    let setup = match setup.step(SetupEvent::BlockRead(Ok([0u8; 512]))) {
        SetupStep::Pending(s, SetupRequest::ParseGptHeader(_)) => s,
        _ => panic!(),
    };
    match setup.step(SetupEvent::GptHeaderParsed(Err("bad signature"))) {
        SetupStep::Done(Err(e)) => assert_eq!(e, "Invalid GPT header data"),
        _ => panic!("expected an error"),
    }
}

#[test]
fn detection_gpt_table_read_error() {
    let protective = boot_sector(&[(0x00, 0xEE, 1, 100)]);
    let (setup, _) = PartSetup::start(args(None));
    let mut s = match setup.step(SetupEvent::BlockRead(Ok(protective))) {
        SetupStep::Pending(s, _) => s,
        _ => panic!(),
    };
    s = match s.step(SetupEvent::BlockRead(Ok([0u8; 512]))) {
        SetupStep::Pending(s, _) => s,
        _ => panic!(),
    };
    s = match s.step(SetupEvent::GptHeaderParsed(Ok(header(8, 128, 34, 100)))) {
        SetupStep::Pending(s, SetupRequest::ReadBlock(2)) => s,
        _ => panic!("expected a request for block 2"),
    };
    s = match s.step(SetupEvent::BlockRead(Ok([0u8; 512]))) {
        SetupStep::Pending(s, SetupRequest::ReadBlock(3)) => s,
        _ => panic!("expected a request for block 3"),
    };
    match s.step(SetupEvent::BlockRead(Err(PartManError::InvalidData))) {
        SetupStep::Done(Err(e)) => assert_eq!(e, "Failed to read partition table data"),
        _ => panic!("expected an error"),
    }
}

#[test]
fn detection_refuses_unreadable_entry_arrays() {
    let protective = boot_sector(&[(0x00, 0xEE, 1, 100)]);
    let (setup, _) = PartSetup::start(args(None));
    let s = match setup.step(SetupEvent::BlockRead(Ok(protective))) {
        SetupStep::Pending(s, _) => s,
        _ => panic!(),
    };
    let s = match s.step(SetupEvent::BlockRead(Ok([0u8; 512]))) {
        SetupStep::Pending(s, _) => s,
        _ => panic!(),
    };
    let mut h = header(128, 128, 34, 100);
    h.part_start_lba = u64::MAX - 10;
    assert!(!s.accepts_event(&SetupEvent::GptHeaderParsed(Ok(h))));
    h.part_start_lba = u64::MAX - 31;
    assert!(s.accepts_event(&SetupEvent::GptHeaderParsed(Ok(h))));
    assert!(!s.accepts_event(&SetupEvent::BlockRead(Ok([0u8; 512]))));
}

#[test]
fn gpt_find_by_name() {
    let mut reads = Vec::new();
    let m = detect_gpt(header(4, 128, 34, 99966), efi_partition_set(), args(None), &mut reads).unwrap();
    assert_eq!(m.find_gpt_partition_by_name("rootfs").unwrap().first_lba, 8192);
    assert_eq!(m.find_gpt_partition_by_name("EFI").unwrap().first_lba, 4096);
    assert!(m.find_gpt_partition_by_name("root").is_none());
    assert!(m.find_gpt_partition_by_name("").is_none());
}

#[test]
fn gpt_find_by_type_and_efi() {
    let mut reads = Vec::new();
    let m = detect_gpt(header(4, 128, 34, 99966), efi_partition_set(), args(None), &mut reads).unwrap();
    let efi = m.find_gpt_partitions_by_type(&Uuid::efi());
    let firsts: Vec<u64> = efi.iter().map(|p| p.first_lba).collect();
    assert_eq!(firsts, vec![4096, 20480]);
    assert_eq!(m.get_efi_system_partition().unwrap().first_lba, 4096);
    assert!(m.find_gpt_partitions_by_type(&guid(5)).is_empty());
    let none = detect_gpt(header(4, 128, 34, 99966), vec![partition(guid(1), 1, 2, "a")], args(None), &mut reads)
        .unwrap();
    assert!(none.get_efi_system_partition().is_none());
}

#[test]
fn gpt_offset_by_label() {
    let mut reads = Vec::new();
    let label = |l: &str| args(Some(RootDevice::Label(l.to_string())));
    let mut m = detect_gpt(header(4, 128, 34, 99966), efi_partition_set(), label("rootfs"), &mut reads).unwrap();
    assert_eq!(m.part_offset(), Ok(8192 * 512));
    let mut m = detect_gpt(header(4, 128, 34, 99966), efi_partition_set(), label("missing"), &mut reads).unwrap();
    assert_eq!(
        m.part_offset(),
        Err("Failed to parse root device label for GPT partition offset")
    );
    let mut m = detect_gpt(header(4, 128, 34, 99966), efi_partition_set(), args(None), &mut reads).unwrap();
    assert_eq!(
        m.part_offset(),
        Err("Failed to parse root device label for GPT partition offset")
    );
}

#[test]
fn gpt_disk_info() {
    let mut reads = Vec::new();
    let m = detect_gpt(header(4, 128, 34, 99966), efi_partition_set(), args(None), &mut reads).unwrap();
    let d = m.get_disk_info().unwrap();
    assert_eq!(d.first_usable_lba, 34);
    assert_eq!(d.last_usable_lba, 99966);
    assert_eq!(d.total_usable_sectors, 99933);
    assert_eq!(d.used_sectors, 2048 + 4096 + 12288 + 2);
    assert_eq!(d.free_sectors, 99933 - 18434);
    assert_eq!(d.partition_count, 4);
    assert_eq!(d.total_usable_bytes(), 99933 * 512);
    assert_eq!(d.used_bytes(), 18434 * 512);
    assert_eq!(d.free_bytes(), (99933 - 18434) * 512);
}

#[test]
fn gpt_disk_info_free_saturates() {
    let mut reads = Vec::new();
    let m = detect_gpt(header(1, 128, 10, 19), vec![partition(guid(1), 0, 99, "big")], args(None), &mut reads)
        .unwrap();
    let d = m.get_disk_info().unwrap();
    assert_eq!(d.total_usable_sectors, 10);
    assert_eq!(d.used_sectors, 100);
    assert_eq!(d.free_sectors, 0);
}

#[test]
fn disk_info_bytes() {
    let d = DiskInfo {
        first_usable_lba: 0,
        last_usable_lba: 0,
        total_usable_sectors: 3,
        used_sectors: 1,
        free_sectors: 2,
        partition_count: 1,
    };
    assert_eq!(d.total_usable_bytes(), 1536);
    assert_eq!(d.used_bytes(), 512);
    assert_eq!(d.free_bytes(), 1024);
}

#[test]
fn guid_and_names() {
    let efi = Uuid::efi();
    assert_eq!(
        efi.bytes,
        [0x28, 0x73, 0x2A, 0xC1, 0x1F, 0xF8, 0xD2, 0x11, 0xBA, 0x4B, 0x00, 0xA0, 0xC9, 0x3E, 0xC9, 0x3B]
    );
    assert!(efi.same_as(&Uuid::efi()));
    assert!(!efi.same_as(&Uuid::nil()));
    assert_eq!(Uuid::nil().bytes, [0u8; 16]);
    let p = partition(efi, 0, 0, "Hello 𝄞 wörld");
    assert_eq!(p.get_name(), Some("Hello 𝄞 wörld".to_string()));
    let mut q = p;
    q.name[2] = 0xD800;
    assert_eq!(q.get_name(), None);
    q.name[2] = 0;
    assert_eq!(q.get_name(), Some("He".to_string()));
    let mut full = p;
    full.name = [0x41; 36];
    assert_eq!(full.get_name(), Some("A".repeat(36)));
    let mut unpaired_after_nul = p;
    unpaired_after_nul.name = name("ab");
    unpaired_after_nul.name[5] = 0xDC00;
    assert_eq!(unpaired_after_nul.get_name(), Some("ab".to_string()));
}
