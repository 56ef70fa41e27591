use partman::cmdline::{extract_root_from_bootargs, BootArgsFileSystem, FileSystemType, RootDevice};
use partman::parse::{parse_device_label, parse_device_path};
use partman::text::parse_u32;
use partman::{DeviceType, PartitionNaming};

#[test]
fn extract_root_finds_first_root_argument() {
    assert_eq!(
        extract_root_from_bootargs("console=ttyS0 root=/dev/sda2 rw"),
        Some("/dev/sda2")
    );
    assert_eq!(
        extract_root_from_bootargs("root=PARTLABEL=rootfs root=/dev/sdb1"),
        Some("PARTLABEL=rootfs")
    );
}

#[test]
fn extract_root_without_root_argument() {
    assert_eq!(extract_root_from_bootargs("console=ttyS0 rw quiet"), None);
    assert_eq!(extract_root_from_bootargs(""), None);
    assert_eq!(extract_root_from_bootargs("rootfstype=ext4"), None);
}

#[test]
fn extract_root_splits_on_spaces_only() {
    // A tab does not separate pieces, so "quiet\troot=/dev/sda1" does not begin with root=.
    assert_eq!(extract_root_from_bootargs("quiet\troot=/dev/sda1"), None);
    assert_eq!(extract_root_from_bootargs("  root=  "), Some(""));
    assert_eq!(extract_root_from_bootargs("root=/dev/é1 x"), Some("/dev/é1"));
}

#[test]
fn root_device_prefixes() {
    assert_eq!(
        RootDevice::from_str("UUID=1234-abcd"),
        Ok(RootDevice::Uuid("1234-abcd".to_string()))
    );
    assert_eq!(
        RootDevice::from_str("PARTLABEL=rootfs"),
        Ok(RootDevice::Label("rootfs".to_string()))
    );
    assert_eq!(
        RootDevice::from_str("PARTUUID=0000-01"),
        Ok(RootDevice::PartUuid("0000-01".to_string()))
    );
    assert_eq!(
        RootDevice::from_str("/dev/mmcblk0p2"),
        Ok(RootDevice::DevicePath("/dev/mmcblk0p2".to_string()))
    );
    assert_eq!(
        RootDevice::from_str("sda1"),
        Ok(RootDevice::DevicePath("sda1".to_string()))
    );
}

#[test]
fn root_device_major_minor() {
    assert_eq!(RootDevice::from_str("8:1"), Ok(RootDevice::MajorMinor(8, 1)));
    assert_eq!(RootDevice::from_str("+8:01"), Ok(RootDevice::MajorMinor(8, 1)));
    assert_eq!(
        RootDevice::from_str("4294967295:0"),
        Ok(RootDevice::MajorMinor(4294967295, 0))
    );
}

#[test]
fn root_device_major_minor_errors() {
    assert_eq!(
        RootDevice::from_str("x:1"),
        Err("Invalid major number".to_string())
    );
    assert_eq!(
        RootDevice::from_str("8:y"),
        Err("Invalid minor number".to_string())
    );
    assert_eq!(
        RootDevice::from_str("4294967296:1"),
        Err("Invalid major number".to_string())
    );
    assert_eq!(
        RootDevice::from_str(":1"),
        Err("Invalid major number".to_string())
    );
    assert_eq!(
        RootDevice::from_str("8:-1"),
        Err("Invalid minor number".to_string())
    );
    assert_eq!(
        RootDevice::from_str("1:2:3"),
        Err("Invalid major:minor format".to_string())
    );
}

#[test]
fn root_device_through_from_str_trait() {
    let d: RootDevice = "UUID=abc".parse().unwrap();
    assert_eq!(d, RootDevice::Uuid("abc".to_string()));
    let f: FileSystemType = "Btrfs".parse().unwrap();
    assert_eq!(f, FileSystemType::Btrfs);
}

#[test]
fn file_system_type_names() {
    assert_eq!(FileSystemType::from_str("ext4"), Ok(FileSystemType::Ext4));
    assert_eq!(FileSystemType::from_str("EXT3"), Ok(FileSystemType::Ext3));
    assert_eq!(FileSystemType::from_str("Ext2"), Ok(FileSystemType::Ext2));
    assert_eq!(FileSystemType::from_str("XFS"), Ok(FileSystemType::Xfs));
    assert_eq!(FileSystemType::from_str("f2fs"), Ok(FileSystemType::F2fs));
    assert_eq!(FileSystemType::from_str("NTFS"), Ok(FileSystemType::Ntfs));
    assert_eq!(FileSystemType::from_str("vfat"), Ok(FileSystemType::Vfat));
    assert_eq!(FileSystemType::from_str("FAT32"), Ok(FileSystemType::Vfat));
    assert_eq!(
        FileSystemType::from_str("ZFS"),
        Ok(FileSystemType::Other("ZFS".to_string()))
    );
    assert_eq!(
        FileSystemType::from_str("ext44"),
        Ok(FileSystemType::Other("ext44".to_string()))
    );
}

#[test]
fn boot_args_root_and_type() {
    let c = BootArgsFileSystem::parse_from_bootargs("console=ttyS0 root=/dev/sda2 rootfstype=ext4 rw")
        .unwrap();
    assert_eq!(c.root, Some(RootDevice::DevicePath("/dev/sda2".to_string())));
    assert_eq!(c.rootfstype, Some(FileSystemType::Ext4));
}

#[test]
fn boot_args_later_argument_wins() {
    let c = BootArgsFileSystem::parse_from_bootargs(
        "root=/dev/sda1\troot=PARTLABEL=sys\n rootfstype=xfs rootfstype=VFAT",
    )
    .unwrap();
    assert_eq!(c.root, Some(RootDevice::Label("sys".to_string())));
    assert_eq!(c.rootfstype, Some(FileSystemType::Vfat));
}

#[test]
fn boot_args_empty_and_unknown() {
    let c = BootArgsFileSystem::parse_from_bootargs("   quiet  splash ").unwrap();
    assert_eq!(c, BootArgsFileSystem::new());
    let c = BootArgsFileSystem::parse_from_bootargs("").unwrap();
    assert_eq!(c.root, None);
    assert_eq!(c.rootfstype, None);
}

#[test]
fn boot_args_root_error_stops_reading() {
    assert_eq!(
        BootArgsFileSystem::parse_from_bootargs("rootfstype=ext4 root=a:b root=/dev/sda1"),
        Err("Invalid major number".to_string())
    );
}

#[test]
fn boot_args_unicode_whitespace_separates() {
    let c = BootArgsFileSystem::parse_from_bootargs("quiet\u{3000}root=UUID=ab\u{a0}x").unwrap();
    assert_eq!(c.root, Some(RootDevice::Uuid("ab".to_string())));
}

#[test]
fn boot_args_accessors() {
    let mut c = BootArgsFileSystem::default();
    assert_eq!(c.root_device(), None);
    assert_eq!(c.device_path(), None);
    c.root = Some(RootDevice::PartUuid("p-1".to_string()));
    assert_eq!(c.root_device(), Some(&RootDevice::PartUuid("p-1".to_string())));
    assert_eq!(c.device_path(), Some("p-1".to_string()));
    c.root = Some(RootDevice::MajorMinor(8, 2));
    assert_eq!(c.device_path(), None);
    c.root = Some(RootDevice::DevicePath("/dev/sda3".to_string()));
    assert_eq!(c.device_path(), Some("/dev/sda3".to_string()));
}

#[test]
fn device_type_prefix_and_naming() {
    assert_eq!(DeviceType::Sata.prefix(), "sd");
    assert_eq!(DeviceType::SdMmc.prefix(), "mmcblk");
    assert_eq!(DeviceType::Nvme.prefix(), "nvme");
    assert_eq!(DeviceType::Sata.partition_naming(), PartitionNaming::Direct);
    assert_eq!(DeviceType::SdMmc.partition_naming(), PartitionNaming::Prefixed);
    assert_eq!(DeviceType::Nvme.partition_naming(), PartitionNaming::Prefixed);
}

#[test]
fn device_path_sata() {
    assert_eq!(parse_device_path("/dev/sda2"), Some((DeviceType::Sata, 0, 2)));
    assert_eq!(parse_device_path("/dev/sdz9"), Some((DeviceType::Sata, 25, 9)));
    assert_eq!(parse_device_path("/dev/sdb10"), Some((DeviceType::Sata, 1, 1)));
    assert_eq!(parse_device_path("/dev/sda0"), None);
    assert_eq!(parse_device_path("/dev/sdA1"), None);
    assert_eq!(parse_device_path("/dev/sda"), None);
    assert_eq!(parse_device_path("sda1"), None);
}

#[test]
fn device_path_mmc() {
    assert_eq!(parse_device_path("/dev/mmcblk0p1"), Some((DeviceType::SdMmc, 0, 1)));
    assert_eq!(parse_device_path("/dev/mmcblk2p7"), Some((DeviceType::SdMmc, 2, 7)));
    assert_eq!(parse_device_path("/dev/mmcblk0p0"), None);
    assert_eq!(parse_device_path("/dev/mmcblkxp1"), None);
    assert_eq!(parse_device_path("/dev/mmcblk0x1"), None);
    assert_eq!(parse_device_path("/dev/mmcblk0p"), None);
    assert_eq!(parse_device_path("/dev/nvme0n1p1"), None);
}

#[test]
fn device_path_counts_bytes_where_the_reader_does() {
    // "sé" is three bytes, so "sé" after /dev/ is not long enough for a SATA name,
    // and the byte offset of 'p' is used as a character position for MMC names.
    assert_eq!(parse_device_path("/dev/sdé"), None);
    assert_eq!(parse_device_path("/dev/mmcblk0éép12"), None);
    assert_eq!(parse_device_path("/dev/mmcblk0ép1234"), Some((DeviceType::SdMmc, 0, 2)));
}

#[test]
fn device_label_without_prefix() {
    assert_eq!(parse_device_label("rootfs"), None);
}

#[test]
fn decimal_parsing() {
    assert_eq!(parse_u32("0"), Some(0));
    assert_eq!(parse_u32("+42"), Some(42));
    assert_eq!(parse_u32("007"), Some(7));
    assert_eq!(parse_u32("4294967295"), Some(u32::MAX));
    assert_eq!(parse_u32("4294967296"), None);
    assert_eq!(parse_u32("99999999999999999999"), None);
    assert_eq!(parse_u32(""), None);
    assert_eq!(parse_u32("+"), None);
    assert_eq!(parse_u32("-1"), None);
    assert_eq!(parse_u32("1a"), None);
    assert_eq!(parse_u32("１"), None);
}
