//! A partition manager for block devices with an MBR or a GUID partition table.
//!
//! It detects the partition table of a disk (`setup`), reads the root device and file
//! system type from a kernel command line (`cmdline`, `parse`), and answers where the
//! root partition starts and which partitions the disk holds (`partition`).  The
//! properties that tie these together are proved in `laws`.
pub mod block;
pub mod cmdline;
pub mod gpt;
pub mod laws;
pub mod mbr;
pub mod parse;
pub mod partition;
pub mod setup;
pub mod text;

pub use crate::block::PartBlock;
pub use crate::partition::PartManager;
pub use crate::cmdline::{
    extract_root_from_bootargs, BootArgsFileSystem, FileSystemType, RootDevice,
};

use vstd::prelude::*;

verus! {

/// Size in bytes of one logical block.
pub const BLOCK_SIZE: usize = 512;

/// Errors of the partition manager.
#[derive(Debug, Clone, Copy, PartialEq, Eq, Structural)]
pub enum PartManError {
    /// Failed to read MBR
    MbrReadFailed,
    /// No Linux partition found
    NoLinuxPartition,
    /// Partition not found
    PartitionNotFound,
    /// Offset calculation overflow
    OffsetOverflow,
    /// Invalid data
    InvalidData,
    /// No root parameter
    NoRootParameter,
    /// Bootargs parse error
    BootargsParseError,
}

/// The kind of block device a root path names.
#[derive(Debug, Clone, Copy, PartialEq, Eq, Structural)]
pub enum DeviceType {
    Sata,
    SdMmc,
    Nvme,
}

/// How the partitions of a device are named after the device.
#[derive(Debug, Clone, Copy, PartialEq, Eq, Structural)]
pub enum PartitionNaming {
    /// The number follows the device name: `sda1`, `sda2`.
    Direct,
    /// A `p` stands between the device name and the number: `mmcblk0p1`.
    Prefixed,
}

impl DeviceType {
    /// The name prefix of devices of this kind.
    pub open spec fn prefix_spec(self) -> Seq<char> {
        match self {
            DeviceType::Sata => "sd"@,
            DeviceType::SdMmc => "mmcblk"@,
            DeviceType::Nvme => "nvme"@,
        }
    }

    /// The partition naming scheme of devices of this kind.
    pub open spec fn naming_spec(self) -> PartitionNaming {
        match self {
            DeviceType::Sata => PartitionNaming::Direct,
            DeviceType::SdMmc | DeviceType::Nvme => PartitionNaming::Prefixed,
        }
    }

    /// Returns the name prefix of devices of this kind.
    pub fn prefix(&self) -> (r: &'static str)
        ensures
            r@ == self.prefix_spec(),
    {
        match self {
            DeviceType::Sata => "sd",
            DeviceType::SdMmc => "mmcblk",
            DeviceType::Nvme => "nvme",
        }
    }

    /// Returns how partitions of devices of this kind are named.
    pub fn partition_naming(&self) -> (r: PartitionNaming)
        ensures
            r == self.naming_spec(),
    {
        match self {
            DeviceType::Sata => PartitionNaming::Direct,
            DeviceType::SdMmc | DeviceType::Nvme => PartitionNaming::Prefixed,
        }
    }
}

} // verus!
