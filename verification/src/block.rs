//! The block device interface that users of the partition manager implement.
use crate::PartManError;
use vstd::prelude::*;

verus! {

/// A device that stores fixed-size blocks addressed by number.
pub trait PartBlock {
    /// Reads block `block_id` into `buf`.
    fn read_block(&mut self, block_id: u64, buf: &mut [u8]) -> Result<(), PartManError>;

    /// Writes `buf` to block `block_id`.
    fn write_block(&mut self, block_id: u64, buf: &[u8]) -> Result<(), PartManError>;

    /// The size of one block in bytes.
    fn block_size(&self) -> usize;

    /// The number of blocks on the device.
    fn num_blocks(&self) -> u64;
}

} // verus!
