//! Detecting the partition table of a disk, one block read or parse at a time.
//!
//! The detection reads block 0; when it holds a protective MBR it reads the GPT header
//! from block 1, has it parsed, reads the blocks of the partition entry array and has
//! the used entries parsed; otherwise the MBR of block 0 is read.  Reading blocks and
//! parsing GPT structures is done by the caller: each step hands back what to do next.
use crate::cmdline::BootArgsFileSystem;
use crate::gpt::{GPTHeader, GPTPartition};
use crate::mbr::null_sector_ok;
use crate::partition::{
    is_gpt_manager, is_mbr_manager, is_protective_mbr, is_protective_mbr_spec, PartManager,
};
use crate::PartManError;
use vstd::prelude::*;

verus! {

/// What the detection waits for next.
pub enum SetupStage {
    /// Block 0, the boot sector.
    BootSector,
    /// Block 1, which holds the GPT header.
    GptHeaderBlock,
    /// The parsed GPT header.
    GptHeader,
    /// The next block of the partition entry array: `read` of `total` blocks have been
    /// read into `data`.
    GptTable { header: GPTHeader, read: u64, total: u64, data: Vec<u8> },
    /// The parsed used entries of the partition entry array.
    GptEntries { header: GPTHeader },
}

/// What the caller is asked to do.
pub enum SetupRequest {
    /// Read this block.
    ReadBlock(u64),
    /// Parse this block as a GPT header.
    ParseGptHeader([u8; 512]),
    /// Parse `slots` entries of 128 bytes from `data` with `gpt_parser`, the entry size
    /// being `part_size`, and keep the used ones.
    ParseGptEntries { data: Vec<u8>, part_size: u32, slots: usize },
}

/// What the caller reports back.
pub enum SetupEvent {
    /// The outcome of reading a block.
    BlockRead(Result<[u8; 512], PartManError>),
    /// The outcome of parsing the GPT header.
    GptHeaderParsed(Result<GPTHeader, &'static str>),
    /// The used partition entries, in table order.
    GptEntriesParsed(Vec<GPTPartition>),
}

/// The detection in progress.
pub struct PartSetup {
    stage: SetupStage,
    rootargs: BootArgsFileSystem,
}

/// The outcome of one step: more to do, or the partition manager (or the error).
pub enum SetupStep {
    Pending(PartSetup, SetupRequest),
    Done(Result<PartManager, &'static str>),
}

/// The number of 512-byte blocks that the partition entry array of `h` occupies.
pub open spec fn table_blocks(h: GPTHeader) -> int {
    (h.num_parts * h.part_size + 511) / 512
}

/// The number of 128-byte slots to look at: `part_size / 128` slots per entry.
pub open spec fn table_slots(h: GPTHeader) -> int {
    (h.part_size / 128) * h.num_parts
}

/// Whether the partition entry array of `h` can be read: its size and block count fit
/// in a `usize`, and its last block number in a `u64`.
pub open spec fn header_fits(h: GPTHeader) -> bool {
    &&& h.num_parts * h.part_size + 511 <= usize::MAX
    &&& table_blocks(h) * 512 <= usize::MAX
    &&& h.part_start_lba + table_blocks(h) <= u64::MAX + 1
}

/// Whether the step `r` ends the detection with the error `msg`.
pub open spec fn done_with_error(r: SetupStep, msg: Seq<char>) -> bool {
    r matches SetupStep::Done(Err(e)) && e@ == msg
}

/// What one step does: `stage` and `rootargs` are the state before it, `event` what the
/// caller reported, `r` the outcome.
pub open spec fn step_spec(
    stage: SetupStage,
    rootargs: BootArgsFileSystem,
    event: SetupEvent,
    r: SetupStep,
) -> bool {
    match stage {
        SetupStage::BootSector => match event {
            SetupEvent::BlockRead(Err(_)) => done_with_error(r, "Failed to read MBR"@),
            SetupEvent::BlockRead(Ok(b)) => if !(b@[510] == 0x55 && b@[511] == 0xAA) {
                done_with_error(r, "Invalid MBR signature"@)
            } else if is_protective_mbr_spec(b@) {
                &&& r matches SetupStep::Pending(s, q)
                &&& s.stage_of() == SetupStage::GptHeaderBlock
                &&& s.rootargs_of() == rootargs
                &&& q == SetupRequest::ReadBlock(1)
            } else if null_sector_ok(b@) {
                r matches SetupStep::Done(Ok(m)) && is_mbr_manager(m@, b@, rootargs@)
            } else {
                done_with_error(r, "Invalid MBR data"@)
            },
            _ => false,
        },
        SetupStage::GptHeaderBlock => match event {
            SetupEvent::BlockRead(Err(_)) => done_with_error(r, "Failed to read GPT header"@),
            SetupEvent::BlockRead(Ok(b)) => {
                &&& r matches SetupStep::Pending(s, q)
                &&& s.stage_of() == SetupStage::GptHeader
                &&& s.rootargs_of() == rootargs
                &&& q == SetupRequest::ParseGptHeader(b)
            },
            _ => false,
        },
        SetupStage::GptHeader => match event {
            SetupEvent::GptHeaderParsed(Err(_)) => done_with_error(
                r,
                "Invalid GPT header data"@,
            ),
            SetupEvent::GptHeaderParsed(Ok(h)) => if table_blocks(h) == 0 {
                &&& r matches SetupStep::Pending(s, q)
                &&& s.stage_of() == SetupStage::GptEntries { header: h }
                &&& s.rootargs_of() == rootargs
                &&& q matches SetupRequest::ParseGptEntries { data, part_size, slots }
                &&& data@.len() == 0 && part_size == h.part_size && slots == table_slots(h)
            } else {
                &&& r matches SetupStep::Pending(s, q)
                &&& s.stage_of() matches SetupStage::GptTable { header, read, total, data }
                &&& header == h && read == 0 && total == table_blocks(h) && data@.len() == 0
                &&& s.rootargs_of() == rootargs
                &&& q == SetupRequest::ReadBlock(h.part_start_lba)
            },
            _ => false,
        },
        SetupStage::GptTable { header, read, total, data } => match event {
            SetupEvent::BlockRead(Err(_)) => done_with_error(
                r,
                "Failed to read partition table data"@,
            ),
            SetupEvent::BlockRead(Ok(b)) => if read + 1 < total {
                &&& r matches SetupStep::Pending(s, q)
                &&& s.stage_of() matches SetupStage::GptTable {
                    header: h2,
                    read: read2,
                    total: total2,
                    data: data2,
                }
                &&& h2 == header && read2 == read + 1 && total2 == total
                &&& data2@ == data@ + b@
                &&& s.rootargs_of() == rootargs
                &&& q == SetupRequest::ReadBlock((header.part_start_lba + read + 1) as u64)
            } else {
                &&& r matches SetupStep::Pending(s, q)
                &&& s.stage_of() == SetupStage::GptEntries { header }
                &&& s.rootargs_of() == rootargs
                &&& q matches SetupRequest::ParseGptEntries { data: data2, part_size, slots }
                &&& data2@ == data@ + b@
                &&& part_size == header.part_size && slots == table_slots(header)
            },
            _ => false,
        },
        SetupStage::GptEntries { header } => match event {
            SetupEvent::GptEntriesParsed(parts) => r matches SetupStep::Done(Ok(m))
                && is_gpt_manager(m@, header, parts@, rootargs@),
            _ => false,
        },
    }
}

impl PartSetup {
    /// What the detection waits for.
    pub closed spec fn stage_of(self) -> SetupStage {
        self.stage
    }

    /// The boot arguments the partition manager will hold.
    pub closed spec fn rootargs_of(self) -> BootArgsFileSystem {
        self.rootargs
    }

    #[verifier::type_invariant]
    spec fn table_progress(self) -> bool {
        match self.stage {
            SetupStage::GptTable { header, read, total, data } => {
                &&& total == table_blocks(header)
                &&& read < total
                &&& data@.len() == read * 512
                &&& header_fits(header)
            },
            _ => true,
        }
    }

    /// Whether the detection can take `event` now: it is the kind of report its request
    /// asked for, and a parsed GPT header describes an entry array that can be read.
    pub open spec fn accepts(self, event: SetupEvent) -> bool {
        match self.stage_of() {
            SetupStage::GptHeader => event matches SetupEvent::GptHeaderParsed(res) && (res matches Ok(
                h,
            ) ==> header_fits(h)),
            SetupStage::GptEntries { .. } => event is GptEntriesParsed,
            _ => event is BlockRead,
        }
    }

    /// Starts the detection: block 0 is to be read.
    pub fn start(rootargs: BootArgsFileSystem) -> (r: (PartSetup, SetupRequest))
        ensures
            r.0.stage_of() == SetupStage::BootSector,
            r.0.rootargs_of() == rootargs,
            r.1 == SetupRequest::ReadBlock(0),
    {
        (PartSetup { stage: SetupStage::BootSector, rootargs }, SetupRequest::ReadBlock(0))
    }

    /// Tests whether the detection can take `event` now.
    pub fn accepts_event(&self, event: &SetupEvent) -> (r: bool)
        ensures
            r == self.accepts(*event),
    {
        match &self.stage {
            SetupStage::GptHeader => match event {
                SetupEvent::GptHeaderParsed(Ok(h)) => {
                    assert((h.num_parts as u64) * (h.part_size as u64) <= u64::MAX) by (nonlinear_arith)
                        requires
                            h.num_parts <= u32::MAX,
                            h.part_size <= u32::MAX,
                    ;
                    let bytes = (h.num_parts as u64) * (h.part_size as u64);
                    if bytes > (usize::MAX as u64) - 511 {
                        return false;
                    }
                    let blocks = (bytes + 511) / 512;
                    blocks <= (usize::MAX as u64) / 512 && h.part_start_lba as u128 + blocks as u128
                        <= u64::MAX as u128 + 1
                },
                SetupEvent::GptHeaderParsed(Err(_)) => true,
                _ => false,
            },
            SetupStage::GptEntries { .. } => matches!(event, SetupEvent::GptEntriesParsed(_)),
            _ => matches!(event, SetupEvent::BlockRead(_)),
        }
    }

    /// Takes the caller's report and decides what comes next.
    pub fn step(self, event: SetupEvent) -> (r: SetupStep)
        requires
            self.accepts(event),
        ensures
            step_spec(self.stage_of(), self.rootargs_of(), event, r),
    {
        proof {
            use_type_invariant(&self);
        }
        let PartSetup { stage, rootargs } = self;
        match stage {
            SetupStage::BootSector => match event {
                SetupEvent::BlockRead(Err(_)) => SetupStep::Done(Err("Failed to read MBR")),
                SetupEvent::BlockRead(Ok(mbr_data)) => {
                    if mbr_data[510] != 0x55 || mbr_data[511] != 0xAA {
                        return SetupStep::Done(Err("Invalid MBR signature"));
                    }
                    if is_protective_mbr(&mbr_data) {
                        SetupStep::Pending(
                            PartSetup { stage: SetupStage::GptHeaderBlock, rootargs },
                            SetupRequest::ReadBlock(1),
                        )
                    } else {
                        SetupStep::Done(PartManager::new_mbr(&mbr_data, rootargs))
                    }
                },
                // `accepts` rules out any other report here.
                _ => SetupStep::Done(Err("unexpected event")),
            },
            SetupStage::GptHeaderBlock => match event {
                SetupEvent::BlockRead(Err(_)) => SetupStep::Done(Err("Failed to read GPT header")),
                SetupEvent::BlockRead(Ok(gpt_data)) => SetupStep::Pending(
                    PartSetup { stage: SetupStage::GptHeader, rootargs },
                    SetupRequest::ParseGptHeader(gpt_data),
                ),
                // `accepts` rules out any other report here.
                _ => SetupStep::Done(Err("unexpected event")),
            },
            SetupStage::GptHeader => match event {
                SetupEvent::GptHeaderParsed(Err(_)) => SetupStep::Done(
                    Err("Invalid GPT header data"),
                ),
                SetupEvent::GptHeaderParsed(Ok(header)) => {
                    let part_size = header.part_size as usize;
                    let num_parts = header.num_parts as usize;
                    let total_partition_bytes = num_parts * part_size;
                    let lba_blocks_needed = (total_partition_bytes + 511) / 512;
                    assert((part_size / 128) * num_parts <= num_parts * part_size) by (nonlinear_arith)
                        requires
                            0 <= part_size,
                            0 <= num_parts,
                    ;
                    let slots = (part_size / 128) * num_parts;
                    if lba_blocks_needed == 0 {
                        SetupStep::Pending(
                            PartSetup { stage: SetupStage::GptEntries { header }, rootargs },
                            SetupRequest::ParseGptEntries {
                                data: Vec::new(),
                                part_size: header.part_size,
                                slots,
                            },
                        )
                    } else {
                        let start = header.part_start_lba;
                        SetupStep::Pending(
                            PartSetup {
                                stage: SetupStage::GptTable {
                                    header,
                                    read: 0,
                                    total: lba_blocks_needed as u64,
                                    data: Vec::new(),
                                },
                                rootargs,
                            },
                            SetupRequest::ReadBlock(start),
                        )
                    }
                },
                // `accepts` rules out any other report here.
                _ => SetupStep::Done(Err("unexpected event")),
            },
            SetupStage::GptTable { header, read, total, data } => match event {
                SetupEvent::BlockRead(Err(_)) => SetupStep::Done(
                    Err("Failed to read partition table data"),
                ),
                SetupEvent::BlockRead(Ok(block)) => {
                    let mut data = data;
                    let ghost before = data@;
                    let mut k: usize = 0;
                    assert((read + 1) * 512 <= total * 512) by (nonlinear_arith)
                        requires
                            read < total,
                    ;
                    while k < 512
                        invariant
                            0 <= k <= 512,
                            data@ == before + block@.take(k as int),
                            before.len() == read * 512,
                            (read + 1) * 512 <= usize::MAX,
                        decreases 512 - k,
                    {
                        data.push(block[k]);
                        k = k + 1;
                        assert(data@ =~= before + block@.take(k as int));
                    }
                    assert(block@.take(512) =~= block@);
                    if read + 1 < total {
                        let next = read + 1;
                        let lba = header.part_start_lba + next;
                        SetupStep::Pending(
                            PartSetup {
                                stage: SetupStage::GptTable { header, read: next, total, data },
                                rootargs,
                            },
                            SetupRequest::ReadBlock(lba),
                        )
                    } else {
                        let part_size = header.part_size as usize;
                        let num_parts = header.num_parts as usize;
                        assert((part_size / 128) * num_parts <= num_parts * part_size)
                            by (nonlinear_arith)
                            requires
                                0 <= part_size,
                                0 <= num_parts,
                        ;
                        let slots = (part_size / 128) * num_parts;
                        SetupStep::Pending(
                            PartSetup { stage: SetupStage::GptEntries { header }, rootargs },
                            SetupRequest::ParseGptEntries {
                                data,
                                part_size: header.part_size,
                                slots,
                            },
                        )
                    }
                },
                // `accepts` rules out any other report here.
                _ => SetupStep::Done(Err("unexpected event")),
            },
            SetupStage::GptEntries { header } => match event {
                SetupEvent::GptEntriesParsed(partitions) => SetupStep::Done(
                    Ok(PartManager::new_gpt(header, partitions, rootargs)),
                ),
                // `accepts` rules out any other report here.
                _ => SetupStep::Done(Err("unexpected event")),
            },
        }
    }
}

} // verus!
