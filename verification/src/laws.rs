//! Properties that hold across the functions of the library.
use crate::cmdline::{
    piece_end, apply_boot_arg, boot_args_from, boot_args_spec, file_system_type_spec,
    lemma_boot_args_concat, lemma_piece_end, root_arg_from, root_device_spec, word_end,
    BootArgsSpec, RootDeviceSpec,
};
use crate::gpt::GPTPartition;
use crate::mbr::PartInfo;
use crate::parse::device_path_spec;
use crate::cmdline::BootArgsFileSystem;
use crate::partition::{
    best_linux_upto, entry_priority, first_named, is_linux_entry, manager_shape,
    part_offset_value, partitions_of_type, used_slots_upto, PartManagerView,
    PartitionTableType,
};
use crate::gpt::utf16_name;
use crate::setup::{step_spec, SetupEvent, SetupStage, SetupStep};
use crate::text::{eq_ignore_ascii_case, is_unicode_whitespace};
use crate::DeviceType;
use vstd::prelude::*;

verus! {

// ---------------------------------------------------------------------------
// Boot arguments
// ---------------------------------------------------------------------------

/// Arguments take effect in order: the command line `a` followed by white space and one
/// more word `w` gives what `a` gives, with `w` applied to it.  So a later `root=` or
/// `rootfstype=` replaces an earlier one, an unknown word changes nothing, and an error
/// in `a` stands.
pub proof fn law_boot_args_in_order(a: Seq<char>, sep: char, w: Seq<char>)
    requires
        is_unicode_whitespace(sep),
        w.len() > 0,
        forall|k: int| 0 <= k < w.len() ==> !is_unicode_whitespace(#[trigger] w[k]),
    ensures
        boot_args_spec(a + (seq![sep] + w)) == match boot_args_spec(a) {
            Ok(cfg) => apply_boot_arg(w, cfg),
            Err(e) => Err(e),
        },
{
    let t = seq![sep] + w;
    let s = a + t;
    assert(t[0] == sep);
    lemma_boot_args_concat(a, t, 0, BootArgsSpec { root: None, rootfstype: None });
    match boot_args_spec(a) {
        Ok(cfg) => {
            let n = a.len() as int;
            assert(s[n] == sep);
            assert forall|k: int| n + 1 <= k < s.len() implies !is_unicode_whitespace(
                #[trigger] s[k],
            ) by {
                assert(s[k] == w[k - n - 1]);
            }
            lemma_word_end_to_end(s, n + 1);
            assert(s.subrange(n + 1, s.len() as int) =~= w);
            assert(boot_args_from(s, n, cfg) == boot_args_from(s, n + 1, cfg));
            assert(!is_unicode_whitespace(s[n + 1])) by {
                assert(s[n + 1] == w[0]);
            }
            match apply_boot_arg(w, cfg) {
                Ok(c) => {
                    assert(boot_args_from(s, s.len() as int, c) == Ok::<
                        BootArgsSpec,
                        Seq<char>,
                    >(c));
                },
                Err(_) => {},
            }
        },
        Err(_) => {},
    }
}

proof fn lemma_word_end_to_end(s: Seq<char>, i: int)
    requires
        0 <= i <= s.len(),
        forall|k: int| i <= k < s.len() ==> !is_unicode_whitespace(#[trigger] s[k]),
    ensures
        word_end(s, i) == s.len(),
    decreases s.len() - i,
{
    if i < s.len() {
        lemma_word_end_to_end(s, i + 1);
    }
}

/// `extract_root_from_bootargs` takes the first piece: when the command line begins with
/// `root=` followed by a space-free value and a space, that value is the result,
/// whatever follows.
pub proof fn law_extract_root_takes_first(x: Seq<char>, rest: Seq<char>)
    requires
        forall|k: int| 0 <= k < x.len() ==> #[trigger] x[k] != ' ',
    ensures
        root_arg_from("root="@ + x + (seq![' '] + rest), 0) == Some(x),
{
    reveal_strlit("root=");
    let s = "root="@ + x + (seq![' '] + rest);
    let e: int = 5 + x.len() as int;
    assert forall|k: int| 0 <= k < e implies s[k] != ' ' by {
        if k >= 5 {
            assert(s[k] == x[k - 5]);
        }
    }
    assert(s[e] == ' ');
    lemma_piece_end(s, 0, e);
    assert(s.subrange(0, e) =~= "root="@ + x);
    assert(("root="@ + x).skip(5) =~= x);
}

/// The documented forms of a root device read back as what they name: `UUID=x`,
/// `PARTLABEL=x`, `PARTUUID=x` and any `/dev/` path.
pub proof fn law_root_device_forms(x: Seq<char>)
    ensures
        root_device_spec("UUID="@ + x) == Ok::<RootDeviceSpec, Seq<char>>(RootDeviceSpec::Uuid(x)),
        root_device_spec("PARTLABEL="@ + x) == Ok::<RootDeviceSpec, Seq<char>>(
            RootDeviceSpec::Label(x),
        ),
        root_device_spec("PARTUUID="@ + x) == Ok::<RootDeviceSpec, Seq<char>>(
            RootDeviceSpec::PartUuid(x),
        ),
        root_device_spec("/dev/"@ + x) == Ok::<RootDeviceSpec, Seq<char>>(
            RootDeviceSpec::DevicePath("/dev/"@ + x),
        ),
{
    reveal_strlit("UUID=");
    reveal_strlit("PARTLABEL=");
    reveal_strlit("PARTUUID=");
    reveal_strlit("/dev/");
    assert(("UUID="@ + x).skip(5) =~= x);
    assert(("UUID="@ + x).subrange(0, 5) =~= "UUID="@);
    let l = "PARTLABEL="@ + x;
    assert(l.skip(10) =~= x);
    assert(l.subrange(0, 10) =~= "PARTLABEL="@);
    assert(l[0] != "UUID="@[0]);
    let p = "PARTUUID="@ + x;
    assert(p.skip(9) =~= x);
    assert(p.subrange(0, 9) =~= "PARTUUID="@);
    assert(p[0] != "UUID="@[0]);
    assert(p[4] != "PARTLABEL="@[4]);
    let d = "/dev/"@ + x;
    assert(d.subrange(0, 5) =~= "/dev/"@);
    assert(d[0] != "UUID="@[0]);
    assert(d[0] != "PARTLABEL="@[0]);
    assert(d[0] != "PARTUUID="@[0]);
}

/// A known file system name is recognized whatever the case of its letters: two values
/// that are equal without regard to ASCII case read as the same known type.
pub proof fn law_file_system_type_ignores_case(s: Seq<char>, t: Seq<char>)
    requires
        eq_ignore_ascii_case(s, t),
        !(file_system_type_spec(s) is Other),
    ensures
        file_system_type_spec(t) == file_system_type_spec(s),
{
    let names = seq!["ext4"@, "ext3"@, "ext2"@, "xfs"@, "btrfs"@, "f2fs"@, "ntfs"@, "vfat"@, "fat32"@];
    assert forall|n: Seq<char>| eq_ignore_ascii_case(s, n) <==> eq_ignore_ascii_case(t, n) by {
        if eq_ignore_ascii_case(s, n) {
            assert forall|i: int| 0 <= i < t.len() implies crate::text::ascii_lower(t[i])
                == crate::text::ascii_lower(n[i]) by {
                assert(crate::text::ascii_lower(s[i]) == crate::text::ascii_lower(t[i]));
            }
        }
        if eq_ignore_ascii_case(t, n) {
            assert forall|i: int| 0 <= i < s.len() implies crate::text::ascii_lower(s[i])
                == crate::text::ascii_lower(n[i]) by {
                assert(crate::text::ascii_lower(s[i]) == crate::text::ascii_lower(t[i]));
            }
        }
    }
    assert(names.len() == 9);
}

// ---------------------------------------------------------------------------
// Device paths
// ---------------------------------------------------------------------------

/// A path that reads as a device begins with `/dev/` and the prefix of its device kind;
/// its partition number is 1 to 9, a SATA device index is a letter's (0 to 25) and an
/// MMC device index a digit's (0 to 9).
pub proof fn law_device_path_names_its_kind(path: Seq<char>)
    ensures
        device_path_spec(path) matches Some((t, index, part)) ==> {
            &&& ("/dev/"@ + t.prefix_spec()).is_prefix_of(path)
            &&& 1 <= part <= 9
            &&& (t == DeviceType::Sata ==> index <= 25)
            &&& (t == DeviceType::SdMmc ==> index <= 9)
            &&& t != DeviceType::Nvme
        },
{
    reveal_strlit("/dev/");
    reveal_strlit("sd");
    reveal_strlit("mmcblk");
    if device_path_spec(path) is Some {
        let d = path.skip(5);
        assert(path.subrange(0, 5) =~= "/dev/"@);
        if "sd"@.is_prefix_of(d) && d.len() >= 4 && 'a' <= d[2] <= 'z' {
            assert(d.subrange(0, 2) =~= "sd"@);
            assert(path.subrange(0, 7) =~= "/dev/"@ + "sd"@);
        }
        if "mmcblk"@.is_prefix_of(d) {
            assert(d.subrange(0, 6) =~= "mmcblk"@);
            assert(path.subrange(0, 11) =~= "/dev/"@ + "mmcblk"@);
        }
    }
}

// ---------------------------------------------------------------------------
// MBR partitions
// ---------------------------------------------------------------------------

/// The smart guess picks a Linux partition of the best preference (native, then LVM,
/// then swap), the first one in table order among equals; it picks nothing exactly when
/// no slot holds a Linux partition.
pub proof fn law_smart_guess_prefers_best_linux(entries: Seq<Option<PartInfo>>, n: int)
    requires
        0 <= n <= entries.len(),
    ensures
        match best_linux_upto(entries, n) {
            Some(i) => {
                &&& 0 <= i < n
                &&& is_linux_entry(entries[i])
                &&& forall|j: int|
                    0 <= j < n && is_linux_entry(#[trigger] entries[j]) ==> entry_priority(
                        entries[i],
                    ) <= entry_priority(entries[j])
                &&& forall|j: int|
                    0 <= j < i && is_linux_entry(#[trigger] entries[j]) ==> entry_priority(
                        entries[i],
                    ) < entry_priority(entries[j])
            },
            None => forall|j: int| 0 <= j < n ==> !is_linux_entry(#[trigger] entries[j]),
        },
    decreases n,
{
    if n > 0 {
        law_smart_guess_prefers_best_linux(entries, n - 1);
    }
}

/// The MBR partitions listed are exactly the used slots, in slot order, each numbered
/// one more than its slot.
pub proof fn law_used_slots_are_the_used_entries(entries: Seq<Option<PartInfo>>, n: int)
    requires
        0 <= n <= entries.len(),
        n <= 255,
    ensures
        forall|k: int|
            0 <= k < used_slots_upto(entries, n).len() ==> {
                let (num, p) = #[trigger] used_slots_upto(entries, n)[k];
                &&& 1 <= num <= n
                &&& entries[num - 1] == Some(p)
            },
        forall|k1: int, k2: int|
            0 <= k1 < k2 < used_slots_upto(entries, n).len() ==> (#[trigger] used_slots_upto(
                entries,
                n,
            )[k1]).0 < (#[trigger] used_slots_upto(entries, n)[k2]).0,
        forall|j: int|
            0 <= j < n && (#[trigger] entries[j]) is Some ==> exists|k: int|
                0 <= k < used_slots_upto(entries, n).len() && used_slots_upto(entries, n)[k].0
                    == j + 1,
    decreases n,
{
    if n > 0 {
        law_used_slots_are_the_used_entries(entries, n - 1);
        let prev = used_slots_upto(entries, n - 1);
        let cur = used_slots_upto(entries, n);
        if entries[n - 1] is Some {
            assert(cur =~= prev.push((n as u8, entries[n - 1]->0)));
            assert forall|j: int| 0 <= j < n && (#[trigger] entries[j]) is Some implies exists|
                k: int,
            | 0 <= k < cur.len() && cur[k].0 == j + 1 by {
                if j == n - 1 {
                    assert(cur[cur.len() - 1].0 == j + 1);
                } else {
                    let k = choose|k: int| 0 <= k < prev.len() && prev[k].0 == j + 1;
                    assert(cur[k] == prev[k]);
                }
            }
        }
    }
}

// ---------------------------------------------------------------------------
// GPT partitions and offsets
// ---------------------------------------------------------------------------

/// The partitions found by type all have that type and come from the table; some are
/// found exactly when some partition has that type.
pub proof fn law_partitions_of_type(parts: Seq<GPTPartition>, t: Seq<u8>)
    ensures
        forall|i: int|
            0 <= i < partitions_of_type(parts, t).len() ==> (#[trigger] partitions_of_type(
                parts,
                t,
            )[i]).part_type.bytes@ == t && parts.contains(partitions_of_type(parts, t)[i]),
        partitions_of_type(parts, t).len() <= parts.len(),
        (partitions_of_type(parts, t).len() > 0) <==> (exists|j: int|
            0 <= j < parts.len() && (#[trigger] parts[j]).part_type.bytes@ == t),
    decreases parts.len(),
{
    if parts.len() > 0 {
        let init = parts.drop_last();
        law_partitions_of_type(init, t);
        let prev = partitions_of_type(init, t);
        let cur = partitions_of_type(parts, t);
        assert forall|i: int| 0 <= i < cur.len() implies (#[trigger] cur[i]).part_type.bytes@
            == t && parts.contains(cur[i]) by {
            if i < prev.len() {
                assert(cur[i] == prev[i]);
                let j = choose|j: int| 0 <= j < init.len() && init[j] == prev[i];
                assert(parts[j] == init[j]);
            } else {
                assert(parts[parts.len() - 1] == parts.last());
            }
        }
        if exists|j: int| 0 <= j < parts.len() && (#[trigger] parts[j]).part_type.bytes@ == t {
            let j = choose|j: int| 0 <= j < parts.len() && (#[trigger] parts[j]).part_type.bytes@
                == t;
            if j < parts.len() - 1 {
                assert(init[j] == parts[j]);
            }
        }
        if prev.len() > 0 {
            let j = choose|j: int| 0 <= j < init.len() && (#[trigger] init[j]).part_type.bytes@
                == t;
            assert(parts[j] == init[j]);
        }
    }
}

/// A partition manager that the detection builds from a boot sector alone manages an
/// MBR whose boot sector signature is `55 AA`, so `is_valid` holds of it.
pub proof fn law_detected_mbr_is_valid(b: [u8; 512], rootargs: BootArgsFileSystem, r: SetupStep)
    requires
        step_spec(SetupStage::BootSector, rootargs, SetupEvent::BlockRead(Ok(b)), r),
    ensures
        r matches SetupStep::Done(Ok(m)) ==> {
            &&& m@.table_type == PartitionTableType::MBR
            &&& m@.mbr matches Some(x) && x.bootsector_signature@ == seq![0x55u8, 0xAAu8]
        },
{
    if let SetupStep::Done(Ok(m)) = r {
        let x = m@.mbr->0;
        assert(x.bootsector_signature@ =~= seq![0x55u8, 0xAAu8]) by {
            assert(x.bootsector_signature@ == b@.subrange(510, 512));
        }
    }
}

/// On an MBR disk whose root device path names a used slot, the partition offset is the
/// start of that slot's partition.
pub proof fn law_mbr_offset_follows_root_path(v: PartManagerView, path: Seq<char>)
    requires
        manager_shape(v),
        v.table_type == PartitionTableType::MBR,
        v.rootargs.root == Some(RootDeviceSpec::DevicePath(path)),
        device_path_spec(path) matches Some((_, _, n)) && 1 <= n <= 4
            && v.mbr->0.partition_table.entries@[n - 1] is Some,
    ensures
        ({
            let (_, _, n) = device_path_spec(path)->0;
            let p = v.mbr->0.partition_table.entries@[n - 1]->0;
            part_offset_value(v) == Some(p.start_sector_lba * 512)
        }),
{
}

/// On an MBR disk whose root device path names no used slot (or that has no root
/// device path), the partition offset is the start of the best Linux partition, and
/// there is none when no slot holds a Linux partition.
pub proof fn law_mbr_offset_falls_back_to_best_linux(v: PartManagerView)
    requires
        manager_shape(v),
        v.table_type == PartitionTableType::MBR,
        !(v.rootargs.root matches Some(RootDeviceSpec::DevicePath(path)) && (device_path_spec(
            path,
        ) matches Some((_, _, n)) && 1 <= n <= 4 && v.mbr->0.partition_table.entries@[n
            - 1] is Some)),
    ensures
        ({
            let entries = v.mbr->0.partition_table.entries@;
            part_offset_value(v) == match best_linux_upto(entries, 4) {
                Some(i) => Some(entries[i]->0.start_sector_lba * 512),
                None => None::<int>,
            }
        }),
{
}

/// On a GPT disk whose root device is a label, the partition offset is the start of the
/// first partition whose name is that label, and there is none when no partition has
/// it.
pub proof fn law_gpt_offset_follows_root_label(v: PartManagerView, label: Seq<char>)
    requires
        v.table_type == PartitionTableType::GPT,
        v.rootargs.root == Some(RootDeviceSpec::Label(label)),
    ensures
        ({
            let parts = v.gpt_partitions;
            let k = first_named(parts, label);
            &&& k < parts.len() ==> utf16_name(parts[k].name@) == Some(label)
                && part_offset_value(v) == Some(parts[k].first_lba * 512)
            &&& k >= parts.len() ==> part_offset_value(v) is None
                && forall|j: int| 0 <= j < parts.len() ==> utf16_name(#[trigger] parts[j].name@)
                    != Some(label)
        }),
{
    crate::partition::lemma_first_named(v.gpt_partitions, label);
}

/// Every partition offset is a whole number of 512-byte blocks.
pub proof fn law_part_offset_block_aligned(v: PartManagerView)
    ensures
        part_offset_value(v) matches Some(off) ==> off >= 0 && off % 512 == 0,
{
}


// ---------------------------------------------------------------------------
// What the operations are for, stated over their inputs
// ---------------------------------------------------------------------------

/// The piece of `s` that starts at `i` runs up to the first space at or after `i`.
proof fn lemma_piece_end_first_space(s: Seq<char>, i: int)
    requires
        0 <= i <= s.len(),
    ensures
        i <= piece_end(s, i) <= s.len(),
        forall|k: int| i <= k < piece_end(s, i) ==> s[k] != ' ',
        piece_end(s, i) < s.len() ==> s[piece_end(s, i)] == ' ',
    decreases s.len() - i,
{
    if i < s.len() && s[i] != ' ' {
        lemma_piece_end_first_space(s, i + 1);
    }
}

/// Every space-separated piece is examined, the last one too: when `p` is empty or ends
/// in a space and none of its pieces begins with `root=`, the value found in
/// `p + "root=" + x` is `x`, for every space-free `x`.
pub proof fn law_extract_root_finds_any_piece(p: Seq<char>, x: Seq<char>)
    requires
        p.len() == 0 || p[p.len() - 1] == ' ',
        forall|i: int|
            0 <= i && i + 5 <= p.len() && (i == 0 || p[i - 1] == ' ') ==> #[trigger] p.subrange(
                i,
                i + 5,
            ) != "root="@,
        forall|k: int| 0 <= k < x.len() ==> #[trigger] x[k] != ' ',
    ensures
        root_arg_from(p + ("root="@ + x), 0) == Some(x),
{
    assert(("root="@ + x) + Seq::<char>::empty() =~= "root="@ + x);
    lemma_root_arg_from_piece_start(p, x, Seq::empty(), 0);
}

/// The first `root=` piece is found wherever it stands: when `p` is empty or ends in a
/// space and none of its pieces begins with `root=`, and `rest` is empty or begins with
/// a space, the value found in `p + "root=" + x + rest` is `x`, for every space-free
/// `x`, whatever `rest` holds.
pub proof fn law_extract_root_first_root_piece(p: Seq<char>, x: Seq<char>, rest: Seq<char>)
    requires
        p.len() == 0 || p[p.len() - 1] == ' ',
        forall|i: int|
            0 <= i && i + 5 <= p.len() && (i == 0 || p[i - 1] == ' ') ==> #[trigger] p.subrange(
                i,
                i + 5,
            ) != "root="@,
        forall|k: int| 0 <= k < x.len() ==> #[trigger] x[k] != ' ',
        rest.len() == 0 || rest[0] == ' ',
    ensures
        root_arg_from(p + ("root="@ + x + rest), 0) == Some(x),
{
    lemma_root_arg_from_piece_start(p, x, rest, 0);
}

proof fn lemma_root_arg_from_piece_start(p: Seq<char>, x: Seq<char>, rest: Seq<char>, i: int)
    requires
        p.len() == 0 || p[p.len() - 1] == ' ',
        forall|i: int|
            0 <= i && i + 5 <= p.len() && (i == 0 || p[i - 1] == ' ') ==> #[trigger] p.subrange(
                i,
                i + 5,
            ) != "root="@,
        forall|k: int| 0 <= k < x.len() ==> #[trigger] x[k] != ' ',
        rest.len() == 0 || rest[0] == ' ',
        0 <= i <= p.len(),
        i == 0 || p[i - 1] == ' ',
    ensures
        root_arg_from(p + ("root="@ + x + rest), i) == Some(x),
    decreases p.len() - i,
{
    reveal_strlit("root=");
    let r = "root="@ + x + rest;
    let s = p + r;
    let n = p.len() as int;
    let m: int = n + 5 + x.len();
    if i == n {
        assert forall|k: int| n <= k < m implies s[k] != ' ' by {
            if k < n + 5 {
                assert(s[k] == "root="@[k - n]);
            } else {
                assert(s[k] == x[k - n - 5]);
            }
        }
        if m < s.len() {
            assert(s[m] == rest[0]);
        }
        lemma_piece_end(s, n, m);
        assert(s.subrange(n, m) =~= "root="@ + x);
        assert(("root="@ + x).subrange(0, 5) =~= "root="@);
        assert(("root="@ + x).skip(5) =~= x);
    } else {
        lemma_piece_end_first_space(s, i);
        let e = piece_end(s, i);
        assert(s[n - 1] == ' ');
        assert(e <= n - 1) by {
            if e > n - 1 {
                assert(s[n - 1] != ' ');
            }
        }
        let piece = s.subrange(i, e);
        if "root="@.is_prefix_of(piece) {
            assert(p.subrange(i, i + 5) =~= piece.subrange(0, 5));
            assert(false);
        }
        assert(s[e] == ' ');
        assert(p[e] == ' ');
        lemma_root_arg_from_piece_start(p, x, rest, e + 1);
    }
}

/// A command line of one word reads like the same word after white space: the first
/// word counts like any other.  One `root=x` word sets the root device to what `x`
/// reads as (or fails with its error), one `rootfstype=x` word sets the file system
/// type, and any other word leaves both unset.
pub proof fn law_boot_args_single_word(w: Seq<char>)
    requires
        w.len() > 0,
        forall|k: int| 0 <= k < w.len() ==> !is_unicode_whitespace(#[trigger] w[k]),
    ensures
        boot_args_spec(w) == boot_args_spec(seq![' '] + w),
        "root="@.is_prefix_of(w) ==> boot_args_spec(w) == match root_device_spec(w.skip(5)) {
            Ok(r) => Ok(BootArgsSpec { root: Some(r), rootfstype: None }),
            Err(e) => Err::<BootArgsSpec, Seq<char>>(e),
        },
        "rootfstype="@.is_prefix_of(w) ==> boot_args_spec(w) == Ok::<BootArgsSpec, Seq<char>>(
            BootArgsSpec { root: None, rootfstype: Some(file_system_type_spec(w.skip(11))) },
        ),
        !"root="@.is_prefix_of(w) && !"rootfstype="@.is_prefix_of(w) ==> boot_args_spec(w)
            == Ok::<BootArgsSpec, Seq<char>>(BootArgsSpec { root: None, rootfstype: None }),
{
    reveal_strlit("root=");
    reveal_strlit("rootfstype=");
    let empty = BootArgsSpec { root: None, rootfstype: None };
    lemma_word_end_to_end(w, 0);
    assert(w.subrange(0, w.len() as int) =~= w);
    assert(boot_args_spec(w) == match apply_boot_arg(w, empty) {
        Ok(c) => boot_args_from(w, w.len() as int, c),
        Err(e) => Err(e),
    });
    let s = seq![' '] + w;
    assert(is_unicode_whitespace(s[0]));
    assert forall|k: int| 1 <= k < s.len() implies !is_unicode_whitespace(#[trigger] s[k]) by {
        assert(s[k] == w[k - 1]);
    }
    lemma_word_end_to_end(s, 1);
    assert(s.subrange(1, s.len() as int) =~= w);
    assert(!is_unicode_whitespace(s[1])) by {
        assert(s[1] == w[0]);
    }
    assert(boot_args_spec(s) == boot_args_from(s, 1, empty));
    assert(boot_args_from(s, 1, empty) == match apply_boot_arg(w, empty) {
        Ok(c) => boot_args_from(s, s.len() as int, c),
        Err(e) => Err(e),
    });
    if "rootfstype="@.is_prefix_of(w) {
        assert(w[4] == 'f');
        assert(!"root="@.is_prefix_of(w));
    }
}

/// Whether slot `j` of `entries` holds a partition of type byte `code`.
pub open spec fn slot_has_type(entries: Seq<Option<PartInfo>>, code: u8, j: int) -> bool {
    entries[j] matches Some(p) && p.part_type == code
}

/// A slot can be the MBR fallback only when its type byte is Linux native (`0x83`),
/// Linux LVM (`0x8E`) or Linux swap (`0x82`): the first `0x83` slot is taken if there
/// is one, else the first `0x8E` slot, else the first `0x82` slot, and with none of
/// them there is no fallback partition.
pub proof fn law_smart_guess_by_type_byte(entries: Seq<Option<PartInfo>>)
    requires
        entries.len() == 4,
    ensures
        ({
            match best_linux_upto(entries, 4) {
                Some(i) => {
                    let code = entries[i]->0.part_type;
                    &&& 0 <= i < 4
                    &&& entries[i] is Some
                    &&& code == 0x83 || code == 0x8E || code == 0x82
                    &&& forall|j: int| 0 <= j < i ==> !slot_has_type(entries, code, j)
                    &&& code == 0x8E ==> forall|j: int| 0 <= j < 4 ==> !slot_has_type(entries, 0x83, j)
                    &&& code == 0x82 ==> forall|j: int|
                        0 <= j < 4 ==> !slot_has_type(entries, 0x83, j) && !slot_has_type(entries, 0x8E, j)
                },
                None => forall|j: int|
                    0 <= j < 4 ==> !slot_has_type(entries, 0x83, j) && !slot_has_type(entries, 0x8E, j) && !slot_has_type(entries, 0x82, j),
            }
        }),
{
    law_smart_guess_prefers_best_linux(entries, 4);
    match best_linux_upto(entries, 4) {
        Some(i) => {
            assert forall|j: int| 0 <= j < 4 && is_linux_entry(#[trigger] entries[j]) implies entry_priority(
                entries[i],
            ) <= entry_priority(entries[j]) by {}
        },
        None => {},
    }
}

/// A slot counts as a Linux partition exactly when it is used and its type byte is
/// Linux native (`0x83`), Linux swap (`0x82`) or Linux LVM (`0x8E`).
pub proof fn law_linux_entry_type_bytes(e: Option<PartInfo>)
    ensures
        is_linux_entry(e) <==> (e matches Some(p) && (p.part_type == 0x83 || p.part_type == 0x82
            || p.part_type == 0x8E)),
{
}

/// On an MBR whose root device names no used slot, there is a partition offset only
/// when a slot holds a Linux type (`0x83`, `0x8E` or `0x82`), and it is the start of
/// such a slot.
pub proof fn law_mbr_offset_needs_linux_type(v: PartManagerView)
    requires
        manager_shape(v),
        v.table_type == PartitionTableType::MBR,
        !(v.rootargs.root matches Some(RootDeviceSpec::DevicePath(path)) && (device_path_spec(
            path,
        ) matches Some((_, _, n)) && 1 <= n <= 4 && v.mbr->0.partition_table.entries@[n
            - 1] is Some)),
    ensures
        ({
            let entries = v.mbr->0.partition_table.entries@;
            &&& (forall|j: int|
                0 <= j < 4 ==> !(#[trigger] entries[j] matches Some(p) && (p.part_type == 0x83
                    || p.part_type == 0x8E || p.part_type == 0x82))) ==> part_offset_value(
                v,
            ) is None
            &&& part_offset_value(v) matches Some(off) ==> exists|j: int|
                0 <= j < 4 && (#[trigger] entries[j] matches Some(p) && (p.part_type == 0x83
                    || p.part_type == 0x8E || p.part_type == 0x82) && off == p.start_sector_lba
                    * 512)
        }),
{
    let entries = v.mbr->0.partition_table.entries@;
    assert(entries.len() == 4);
    law_mbr_offset_falls_back_to_best_linux(v);
    law_smart_guess_by_type_byte(entries);
    match best_linux_upto(entries, 4) {
        Some(i) => {
            assert(entries[i] matches Some(p) && (p.part_type == 0x83 || p.part_type == 0x8E
                || p.part_type == 0x82));
        },
        None => {
            assert forall|j: int|
                0 <= j < 4 implies !(#[trigger] entries[j] matches Some(p) && (p.part_type == 0x83
                || p.part_type == 0x8E || p.part_type == 0x82)) by {
                assert(!slot_has_type(entries, 0x83, j));
                assert(!slot_has_type(entries, 0x8E, j));
                assert(!slot_has_type(entries, 0x82, j));
            }
        },
    }
}

/// A boot sector is protective exactly when one of its four slot type bytes (at
/// offsets 450, 466, 482 and 498) is `0xEE`.  So with a valid signature and no `0xEE`
/// type byte the detection reads the sector as an MBR (when `mbrs` takes it), and with
/// one it asks for block 1 to read a GPT header.
pub proof fn law_protective_exactly_ee(b: [u8; 512], rootargs: BootArgsFileSystem, r: SetupStep)
    requires
        step_spec(SetupStage::BootSector, rootargs, SetupEvent::BlockRead(Ok(b)), r),
        b@[510] == 0x55 && b@[511] == 0xAA,
    ensures
        crate::partition::is_protective_mbr_spec(b@) <==> exists|k: int|
            (k == 450 || k == 466 || k == 482 || k == 498) && #[trigger] b@[k] == 0xEE,
        (forall|k: int| (k == 450 || k == 466 || k == 482 || k == 498) ==> #[trigger] b@[k] != 0xEE)
            && b@[444] == 0 && b@[445] == 0 ==> (r matches SetupStep::Done(Ok(m)) && m@.table_type
            == PartitionTableType::MBR),
        (exists|k: int| (k == 450 || k == 466 || k == 482 || k == 498) && #[trigger] b@[k] == 0xEE)
            ==> r matches SetupStep::Pending(_, crate::setup::SetupRequest::ReadBlock(1)),
{
    let t = |i: int| crate::partition::slot_type_byte(b@, i);
    assert(t(0) == b@[450] && t(1) == b@[466] && t(2) == b@[482] && t(3) == b@[498]);
    if exists|k: int| (k == 450 || k == 466 || k == 482 || k == 498) && #[trigger] b@[k] == 0xEE {
        let k = choose|k: int| (k == 450 || k == 466 || k == 482 || k == 498) && #[trigger] b@[k]
            == 0xEE;
        let i = (k - 450) / 16;
        assert(crate::partition::slot_type_byte(b@, i) == 0xEE);
    }
    if crate::partition::is_protective_mbr_spec(b@) {
        let i = choose|i: int| 0 <= i < 4 && #[trigger] crate::partition::slot_type_byte(b@, i)
            == 0xEE;
        assert(b@[446 + 16 * i + 4] == 0xEE);
    }
}

/// Every partition of the requested type is found, and only those, in table order:
/// the found partitions are `parts[idx[0]], parts[idx[1]], ...` for strictly increasing
/// indices `idx` that are exactly the indices of the partitions of type `t`.
pub proof fn law_partitions_of_type_all(parts: Seq<GPTPartition>, t: Seq<u8>) -> (idx: Seq<int>)
    ensures
        idx.len() == partitions_of_type(parts, t).len(),
        forall|i: int|
            0 <= i < idx.len() ==> 0 <= #[trigger] idx[i] < parts.len() && partitions_of_type(
                parts,
                t,
            )[i] == parts[idx[i]] && parts[idx[i]].part_type.bytes@ == t,
        forall|i: int, k: int| 0 <= i < k < idx.len() ==> #[trigger] idx[i] < #[trigger] idx[k],
        forall|j: int|
            0 <= j < parts.len() && (#[trigger] parts[j]).part_type.bytes@ == t ==> exists|i: int|
                0 <= i < idx.len() && idx[i] == j,
    decreases parts.len(),
{
    if parts.len() == 0 {
        Seq::empty()
    } else {
        let init = parts.drop_last();
        let prev = law_partitions_of_type_all(init, t);
        let last = parts.len() - 1;
        assert forall|j: int| 0 <= j < init.len() implies #[trigger] init[j] == parts[j] by {}
        if parts.last().part_type.bytes@ == t {
            let idx = prev.push(last);
            assert forall|j: int|
                0 <= j < parts.len() && (#[trigger] parts[j]).part_type.bytes@ == t implies exists|
                i: int,
            | 0 <= i < idx.len() && idx[i] == j by {
                if j == last {
                    assert(idx[idx.len() - 1] == j);
                } else {
                    assert(init[j] == parts[j]);
                    let i = choose|i: int| 0 <= i < prev.len() && prev[i] == j;
                    assert(idx[i] == j);
                }
            }
            assert forall|i: int, k: int| 0 <= i < k < idx.len() implies #[trigger] idx[i]
                < #[trigger] idx[k] by {
                if k == idx.len() - 1 {
                    assert(idx[i] == prev[i]);
                } else {
                    assert(idx[i] == prev[i] && idx[k] == prev[k]);
                }
            }
            assert forall|i: int| 0 <= i < idx.len() implies 0 <= #[trigger] idx[i] < parts.len()
                && partitions_of_type(parts, t)[i] == parts[idx[i]]
                && parts[idx[i]].part_type.bytes@ == t by {
                if i < prev.len() {
                    assert(idx[i] == prev[i]);
                    assert(init[prev[i]] == parts[prev[i]]);
                }
            }
            idx
        } else {
            assert forall|j: int|
                0 <= j < parts.len() && (#[trigger] parts[j]).part_type.bytes@ == t implies exists|
                i: int,
            | 0 <= i < prev.len() && prev[i] == j by {
                assert(j != last);
                assert(init[j] == parts[j]);
            }
            assert forall|i: int| 0 <= i < prev.len() implies 0 <= #[trigger] prev[i] < parts.len()
                && partitions_of_type(parts, t)[i] == parts[prev[i]]
                && parts[prev[i]].part_type.bytes@ == t by {
                assert(init[prev[i]] == parts[prev[i]]);
            }
            prev
        }
    }
}

} // verus!
