//! Reading block device names.
use crate::text::{
    chars_of, find_char, first_index_of, has_prefix, lemma_first_index_of, utf8_len,
    utf8_len_upto,
};
use crate::DeviceType;
use vstd::prelude::*;
use vstd::string::StrSliceExecFns;

verus! {

/// The device kind, device index and partition number that a `/dev/` path names:
/// `/dev/sdXN` with `X` in `a..=z` and `N` in `1..=9`, or `/dev/mmcblkD...pN` with
/// `D` in `0..=9` and `N` in `1..=9`.
///
/// The lengths that are compared with 4 and 9 count the bytes of the UTF-8 encoding,
/// and the byte offset of the first `p` after the device name is used as a character
/// position.
pub open spec fn device_path_spec(path: Seq<char>) -> Option<(DeviceType, u8, u8)> {
    if !"/dev/"@.is_prefix_of(path) {
        None
    } else {
        let d = path.skip("/dev/"@.len() as int);
        if utf8_len(d) >= 4 && "sd"@.is_prefix_of(d) && d.len() >= 4 && 'a' <= d[2] <= 'z'
            && '1' <= d[3] <= '9' {
            Some((DeviceType::Sata, ((d[2] as u32) - 97) as u8, ((d[3] as u32) - 48) as u8))
        } else if "mmcblk"@.is_prefix_of(d) && utf8_len(d) >= 9 && d.contains('p') && d.len()
            > 6 {
            let p = utf8_len(d.take(first_index_of(d, 'p'))) as int;
            if p + 1 < d.len() && '0' <= d[6] <= '9' && '1' <= d[p + 1] <= '9' {
                Some(
                    (
                        DeviceType::SdMmc,
                        ((d[6] as u32) - 48) as u8,
                        ((d[p + 1] as u32) - 48) as u8,
                    ),
                )
            } else {
                None
            }
        } else {
            None
        }
    }
}

/// Reads a root device path such as `/dev/sda2` or `/dev/mmcblk0p1` into the device
/// kind, the device index and the partition number.
pub fn parse_device_path(path: &str) -> (r: Option<(DeviceType, u8, u8)>)
    ensures
        r == device_path_spec(path@),
{
    proof {
        reveal_strlit("/dev/");
        reveal_strlit("sd");
        reveal_strlit("mmcblk");
    }
    if !has_prefix(path, "/dev/") {
        return None;
    }
    let n = path.unicode_len();
    let device_part = path.substring_char(5, n);
    let d = chars_of(device_part);
    let ghost ds = path@.skip(5);
    assert(d@ =~= ds);
    let long4 = utf8_len_upto(&d, d.len(), 3).is_none();
    assert(d@.take(d@.len() as int) =~= d@);
    if long4 && has_prefix(device_part, "sd") {
        if d.len() <= 3 {
            return None;
        }
        let device_char = d[2];
        let partition_char = d[3];
        if device_char >= 'a' && device_char <= 'z' && partition_char >= '1' && partition_char
            <= '9' {
            let device_index = ((device_char as u32) - 97) as u8;
            let partition = ((partition_char as u32) - 48) as u8;
            return Some((DeviceType::Sata, device_index, partition));
        }
    }
    let long9 = utf8_len_upto(&d, d.len(), 8).is_none();
    if has_prefix(device_part, "mmcblk") && long9 {
        let k = find_char(&d, 'p');
        proof {
            lemma_first_index_of(d@, 'p');
        }
        if k < d.len() {
            if d.len() <= 6 {
                return None;
            }
            let device_char = d[6];
            let p_pos = match utf8_len_upto(&d, k, d.len() - 2) {
                Some(p) => p,
                None => {
                    return None;
                },
            };
            let partition_char = d[p_pos + 1];
            if device_char >= '0' && device_char <= '9' && partition_char >= '1'
                && partition_char <= '9' {
                let device_index = ((device_char as u32) - 48) as u8;
                let partition = ((partition_char as u32) - 48) as u8;
                return Some((DeviceType::SdMmc, device_index, partition));
            }
        }
    }
    None
}

/// Whether root devices can be looked up by UUID, partition UUID, partition label or
/// major:minor number.  No such lookup is implemented: each of these readers fails on
/// every input it would have to look up, so none of them may be called there.
pub open spec fn lookup_available() -> bool {
    false
}

/// Looks up a root device by file system UUID.  Not implemented: no call can be made.
pub fn parse_device_uuid(_uuid: &str) -> (r: Option<(DeviceType, u8, u8)>)
    requires
        lookup_available(),
{
    None
}

/// Looks up a root device by partition label; a label that does not begin with
/// `PARTLABEL=` names no device.  Labels that do are not implemented.
pub fn parse_device_label(label: &str) -> (r: Option<(DeviceType, u8, u8)>)
    requires
        !"PARTLABEL="@.is_prefix_of(label@) || lookup_available(),
    ensures
        r is None,
{
    if !has_prefix(label, "PARTLABEL=") {
        return None;
    }
    None
}

/// Looks up a root device by partition UUID.  Not implemented: no call can be made.
pub fn parse_device_partuuid(_partuuid: &str) -> (r: Option<(DeviceType, u8, u8)>)
    requires
        lookup_available(),
{
    None
}

/// Looks up a root device by major and minor number.  Not implemented: no call can be
/// made.
pub fn parse_major_minor(_major: &u32, _minor: &u32) -> (r: Option<(DeviceType, u8, u8)>)
    requires
        lookup_available(),
{
    None
}

} // verus!
