//! The GUID partition table: its header and entries, as plain values.
use vstd::prelude::*;
use vstd::utf8::{char_u32_cast, is_scalar};

verus! {

/// A GUID as the 16 bytes it occupies on disk (the first three fields little-endian).
#[derive(Debug, Clone, Copy, PartialEq, Eq)]
pub struct Uuid {
    pub bytes: [u8; 16],
}

/// The on-disk bytes of the EFI system partition type GUID,
/// C12A7328-F81F-11D2-BA4B-00A0C93EC93B.
pub open spec fn efi_guid_bytes() -> Seq<u8> {
    seq![
        0x28u8, 0x73, 0x2A, 0xC1, 0x1F, 0xF8, 0xD2, 0x11, 0xBA, 0x4B, 0x00, 0xA0, 0xC9, 0x3E, 0xC9,
        0x3B,
    ]
}

impl Uuid {
    /// The all-zero GUID, which marks an unused partition entry.
    pub fn nil() -> (r: Uuid)
        ensures
            forall|i: int| 0 <= i < 16 ==> r.bytes@[i] == 0,
    {
        Uuid { bytes: [0u8; 16] }
    }

    /// The type GUID of an EFI system partition, as `gpt_parser::Uuid::efi` gives it.
    pub fn efi() -> (r: Uuid)
        ensures
            r.bytes@ == efi_guid_bytes(),
    {
        let r = Uuid {
            bytes: [
                0x28u8, 0x73, 0x2A, 0xC1, 0x1F, 0xF8, 0xD2, 0x11, 0xBA, 0x4B, 0x00, 0xA0, 0xC9,
                0x3E, 0xC9, 0x3B,
            ],
        };
        assert(r.bytes@ =~= efi_guid_bytes());
        r
    }

    /// Whether two GUIDs are the same.
    pub fn same_as(&self, other: &Uuid) -> (r: bool)
        ensures
            r == (self.bytes@ == other.bytes@),
    {
        let mut i: usize = 0;
        while i < 16
            invariant
                0 <= i <= 16,
                forall|j: int| 0 <= j < i ==> self.bytes@[j] == other.bytes@[j],
            decreases 16 - i,
        {
            if self.bytes[i] != other.bytes[i] {
                return false;
            }
            i = i + 1;
        }
        assert(self.bytes@ =~= other.bytes@);
        true
    }
}

/// The header of a GUID partition table.
#[derive(Debug, Clone, Copy, PartialEq, Eq)]
pub struct GPTHeader {
    /// The signature, `EFI PART`.
    pub signature: [u8; 8],
    pub revision: u32,
    /// The number of bytes that the header checksum covers.
    pub header_size_le: u32,
    pub header_crc32: u32,
    pub reserved: u32,
    /// The block that holds this header.
    pub current_lba: u64,
    /// The block that holds the backup header.
    pub backup_lba: u64,
    /// The first block that partitions may use.
    pub first_usable: u64,
    /// The last block that partitions may use.
    pub last_usable: u64,
    pub disk_guid: Uuid,
    /// The first block of the partition entry array.
    pub part_start_lba: u64,
    /// The number of partition entries.
    pub num_parts: u32,
    /// The size of one partition entry in bytes.
    pub part_size: u32,
    pub part_table_crc32: u32,
}

/// One used entry of a GUID partition table.
#[derive(Debug, Clone, Copy, PartialEq, Eq)]
pub struct GPTPartition {
    /// The partition type GUID.
    pub part_type: Uuid,
    /// The unique GUID of this partition.
    pub id: Uuid,
    /// The first block of the partition.
    pub first_lba: u64,
    /// The last block of the partition (inclusive).
    pub last_lba: u64,
    pub attr: [u8; 8],
    /// The partition name in UTF-16, ended by a zero unit or by the end of the array.
    pub name: [u16; 36],
}

/// The name that the UTF-16 units `units` spell, up to the first NUL character; `None`
/// when an unpaired surrogate comes before it.
pub open spec fn utf16_name(units: Seq<u16>) -> Option<Seq<char>>
    decreases units.len(),
{
    if units.len() == 0 {
        Some(Seq::empty())
    } else {
        let u = units[0];
        if u < 0xD800 || u > 0xDFFF {
            if u == 0 {
                Some(Seq::empty())
            } else {
                match utf16_name(units.skip(1)) {
                    Some(rest) => Some(seq![(u as u32) as char] + rest),
                    None => None,
                }
            }
        } else if u <= 0xDBFF && units.len() >= 2 && 0xDC00 <= units[1] <= 0xDFFF {
            let cp = 0x10000 + (u - 0xD800) * 0x400 + (units[1] - 0xDC00);
            match utf16_name(units.skip(2)) {
                Some(rest) => Some(seq![(cp as u32) as char] + rest),
                None => None,
            }
        } else {
            None
        }
    }
}

/// `char::from_u32`: the character with scalar value `u`, or `None` when `u` is above
/// `0x10FFFF` or a surrogate, as std documents.
#[verifier::external_body]
fn char_from_scalar(u: u32) -> (r: Option<char>)
    ensures
        r is Some <==> is_scalar(u),
        r matches Some(c) ==> c as u32 == u,
{
    char::from_u32(u)
}

/// The string of the characters `v` (`String`'s `FromIterator<char>`).
#[verifier::external_body]
fn string_from_chars(v: &Vec<char>) -> (r: String)
    ensures
        r@ == v@,
{
    v.iter().collect()
}

impl GPTPartition {
    /// The characters of the partition name: the UTF-16 units up to the first NUL
    /// character; `None` when an unpaired surrogate comes before it.  This is what
    /// `gpt_parser::GPTPartition::get_name` decodes.
    pub fn name_chars(&self) -> (r: Option<Vec<char>>)
        ensures
            match r {
                Some(v) => utf16_name(self.name@) == Some(v@),
                None => utf16_name(self.name@) is None,
            },
    {
        broadcast use char_u32_cast;

        let ghost units = self.name@;
        let mut acc: Vec<char> = Vec::new();
        let mut i: usize = 0;
        assert(units.skip(0) =~= units);
        while i < 36
            invariant
                units == self.name@,
                units.len() == 36,
                0 <= i <= 36,
                utf16_name(units) == match utf16_name(units.skip(i as int)) {
                    Some(rest) => Some(acc@ + rest),
                    None => None::<Seq<char>>,
                },
            decreases 36 - i,
        {
            let u = self.name[i];
            let ghost tail = units.skip(i as int);
            assert(tail[0] == u);
            if u < 0xD800 || u > 0xDFFF {
                if u == 0 {
                    assert(utf16_name(tail) == Some(Seq::<char>::empty()));
                    assert(acc@ + Seq::<char>::empty() =~= acc@);
                    return Some(acc);
                }
                let c = match char_from_scalar(u as u32) {
                    Some(c) => c,
                    None => {
                        assert(false);
                        return None;
                    },
                };
                assert(tail.skip(1) =~= units.skip(i + 1));
                proof {
                    char_u32_cast(c, u as u32);
                }
                let ghost old_acc = acc@;
                acc.push(c);
                proof {
                    match utf16_name(units.skip(i + 1)) {
                        Some(rest) => {
                            assert(old_acc + (seq![c] + rest) =~= acc@ + rest);
                        },
                        None => {},
                    }
                }
                i = i + 1;
            } else if u <= 0xDBFF && i + 1 < 36 && 0xDC00 <= self.name[i + 1] && self.name[i
                + 1] <= 0xDFFF {
                let lo = self.name[i + 1];
                assert(tail[1] == lo);
                let cp: u32 = 0x10000 + ((u as u32) - 0xD800) * 0x400 + ((lo as u32) - 0xDC00);
                let c = match char_from_scalar(cp) {
                    Some(c) => c,
                    None => {
                        assert(false);
                        return None;
                    },
                };
                assert(tail.skip(2) =~= units.skip(i + 2));
                proof {
                    char_u32_cast(c, cp);
                }
                let ghost old_acc = acc@;
                acc.push(c);
                proof {
                    match utf16_name(units.skip(i + 2)) {
                        Some(rest) => {
                            assert(old_acc + (seq![c] + rest) =~= acc@ + rest);
                        },
                        None => {},
                    }
                }
                i = i + 2;
            } else {
                return None;
            }
        }
        assert(units.skip(36) =~= Seq::<u16>::empty());
        assert(acc@ + Seq::<char>::empty() =~= acc@);
        Some(acc)
    }

    /// The partition name, up to the first NUL character; `None` when an unpaired
    /// surrogate comes before it.
    pub fn get_name(&self) -> (r: Option<String>)
        ensures
            match r {
                Some(s) => utf16_name(self.name@) == Some(s@),
                None => utf16_name(self.name@) is None,
            },
    {
        match self.name_chars() {
            Some(v) => Some(string_from_chars(&v)),
            None => None,
        }
    }
}

} // verus!
