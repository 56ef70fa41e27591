//! The root device and file system type given on a kernel command line.
use crate::text::{
    chars_of, eq_ignore_ascii_case, equals_ignore_ascii_case, find_char, first_index_of,
    has_prefix, is_unicode_whitespace, is_whitespace, lemma_first_index_of, parse_u32,
    u32_from_decimal,
};
use vstd::prelude::*;
use vstd::string::StrSliceExecFns;

verus! {

// ---------------------------------------------------------------------------
// Splitting a command line
// ---------------------------------------------------------------------------

/// The end of the `' '`-separated piece of `s` that starts at `i`.
pub open spec fn piece_end(s: Seq<char>, i: int) -> int
    decreases s.len() - i,
{
    if i < 0 || i >= s.len() || s[i] == ' ' {
        i
    } else {
        piece_end(s, i + 1)
    }
}

/// The end of the white-space-free word of `s` that starts at `i`.
pub open spec fn word_end(s: Seq<char>, i: int) -> int
    decreases s.len() - i,
{
    if i < 0 || i >= s.len() || is_unicode_whitespace(s[i]) {
        i
    } else {
        word_end(s, i + 1)
    }
}

pub proof fn lemma_piece_end(s: Seq<char>, i: int, j: int)
    requires
        0 <= i <= j <= s.len(),
        forall|k: int| i <= k < j ==> s[k] != ' ',
        j == s.len() || s[j] == ' ',
    ensures
        piece_end(s, i) == j,
    decreases j - i,
{
    if i < j {
        lemma_piece_end(s, i + 1, j);
    }
}

pub proof fn lemma_piece_end_bound(s: Seq<char>, i: int)
    ensures
        piece_end(s, i) >= i,
        0 <= i <= s.len() ==> piece_end(s, i) <= s.len(),
    decreases s.len() - i,
{
    if !(i < 0 || i >= s.len() || s[i] == ' ') {
        lemma_piece_end_bound(s, i + 1);
    }
}

pub proof fn lemma_word_end(s: Seq<char>, i: int, j: int)
    requires
        0 <= i <= j <= s.len(),
        forall|k: int| i <= k < j ==> !is_unicode_whitespace(#[trigger] s[k]),
        j == s.len() || is_unicode_whitespace(s[j]),
    ensures
        word_end(s, i) == j,
    decreases j - i,
{
    if i < j {
        lemma_word_end(s, i + 1, j);
    }
}

pub proof fn lemma_word_end_bound(s: Seq<char>, i: int)
    ensures
        word_end(s, i) >= i,
        0 <= i <= s.len() ==> word_end(s, i) <= s.len(),
        0 <= i < s.len() && !is_unicode_whitespace(s[i]) ==> word_end(s, i) > i,
    decreases s.len() - i,
{
    if !(i < 0 || i >= s.len() || is_unicode_whitespace(s[i])) {
        lemma_word_end_bound(s, i + 1);
    }
}

/// What follows `root=` in the first `' '`-separated piece, at or after the piece
/// starting at `i`, that begins with `root=`.
pub open spec fn root_arg_from(s: Seq<char>, i: int) -> Option<Seq<char>>
    decreases s.len() - i,
{
    let e = piece_end(s, i);
    let piece = s.subrange(i, e);
    if "root="@.is_prefix_of(piece) {
        Some(piece.skip("root="@.len() as int))
    } else if 0 <= i && e < s.len() {
        proof {
            lemma_piece_end_bound(s, i);
        }
        root_arg_from(s, e + 1)
    } else {
        None
    }
}

/// Returns what follows `root=` in the first space-separated piece of `root_path`
/// that begins with `root=`, if there is one.
pub fn extract_root_from_bootargs(root_path: &str) -> (r: Option<&str>)
    ensures
        match r {
            Some(v) => root_arg_from(root_path@, 0) == Some(v@),
            None => root_arg_from(root_path@, 0) is None,
        },
{
    let v = chars_of(root_path);
    let n = v.len();
    let mut i: usize = 0;
    proof {
        reveal_strlit("root=");
    }
    loop
        invariant
            v@ == root_path@,
            n == v@.len(),
            0 <= i <= n,
            root_arg_from(root_path@, 0) == root_arg_from(root_path@, i as int),
        decreases n - i,
    {
        let mut e = i;
        while e < n && v[e] != ' '
            invariant
                v@ == root_path@,
                n == v@.len(),
                i <= e <= n,
                forall|k: int| i <= k < e ==> v@[k] != ' ',
            decreases n - e,
        {
            e = e + 1;
        }
        proof {
            lemma_piece_end(root_path@, i as int, e as int);
        }
        let piece = root_path.substring_char(i, e);
        proof {
            reveal_strlit("root=");
        }
        if has_prefix(piece, "root=") {
            let len = e - i;
            return Some(piece.substring_char(5, len));
        }
        if e >= n {
            return None;
        }
        i = e + 1;
    }
}

// ---------------------------------------------------------------------------
// Root device
// ---------------------------------------------------------------------------

/// What a root device is, as plain values.
pub enum RootDeviceSpec {
    DevicePath(Seq<char>),
    Uuid(Seq<char>),
    Label(Seq<char>),
    PartUuid(Seq<char>),
    MajorMinor(u32, u32),
}

/// The device that holds the root file system.
#[derive(Debug, Clone, PartialEq)]
pub enum RootDevice {
    DevicePath(String),
    Uuid(String),
    Label(String),
    PartUuid(String),
    MajorMinor(u32, u32),
}

impl View for RootDevice {
    type V = RootDeviceSpec;

    open spec fn view(&self) -> RootDeviceSpec {
        match self {
            RootDevice::DevicePath(s) => RootDeviceSpec::DevicePath(s@),
            RootDevice::Uuid(s) => RootDeviceSpec::Uuid(s@),
            RootDevice::Label(s) => RootDeviceSpec::Label(s@),
            RootDevice::PartUuid(s) => RootDeviceSpec::PartUuid(s@),
            RootDevice::MajorMinor(a, b) => RootDeviceSpec::MajorMinor(*a, *b),
        }
    }
}

/// How the value of a `root=` argument is read.
pub open spec fn root_device_spec(s: Seq<char>) -> Result<RootDeviceSpec, Seq<char>> {
    if "UUID="@.is_prefix_of(s) {
        Ok(RootDeviceSpec::Uuid(s.skip("UUID="@.len() as int)))
    } else if "PARTLABEL="@.is_prefix_of(s) {
        Ok(RootDeviceSpec::Label(s.skip("PARTLABEL="@.len() as int)))
    } else if "PARTUUID="@.is_prefix_of(s) {
        Ok(RootDeviceSpec::PartUuid(s.skip("PARTUUID="@.len() as int)))
    } else if "/dev/"@.is_prefix_of(s) {
        Ok(RootDeviceSpec::DevicePath(s))
    } else if s.contains(':') {
        let k = first_index_of(s, ':');
        let rest = s.skip(k + 1);
        if rest.contains(':') {
            Err("Invalid major:minor format"@)
        } else {
            match u32_from_decimal(s.take(k)) {
                None => Err("Invalid major number"@),
                Some(major) => match u32_from_decimal(rest) {
                    None => Err("Invalid minor number"@),
                    Some(minor) => Ok(RootDeviceSpec::MajorMinor(major, minor)),
                },
            }
        }
    } else {
        Ok(RootDeviceSpec::DevicePath(s))
    }
}

impl RootDevice {
    /// Reads the value of a `root=` argument.
    pub fn from_str(s: &str) -> (r: Result<RootDevice, String>)
        ensures
            match r {
                Ok(d) => root_device_spec(s@) == Ok::<RootDeviceSpec, Seq<char>>(d@),
                Err(e) => root_device_spec(s@) == Err::<RootDeviceSpec, Seq<char>>(e@),
            },
    {
        proof {
            reveal_strlit("UUID=");
            reveal_strlit("PARTLABEL=");
            reveal_strlit("PARTUUID=");
        }
        let n = s.unicode_len();
        if has_prefix(s, "UUID=") {
            Ok(RootDevice::Uuid(s.substring_char(5, n).to_owned()))
        } else if has_prefix(s, "PARTLABEL=") {
            Ok(RootDevice::Label(s.substring_char(10, n).to_owned()))
        } else if has_prefix(s, "PARTUUID=") {
            Ok(RootDevice::PartUuid(s.substring_char(9, n).to_owned()))
        } else if has_prefix(s, "/dev/") {
            Ok(RootDevice::DevicePath(s.to_owned()))
        } else {
            let v = chars_of(s);
            let k = find_char(&v, ':');
            proof {
                lemma_first_index_of(s@, ':');
            }
            if k < n {
                let rest = s.substring_char(k + 1, n);
                let rv = chars_of(rest);
                let k2 = find_char(&rv, ':');
                proof {
                    lemma_first_index_of(rest@, ':');
                }
                if k2 < rv.len() {
                    return Err("Invalid major:minor format".to_owned());
                }
                let major = match parse_u32(s.substring_char(0, k)) {
                    Some(m) => m,
                    None => {
                        return Err("Invalid major number".to_owned());
                    },
                };
                let minor = match parse_u32(rest) {
                    Some(m) => m,
                    None => {
                        return Err("Invalid minor number".to_owned());
                    },
                };
                Ok(RootDevice::MajorMinor(major, minor))
            } else {
                Ok(RootDevice::DevicePath(s.to_owned()))
            }
        }
    }
}

impl core::str::FromStr for RootDevice {
    type Err = String;

    fn from_str(s: &str) -> (r: Result<Self, Self::Err>)
        ensures
            match r {
                Ok(d) => root_device_spec(s@) == Ok::<RootDeviceSpec, Seq<char>>(d@),
                Err(e) => root_device_spec(s@) == Err::<RootDeviceSpec, Seq<char>>(e@),
            },
    {
        RootDevice::from_str(s)
    }
}

// ---------------------------------------------------------------------------
// File system type
// ---------------------------------------------------------------------------

/// What a file system type is, as plain values.
pub enum FileSystemTypeSpec {
    Ext4,
    Ext3,
    Ext2,
    Xfs,
    Btrfs,
    F2fs,
    Ntfs,
    Vfat,
    Other(Seq<char>),
}

/// The type of the root file system.
#[derive(Debug, Clone, PartialEq)]
pub enum FileSystemType {
    Ext4,
    Ext3,
    Ext2,
    Xfs,
    Btrfs,
    F2fs,
    Ntfs,
    Vfat,
    Other(String),
}

impl View for FileSystemType {
    type V = FileSystemTypeSpec;

    open spec fn view(&self) -> FileSystemTypeSpec {
        match self {
            FileSystemType::Ext4 => FileSystemTypeSpec::Ext4,
            FileSystemType::Ext3 => FileSystemTypeSpec::Ext3,
            FileSystemType::Ext2 => FileSystemTypeSpec::Ext2,
            FileSystemType::Xfs => FileSystemTypeSpec::Xfs,
            FileSystemType::Btrfs => FileSystemTypeSpec::Btrfs,
            FileSystemType::F2fs => FileSystemTypeSpec::F2fs,
            FileSystemType::Ntfs => FileSystemTypeSpec::Ntfs,
            FileSystemType::Vfat => FileSystemTypeSpec::Vfat,
            FileSystemType::Other(s) => FileSystemTypeSpec::Other(s@),
        }
    }
}

/// How the value of a `rootfstype=` argument is read: the known names match without
/// regard to the case of their letters, and any other value is kept as it is.
///
/// The names are compared after lower-casing; since no character outside ASCII has a
/// lower-case form made of these ASCII letters and digits, that is the same as
/// comparing ASCII letters without case.
pub open spec fn file_system_type_spec(s: Seq<char>) -> FileSystemTypeSpec {
    if eq_ignore_ascii_case(s, "ext4"@) {
        FileSystemTypeSpec::Ext4
    } else if eq_ignore_ascii_case(s, "ext3"@) {
        FileSystemTypeSpec::Ext3
    } else if eq_ignore_ascii_case(s, "ext2"@) {
        FileSystemTypeSpec::Ext2
    } else if eq_ignore_ascii_case(s, "xfs"@) {
        FileSystemTypeSpec::Xfs
    } else if eq_ignore_ascii_case(s, "btrfs"@) {
        FileSystemTypeSpec::Btrfs
    } else if eq_ignore_ascii_case(s, "f2fs"@) {
        FileSystemTypeSpec::F2fs
    } else if eq_ignore_ascii_case(s, "ntfs"@) {
        FileSystemTypeSpec::Ntfs
    } else if eq_ignore_ascii_case(s, "vfat"@) || eq_ignore_ascii_case(s, "fat32"@) {
        FileSystemTypeSpec::Vfat
    } else {
        FileSystemTypeSpec::Other(s)
    }
}

impl FileSystemType {
    /// Reads the value of a `rootfstype=` argument; this never fails.
    pub fn from_str(s: &str) -> (r: Result<FileSystemType, String>)
        ensures
            r matches Ok(t) && t@ == file_system_type_spec(s@),
    {
        let t = if equals_ignore_ascii_case(s, "ext4") {
            FileSystemType::Ext4
        } else if equals_ignore_ascii_case(s, "ext3") {
            FileSystemType::Ext3
        } else if equals_ignore_ascii_case(s, "ext2") {
            FileSystemType::Ext2
        } else if equals_ignore_ascii_case(s, "xfs") {
            FileSystemType::Xfs
        } else if equals_ignore_ascii_case(s, "btrfs") {
            FileSystemType::Btrfs
        } else if equals_ignore_ascii_case(s, "f2fs") {
            FileSystemType::F2fs
        } else if equals_ignore_ascii_case(s, "ntfs") {
            FileSystemType::Ntfs
        } else if equals_ignore_ascii_case(s, "vfat") || equals_ignore_ascii_case(s, "fat32") {
            FileSystemType::Vfat
        } else {
            FileSystemType::Other(s.to_owned())
        };
        Ok(t)
    }
}

impl core::str::FromStr for FileSystemType {
    type Err = String;

    fn from_str(s: &str) -> (r: Result<Self, Self::Err>)
        ensures
            r matches Ok(t) && t@ == file_system_type_spec(s@),
    {
        FileSystemType::from_str(s)
    }
}

// ---------------------------------------------------------------------------
// Boot arguments
// ---------------------------------------------------------------------------

/// The boot arguments that name the root file system, as plain values.
pub struct BootArgsSpec {
    pub root: Option<RootDeviceSpec>,
    pub rootfstype: Option<FileSystemTypeSpec>,
}

/// The boot arguments that name the root file system.
#[derive(Debug, Clone, PartialEq)]
pub struct BootArgsFileSystem {
    pub root: Option<RootDevice>,
    pub rootfstype: Option<FileSystemType>,
}

impl View for BootArgsFileSystem {
    type V = BootArgsSpec;

    open spec fn view(&self) -> BootArgsSpec {
        BootArgsSpec {
            root: match self.root {
                Some(r) => Some(r@),
                None => None,
            },
            rootfstype: match self.rootfstype {
                Some(t) => Some(t@),
                None => None,
            },
        }
    }
}

/// Boot arguments that name nothing.
pub open spec fn empty_boot_args() -> BootArgsSpec {
    BootArgsSpec { root: None, rootfstype: None }
}

/// What one white-space-free argument `w` does to the boot arguments read so far.
pub open spec fn apply_boot_arg(w: Seq<char>, cfg: BootArgsSpec) -> Result<
    BootArgsSpec,
    Seq<char>,
> {
    if "root="@.is_prefix_of(w) {
        match root_device_spec(w.skip("root="@.len() as int)) {
            Ok(r) => Ok(BootArgsSpec { root: Some(r), ..cfg }),
            Err(e) => Err(e),
        }
    } else if "rootfstype="@.is_prefix_of(w) {
        Ok(
            BootArgsSpec {
                rootfstype: Some(file_system_type_spec(w.skip("rootfstype="@.len() as int))),
                ..cfg
            },
        )
    } else {
        Ok(cfg)
    }
}

/// The boot arguments that the words of `s` from position `i` on give, applied in
/// order to `cfg`; the first error stops the reading.
pub open spec fn boot_args_from(s: Seq<char>, i: int, cfg: BootArgsSpec) -> Result<
    BootArgsSpec,
    Seq<char>,
>
    decreases s.len() - i,
    via boot_args_from_decreases
{
    if i < 0 || i >= s.len() {
        Ok(cfg)
    } else if is_unicode_whitespace(s[i]) {
        boot_args_from(s, i + 1, cfg)
    } else {
        let e = word_end(s, i);
        let next = apply_boot_arg(s.subrange(i, e), cfg);
        if next is Ok {
            boot_args_from(s, e, next->Ok_0)
        } else {
            next
        }
    }
}

#[via_fn]
proof fn boot_args_from_decreases(s: Seq<char>, i: int, cfg: BootArgsSpec) {
    lemma_word_end_bound(s, i);
}

/// Reading stops at the end of `a` when the next character is white space: the words
/// of `a + t` up to the end of `a` are the words of `a`.
pub proof fn lemma_word_end_concat(a: Seq<char>, t: Seq<char>, i: int)
    requires
        0 <= i <= a.len(),
        t.len() > 0,
        is_unicode_whitespace(t[0]),
    ensures
        word_end(a + t, i) == word_end(a, i),
        word_end(a, i) <= a.len(),
    decreases a.len() - i,
{
    let s = a + t;
    if i < a.len() {
        assert(s[i] == a[i]);
        if !is_unicode_whitespace(a[i]) {
            lemma_word_end_concat(a, t, i + 1);
        }
    } else {
        assert(s[i] == t[0]);
    }
}

/// Reading `a + t` from a position in `a` reads `a` first and then goes on from the end
/// of `a` with what that gave, when `t` begins with white space.
pub proof fn lemma_boot_args_concat(a: Seq<char>, t: Seq<char>, i: int, cfg: BootArgsSpec)
    requires
        0 <= i <= a.len(),
        t.len() > 0,
        is_unicode_whitespace(t[0]),
    ensures
        boot_args_from(a + t, i, cfg) == match boot_args_from(a, i, cfg) {
            Ok(c) => boot_args_from(a + t, a.len() as int, c),
            Err(e) => Err(e),
        },
    decreases a.len() - i,
{
    let s = a + t;
    if i < a.len() {
        assert(s[i] == a[i]);
        if is_unicode_whitespace(a[i]) {
            lemma_boot_args_concat(a, t, i + 1, cfg);
        } else {
            lemma_word_end_concat(a, t, i);
            lemma_word_end_bound(a, i);
            let e = word_end(a, i);
            assert(s.subrange(i, e) =~= a.subrange(i, e));
            match apply_boot_arg(a.subrange(i, e), cfg) {
                Ok(c) => {
                    lemma_boot_args_concat(a, t, e, c);
                },
                Err(_) => {},
            }
        }
    }
}

/// The boot arguments that the command line `s` gives.
pub open spec fn boot_args_spec(s: Seq<char>) -> Result<BootArgsSpec, Seq<char>> {
    boot_args_from(s, 0, empty_boot_args())
}

impl Default for BootArgsFileSystem {
    fn default() -> (r: Self)
        ensures
            r@ == empty_boot_args(),
    {
        BootArgsFileSystem { root: None, rootfstype: None }
    }
}

impl BootArgsFileSystem {
    /// Boot arguments that name nothing.
    pub fn new() -> (r: Self)
        ensures
            r@ == empty_boot_args(),
    {
        BootArgsFileSystem::default()
    }

    /// The root device, if one was given.
    pub fn root_device(&self) -> (r: Option<&RootDevice>)
        ensures
            match r {
                Some(d) => self.root == Some(*d),
                None => self.root is None,
            },
    {
        self.root.as_ref()
    }

    /// The path, UUID, label or partition UUID that names the root device; `None` when
    /// no root device was given or it is named by major and minor number.
    pub fn device_path(&self) -> (r: Option<String>)
        ensures
            match r {
                Some(p) => match self.root {
                    Some(RootDevice::DevicePath(s)) => p@ == s@,
                    Some(RootDevice::Uuid(s)) => p@ == s@,
                    Some(RootDevice::Label(s)) => p@ == s@,
                    Some(RootDevice::PartUuid(s)) => p@ == s@,
                    _ => false,
                },
                None => self.root is None || self.root matches Some(RootDevice::MajorMinor(_, _)),
            },
    {
        match &self.root {
            Some(RootDevice::DevicePath(path)) => Some(path.clone()),
            Some(RootDevice::Uuid(uuid)) => Some(uuid.clone()),
            Some(RootDevice::Label(label)) => Some(label.clone()),
            Some(RootDevice::PartUuid(partuuid)) => Some(partuuid.clone()),
            Some(RootDevice::MajorMinor(_, _)) => None,
            None => None,
        }
    }

    /// Reads the `root=` and `rootfstype=` arguments of a kernel command line.  Words
    /// are separated by white space; a later argument overrides an earlier one, other
    /// arguments are ignored, and an unreadable root device ends the reading with its
    /// error.
    pub fn parse_from_bootargs(cmdline: &str) -> (r: Result<Self, String>)
        ensures
            match r {
                Ok(c) => boot_args_spec(cmdline@) == Ok::<BootArgsSpec, Seq<char>>(c@),
                Err(e) => boot_args_spec(cmdline@) == Err::<BootArgsSpec, Seq<char>>(e@),
            },
    {
        let mut config = BootArgsFileSystem::default();
        let v = chars_of(cmdline);
        let n = v.len();
        let mut i: usize = 0;
        proof {
            reveal_strlit("root=");
            reveal_strlit("rootfstype=");
        }
        while i < n
            invariant
                v@ == cmdline@,
                n == v@.len(),
                0 <= i <= n,
                boot_args_spec(cmdline@) == boot_args_from(cmdline@, i as int, config@),
            decreases n - i,
        {
            if is_whitespace(v[i]) {
                i = i + 1;
            } else {
                let mut e = i + 1;
                while e < n && !is_whitespace(v[e])
                    invariant
                        v@ == cmdline@,
                        n == v@.len(),
                        i < e <= n,
                        forall|k: int| i <= k < e ==> !is_unicode_whitespace(#[trigger] v@[k]),
                    decreases n - e,
                {
                    e = e + 1;
                }
                proof {
                    lemma_word_end(cmdline@, i as int, e as int);
                }
                let arg = cmdline.substring_char(i, e);
                let len = e - i;
                proof {
                    reveal_strlit("root=");
                    reveal_strlit("rootfstype=");
                }
                if has_prefix(arg, "root=") {
                    let value = arg.substring_char(5, len);
                    match RootDevice::from_str(value) {
                        Ok(d) => {
                            config.root = Some(d);
                        },
                        Err(m) => {
                            return Err(m);
                        },
                    }
                } else if has_prefix(arg, "rootfstype=") {
                    let value = arg.substring_char(11, len);
                    match FileSystemType::from_str(value) {
                        Ok(t) => {
                            config.rootfstype = Some(t);
                        },
                        Err(m) => {
                            return Err(m);
                        },
                    }
                }
                i = e;
            }
        }
        Ok(config)
    }
}

} // verus!
