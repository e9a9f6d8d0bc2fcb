use vstd::prelude::*;

use crate::text::{chars_equal, chars_of};

verus! {

#[verifier::external_type_specification]
#[verifier::external_body]
pub struct ExSystemTime(std::time::SystemTime);

/// The kind of a file system entry.
#[derive(Debug, Clone, Copy, PartialEq, Eq, Hash, Structural)]
pub enum FileType {
    File,
    Directory,
    Symlink,
    Hardlink,
    Device,
    Special,
    Other,
}

/// What identifies a file across its hard links: its volume and its file index.
#[derive(Debug, Clone, Copy, PartialEq, Eq, PartialOrd, Ord, Hash, Structural)]
pub struct HardlinkId {
    pub volume: u64,
    pub file: u64,
}

/// The metadata of an entry that every supported file system can report.
#[derive(Debug, PartialEq, Eq)]
pub struct PortableMetadata {
    pub file_type: FileType,
    pub len: u64,
    pub modified: Option<std::time::SystemTime>,
    pub mode: Option<u32>,
    pub symlink_target: Option<String>,
    pub hardlink_id: Option<HardlinkId>,
    pub hardlink_count: Option<u64>,
}

impl Clone for PortableMetadata {
    fn clone(&self) -> (r: Self)
        ensures
            r == *self,
    {
        PortableMetadata {
            file_type: self.file_type,
            len: self.len,
            modified: self.modified,
            mode: self.mode,
            symlink_target: match &self.symlink_target {
                Some(t) => Some(t.clone()),
                None => None,
            },
            hardlink_id: self.hardlink_id,
            hardlink_count: self.hardlink_count,
        }
    }
}

pub const POSIX_TYPE_REGULAR: u32 = 0o100000;

pub const POSIX_TYPE_DIRECTORY: u32 = 0o040000;

pub const POSIX_TYPE_SYMLINK: u32 = 0o120000;

pub const POSIX_FILE_DEFAULT_PERMS: u32 = 0o644;

pub const POSIX_FILE_EXECUTABLE_PERMS: u32 = 0o755;

pub const POSIX_DIRECTORY_DEFAULT_PERMS: u32 = 0o755;

pub const POSIX_SYMLINK_DEFAULT_PERMS: u32 = 0o777;

/// Metadata of a kind of entry with no length, time, mode, link target or link identity.
pub open spec fn bare_metadata(metadata: PortableMetadata, file_type: FileType) -> bool {
    &&& metadata.file_type == file_type
    &&& metadata.len == 0
    &&& metadata.modified is None
    &&& metadata.mode is None
    &&& metadata.symlink_target is None
    &&& metadata.hardlink_id is None
    &&& metadata.hardlink_count is None
}

impl PortableMetadata {
    pub fn file(len: u64) -> (r: Self)
        ensures
            r.file_type == FileType::File,
            r.len == len,
            r.modified is None,
            r.mode is None,
            r.symlink_target is None,
            r.hardlink_id is None,
            r.hardlink_count is None,
    {
        PortableMetadata {
            file_type: FileType::File,
            len,
            modified: None,
            mode: None,
            symlink_target: None,
            hardlink_id: None,
            hardlink_count: None,
        }
    }

    pub fn directory() -> (r: Self)
        ensures
            bare_metadata(r, FileType::Directory),
    {
        PortableMetadata {
            file_type: FileType::Directory,
            len: 0,
            modified: None,
            mode: None,
            symlink_target: None,
            hardlink_id: None,
            hardlink_count: None,
        }
    }

    pub fn symlink(target: &str) -> (r: Self)
        ensures
            r.file_type == FileType::Symlink,
            r.len == 0,
            r.modified is None,
            r.mode is None,
            r.symlink_target matches Some(t) && t@ == target@,
            r.hardlink_id is None,
            r.hardlink_count is None,
    {
        PortableMetadata {
            file_type: FileType::Symlink,
            len: 0,
            modified: None,
            mode: None,
            symlink_target: Some(target.to_owned()),
            hardlink_id: None,
            hardlink_count: None,
        }
    }

    pub fn device() -> (r: Self)
        ensures
            bare_metadata(r, FileType::Device),
    {
        PortableMetadata {
            file_type: FileType::Device,
            len: 0,
            modified: None,
            mode: None,
            symlink_target: None,
            hardlink_id: None,
            hardlink_count: None,
        }
    }

    pub fn special() -> (r: Self)
        ensures
            bare_metadata(r, FileType::Special),
    {
        PortableMetadata {
            file_type: FileType::Special,
            len: 0,
            modified: None,
            mode: None,
            symlink_target: None,
            hardlink_id: None,
            hardlink_count: None,
        }
    }

    pub fn with_modified(self, modified: std::time::SystemTime) -> (r: Self)
        ensures
            r == (PortableMetadata { modified: Some(modified), ..self }),
    {
        let mut r = self;
        r.modified = Some(modified);
        r
    }

    pub fn with_mode(self, mode: u32) -> (r: Self)
        ensures
            r == (PortableMetadata { mode: Some(mode), ..self }),
    {
        let mut r = self;
        r.mode = Some(mode);
        r
    }
}

/// The POSIX file type bits of an entry kind; kinds without their own bits count as regular files.
pub open spec fn file_type_bits(file_type: FileType) -> u32 {
    match file_type {
        FileType::Directory => POSIX_TYPE_DIRECTORY,
        FileType::Symlink => POSIX_TYPE_SYMLINK,
        _ => POSIX_TYPE_REGULAR,
    }
}

/// The permissions an entry kind gets when none are recorded.
pub open spec fn default_permission_bits(file_type: FileType) -> u32 {
    match file_type {
        FileType::Directory => POSIX_DIRECTORY_DEFAULT_PERMS,
        FileType::Symlink => POSIX_SYMLINK_DEFAULT_PERMS,
        _ => POSIX_FILE_DEFAULT_PERMS,
    }
}

pub fn posix_file_type_bits(file_type: FileType) -> (r: u32)
    ensures
        r == file_type_bits(file_type),
{
    match file_type {
        FileType::Directory => POSIX_TYPE_DIRECTORY,
        FileType::Symlink => POSIX_TYPE_SYMLINK,
        FileType::File | FileType::Hardlink | FileType::Device | FileType::Special
        | FileType::Other => POSIX_TYPE_REGULAR,
    }
}

pub fn default_permissions(file_type: FileType) -> (r: u32)
    ensures
        r == default_permission_bits(file_type),
{
    match file_type {
        FileType::Directory => POSIX_DIRECTORY_DEFAULT_PERMS,
        FileType::Symlink => POSIX_SYMLINK_DEFAULT_PERMS,
        FileType::File | FileType::Hardlink | FileType::Device | FileType::Special
        | FileType::Other => POSIX_FILE_DEFAULT_PERMS,
    }
}

/// A path separator: both `/` and `\` separate components of a Windows path.
pub open spec fn is_separator(c: char) -> bool {
    c == '/' || c == '\\'
}

/// Where the components of `p` start: after a drive prefix such as `C:`, if there is one.
pub open spec fn after_drive(p: Seq<char>) -> int {
    if p.len() >= 2 && p[1] == ':' && (('a' <= p[0] <= 'z') || ('A' <= p[0] <= 'Z')) {
        2
    } else {
        0
    }
}

/// Where the component that ends at `end` starts (just after the separator before it).
pub open spec fn component_start(p: Seq<char>, from: int, end: int) -> int
    decreases end - from,
{
    if end <= from {
        from
    } else if is_separator(p[end - 1]) {
        end
    } else {
        component_start(p, from, end - 1)
    }
}

/// A component starts within the range it is looked for in.
pub proof fn lemma_component_start_bounds(p: Seq<char>, from: int, end: int)
    requires
        from <= end,
    ensures
        from <= component_start(p, from, end) <= end,
    decreases end - from,
{
    if end > from && !is_separator(p[end - 1]) {
        lemma_component_start_bounds(p, from, end - 1);
    }
}

/// The bounds of the file name of `p[from..end]`: its last component, where trailing separators
/// and `.` components do not count, and a final `..` has no file name.
pub open spec fn file_name_bounds(p: Seq<char>, from: int, end: int) -> Option<(int, int)>
    decreases end - from,
{
    if end <= from {
        None
    } else if is_separator(p[end - 1]) {
        file_name_bounds(p, from, end - 1)
    } else {
        let start = component_start(p, from, end);
        proof {
            lemma_component_start_bounds(p, from, end - 1);
        }
        let component = p.subrange(start, end);
        if component == seq!['.'] {
            if start == from {
                None
            } else {
                file_name_bounds(p, from, start)
            }
        } else if component == seq!['.', '.'] {
            None
        } else {
            Some((start, end))
        }
    }
}

/// The file name of a path.
pub open spec fn file_name(p: Seq<char>) -> Option<Seq<char>> {
    match file_name_bounds(p, after_drive(p), p.len() as int) {
        Some((start, end)) => Some(p.subrange(start, end)),
        None => None,
    }
}

/// The index of the last `.` of `name` before `end`, if any.
pub open spec fn last_dot(name: Seq<char>, end: int) -> Option<int>
    decreases end,
{
    if end <= 0 {
        None
    } else if name[end - 1] == '.' {
        Some(end - 1)
    } else {
        last_dot(name, end - 1)
    }
}

/// The extension of a file name: what follows its last `.`, unless that dot starts the name.
pub open spec fn name_extension(name: Seq<char>) -> Option<Seq<char>> {
    match last_dot(name, name.len() as int) {
        Some(d) => if d == 0 {
            None
        } else {
            Some(name.skip(d + 1))
        },
        None => None,
    }
}

/// A character in ASCII lower case.
pub open spec fn ascii_lower(c: char) -> char {
    if 'A' <= c <= 'Z' {
        ((c as u8) + 32u8) as char
    } else {
        c
    }
}

/// Whether an extension names a program that Windows runs directly.
pub open spec fn executable_extension(ext: Seq<char>) -> bool {
    let lower = ext.map_values(|c: char| ascii_lower(c));
    lower == "bat"@ || lower == "cmd"@ || lower == "com"@ || lower == "exe"@ || lower == "ps1"@
}

/// Whether a path names a file that Windows would run, judged by its extension.
pub open spec fn looks_executable(path: Seq<char>) -> bool {
    match file_name(path) {
        Some(name) => match name_extension(name) {
            Some(ext) => executable_extension(ext),
            None => false,
        },
        None => false,
    }
}

fn is_separator_char(c: char) -> (r: bool)
    ensures
        r == is_separator(c),
{
    c == '/' || c == '\\'
}

/// The bounds of the file name of `p`.
fn file_name_range(p: &[char]) -> (r: Option<(usize, usize)>)
    ensures
        match r {
            Some((start, end)) => file_name_bounds(p@, after_drive(p@), p@.len() as int) == Some(
                (start as int, end as int),
            ) && start <= end <= p@.len(),
            None => file_name_bounds(p@, after_drive(p@), p@.len() as int) is None,
        },
{
    let from: usize = if p.len() >= 2 && p[1] == ':' && (('a' <= p[0] && p[0] <= 'z') || ('A'
        <= p[0] && p[0] <= 'Z')) {
        2
    } else {
        0
    };
    let mut end: usize = p.len();
    loop
        invariant
            from <= p@.len(),
            from == after_drive(p@),
            end <= p@.len(),
            file_name_bounds(p@, from as int, end as int) == file_name_bounds(
                p@,
                from as int,
                p@.len() as int,
            ),
        decreases end,
    {
        if end <= from {
            return None;
        }
        if is_separator_char(p[end - 1]) {
            end = end - 1;
        } else {
            let mut start: usize = end;
            while start > from && !is_separator_char(p[start - 1])
                invariant
                    from <= start <= end,
                    end <= p@.len(),
                    component_start(p@, from as int, start as int) == component_start(
                        p@,
                        from as int,
                        end as int,
                    ),
                decreases start,
            {
                start = start - 1;
            }
            let len = end - start;
            if len == 1 && p[start] == '.' {
                assert(p@.subrange(start as int, end as int) =~= seq!['.']);
                if start == from {
                    return None;
                }
                end = start;
            } else if len == 2 && p[start] == '.' && p[start + 1] == '.' {
                assert(p@.subrange(start as int, end as int) =~= seq!['.', '.']);
                return None;
            } else {
                assert(p@.subrange(start as int, end as int) != seq!['.']) by {
                    assert(seq!['.'].len() == 1);
                    if len == 1 {
                        assert(p@.subrange(start as int, end as int)[0] == p@[start as int]);
                    }
                }
                assert(p@.subrange(start as int, end as int) != seq!['.', '.']) by {
                    assert(seq!['.', '.'].len() == 2);
                    if len == 2 {
                        assert(p@.subrange(start as int, end as int)[0] == p@[start as int]);
                        assert(p@.subrange(start as int, end as int)[1] == p@[start + 1]);
                    }
                }
                return Some((start, end));
            }
        }
    }
}

/// The extension of `name[start..end]`, as its bounds.
fn extension_start(p: &[char], start: usize, end: usize) -> (r: Option<usize>)
    requires
        start <= end <= p@.len(),
    ensures
        match name_extension(p@.subrange(start as int, end as int)) {
            Some(ext) => r matches Some(e) && start <= e <= end && ext == p@.subrange(
                e as int,
                end as int,
            ),
            None => r is None,
        },
{
    let ghost name = p@.subrange(start as int, end as int);
    let mut i: usize = end;
    while i > start && p[i - 1] != '.'
        invariant
            start <= i <= end,
            end <= p@.len(),
            name == p@.subrange(start as int, end as int),
            last_dot(name, (i - start) as int) == last_dot(name, name.len() as int),
        decreases i,
    {
        assert(name[i - 1 - start] == p@[i - 1]);
        i = i - 1;
    }
    if i == start {
        return None;
    }
    assert(name[i - 1 - start] == p@[i - 1]);
    if i - 1 == start {
        return None;
    }
    assert(name.skip(i - start) =~= p@.subrange(i as int, end as int));
    Some(i)
}

pub fn to_ascii_lower(c: char) -> (r: char)
    ensures
        r == ascii_lower(c),
{
    if 'A' <= c && c <= 'Z' {
        let b = c as u8;
        (b + 32u8) as char
    } else {
        c
    }
}

/// Whether a path names a file that Windows would run: its extension, in any case, is `bat`,
/// `cmd`, `com`, `exe` or `ps1`.
pub fn path_looks_executable(path: &str) -> (r: bool)
    ensures
        r == looks_executable(path@),
{
    let p = chars_of(path);
    let (start, end) = match file_name_range(p.as_slice()) {
        Some(bounds) => bounds,
        None => {
            return false;
        },
    };
    let ext_start = match extension_start(p.as_slice(), start, end) {
        Some(e) => e,
        None => {
            return false;
        },
    };
    let ghost ext = p@.subrange(ext_start as int, end as int);
    let mut lower: Vec<char> = Vec::new();
    let mut i: usize = ext_start;
    while i < end
        invariant
            ext_start <= i <= end,
            end <= p@.len(),
            ext == p@.subrange(ext_start as int, end as int),
            lower@ == ext.take(i - ext_start).map_values(|c: char| ascii_lower(c)),
        decreases end - i,
    {
        lower.push(to_ascii_lower(p[i]));
        i = i + 1;
        assert(lower@ =~= ext.take(i - ext_start).map_values(|c: char| ascii_lower(c)));
    }
    assert(ext.take(end - ext_start) =~= ext);
    let lower = lower.as_slice();
    chars_equal(lower, chars_of("bat").as_slice()) || chars_equal(lower, chars_of("cmd").as_slice())
        || chars_equal(lower, chars_of("com").as_slice()) || chars_equal(
        lower,
        chars_of("exe").as_slice(),
    ) || chars_equal(lower, chars_of("ps1").as_slice())
}

/// The POSIX mode reported for an entry: its type bits, then its recorded permissions (or the
/// default for its kind), with the execute bits added for a file whose name Windows would run
/// when executability is preserved.
pub open spec fn posix_mode(
    metadata: PortableMetadata,
    path: Option<Seq<char>>,
    preserve_executability: bool,
) -> u32 {
    let permissions = match metadata.mode {
        Some(mode) => mode,
        None => default_permission_bits(metadata.file_type),
    } & 0o7777u32;
    let executable = metadata.file_type == FileType::File && preserve_executability && match path {
        Some(p) => looks_executable(p),
        None => false,
    };
    file_type_bits(metadata.file_type) | (if executable {
        permissions | 0o111u32
    } else {
        permissions
    })
}

impl PortableMetadata {
    pub fn posix_mode_for_path(&self, path: Option<&str>, preserve_executability: bool) -> (r: u32)
        ensures
            r == posix_mode(
                *self,
                match path {
                    Some(p) => Some(p@),
                    None => None,
                },
                preserve_executability,
            ),
    {
        let file_type_bits = posix_file_type_bits(self.file_type);
        let mut permissions = match self.mode {
            Some(mode) => mode,
            None => default_permissions(self.file_type),
        };
        permissions = permissions & 0o7777;
        if matches!(self.file_type, FileType::File) && preserve_executability && match path {
            Some(p) => path_looks_executable(p),
            None => false,
        } {
            permissions = permissions | 0o111;
        }
        file_type_bits | permissions
    }
}

/// The mode reported for an entry keeps the type bits of its kind apart from its permission bits.
pub proof fn lemma_posix_mode_splits(
    metadata: PortableMetadata,
    path: Option<Seq<char>>,
    preserve_executability: bool,
)
    ensures
        posix_mode(metadata, path, preserve_executability) & !0o7777u32 == file_type_bits(
            metadata.file_type,
        ),
        posix_mode(metadata, path, preserve_executability) & 0o7777u32 <= 0o7777,
        !preserve_executability ==> posix_mode(metadata, path, preserve_executability) & 0o7777u32
            == match metadata.mode {
            Some(mode) => mode,
            None => default_permission_bits(metadata.file_type),
        } & 0o7777u32,
{
    let t = file_type_bits(metadata.file_type);
    let base = match metadata.mode {
        Some(mode) => mode,
        None => default_permission_bits(metadata.file_type),
    };
    let p = base & 0o7777u32;
    assert(t == 0o100000u32 || t == 0o040000u32 || t == 0o120000u32);
    assert((t == 0o100000u32 || t == 0o040000u32 || t == 0o120000u32) ==> (t | (p | 0o111u32))
        & !0o7777u32 == t && (t | p) & !0o7777u32 == t && (t | p) & 0o7777u32 == p && (t | (p
        | 0o111u32)) & 0o7777u32 <= 0o7777 && p <= 0o7777) by (bit_vector)
        requires
            p == base & 0o7777u32,
    ;
}

/// A kind of metadata that a file system operation may lose.
#[derive(Debug, Clone, Copy, PartialEq, Eq, Hash, Structural)]
pub enum MetadataFeature {
    Mode,
    Owner,
    Group,
    Acl,
    Xattr,
    Device,
    SpecialFile,
    Symlink,
    Hardlink,
    CreationTime,
    WindowsAttributes,
}

/// What happens to a kind of metadata.
#[derive(Debug, Clone, Copy, PartialEq, Eq, Hash, Structural)]
pub enum MetadataAction {
    Applied,
    Degraded,
    Ignored,
    Rejected,
}

/// One kind of metadata, what happens to it, and why.
#[derive(Debug, Clone, PartialEq, Eq)]
pub struct MetadataDegradation {
    pub feature: MetadataFeature,
    pub action: MetadataAction,
    pub message: String,
}

impl View for MetadataDegradation {
    type V = (MetadataFeature, MetadataAction, Seq<char>);

    open spec fn view(&self) -> (MetadataFeature, MetadataAction, Seq<char>) {
        (self.feature, self.action, self.message@)
    }
}

impl MetadataDegradation {
    pub fn new(feature: MetadataFeature, action: MetadataAction, message: &str) -> (r: Self)
        ensures
            r@ == (feature, action, message@),
    {
        MetadataDegradation { feature, action, message: message.to_owned() }
    }

    /// Whether the metadata is lost: anything but applied.
    pub fn is_loss(&self) -> (r: bool)
        ensures
            r == (self.action != MetadataAction::Applied),
    {
        !matches!(self.action, MetadataAction::Applied)
    }
}

/// The degradations reported while copying metadata, in order.
#[derive(Debug, Clone, PartialEq, Eq)]
pub struct MetadataReport {
    degradations: Vec<MetadataDegradation>,
}

impl View for MetadataReport {
    type V = Seq<(MetadataFeature, MetadataAction, Seq<char>)>;

    closed spec fn view(&self) -> Seq<(MetadataFeature, MetadataAction, Seq<char>)> {
        self.degradations@.map_values(|d: MetadataDegradation| d@)
    }
}

impl Default for MetadataReport {
    fn default() -> (r: Self)
        ensures
            r@ == Seq::<(MetadataFeature, MetadataAction, Seq<char>)>::empty(),
    {
        MetadataReport::new()
    }
}

impl MetadataReport {
    pub fn new() -> (r: Self)
        ensures
            r@ == Seq::<(MetadataFeature, MetadataAction, Seq<char>)>::empty(),
    {
        let r = MetadataReport { degradations: Vec::new() };
        assert(r@ =~= Seq::empty());
        r
    }

    pub fn push(&mut self, degradation: MetadataDegradation)
        ensures
            final(self)@ == old(self)@.push(degradation@),
    {
        self.degradations.push(degradation);
        assert(self@ =~= old(self)@.push(degradation@));
    }

    pub fn warn_loss(&mut self, feature: MetadataFeature, action: MetadataAction, message: &str)
        ensures
            final(self)@ == old(self)@.push((feature, action, message@)),
    {
        self.push(MetadataDegradation::new(feature, action, message));
    }

    /// Whether any reported metadata is lost.
    pub fn has_loss(&self) -> (r: bool)
        ensures
            r == exists|i: int| 0 <= i < self@.len() && (#[trigger] self@[i]).1 != MetadataAction::Applied,
    {
        let n = self.degradations.len();
        let mut i: usize = 0;
        while i < n
            invariant
                n == self.degradations@.len(),
                i <= n,
                forall|k: int| 0 <= k < i ==> (#[trigger] self@[k]).1 == MetadataAction::Applied,
            decreases n - i,
        {
            assert(self@[i as int] == self.degradations@[i as int]@);
            if self.degradations[i].is_loss() {
                return true;
            }
            i = i + 1;
        }
        false
    }

    pub fn degradations(&self) -> (r: &[MetadataDegradation])
        ensures
            r@.map_values(|d: MetadataDegradation| d@) == self@,
    {
        self.degradations.as_slice()
    }
}

} // verus!
