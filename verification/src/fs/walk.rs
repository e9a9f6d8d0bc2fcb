use vstd::prelude::*;
use vstd::string::StringExecFns;

use crate::bytes::{append_bytes, bytes_equal, copy_range, starts_with_bytes};
use crate::fs::metadata::{is_separator, FileType, PortableMetadata};
use crate::text::{chars_of, join3, string_from_chars};

verus! {

#[verifier::external_type_specification]
#[verifier::external_body]
pub struct ExIoError(std::io::Error);

/// How a file is written: through a temporary file renamed into place, or in place.
#[derive(Debug, Clone, Copy, PartialEq, Eq, Structural)]
pub enum FileWriteMode {
    Atomic,
    InPlace,
}

/// How files are written.
#[derive(Debug, Clone, PartialEq, Eq)]
pub struct FileWriteOptions {
    pub mode: FileWriteMode,
    pub keep_partial: bool,
    pub partial_dir: Option<String>,
    pub temp_dir: Option<String>,
    pub fsync: bool,
    pub sparse: bool,
    pub preallocate: bool,
}

impl Default for FileWriteOptions {
    fn default() -> (r: Self)
        ensures
            r.mode == FileWriteMode::Atomic,
            !r.keep_partial,
            r.partial_dir is None,
            r.temp_dir is None,
            !r.fsync,
            !r.sparse,
            !r.preallocate,
    {
        FileWriteOptions {
            mode: FileWriteMode::Atomic,
            keep_partial: false,
            partial_dir: None,
            temp_dir: None,
            fsync: false,
            sparse: false,
            preallocate: false,
        }
    }
}

/// Errors of the file system layer.
#[derive(Debug)]
pub enum FsError {
    Io(std::io::Error),
    InvalidPortablePath(String),
    NotFound(String),
    NotDirectory(String),
    DestinationInsideSource,
    DestinationPathPreflight(String),
    MaxDeleteExceeded { limit: usize },
    Unsupported(&'static str),
}

/// The text of an error of the file system layer (an I/O error's own text is not stated).
pub open spec fn fs_error_text(e: FsError) -> Seq<char> {
    match e {
        FsError::Io(_) => "I/O error: "@,
        FsError::InvalidPortablePath(p) => "invalid portable path `"@ + p@ + "`"@,
        FsError::NotFound(p) => "path does not exist: "@ + p@,
        FsError::NotDirectory(p) => "path is not a directory: "@ + p@,
        FsError::DestinationInsideSource => "refusing to sync a destination inside the source tree"@,
        FsError::DestinationPathPreflight(m) => "destination path preflight failed: "@ + m@,
        FsError::MaxDeleteExceeded { limit } => "deleting would exceed --max-delete="@
            + crate::decimal::decimal_of(limit as nat),
        FsError::Unsupported(m) => "operation is unsupported by this filesystem: "@ + m@,
    }
}

/// `std::io::Error`'s text, through `ToString::to_string`. What the text holds is not stated.
#[verifier::external_body]
fn io_error_text(e: &std::io::Error) -> String {
    e.to_string()
}

impl FsError {
    /// The error's text; that of an I/O error is `I/O error: ` and the I/O error's own text.
    pub fn message(&self) -> (r: String)
        ensures
            !(self is Io) ==> r@ == fs_error_text(*self),
            self is Io ==> r@.take(11) == fs_error_text(*self),
    {
        proof {
            reveal_strlit("");
            reveal_strlit("`");
            reveal_strlit("I/O error: ");
        }
        match self {
            FsError::Io(e) => {
                let t = io_error_text(e);
                let r = join3("I/O error: ", t.as_str(), "");
                assert(r@.take(11) =~= "I/O error: "@);
                r
            },
            FsError::InvalidPortablePath(p) => join3("invalid portable path `", p.as_str(), "`"),
            FsError::NotFound(p) => {
                let r = join3("path does not exist: ", p.as_str(), "");
                assert(r@ =~= "path does not exist: "@ + p@);
                r
            },
            FsError::NotDirectory(p) => {
                let r = join3("path is not a directory: ", p.as_str(), "");
                assert(r@ =~= "path is not a directory: "@ + p@);
                r
            },
            FsError::DestinationInsideSource => String::from_str(
                "refusing to sync a destination inside the source tree",
            ),
            FsError::DestinationPathPreflight(m) => {
                let r = join3("destination path preflight failed: ", m.as_str(), "");
                assert(r@ =~= "destination path preflight failed: "@ + m@);
                r
            },
            FsError::MaxDeleteExceeded { limit } => {
                let n = crate::decimal::decimal_text(*limit as u128);
                let r = join3("deleting would exceed --max-delete=", n.as_str(), "");
                assert(r@ =~= "deleting would exceed --max-delete="@ + n@);
                r
            },
            FsError::Unsupported(m) => {
                let r = join3("operation is unsupported by this filesystem: ", m, "");
                assert(r@ =~= "operation is unsupported by this filesystem: "@ + m@);
                r
            },
        }
    }
}

/// An entry found by walking a tree: its path below the root and its metadata.
#[derive(Debug, PartialEq, Eq)]
pub struct WalkEntry {
    pub path: String,
    pub metadata: PortableMetadata,
}

impl Clone for WalkEntry {
    fn clone(&self) -> (r: Self)
        ensures
            r == *self,
    {
        WalkEntry { path: self.path.clone(), metadata: self.metadata.clone() }
    }
}

/// Whether `t` starts with `prefix`.
pub open spec fn has_prefix(t: Seq<char>, prefix: Seq<char>) -> bool {
    t.len() >= prefix.len() && t.take(prefix.len() as int) == prefix
}

/// The first separator of `t` at or after `i`, or the end of `t`.
pub open spec fn next_separator(t: Seq<char>, i: int) -> int
    decreases t.len() - i,
{
    if i >= t.len() {
        t.len() as int
    } else if is_separator(t[i]) {
        i
    } else {
        next_separator(t, i + 1)
    }
}

/// A Windows path that starts with two separators.
pub open spec fn starts_with_two_separators(t: Seq<char>) -> bool {
    t.len() >= 2 && is_separator(t[0]) && is_separator(t[1])
}

/// A device namespace path such as `\\.\COM42`.
pub open spec fn is_device_namespace(t: Seq<char>) -> bool {
    starts_with_two_separators(t) && t.len() >= 4 && t[2] == '.' && is_separator(t[3])
}

/// A UNC path `\\server\share...`: a non-empty server and a non-empty share after two separators.
pub open spec fn is_unc(t: Seq<char>) -> bool {
    let server_end = next_separator(t, 2);
    &&& starts_with_two_separators(t)
    &&& !is_device_namespace(t)
    &&& server_end > 2
    &&& server_end < t.len()
    &&& next_separator(t, server_end + 1) > server_end + 1
}

/// An absolute path on a drive, such as `C:\temp` or `C:/temp`.
pub open spec fn is_absolute_disk(t: Seq<char>) -> bool {
    t.len() >= 3 && (('a' <= t[0] <= 'z') || ('A' <= t[0] <= 'Z')) && t[1] == ':' && is_separator(t[2])
}

/// `t` with every `/` turned into `\`.
pub open spec fn backslashed(t: Seq<char>) -> Seq<char> {
    t.map_values(|c: char| if c == '/' { '\\' } else { c })
}

/// The path handed to Windows for `t`: absolute drive paths and UNC paths get the verbatim
/// (long path) prefix, with `/` turned into `\`; verbatim, device and relative paths are kept.
pub open spec fn os_path(t: Seq<char>) -> Seq<char> {
    if has_prefix(t, "\\\\?\\"@) {
        t
    } else if starts_with_two_separators(t) {
        if is_unc(t) {
            "\\\\?\\UNC\\"@ + backslashed(t).skip(2)
        } else {
            t
        }
    } else if is_absolute_disk(t) {
        "\\\\?\\"@ + backslashed(t)
    } else {
        t
    }
}

/// The path a user would write for an OS path: the verbatim prefix taken off again.
pub open spec fn logical_path(t: Seq<char>) -> Seq<char> {
    if has_prefix(t, "\\\\?\\UNC\\"@) {
        "\\\\"@ + t.skip(8)
    } else if has_prefix(t, "\\\\?\\"@) {
        t.skip(4)
    } else {
        t
    }
}

fn is_separator_at(t: &[char], i: usize) -> (r: bool)
    requires
        i < t@.len(),
    ensures
        r == is_separator(t@[i as int]),
{
    t[i] == '/' || t[i] == '\\'
}

fn find_separator(t: &[char], from: usize) -> (r: usize)
    requires
        from <= t@.len(),
    ensures
        r == next_separator(t@, from as int),
        from <= r <= t@.len(),
{
    let mut i = from;
    while i < t.len() && !is_separator_at(t, i)
        invariant
            from <= i <= t@.len(),
            next_separator(t@, i as int) == next_separator(t@, from as int),
        decreases t.len() - i,
    {
        i = i + 1;
    }
    i
}

pub fn starts_with_chars(t: &[char], prefix: &str) -> (r: bool)
    ensures
        r == has_prefix(t@, prefix@),
{
    let p = chars_of(prefix);
    if t.len() < p.len() {
        return false;
    }
    let mut i: usize = 0;
    while i < p.len()
        invariant
            i <= p@.len(),
            p@.len() <= t@.len(),
            p@ == prefix@,
            forall|k: int| 0 <= k < i ==> t@[k] == p@[k],
        decreases p.len() - i,
    {
        if t[i] != p[i] {
            assert(t@.take(p@.len() as int)[i as int] != p@[i as int]);
            return false;
        }
        i = i + 1;
    }
    assert(t@.take(p@.len() as int) =~= p@);
    true
}

/// `prefix` followed by `t[from..]` with every `/` turned into `\`.
fn prefixed_backslashed(prefix: &str, t: &[char], from: usize) -> (r: String)
    requires
        from <= t@.len(),
    ensures
        r@ == prefix@ + backslashed(t@).skip(from as int),
{
    let mut out = String::from_str(prefix);
    let mut i = from;
    while i < t.len()
        invariant
            from <= i <= t@.len(),
            out@ == prefix@ + backslashed(t@).subrange(from as int, i as int),
        decreases t.len() - i,
    {
        let c = if t[i] == '/' {
            '\\'
        } else {
            t[i]
        };
        out.push(c);
        i = i + 1;
        assert(out@ =~= prefix@ + backslashed(t@).subrange(from as int, i as int));
    }
    assert(backslashed(t@).subrange(from as int, t@.len() as int) =~= backslashed(t@).skip(
        from as int,
    ));
    out
}

/// The path handed to Windows for `path`: absolute drive paths and UNC paths get the verbatim
/// (long path) prefix.
pub fn local_os_path(path: &str) -> (r: String)
    ensures
        r@ == os_path(path@),
{
    let t = chars_of(path);
    let t = t.as_slice();
    if starts_with_chars(t, "\\\\?\\") {
        return path.to_owned();
    }
    if t.len() >= 2 && is_separator_at(t, 0) && is_separator_at(t, 1) {
        if t.len() >= 4 && t[2] == '.' && is_separator_at(t, 3) {
            return path.to_owned();
        }
        let server_end = find_separator(t, 2);
        if server_end > 2 && server_end < t.len() {
            let share_end = find_separator(t, server_end + 1);
            if share_end > server_end + 1 {
                return prefixed_backslashed("\\\\?\\UNC\\", t, 2);
            }
        }
        return path.to_owned();
    }
    if t.len() >= 3 && (('a' <= t[0] && t[0] <= 'z') || ('A' <= t[0] && t[0] <= 'Z')) && t[1]
        == ':' && is_separator_at(t, 2) {
        return prefixed_backslashed("\\\\?\\", t, 0);
    }
    path.to_owned()
}

/// The path a user would write for an OS path: the verbatim prefix taken off again.
pub fn logical_path_from_os_path(path: &str) -> (r: String)
    ensures
        r@ == logical_path(path@),
{
    let t = chars_of(path);
    let t = t.as_slice();
    if starts_with_chars(t, "\\\\?\\UNC\\") {
        proof {
            reveal_strlit("\\\\?\\UNC\\");
        }
        let mut out = String::from_str("\\\\");
        let mut i: usize = 8;
        while i < t.len()
            invariant
                8 <= i <= t@.len(),
                out@ == "\\\\"@ + t@.subrange(8, i as int),
            decreases t.len() - i,
        {
            out.push(t[i]);
            i = i + 1;
            assert(out@ =~= "\\\\"@ + t@.subrange(8, i as int));
        }
        assert(t@.subrange(8, t@.len() as int) =~= t@.skip(8));
        return out;
    }
    if starts_with_chars(t, "\\\\?\\") {
        proof {
            reveal_strlit("\\\\?\\");
        }
        let rest = crate::text::copy_chars(t, 4, t.len());
        assert(rest@ =~= t@.skip(4));
        return string_from_chars(rest.as_slice());
    }
    path.to_owned()
}

/// Taking the verbatim prefix off the OS path of a path gives the path back, for paths written
/// with `\` that are not verbatim already.
pub proof fn lemma_logical_path_undoes_os_path(t: Seq<char>)
    requires
        !has_prefix(t, "\\\\?\\"@),
        forall|i: int| 0 <= i < t.len() ==> t[i] != '/',
    ensures
        logical_path(os_path(t)) == t,
{
    reveal_strlit("\\\\?\\");
    reveal_strlit("\\\\?\\UNC\\");
    reveal_strlit("\\\\");
    assert(backslashed(t) =~= t);
    let verbatim = "\\\\?\\"@;
    let unc = "\\\\?\\UNC\\"@;
    assert(unc.take(4) =~= verbatim);
    if has_prefix(t, verbatim) {
    } else if starts_with_two_separators(t) {
        if is_unc(t) {
            let os = unc + t.skip(2);
            assert(os.take(8) =~= unc);
            assert(os.skip(8) =~= t.skip(2));
            assert("\\\\"@ + t.skip(2) =~= t);
        } else {
            assert(!has_prefix(t, unc)) by {
                if has_prefix(t, unc) {
                    assert(t.take(4) =~= t.take(8).take(4));
                assert(has_prefix(t, verbatim));
                }
            }
        }
    } else if is_absolute_disk(t) {
        let os = verbatim + t;
        assert(os.take(4) =~= verbatim);
        assert(os[5] == t[1]);
        assert(!has_prefix(os, unc)) by {
            if has_prefix(os, unc) {
                assert(os.take(8)[5] == unc[5]);
            }
        }
        assert(os.skip(4) =~= t);
    } else {
        assert(!has_prefix(t, unc)) by {
            if has_prefix(t, unc) {
                assert(t.take(4) =~= t.take(8).take(4));
                assert(has_prefix(t, verbatim));
            }
        }
    }
}

/// The operations a sync needs from a file system. Paths are relative portable paths.
pub trait PortableFileSystem {
    /// The metadata that `metadata` gives for `path`, or `None` where it fails. A file system
    /// states it by overriding this function; one that does not (one outside this crate) is not
    /// checked against it.
    closed spec fn metadata_of(&self, path: Seq<char>) -> Option<PortableMetadata> {
        None
    }

    /// The bytes that `read_file` gives for `path`, or `None` where it fails. As with
    /// `metadata_of`, a file system states it by overriding this function.
    closed spec fn contents_of(&self, path: Seq<char>) -> Option<Seq<u8>> {
        None
    }

    fn metadata(&self, path: &str) -> (r: Result<PortableMetadata, FsError>)
        ensures
            match self.metadata_of(path@) {
                Some(m) => r == Ok::<PortableMetadata, FsError>(m),
                None => r is Err,
            },
    ;

    fn metadata_follow(&self, path: &str) -> Result<PortableMetadata, FsError> {
        self.metadata(path)
    }

    fn resolve_path_for_prefix_check(&self, path: &str) -> Result<String, FsError>;

    fn same_file_system(&self, root: &str, path: &str) -> Result<bool, FsError> {
        Ok(true)
    }

    fn read_file(&self, path: &str) -> (r: Result<Vec<u8>, FsError>)
        ensures
            match self.contents_of(path@) {
                Some(b) => r matches Ok(v) && v@ == b,
                None => r is Err,
            },
    ;

    fn write_file_atomic(&mut self, path: &str, bytes: &[u8]) -> Result<(), FsError>;

    fn write_file_direct(&mut self, path: &str, bytes: &[u8]) -> Result<(), FsError> {
        self.write_file_atomic(path, bytes)
    }

    fn write_file_with_options(
        &mut self,
        path: &str,
        bytes: &[u8],
        options: &FileWriteOptions,
    ) -> Result<(), FsError> {
        match options.mode {
            FileWriteMode::Atomic => self.write_file_atomic(path, bytes),
            FileWriteMode::InPlace => self.write_file_direct(path, bytes),
        }
    }

    fn append_file(&mut self, path: &str, bytes: &[u8]) -> Result<(), FsError> {
        let mut existing = self.read_file(path)?;
        append_bytes(&mut existing, bytes);
        self.write_file_atomic(path, existing.as_slice())
    }

    fn copy_file_with_options(
        &mut self,
        source: &str,
        dest: &str,
        options: &FileWriteOptions,
    ) -> Result<u64, FsError> {
        let bytes = self.read_file(source)?;
        let len = bytes.len() as u64;
        self.write_file_with_options(dest, bytes.as_slice(), options)?;
        Ok(len)
    }

    fn rename_file(&mut self, source: &str, dest: &str) -> Result<(), FsError> {
        let bytes = self.read_file(source)?;
        self.write_file_atomic(dest, bytes.as_slice())?;
        self.remove_file(source)
    }

    fn append_file_from(&mut self, path: &str, source: &str, offset: u64) -> (r: Result<u64, FsError>)
        ensures
            offset > usize::MAX ==> r is Err,
    {
        let bytes = self.read_file(source)?;
        if offset > usize::MAX as u64 {
            return Err(FsError::Unsupported("file offset exceeds memory address size"));
        }
        let offset = offset as usize;
        if offset > bytes.len() {
            return Err(FsError::Unsupported("append offset exceeds source file length"));
        }
        let suffix = copy_range(bytes.as_slice(), offset, bytes.len());
        let len = suffix.len() as u64;
        self.append_file(path, suffix.as_slice())?;
        Ok(len)
    }

    fn files_equal(&self, left: &str, right: &str) -> (r: Result<bool, FsError>)
        ensures
            match (self.metadata_of(left@), self.metadata_of(right@)) {
                (Some(lm), Some(rm)) => if lm.len != rm.len {
                    r == Ok::<bool, FsError>(false)
                } else {
                    match (self.contents_of(left@), self.contents_of(right@)) {
                        (Some(a), Some(b)) => r == Ok::<bool, FsError>(a == b),
                        _ => r is Err,
                    }
                },
                _ => r is Err,
            },
    {
        let left_metadata = self.metadata(left)?;
        let right_metadata = self.metadata(right)?;
        if left_metadata.len != right_metadata.len {
            return Ok(false);
        }
        let left_bytes = self.read_file(left)?;
        let right_bytes = self.read_file(right)?;
        Ok(bytes_equal(left_bytes.as_slice(), right_bytes.as_slice()))
    }

    fn file_prefix_matches(&self, path: &str, prefix: &str) -> Result<bool, FsError> {
        let path_bytes = self.read_file(path)?;
        let prefix_bytes = self.read_file(prefix)?;
        Ok(starts_with_bytes(path_bytes.as_slice(), prefix_bytes.as_slice()))
    }

    fn create_symlink(&mut self, path: &str, target: &str, target_kind: FileType) -> Result<
        (),
        FsError,
    > {
        Err(FsError::Unsupported("creating symlinks is unsupported by this filesystem"))
    }

    fn create_hard_link(&mut self, existing: &str, link: &str) -> Result<(), FsError> {
        Err(FsError::Unsupported("creating hard links is unsupported by this filesystem"))
    }

    fn create_dir_all(&mut self, path: &str) -> Result<(), FsError>;

    fn remove_file(&mut self, path: &str) -> Result<(), FsError>;

    fn remove_dir_all(&mut self, path: &str) -> Result<(), FsError>;

    fn list(&self, path: &str) -> Result<Vec<WalkEntry>, FsError>;

    fn set_mtime(&mut self, path: &str, modified: std::time::SystemTime) -> Result<(), FsError>;

    fn path_exists(&self, path: &str) -> (r: bool)
        ensures
            r == self.metadata_of(path@) is Some,
    {
        self.metadata(path).is_ok()
    }
}

} // verus!
