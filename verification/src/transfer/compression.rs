use vstd::prelude::*;

use crate::fs::metadata::{ascii_lower, to_ascii_lower};
use crate::fs::paths::components_view;
use crate::text::{chars_of, trim, trim_chars};
use crate::transfer::sum_head::TransferError;

verus! {

/// The compression a remote transfer applies to file data: the deflate level, and the file
/// suffixes whose data is sent at level zero.
pub struct RemoteCompressionConfig {
    pub level: u32,
    pub skip_suffixes: Vec<String>,
}

/// `s` without every leading `*.`.
pub open spec fn without_star_dots(s: Seq<char>) -> Seq<char>
    decreases s.len(),
{
    if s.len() >= 2 && s[0] == '*' && s[1] == '.' {
        without_star_dots(s.skip(2))
    } else {
        s
    }
}

/// `s` without its leading dots.
pub open spec fn without_dots(s: Seq<char>) -> Seq<char>
    decreases s.len(),
{
    if s.len() >= 1 && s[0] == '.' {
        without_dots(s.skip(1))
    } else {
        s
    }
}

/// The suffix a `--skip-compress` entry names: trimmed, without leading `*.` and dots.
pub open spec fn skip_suffix(entry: Seq<char>) -> Seq<char> {
    without_dots(without_star_dots(trim(entry)))
}

/// `s` in ASCII lower case.
pub open spec fn lowered(s: Seq<char>) -> Seq<char> {
    s.map_values(|c: char| ascii_lower(c))
}

/// Whether `t` ends with `x`.
pub open spec fn ends_with(t: Seq<char>, x: Seq<char>) -> bool {
    t.len() >= x.len() && t.skip(t.len() - x.len()) == x
}

/// Whether a path's data is sent uncompressed: its name, in ASCII lower case, ends with a dot
/// and one of the non-empty skip suffixes, compared in ASCII lower case.
pub open spec fn skips_compression(path: Seq<char>, entries: Seq<Seq<char>>) -> bool {
    exists|i: int|
        0 <= i < entries.len() && skip_suffix(#[trigger] entries[i]).len() > 0 && ends_with(
            lowered(path),
            seq!['.'] + lowered(skip_suffix(entries[i])),
        )
}

fn lower_chars(s: &[char]) -> (r: Vec<char>)
    ensures
        r@ == lowered(s@),
{
    let mut out: Vec<char> = Vec::new();
    let mut i: usize = 0;
    while i < s.len()
        invariant
            i <= s@.len(),
            out@ == lowered(s@.take(i as int)),
        decreases s.len() - i,
    {
        out.push(to_ascii_lower(s[i]));
        assert(s@.take(i + 1) =~= s@.take(i as int).push(s@[i as int]));
        i = i + 1;
        assert(out@ =~= lowered(s@.take(i as int)));
    }
    assert(s@.take(s@.len() as int) =~= s@);
    out
}

fn suffix_of_entry(entry: &str) -> (r: Vec<char>)
    ensures
        r@ == skip_suffix(entry@),
{
    let t = trim_chars(chars_of(entry).as_slice());
    let mut start: usize = 0;
    assert(t@.skip(0) =~= t@);
    while start < t.len() && start + 1 < t.len() && t[start] == '*' && t[start + 1] == '.'
        invariant
            start <= t@.len(),
            without_star_dots(t@) == without_star_dots(t@.skip(start as int)),
        decreases t.len() - start,
    {
        assert(t@.skip(start as int).skip(2) =~= t@.skip(start + 2));
        start = start + 2;
    }
    assert(without_star_dots(t@.skip(start as int)) == t@.skip(start as int));
    let ghost mid = t@.skip(start as int);
    while start < t.len() && t[start] == '.'
        invariant
            start <= t@.len(),
            without_dots(mid) == without_dots(t@.skip(start as int)),
        decreases t.len() - start,
    {
        assert(t@.skip(start as int).skip(1) =~= t@.skip(start + 1));
        start = start + 1;
    }
    let mut out: Vec<char> = Vec::new();
    let mut k: usize = start;
    while k < t.len()
        invariant
            start <= k <= t@.len(),
            out@ == t@.subrange(start as int, k as int),
        decreases t.len() - k,
    {
        out.push(t[k]);
        k = k + 1;
        assert(out@ =~= t@.subrange(start as int, k as int));
    }
    assert(out@ =~= t@.skip(start as int));
    out
}

fn ends_with_chars(t: &[char], x: &[char]) -> (r: bool)
    ensures
        r == ends_with(t@, x@),
{
    if t.len() < x.len() {
        return false;
    }
    let n = t.len();
    let offset = n - x.len();
    let mut i: usize = 0;
    while i < x.len()
        invariant
            i <= x@.len(),
            offset == t@.len() - x@.len(),
            t@.len() >= x@.len(),
            n == t@.len(),
            forall|j: int| 0 <= j < i ==> t@[offset + j] == x@[j],
        decreases x.len() - i,
    {
        assert(offset + i < t@.len());
        if t[offset + i] != x[i] {
            assert(t@.skip(offset as int)[i as int] != x@[i as int]);
            return false;
        }
        i = i + 1;
    }
    assert(t@.skip(offset as int) =~= x@);
    true
}

impl RemoteCompressionConfig {
    /// Whether the data of `path` is sent uncompressed.
    pub fn should_skip_path(&self, path: &str) -> (r: bool)
        ensures
            r == skips_compression(path@, components_view(self.skip_suffixes@)),
    {
        let ghost ev = components_view(self.skip_suffixes@);
        let lowered_path = lower_chars(chars_of(path).as_slice());
        let mut i: usize = 0;
        while i < self.skip_suffixes.len()
            invariant
                i <= self.skip_suffixes@.len(),
                ev == components_view(self.skip_suffixes@),
                lowered_path@ == lowered(path@),
                forall|j: int|
                    0 <= j < i ==> !(skip_suffix(#[trigger] ev[j]).len() > 0 && ends_with(
                        lowered(path@),
                        seq!['.'] + lowered(skip_suffix(ev[j])),
                    )),
            decreases self.skip_suffixes.len() - i,
        {
            assert(ev[i as int] == self.skip_suffixes@[i as int]@);
            let suffix = suffix_of_entry(self.skip_suffixes[i].as_str());
            if suffix.len() > 0 {
                let lowered_suffix = lower_chars(suffix.as_slice());
                let mut dotted: Vec<char> = Vec::new();
                dotted.push('.');
                let mut k: usize = 0;
                while k < lowered_suffix.len()
                    invariant
                        k <= lowered_suffix@.len(),
                        dotted@ == seq!['.'] + lowered_suffix@.take(k as int),
                    decreases lowered_suffix.len() - k,
                {
                    dotted.push(lowered_suffix[k]);
                    k = k + 1;
                    assert(dotted@ =~= seq!['.'] + lowered_suffix@.take(k as int));
                }
                assert(lowered_suffix@.take(lowered_suffix@.len() as int) =~= lowered_suffix@);
                if ends_with_chars(lowered_path.as_slice(), dotted.as_slice()) {
                    return true;
                }
            }
            i = i + 1;
        }
        false
    }

    /// The deflate level for the data of `path`: zero for a skipped suffix.
    pub fn level_for_path(&self, path: &str) -> (r: u32)
        ensures
            r == if skips_compression(path@, components_view(self.skip_suffixes@)) {
                0
            } else {
                self.level
            },
    {
        if self.should_skip_path(path) {
            0
        } else {
            self.level
        }
    }
}

/// The block size of a remote delta: the planned size, 32 KiB when none was given; it must fit
/// `usize` and be positive.
pub fn remote_delta_block_size(block_size: Option<u64>) -> (r: Result<usize, TransferError>)
    ensures
        ({
            let b = match block_size {
                Some(b) => b,
                None => 32768,
            };
            if 0 < b <= usize::MAX {
                r == Ok::<usize, TransferError>(b as usize)
            } else {
                r == Err::<usize, TransferError>(TransferError::InvalidDeltaBlockSize)
            }
        }),
{
    let b = match block_size {
        Some(b) => b,
        None => 32768,
    };
    if b == 0 || b > usize::MAX as u64 {
        return Err(TransferError::InvalidDeltaBlockSize);
    }
    Ok(b as usize)
}

} // verus!
