use vstd::prelude::*;

use crate::fs::metadata::ascii_lower;
use crate::text::{chars_of, chars_equal, string_from_chars, trim, trim_chars};

verus! {

/// The strong checksum algorithm of a protocol 31 session.
#[derive(Debug, Clone, Copy, PartialEq, Eq, Structural)]
pub enum RemoteChecksumAlgorithm {
    Md4,
    Md5,
}

/// Why a negotiated checksum choice was refused: the (normalized) name that was not supported.
#[derive(Debug, Clone, PartialEq, Eq)]
pub enum ChecksumChoiceError {
    Unsupported(String),
}

/// A checksum choice trimmed and in ASCII lower case.
pub open spec fn normalized_choice(choice: Seq<char>) -> Seq<char> {
    trim(choice).map_values(|c: char| ascii_lower(c))
}

fn to_ascii_lower(c: char) -> (r: char)
    ensures
        r == ascii_lower(c),
{
    if 'A' <= c && c <= 'Z' {
        let b = c as u8;
        (b + 32u8) as char
    } else {
        c
    }
}

pub fn normalize_checksum_choice(choice: &str) -> (r: String)
    ensures
        r@ == normalized_choice(choice@),
{
    let trimmed = trim_chars(chars_of(choice).as_slice());
    let mut lower: Vec<char> = Vec::new();
    let mut i: usize = 0;
    while i < trimmed.len()
        invariant
            i <= trimmed@.len(),
            trimmed@ == trim(choice@),
            lower@ == trimmed@.take(i as int).map_values(|c: char| ascii_lower(c)),
        decreases trimmed.len() - i,
    {
        lower.push(to_ascii_lower(trimmed[i]));
        i = i + 1;
        assert(lower@ =~= trimmed@.take(i as int).map_values(|c: char| ascii_lower(c)));
    }
    assert(trimmed@.take(trimmed@.len() as int) =~= trimmed@);
    string_from_chars(lower.as_slice())
}

/// The algorithm a negotiated choice names: MD4 when none was negotiated.
pub open spec fn algorithm_of_choice(choice: Option<Seq<char>>) -> Result<
    RemoteChecksumAlgorithm,
    Seq<char>,
> {
    match choice {
        None => Ok(RemoteChecksumAlgorithm::Md4),
        Some(c) => {
            let name = normalized_choice(c);
            if name == "md4"@ {
                Ok(RemoteChecksumAlgorithm::Md4)
            } else if name == "md5"@ {
                Ok(RemoteChecksumAlgorithm::Md5)
            } else {
                Err(name)
            }
        },
    }
}

impl RemoteChecksumAlgorithm {
    pub fn from_protocol31_choice(choice: Option<&str>) -> (r: Result<
        RemoteChecksumAlgorithm,
        ChecksumChoiceError,
    >)
        ensures
            match algorithm_of_choice(
                match choice {
                    Some(c) => Some(c@),
                    None => None,
                },
            ) {
                Ok(a) => r matches Ok(b) && b == a,
                Err(name) => r matches Err(ChecksumChoiceError::Unsupported(s)) && s@ == name,
            },
    {
        match choice {
            None => Ok(RemoteChecksumAlgorithm::Md4),
            Some(c) => {
                let name = normalize_checksum_choice(c);
                let chars = chars_of(name.as_str());
                if chars_equal(chars.as_slice(), chars_of("md4").as_slice()) {
                    Ok(RemoteChecksumAlgorithm::Md4)
                } else if chars_equal(chars.as_slice(), chars_of("md5").as_slice()) {
                    Ok(RemoteChecksumAlgorithm::Md5)
                } else {
                    Err(ChecksumChoiceError::Unsupported(name))
                }
            },
        }
    }
}

/// The checksum of a whole file: MD4 or MD5, seeded unless the seed is zero.
#[derive(Debug, Clone, Copy, PartialEq, Eq, Structural)]
pub enum RemoteFileChecksum {
    SeededMd4(i32),
    PlainMd4,
    SeededMd5(i32),
    PlainMd5,
}

impl RemoteFileChecksum {
    pub fn md4_with_seed(seed: i32) -> (r: Self)
        ensures
            r == (if seed == 0 {
                RemoteFileChecksum::PlainMd4
            } else {
                RemoteFileChecksum::SeededMd4(seed)
            }),
    {
        if seed == 0 {
            RemoteFileChecksum::PlainMd4
        } else {
            RemoteFileChecksum::SeededMd4(seed)
        }
    }

    pub fn protocol31(choice: Option<&str>, seed: i32) -> (r: Result<Self, ChecksumChoiceError>)
        ensures
            match algorithm_of_choice(
                match choice {
                    Some(c) => Some(c@),
                    None => None,
                },
            ) {
                Ok(RemoteChecksumAlgorithm::Md4) => r == Ok::<Self, ChecksumChoiceError>(
                    if seed == 0 {
                        RemoteFileChecksum::PlainMd4
                    } else {
                        RemoteFileChecksum::SeededMd4(seed)
                    },
                ),
                Ok(RemoteChecksumAlgorithm::Md5) => r == Ok::<Self, ChecksumChoiceError>(
                    if seed == 0 {
                        RemoteFileChecksum::PlainMd5
                    } else {
                        RemoteFileChecksum::SeededMd5(seed)
                    },
                ),
                Err(name) => r matches Err(ChecksumChoiceError::Unsupported(s)) && s@ == name,
            },
    {
        match RemoteChecksumAlgorithm::from_protocol31_choice(choice) {
            Ok(RemoteChecksumAlgorithm::Md4) => Ok(RemoteFileChecksum::md4_with_seed(seed)),
            Ok(RemoteChecksumAlgorithm::Md5) => if seed == 0 {
                Ok(RemoteFileChecksum::PlainMd5)
            } else {
                Ok(RemoteFileChecksum::SeededMd5(seed))
            },
            Err(e) => Err(e),
        }
    }

    pub fn algorithm(self) -> (r: RemoteChecksumAlgorithm)
        ensures
            r == (match self {
                RemoteFileChecksum::SeededMd4(_) | RemoteFileChecksum::PlainMd4 => RemoteChecksumAlgorithm::Md4,
                _ => RemoteChecksumAlgorithm::Md5,
            }),
    {
        match self {
            RemoteFileChecksum::SeededMd4(_) | RemoteFileChecksum::PlainMd4 => RemoteChecksumAlgorithm::Md4,
            RemoteFileChecksum::SeededMd5(_) | RemoteFileChecksum::PlainMd5 => RemoteChecksumAlgorithm::Md5,
        }
    }
}

/// The checksum that closes a transferred file.
#[derive(Debug, Clone, Copy, PartialEq, Eq, Structural)]
pub enum RemoteFinalChecksum {
    PlainMd4,
    SeededMd4Prefix(i32),
    PlainMd5,
}

impl RemoteFinalChecksum {
    pub fn protocol27(seed: i32) -> (r: Self)
        ensures
            r == (if seed == 0 {
                RemoteFinalChecksum::PlainMd4
            } else {
                RemoteFinalChecksum::SeededMd4Prefix(seed)
            }),
    {
        if seed == 0 {
            RemoteFinalChecksum::PlainMd4
        } else {
            RemoteFinalChecksum::SeededMd4Prefix(seed)
        }
    }

    pub fn protocol31_for_algorithm(algorithm: RemoteChecksumAlgorithm) -> (r: Self)
        ensures
            r == (match algorithm {
                RemoteChecksumAlgorithm::Md4 => RemoteFinalChecksum::PlainMd4,
                RemoteChecksumAlgorithm::Md5 => RemoteFinalChecksum::PlainMd5,
            }),
    {
        match algorithm {
            RemoteChecksumAlgorithm::Md4 => RemoteFinalChecksum::PlainMd4,
            RemoteChecksumAlgorithm::Md5 => RemoteFinalChecksum::PlainMd5,
        }
    }

    pub fn protocol31(choice: Option<&str>) -> (r: Result<Self, ChecksumChoiceError>)
        ensures
            match algorithm_of_choice(
                match choice {
                    Some(c) => Some(c@),
                    None => None,
                },
            ) {
                Ok(RemoteChecksumAlgorithm::Md4) => r == Ok::<Self, ChecksumChoiceError>(
                    RemoteFinalChecksum::PlainMd4,
                ),
                Ok(RemoteChecksumAlgorithm::Md5) => r == Ok::<Self, ChecksumChoiceError>(
                    RemoteFinalChecksum::PlainMd5,
                ),
                Err(name) => r matches Err(ChecksumChoiceError::Unsupported(s)) && s@ == name,
            },
    {
        match RemoteChecksumAlgorithm::from_protocol31_choice(choice) {
            Ok(algorithm) => Ok(RemoteFinalChecksum::protocol31_for_algorithm(algorithm)),
            Err(e) => Err(e),
        }
    }
}

} // verus!
