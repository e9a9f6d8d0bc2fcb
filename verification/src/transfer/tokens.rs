use vstd::prelude::*;

use crate::transfer::sum_head::{
    block_length, block_offset, block_span, copy_token_to_block_index, RemoteSumHead,
    TransferError,
};

verus! {

/// A token of a file's delta stream as the receiver reads it: so many bytes of literal data, a
/// copy of a basis block (by its copy token `-(i + 1)`), or the end of the file.
#[derive(Debug, Clone, Copy, PartialEq, Eq, Structural)]
pub enum ReceivedToken {
    Literal(u64),
    Copy(i32),
    End,
}

/// The token a raw integer of the stream stands for: a positive one announces that many literal
/// bytes, zero ends the file, a negative one copies a basis block.
pub open spec fn token_of(raw: i32) -> ReceivedToken {
    if raw > 0 {
        ReceivedToken::Literal(raw as u64)
    } else if raw == 0 {
        ReceivedToken::End
    } else {
        ReceivedToken::Copy(raw)
    }
}

pub fn received_token(raw: i32) -> (r: ReceivedToken)
    ensures
        r == token_of(raw),
{
    if raw > 0 {
        ReceivedToken::Literal(raw as u64)
    } else if raw == 0 {
        ReceivedToken::End
    } else {
        ReceivedToken::Copy(raw)
    }
}

/// The running length after `add` more bytes, refused when it would pass `expected` (with the
/// largest `u64` as the length where the sum overflows).
pub open spec fn grown_total(total: u64, add: int, expected: u64) -> Result<u64, TransferError> {
    if total + add > expected {
        Err(
            TransferError::FileLengthExceeded {
                expected,
                actual: if total + add > u64::MAX {
                    u64::MAX
                } else {
                    (total + add) as u64
                },
            },
        )
    } else {
        Ok((total + add) as u64)
    }
}

/// What a copy token does to the running length, with `h` the basis file's checksum header:
/// the token must name a block of the basis, whose length is then added.
pub open spec fn copy_step(total: u64, expected: u64, token: i32, h: RemoteSumHead) -> Result<
    u64,
    TransferError,
> {
    if token >= 0 {
        Err(TransferError::CopyTokenNotNegative)
    } else if token == i32::MIN {
        Err(TransferError::CopyTokenOverflow)
    } else {
        let i = -token - 1;
        if h.block_count > 0 && h.block_len == 0 {
            Err(TransferError::ZeroBlockLength)
        } else if h.block_count > 0 && h.remainder > h.block_len {
            Err(TransferError::RemainderTooLarge)
        } else if i >= h.block_count {
            Err(TransferError::MissingBasisBlock(i as usize))
        } else if block_offset(h, i) > usize::MAX {
            Err(TransferError::BlockOffsetOverflow)
        } else {
            grown_total(total, block_length(h, i), expected)
        }
    }
}

/// What one token does to the running length `total` of a file that must come to `expected`
/// bytes. A literal or a copy that would pass the expected length is refused; a copy needs a
/// basis with blocks; the end is refused when the file came out short.
pub open spec fn token_step(
    total: u64,
    expected: u64,
    token: ReceivedToken,
    basis: Option<RemoteSumHead>,
) -> Result<u64, TransferError> {
    match token {
        ReceivedToken::Literal(n) => grown_total(total, n as int, expected),
        ReceivedToken::End => if total == expected {
            Ok(total)
        } else {
            Err(TransferError::FileLengthShort { expected, actual: total })
        },
        ReceivedToken::Copy(t) => match basis {
            Some(h) => if h.block_count > 0 {
                copy_step(total, expected, t, h)
            } else {
                Err(TransferError::UnexpectedToken(t))
            },
            None => Err(TransferError::UnexpectedToken(t)),
        },
    }
}

fn grow_total(total: u64, add: u64, expected: u64) -> (r: Result<u64, TransferError>)
    ensures
        r == grown_total(total, add as int, expected),
{
    match total.checked_add(add) {
        None => Err(TransferError::FileLengthExceeded { expected, actual: u64::MAX }),
        Some(next) => if next > expected {
            Err(TransferError::FileLengthExceeded { expected, actual: next })
        } else {
            Ok(next)
        },
    }
}

/// The running length of a received file after `token`.
pub fn receive_token_step(
    total: u64,
    expected_len: u64,
    token: ReceivedToken,
    basis: Option<RemoteSumHead>,
) -> (r: Result<u64, TransferError>)
    ensures
        r == token_step(total, expected_len, token, basis),
{
    match token {
        ReceivedToken::Literal(n) => grow_total(total, n, expected_len),
        ReceivedToken::End => if total == expected_len {
            Ok(total)
        } else {
            Err(TransferError::FileLengthShort { expected: expected_len, actual: total })
        },
        ReceivedToken::Copy(t) => {
            let h = match basis {
                Some(h) => if h.block_count > 0 {
                    h
                } else {
                    return Err(TransferError::UnexpectedToken(t));
                },
                None => {
                    return Err(TransferError::UnexpectedToken(t));
                },
            };
            let index = match copy_token_to_block_index(t) {
                Ok(i) => i,
                Err(e) => {
                    return Err(e);
                },
            };
            let (_, len) = match block_span(&h, index) {
                Ok(span) => span,
                Err(e) => {
                    return Err(e);
                },
            };
            grow_total(total, len as u64, expected_len)
        },
    }
}

/// How a stream of tokens ends for a file of `expected` bytes, starting from `total`: the first
/// refusal, the length at the end token, or `None` where the tokens stop before the end.
pub open spec fn token_stream_result(
    total: u64,
    expected: u64,
    tokens: Seq<ReceivedToken>,
    basis: Option<RemoteSumHead>,
) -> Option<Result<u64, TransferError>>
    decreases tokens.len(),
{
    if tokens.len() == 0 {
        None
    } else {
        match token_step(total, expected, tokens[0], basis) {
            Err(e) => Some(Err(e)),
            Ok(t) => if tokens[0] == ReceivedToken::End {
                Some(Ok(t))
            } else {
                token_stream_result(t, expected, tokens.drop_first(), basis)
            },
        }
    }
}

/// Receives the tokens of one file: the length it came to at the end token, or the first
/// refusal; `None` where the tokens stop before the end.
pub fn receive_token_stream(
    tokens: &[ReceivedToken],
    expected_len: u64,
    basis: Option<RemoteSumHead>,
) -> (r: Option<Result<u64, TransferError>>)
    ensures
        r == token_stream_result(0, expected_len, tokens@, basis),
{
    let mut total: u64 = 0;
    let mut i: usize = 0;
    assert(tokens@.skip(0) =~= tokens@);
    while i < tokens.len()
        invariant
            i <= tokens@.len(),
            token_stream_result(0, expected_len, tokens@, basis) == token_stream_result(
                total,
                expected_len,
                tokens@.skip(i as int),
                basis,
            ),
        decreases tokens.len() - i,
    {
        let token = tokens[i];
        assert(tokens@.skip(i as int)[0] == token);
        assert(tokens@.skip(i as int).drop_first() =~= tokens@.skip(i as int + 1));
        match receive_token_step(total, expected_len, token, basis) {
            Err(e) => {
                return Some(Err(e));
            },
            Ok(t) => {
                if token == ReceivedToken::End {
                    return Some(Ok(t));
                }
                total = t;
            },
        }
        i = i + 1;
    }
    None
}

/// Whether a received file is accepted at its end: its length must be the expected one, then the
/// checksum the sender sent must equal the one computed over the written file.
pub open spec fn finish_result(
    total: u64,
    expected: u64,
    remote_sum: Seq<u8>,
    local_sum: Seq<u8>,
) -> Result<u64, TransferError> {
    if total != expected {
        Err(TransferError::FileLengthShort { expected, actual: total })
    } else if remote_sum != local_sum {
        Err(TransferError::FileChecksumMismatch)
    } else {
        Ok(total)
    }
}

/// Accepts or refuses a received file at its end token.
pub fn finish_received_file(
    total: u64,
    expected_len: u64,
    remote_sum: &[u8],
    local_sum: &[u8],
) -> (r: Result<u64, TransferError>)
    ensures
        r == finish_result(total, expected_len, remote_sum@, local_sum@),
{
    if total != expected_len {
        return Err(TransferError::FileLengthShort { expected: expected_len, actual: total });
    }
    if !crate::bytes::bytes_equal(remote_sum, local_sum) {
        return Err(TransferError::FileChecksumMismatch);
    }
    Ok(total)
}

} // verus!
