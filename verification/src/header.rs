//! The header: four symbols for the digest of the payload, then one for the
//! padding flag.

use crate::alphabet::{index_of, index_of_spec, is_symbol};
use crate::buffer::{buffer_as_slice, buffer_items, buffer_new, buffer_push};
use crate::error::DecodeError;
use crate::packer::{pack_spec, pack_window, unpack_spec, unpack_window, GROUP_LIMIT};
use crate::text::{all_symbols, indices_of};
use arrayvec::ArrayVec;
use vstd::prelude::*;

verus! {

/// Number of symbols in a header.
pub const HEADER_LEN: usize = 5;

/// Number of header symbols that carry the digest.
pub const DIGEST_SYMBOLS: usize = 4;

/// What a header says.
pub struct Header {
    /// The leading five bytes of the payload's hash.
    pub digest: [u8; 5],
    /// Whether the payload's last group leaves a whole byte of filling bits.
    pub padded: bool,
}

/// The value of the flag symbol.
pub open spec fn flag_group(padded: bool) -> u16 {
    if padded {
        1
    } else {
        0
    }
}

/// The five groups of the header for a digest of five bytes and a flag.
pub open spec fn header_groups(digest: Seq<u8>, padded: bool) -> Seq<u16> {
    pack_spec(digest).push(flag_group(padded))
}

/// What five groups say as a header: the digest and the flag, or
/// `MalformedHeader` where the fifth group is neither 0 nor 1.
pub open spec fn header_of_groups(groups: Seq<u16>) -> Result<(Seq<u8>, bool), DecodeError> {
    if groups[DIGEST_SYMBOLS as int] > 1 {
        Err(DecodeError::MalformedHeader)
    } else {
        Ok((unpack_spec(groups.take(DIGEST_SYMBOLS as int)), groups[DIGEST_SYMBOLS as int] == 1))
    }
}

/// What the header of `text` says, or why the text has none.
pub open spec fn header_spec(text: Seq<char>) -> Result<(Seq<u8>, bool), DecodeError> {
    if text.len() < HEADER_LEN {
        Err(DecodeError::TooShort)
    } else if !all_symbols(text.take(HEADER_LEN as int)) {
        Err(DecodeError::InvalidSymbol)
    } else {
        header_of_groups(indices_of(text.take(HEADER_LEN as int)))
    }
}

/// The five groups that spell a header.
pub fn encode_header(header: &Header) -> (groups: [u16; 5])
    ensures
        groups@ == header_groups(header.digest@, header.padded),
        forall|j: int| 0 <= j < 5 ==> #[trigger] groups[j] < GROUP_LIMIT,
{
    let d = &header.digest;
    let g = pack_window(d[0], d[1], d[2], d[3], d[4]);
    let flag: u16 = if header.padded { 1 } else { 0 };
    let groups: [u16; 5] = [g[0], g[1], g[2], g[3], flag];
    assert(groups@ =~= header_groups(header.digest@, header.padded));
    groups
}

/// The values of the first five symbols of `symbols`, or `None` where one of
/// them is no symbol of the alphabet.
fn header_indices(symbols: &[char]) -> (r: Option<ArrayVec<u16, 5>>)
    requires
        symbols@.len() >= HEADER_LEN,
    ensures
        match r {
            Some(buffer) => all_symbols(symbols@.take(HEADER_LEN as int)) && buffer_items(buffer)
                == indices_of(symbols@.take(HEADER_LEN as int)),
            None => !all_symbols(symbols@.take(HEADER_LEN as int)),
        },
{
    let mut buffer = buffer_new();
    let mut i: usize = 0;
    while i < HEADER_LEN
        invariant
            i <= HEADER_LEN <= symbols@.len(),
            buffer_items(buffer).len() == i,
            forall|k: int|
                0 <= k < i ==> is_symbol(#[trigger] symbols@[k]) && index_of_spec(symbols@[k])
                    == Some(buffer_items(buffer)[k]),
        decreases HEADER_LEN - i,
    {
        match index_of(symbols[i]) {
            Some(g) => {
                buffer_push(&mut buffer, g);
            },
            None => {
                assert(!is_symbol(symbols@.take(HEADER_LEN as int)[i as int]));
                return None;
            },
        }
        i += 1;
    }
    assert(buffer_items(buffer) =~= indices_of(symbols@.take(HEADER_LEN as int)));
    Some(buffer)
}

/// Reads the header that opens `symbols`.
///
/// Fails with `TooShort` on fewer than five symbols, else with `InvalidSymbol`
/// where one of the first five is outside the alphabet, else with
/// `MalformedHeader` where the flag symbol stands for more than 1.
pub fn decode_header(symbols: &[char]) -> (r: Result<Header, DecodeError>)
    ensures
        match r {
            Ok(header) => header_spec(symbols@) == Ok::<(Seq<u8>, bool), DecodeError>(
                (header.digest@, header.padded),
            ),
            Err(e) => header_spec(symbols@) == Err::<(Seq<u8>, bool), DecodeError>(e),
        },
{
    if symbols.len() < HEADER_LEN {
        return Err(DecodeError::TooShort);
    }
    match header_indices(symbols) {
        None => Err(DecodeError::InvalidSymbol),
        Some(buffer) => {
            let groups = buffer_as_slice(&buffer);
            if groups[4] > 1 {
                Err(DecodeError::MalformedHeader)
            } else {
                let digest = unpack_window(groups[0], groups[1], groups[2], groups[3]);
                assert(digest@ =~= unpack_spec(groups@.take(DIGEST_SYMBOLS as int)));
                Ok(Header { digest, padded: groups[4] == 1 })
            }
        },
    }
}

} // verus!
