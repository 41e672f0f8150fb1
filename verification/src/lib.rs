//! A binary-to-text codec over a 1024-symbol alphabet.
//!
//! Every symbol of the text carries ten bits. The text opens with a header of
//! five symbols, four for a truncated SHA-256 digest of the payload and one for
//! a padding flag, so that a damaged text is refused instead of decoded.

pub mod alphabet;
pub mod bits;
pub mod buffer;
pub mod error;
pub mod hash;
pub mod header;
pub mod laws;
pub mod packer;
pub mod std_specs;
pub mod text;
pub mod windows;

pub use alphabet::KYOCODE_CHARS;
pub use error::DecodeError;

use hash::{digest, digest_of, DIGEST_LEN, MAX_HASH_INPUT};
use header::{decode_header, encode_header, header_groups, header_spec, Header, HEADER_LEN};
use packer::{pack, pack_spec, packed_len, unpack, unpack_spec};
use text::{all_symbols, chars_of, indices_of, push_symbols, read_indices, symbols_of};
use vstd::prelude::*;

verus! {

/// The longest payload that can be encoded, in bytes: the longest input that
/// the hash takes.
pub const MAX_PAYLOAD_LEN: u64 = MAX_HASH_INPUT;

/// Number of bytes that a symbol takes in UTF-8.
pub const SYMBOL_UTF8_LEN: usize = 3;

/// Whether the last group of a payload of `n` bytes holds one or two bits of
/// the payload, and so eight or more filling bits: a whole byte of them.
pub open spec fn padding_flag(n: int) -> bool {
    (8 * n) % 10 == 1 || (8 * n) % 10 == 2
}

/// The text for a payload under a given digest of five bytes: the header's
/// symbols, then the payload's.
pub open spec fn encoded_text(payload: Seq<u8>, digest: Seq<u8>) -> Seq<char> {
    symbols_of(header_groups(digest, padding_flag(payload.len() as int))) + symbols_of(
        pack_spec(payload),
    )
}

/// The encoding of a payload.
pub open spec fn encode_spec(payload: Seq<u8>) -> Seq<char> {
    encoded_text(payload, digest_of(payload))
}

/// The payload that `groups` spell under the flag: their whole bytes, without
/// the last one where the flag is set and the groups end on a byte boundary.
pub open spec fn payload_spec(groups: Seq<u16>, padded: bool) -> Seq<u8> {
    let bytes = unpack_spec(groups);
    if padded && groups.len() > 0 && groups.len() % 4 == 0 {
        bytes.drop_last()
    } else {
        bytes
    }
}

/// The digest that a text carries and the payload that it spells, before the
/// two are held against each other; or why the text has none.
pub open spec fn parse_spec(text: Seq<char>) -> Result<(Seq<u8>, Seq<u8>), DecodeError> {
    match header_spec(text) {
        Err(e) => Err(e),
        Ok((digest, padded)) => {
            if !all_symbols(text.skip(HEADER_LEN as int)) {
                Err(DecodeError::InvalidSymbol)
            } else {
                Ok((digest, payload_spec(indices_of(text.skip(HEADER_LEN as int)), padded)))
            }
        },
    }
}

/// The payload where its digest `actual` is the digest `carried` by the
/// text, and `ChecksumMismatch` where it is not.
pub open spec fn verify_spec(carried: Seq<u8>, payload: Seq<u8>, actual: Seq<u8>) -> Result<
    Seq<u8>,
    DecodeError,
> {
    if actual == carried {
        Ok(payload)
    } else {
        Err(DecodeError::ChecksumMismatch)
    }
}

/// The decoding of a text.
///
/// A text that spells more bytes than the hash takes carries the digest of
/// none of them, and is refused for its checksum.
pub open spec fn decode_spec(text: Seq<char>) -> Result<Seq<u8>, DecodeError> {
    match parse_spec(text) {
        Err(e) => Err(e),
        Ok((carried, payload)) => {
            if payload.len() > MAX_PAYLOAD_LEN {
                Err(DecodeError::ChecksumMismatch)
            } else {
                verify_spec(carried, payload, digest_of(payload))
            }
        },
    }
}

/// `lhs` divided by `rhs`, rounded up: the least count of `rhs` that covers `lhs`.
pub fn div_roundup(lhs: usize, rhs: usize) -> (q: usize)
    requires
        rhs > 0,
    ensures
        lhs <= q * rhs < lhs + rhs,
{
    let d: usize = lhs / rhs;
    let r: usize = lhs % rhs;
    proof {
        vstd::arithmetic::div_mod::lemma_fundamental_div_mod(lhs as int, rhs as int);
        assert(lhs == rhs * d + r);
        assert((d + 1) * rhs == rhs * d + rhs) by (nonlinear_arith);
        assert(rhs * d == d * rhs) by (nonlinear_arith);
        if r > 0 {
            assert(rhs >= 2);
            assert(d <= lhs / 2) by (nonlinear_arith)
                requires
                    lhs == rhs * d + r,
                    rhs >= 2,
                    r >= 0,
                    d >= 0,
            ;
        }
    }
    if r > 0 {
        d + 1
    } else {
        d
    }
}

/// Number of symbols in the encoding of a payload of `n` bytes.
pub fn encoded_len(n: usize) -> (len: usize)
    ensures
        len == HEADER_LEN + packed_len(n as int),
{
    let tail_bits: usize = (n % 5) * 8;
    let tail: usize = div_roundup(tail_bits, 10);
    HEADER_LEN + (n / 5) * 4 + tail
}

/// An empty string, with room for `symbols` symbols where that many bytes can
/// be asked for.
fn text_with_room(symbols: usize) -> (text: String)
    ensures
        text@ == Seq::<char>::empty(),
{
    match symbols.checked_mul(SYMBOL_UTF8_LEN) {
        Some(capacity) => {
            if capacity <= isize::MAX as usize {
                String::with_capacity(capacity)
            } else {
                String::new()
            }
        },
        None => String::new(),
    }
}

/// Appends to `res` the symbols that spell `bs`: its bits, ten to a symbol,
/// the last symbol filled with zero bits.
pub fn push_bytes(bs: &[u8], res: &mut String)
    ensures
        final(res)@ == old(res)@ + symbols_of(pack_spec(bs@)),
{
    let groups = pack(bs);
    push_symbols(groups.as_slice(), res);
}

/// Encodes `bs` under a digest that the caller supplies: the text carries
/// `digest` in its header, whatever the hash of `bs` is.
pub fn encode_with_digest(bs: &[u8], digest: &[u8; 5]) -> (text: String)
    ensures
        text@ == encoded_text(bs@, digest@),
{
    let padded: bool = bs.len() % 5 == 4;
    let header = Header { digest: *digest, padded };
    let groups = encode_header(&header);
    let mut text = text_with_room(encoded_len(bs.len()));
    push_symbols(groups.as_slice(), &mut text);
    push_bytes(bs, &mut text);
    text
}

/// Encodes `bs` as text.
///
/// The text opens with the header: four symbols for the first five bytes of
/// the SHA-256 hash of `bs`, one for the padding flag. The symbols that spell
/// `bs` follow.
pub fn encode(bs: &[u8]) -> (text: String)
    requires
        bs@.len() <= MAX_PAYLOAD_LEN,
    ensures
        text@ == encode_spec(bs@),
{
    let digest = digest(bs);
    encode_with_digest(bs, &digest)
}

/// A text taken apart, its digest not yet checked.
pub struct Parsed {
    /// The digest that the header carries.
    pub digest: [u8; 5],
    /// The bytes that the symbols after the header spell.
    pub payload: Vec<u8>,
}

/// Takes a text apart into the digest that it carries and the payload that it
/// spells.
///
/// Fails with `TooShort` on fewer than five symbols; else with `InvalidSymbol`
/// where a header symbol is outside the alphabet; else with `MalformedHeader`
/// where the flag is neither 0 nor 1; else with `InvalidSymbol` where a later
/// symbol is outside the alphabet.
pub fn parse(s: &str) -> (r: Result<Parsed, DecodeError>)
    ensures
        match r {
            Ok(parsed) => parse_spec(s@) == Ok::<(Seq<u8>, Seq<u8>), DecodeError>(
                (parsed.digest@, parsed.payload@),
            ),
            Err(e) => parse_spec(s@) == Err::<(Seq<u8>, Seq<u8>), DecodeError>(e),
        },
{
    let symbols = chars_of(s);
    let header = match decode_header(symbols.as_slice()) {
        Ok(header) => header,
        Err(e) => {
            return Err(e);
        },
    };
    let groups = match read_indices(symbols.as_slice(), HEADER_LEN) {
        Some(groups) => groups,
        None => {
            return Err(DecodeError::InvalidSymbol);
        },
    };
    let mut payload = unpack(groups.as_slice());
    if header.padded && groups.len() > 0 && groups.len() % 4 == 0 {
        payload.pop();
    }
    Ok(Parsed { digest: header.digest, payload })
}

/// Holds the digest that a text carries against the digest of its payload:
/// the payload where `actual` is the digest carried, and `ChecksumMismatch`
/// where it is not.
pub fn verify(parsed: Parsed, actual: &[u8; 5]) -> (r: Result<Vec<u8>, DecodeError>)
    ensures
        match r {
            Ok(bytes) => verify_spec(parsed.digest@, parsed.payload@, actual@) == Ok::<
                Seq<u8>,
                DecodeError,
            >(bytes@),
            Err(e) => verify_spec(parsed.digest@, parsed.payload@, actual@) == Err::<
                Seq<u8>,
                DecodeError,
            >(e),
        },
{
    let mut i: usize = 0;
    while i < DIGEST_LEN
        invariant
            i <= DIGEST_LEN,
            forall|k: int| 0 <= k < i ==> actual@[k] == parsed.digest@[k],
        decreases DIGEST_LEN - i,
    {
        if actual[i] != parsed.digest[i] {
            return Err(DecodeError::ChecksumMismatch);
        }
        i += 1;
    }
    assert(actual@ =~= parsed.digest@);
    Ok(parsed.payload)
}

/// Decodes a text.
///
/// Returns the payload where the text is well formed and carries the digest
/// of the bytes that it spells, and else the first of the failures that
/// `parse` and `verify` name. No bytes are returned that failed the check.
pub fn decode(s: &str) -> (r: Result<Vec<u8>, DecodeError>)
    ensures
        match r {
            Ok(bytes) => decode_spec(s@) == Ok::<Seq<u8>, DecodeError>(bytes@),
            Err(e) => decode_spec(s@) == Err::<Seq<u8>, DecodeError>(e),
        },
{
    match parse(s) {
        Err(e) => Err(e),
        Ok(parsed) => {
            if parsed.payload.len() as u64 > MAX_PAYLOAD_LEN {
                return Err(DecodeError::ChecksumMismatch);
            }
            let actual = digest(parsed.payload.as_slice());
            verify(parsed, &actual)
        },
    }
}

} // verus!
