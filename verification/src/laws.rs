//! What holds of the codec as a whole: decoding undoes encoding, and a
//! damaged text is refused.

use crate::alphabet::{index_of_spec, is_symbol, lemma_index_of_symbol};
use crate::error::DecodeError;
use crate::hash::digest_of;
use crate::header::{flag_group, header_groups, header_of_groups};
use crate::packer::{groups_in_range, pack_spec, packed_len, unpack_spec};
use crate::text::{all_symbols, indices_of, symbols_of};
use crate::windows::{
    lemma_changed_group_changes_bytes, lemma_lengths, lemma_pack_keeps_windows,
    lemma_unpack_pack, lemma_unpack_window_injective,
};
use crate::{
    decode_spec, encode_spec, encoded_text, padding_flag, parse_spec, payload_spec, verify_spec,
    MAX_PAYLOAD_LEN,
};
use vstd::prelude::*;

verus! {

/// The symbols of ten-bit values are symbols of the alphabet, and stand for
/// those values.
pub proof fn lemma_symbols_round_trip(groups: Seq<u16>)
    requires
        groups_in_range(groups),
    ensures
        all_symbols(symbols_of(groups)),
        indices_of(symbols_of(groups)) == groups,
{
    let text = symbols_of(groups);
    assert forall|i: int| 0 <= i < text.len() implies is_symbol(#[trigger] text[i])
        && index_of_spec(text[i]) == Some(groups[i]) by {
        lemma_index_of_symbol(groups[i] as int);
    }
    assert(indices_of(text) =~= groups);
}

/// Replacing one symbol of a text by another symbol replaces the value at
/// that place, by another value, and nothing else.
pub proof fn lemma_replace_symbol(groups: Seq<u16>, k: int, c: char)
    requires
        groups_in_range(groups),
        0 <= k < groups.len(),
        is_symbol(c),
    ensures
        all_symbols(symbols_of(groups).update(k, c)),
        indices_of(symbols_of(groups).update(k, c)) == groups.update(k, index_of_spec(c).unwrap()),
        groups_in_range(groups.update(k, index_of_spec(c).unwrap())),
        c != symbols_of(groups)[k] ==> index_of_spec(c).unwrap() != groups[k],
{
    lemma_symbols_round_trip(groups);
    let changed = symbols_of(groups).update(k, c);
    assert forall|i: int| 0 <= i < changed.len() implies is_symbol(#[trigger] changed[i]) by {
        if i != k {
            assert(changed[i] == symbols_of(groups)[i]);
        }
    }
    assert(indices_of(changed) =~= groups.update(k, index_of_spec(c).unwrap()));
}

/// A header read back says what was written into it.
pub proof fn lemma_header_round_trip(digest: Seq<u8>, padded: bool)
    requires
        digest.len() == 5,
    ensures
        header_groups(digest, padded).len() == 5,
        groups_in_range(header_groups(digest, padded)),
        header_of_groups(header_groups(digest, padded)) == Ok::<(Seq<u8>, bool), DecodeError>(
            (digest, padded),
        ),
{
    let groups = header_groups(digest, padded);
    lemma_pack_keeps_windows(digest, 0);
    lemma_unpack_pack(digest);
    assert(groups.take(4) =~= pack_spec(digest));
}

/// The parts of an encoded text: five header symbols, then the payload's.
pub proof fn lemma_encoded_parts(payload: Seq<u8>, digest: Seq<u8>)
    requires
        digest.len() == 5,
    ensures
        ({
            let text = encoded_text(payload, digest);
            let head = header_groups(digest, padding_flag(payload.len() as int));
            let body = pack_spec(payload);
            &&& text.len() == 5 + packed_len(payload.len() as int)
            &&& head.len() == 5
            &&& head[4] == flag_group(padding_flag(payload.len() as int))
            &&& groups_in_range(head)
            &&& groups_in_range(body)
            &&& text.take(5) == symbols_of(head)
            &&& text.skip(5) == symbols_of(body)
        }),
{
    let padded = padding_flag(payload.len() as int);
    let text = encoded_text(payload, digest);
    let head = header_groups(digest, padded);
    let body = pack_spec(payload);
    lemma_header_round_trip(digest, padded);
    lemma_pack_keeps_windows(payload, 0);
    assert(text.take(5) =~= symbols_of(head));
    assert(text.skip(5) =~= symbols_of(body));
}

/// Taking an encoded text apart gives the digest and the payload that went
/// into it.
pub proof fn lemma_parse_encoded(payload: Seq<u8>, digest: Seq<u8>)
    requires
        digest.len() == 5,
    ensures
        parse_spec(encoded_text(payload, digest)) == Ok::<(Seq<u8>, Seq<u8>), DecodeError>(
            (digest, payload),
        ),
{
    let padded = padding_flag(payload.len() as int);
    lemma_encoded_parts(payload, digest);
    lemma_header_round_trip(digest, padded);
    lemma_symbols_round_trip(header_groups(digest, padded));
    lemma_symbols_round_trip(pack_spec(payload));
    lemma_unpack_pack(payload);
}

/// The encoding of a payload depends on its bytes alone: equal payloads have
/// the same encoding, whatever their length.
pub proof fn encoding_depends_on_bytes_alone(a: Seq<u8>, b: Seq<u8>)
    requires
        a =~= b,
    ensures
        encode_spec(a) == encode_spec(b),
{
}

/// Taking apart undoes putting together, for every payload whatever its
/// length: the encoding of a payload carries the digest of that payload and
/// spells that payload, so that the digest carried is the digest found.
pub proof fn parse_undoes_encode(payload: Seq<u8>)
    ensures
        parse_spec(encode_spec(payload)) == Ok::<(Seq<u8>, Seq<u8>), DecodeError>(
            (digest_of(payload), payload),
        ),
        verify_spec(digest_of(payload), payload, digest_of(payload)) == Ok::<
            Seq<u8>,
            DecodeError,
        >(payload),
{
    lemma_parse_encoded(payload, digest_of(payload));
}

/// Decoding undoes encoding: every payload that can be encoded, the empty
/// one too, comes back from its own encoding.
pub proof fn round_trip(payload: Seq<u8>)
    requires
        payload.len() <= MAX_PAYLOAD_LEN,
    ensures
        decode_spec(encode_spec(payload)) == Ok::<Seq<u8>, DecodeError>(payload),
{
    lemma_parse_encoded(payload, digest_of(payload));
}

/// No two payloads share an encoding.
pub proof fn encoding_injective(a: Seq<u8>, b: Seq<u8>)
    requires
        a.len() <= MAX_PAYLOAD_LEN,
        b.len() <= MAX_PAYLOAD_LEN,
        encode_spec(a) == encode_spec(b),
    ensures
        a == b,
{
    round_trip(a);
    round_trip(b);
}

/// The encoding of `n` bytes has five symbols for the header and one for
/// every ten bits of the payload, the last ten counted whole.
pub proof fn encoded_length(payload: Seq<u8>)
    ensures
        encode_spec(payload).len() == 5 + packed_len(payload.len() as int),
        10 * packed_len(payload.len() as int) - 10 < 8 * payload.len() <= 10 * packed_len(
            payload.len() as int,
        ),
{
    lemma_encoded_parts(payload, digest_of(payload));
}

/// A text of fewer than five symbols is refused as too short, whatever it holds.
pub proof fn short_text_refused(text: Seq<char>)
    requires
        text.len() < 5,
    ensures
        decode_spec(text) == Err::<Seq<u8>, DecodeError>(DecodeError::TooShort),
{
}

/// An encoded text in which one character was replaced by a character
/// outside the alphabet is refused for that symbol, wherever it stands.
pub proof fn foreign_symbol_refused(payload: Seq<u8>, position: int, c: char)
    requires
        0 <= position < encode_spec(payload).len(),
        !is_symbol(c),
    ensures
        decode_spec(encode_spec(payload).update(position, c)) == Err::<Seq<u8>, DecodeError>(
            DecodeError::InvalidSymbol,
        ),
{
    let digest = digest_of(payload);
    let padded = padding_flag(payload.len() as int);
    let head = header_groups(digest, padded);
    let body = pack_spec(payload);
    let text = encode_spec(payload);
    let damaged = text.update(position, c);
    lemma_header_round_trip(digest, padded);
    lemma_pack_keeps_windows(payload, 0);
    lemma_symbols_round_trip(head);
    lemma_symbols_round_trip(body);
    assert(text.take(5) =~= symbols_of(head));
    assert(text.skip(5) =~= symbols_of(body));
    if position < 5 {
        assert(damaged.take(5)[position] == c);
    } else {
        assert(damaged.take(5) =~= text.take(5));
        assert(damaged.skip(5)[position - 5] == c);
    }
}

/// A flag symbol that stands for neither 0 nor 1 is refused as a malformed
/// header, in any text whose first five characters are symbols.
pub proof fn bad_flag_refused(text: Seq<char>)
    requires
        text.len() >= 5,
        all_symbols(text.take(5)),
        index_of_spec(text[4]).unwrap() > 1,
    ensures
        decode_spec(text) == Err::<Seq<u8>, DecodeError>(DecodeError::MalformedHeader),
{
    assert(text.take(5)[4] == text[4]);
}

/// A changed digest symbol is always noticed: an encoded text in which one
/// of the four digest symbols was replaced by another symbol is refused for
/// its checksum.
pub proof fn tampered_digest_refused(payload: Seq<u8>, position: int, c: char)
    requires
        0 <= position < 4,
        is_symbol(c),
        c != encode_spec(payload)[position],
    ensures
        decode_spec(encode_spec(payload).update(position, c)) == Err::<Seq<u8>, DecodeError>(
            DecodeError::ChecksumMismatch,
        ),
{
    let digest = digest_of(payload);
    let padded = padding_flag(payload.len() as int);
    let head = header_groups(digest, padded);
    let body = pack_spec(payload);
    let text = encode_spec(payload);
    let damaged = text.update(position, c);
    lemma_encoded_parts(payload, digest);
    lemma_header_round_trip(digest, padded);
    lemma_symbols_round_trip(body);
    lemma_unpack_pack(payload);
    lemma_replace_symbol(head, position, c);
    let g = index_of_spec(c).unwrap();
    assert(text[position] == text.take(5)[position]);
    assert(damaged.take(5) =~= symbols_of(head).update(position, c));
    assert(damaged.skip(5) =~= text.skip(5));
    let changed = head.update(position, g);
    assert(indices_of(damaged.take(5)) == changed);
    let carried = unpack_spec(changed.take(4));
    assert(parse_spec(damaged) == Ok::<(Seq<u8>, Seq<u8>), DecodeError>((carried, payload)));
    if carried == digest {
        assert(head.take(4) =~= pack_spec(digest));
        assert(unpack_spec(head.take(4)) == digest);
        lemma_unpack_window_injective(changed.take(4), head.take(4));
        assert(changed.take(4)[position] == head.take(4)[position]);
        assert(false);
    }
}

/// A changed payload symbol before the last is noticed unless digests
/// collide: the damaged text is refused for its checksum, or decodes to other
/// bytes that have the digest of the payload.
pub proof fn tampered_payload_detected(payload: Seq<u8>, position: int, c: char)
    requires
        5 <= position < encode_spec(payload).len() - 1,
        is_symbol(c),
        c != encode_spec(payload)[position],
    ensures
        match decode_spec(encode_spec(payload).update(position, c)) {
            Ok(other) => other != payload && digest_of(other) == digest_of(payload),
            Err(e) => e == DecodeError::ChecksumMismatch,
        },
{
    let digest = digest_of(payload);
    let padded = padding_flag(payload.len() as int);
    let head = header_groups(digest, padded);
    let body = pack_spec(payload);
    let text = encode_spec(payload);
    let damaged = text.update(position, c);
    let j = position - 5;
    lemma_encoded_parts(payload, digest);
    lemma_header_round_trip(digest, padded);
    lemma_symbols_round_trip(head);
    lemma_replace_symbol(body, j, c);
    let g = index_of_spec(c).unwrap();
    assert(text[position] == text.skip(5)[j]);
    assert(damaged.take(5) =~= text.take(5));
    assert(damaged.skip(5) =~= symbols_of(body).update(j, c));
    lemma_changed_group_changes_bytes(payload, j, g, padded);
    let other = payload_spec(body.update(j, g), padded);
    assert(parse_spec(damaged) == Ok::<(Seq<u8>, Seq<u8>), DecodeError>((digest, other)));
}

/// Tampering is detected: an encoded text in which one symbol before the
/// last was replaced by another symbol of the alphabet does not decode to
/// the payload. It is refused, or, should digests collide, decodes to other
/// bytes with the digest of the payload.
///
/// One change escapes: the flag symbol set from 0 to 1 where the payload's
/// groups do not end on a byte boundary, where the flag decides nothing.
pub proof fn tampering_detected(payload: Seq<u8>, position: int, c: char)
    requires
        0 <= position < encode_spec(payload).len() - 1,
        is_symbol(c),
        c != encode_spec(payload)[position],
        !(position == 4 && index_of_spec(c) == Some(1u16) && 1 <= payload.len() % 5 <= 3),
    ensures
        match decode_spec(encode_spec(payload).update(position, c)) {
            Ok(other) => other != payload && digest_of(other) == digest_of(payload),
            Err(e) => true,
        },
{
    let text = encode_spec(payload);
    let damaged = text.update(position, c);
    if position < 4 {
        tampered_digest_refused(payload, position, c);
    } else if position >= 5 {
        tampered_payload_detected(payload, position, c);
    } else {
        let n = payload.len() as int;
        let digest = digest_of(payload);
        let padded = padding_flag(n);
        let head = header_groups(digest, padded);
        let body = pack_spec(payload);
        lemma_encoded_parts(payload, digest);
        lemma_header_round_trip(digest, padded);
        lemma_symbols_round_trip(body);
        lemma_replace_symbol(head, 4, c);
        lemma_unpack_pack(payload);
        lemma_lengths(n);
        let g = index_of_spec(c).unwrap();
        assert(text[4] == text.take(5)[4]);
        assert(damaged.take(5) =~= symbols_of(head).update(4, c));
        assert(damaged.skip(5) =~= text.skip(5));
        let changed = head.update(4, g);
        assert(changed.take(4) =~= head.take(4));
        if g > 1 {
            assert(damaged.take(5)[4] == c);
            bad_flag_refused(damaged);
        } else {
            let other = payload_spec(body, !padded);
            assert(parse_spec(damaged) == Ok::<(Seq<u8>, Seq<u8>), DecodeError>((digest, other)));
            assert(other.len() != payload.len());
        }
    }
}

} // verus!
