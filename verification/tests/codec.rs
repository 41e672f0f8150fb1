use kyocode::alphabet::{index_of, symbol_at};
use kyocode::{decode, encode, DecodeError};

fn symbols(indices: &[u16]) -> String {
    indices.iter().map(|&i| symbol_at(i)).collect()
}

fn indices(text: &str) -> Vec<u16> {
    text.chars().map(|c| index_of(c).unwrap()).collect()
}

fn replace(text: &str, position: usize, c: char) -> String {
    let mut chars: Vec<char> = text.chars().collect();
    chars[position] = c;
    chars.into_iter().collect()
}

const HELLO: &str = "患的桟春一宴沈紺刊剤袋附液悔";

#[test]
fn sample() {
    assert!(encode(b"Hello world") == "患的桟春一宴沈紺刊剤袋附液悔");
    assert!(decode("患的桟春一宴沈紺刊剤袋附液悔").unwrap() == b"Hello world");
    assert!(decode("患的桟春一宴沈紺刊時袋附液悔").is_err());
    assert!(decode("患的桟春時宴沈紺刊剤袋附液悔").is_err());
    assert!(decode("患的桟春一宴沈紺☃剤袋附液悔").is_err());
    assert!(decode("患的桟春☃宴沈紺刊剤袋附液悔").is_err());
    assert!(decode("患☃桟春一宴沈紺刊剤袋附液悔").is_err());
}

#[test]
fn sample_failures_by_kind() {
    assert_eq!(decode("患的桟春一宴沈紺刊時袋附液悔"), Err(DecodeError::ChecksumMismatch));
    assert_eq!(decode("患的桟春時宴沈紺刊剤袋附液悔"), Err(DecodeError::MalformedHeader));
    assert_eq!(decode("患的桟春一宴沈紺☃剤袋附液悔"), Err(DecodeError::InvalidSymbol));
    assert_eq!(decode("患的桟春☃宴沈紺刊剤袋附液悔"), Err(DecodeError::InvalidSymbol));
    assert_eq!(decode("患☃桟春一宴沈紺刊剤袋附液悔"), Err(DecodeError::InvalidSymbol));
}

#[test]
fn hello_world_is_spelled_symbol_by_symbol() {
    let text = encode(b"Hello world");
    assert_eq!(text.chars().count(), 14);
    assert_eq!(text.chars().skip(5).collect::<String>(), "宴沈紺刊剤袋附液悔");
    assert_eq!(
        indices(&text),
        vec![403, 712, 562, 512, 0, 289, 598, 795, 111, 129, 886, 988, 620, 400]
    );
}

#[test]
fn empty_payload_is_a_bare_header() {
    let text = encode(b"");
    assert_eq!(text.chars().count(), 5);
    assert_eq!(indices(&text), vec![910, 780, 272, 664, 0]);
    assert_eq!(decode(&text), Ok(vec![]));
}

#[test]
fn flag_is_set_when_four_bytes_are_left_over() {
    assert_eq!(indices(&encode(b"abcd")), vec![547, 322, 411, 980, 1, 389, 550, 217, 0]);
    assert_eq!(indices(&encode(b"abcde")), vec![218, 958, 323, 729, 0, 389, 550, 217, 101]);
    assert_eq!(
        indices(&encode(&[0, 1, 2, 3, 4, 5, 6, 7, 8])),
        vec![992, 840, 898, 797, 1, 0, 16, 128, 772, 20, 96, 450, 0]
    );
    assert_eq!(decode(&encode(b"abcd")), Ok(b"abcd".to_vec()));
    assert_eq!(decode(&encode(&[0xff, 0xff, 0xff, 0xff])), Ok(vec![0xff, 0xff, 0xff, 0xff]));
}

#[test]
fn corrupted_payload_symbol_is_a_checksum_mismatch() {
    let damaged = replace(HELLO, 9, symbol_at(1));
    assert_eq!(decode(&damaged), Err(DecodeError::ChecksumMismatch));
}

#[test]
fn corrupted_digest_symbol_is_a_checksum_mismatch() {
    let damaged = replace(HELLO, 0, symbol_at(1));
    assert_eq!(decode(&damaged), Err(DecodeError::ChecksumMismatch));
}

#[test]
fn flag_other_than_zero_or_one_is_a_malformed_header() {
    for flag in [2u16, 3, 512, 1023] {
        let damaged = replace(HELLO, 4, symbol_at(flag));
        assert_eq!(decode(&damaged), Err(DecodeError::MalformedHeader));
    }
    // the lowest bit of 512 is clear, and still it is no flag
    assert_eq!(decode("患的桟春春宴沈紺刊剤袋附液悔"), Err(DecodeError::MalformedHeader));
}

#[test]
fn shorter_than_a_header_is_too_short() {
    assert_eq!(decode(""), Err(DecodeError::TooShort));
    assert_eq!(decode("患"), Err(DecodeError::TooShort));
    assert_eq!(decode("患的桟春"), Err(DecodeError::TooShort));
    // whatever the characters are
    assert_eq!(decode("abcd"), Err(DecodeError::TooShort));
    assert_eq!(decode("☃☃☃☃"), Err(DecodeError::TooShort));
}

#[test]
fn foreign_character_is_an_invalid_symbol() {
    for position in 0..HELLO.chars().count() {
        for c in ['☃', 'a', '\u{4dff}', '丂', '\u{9fff}', '\u{0}', '\u{10ffff}'] {
            assert_eq!(decode(&replace(HELLO, position, c)), Err(DecodeError::InvalidSymbol));
        }
    }
    assert_eq!(decode("hello world"), Err(DecodeError::InvalidSymbol));
}

#[test]
fn invalid_header_symbol_comes_before_a_malformed_flag() {
    let text = symbols(&[403, 712, 562, 512, 7]);
    assert_eq!(decode(&text), Err(DecodeError::MalformedHeader));
    assert_eq!(decode(&replace(&text, 1, 'x')), Err(DecodeError::InvalidSymbol));
}

#[test]
fn malformed_flag_comes_before_an_invalid_payload_symbol() {
    let text = replace(&replace(HELLO, 4, symbol_at(2)), 7, 'x');
    assert_eq!(decode(&text), Err(DecodeError::MalformedHeader));
}

#[test]
fn round_trip_of_every_short_length() {
    let mut seed: u32 = 0x2545_f491;
    for len in 0..200usize {
        let mut payload = Vec::with_capacity(len);
        for _ in 0..len {
            seed = seed.wrapping_mul(1_664_525).wrapping_add(1_013_904_223);
            payload.push((seed >> 24) as u8);
        }
        let text = encode(&payload);
        assert_eq!(text.chars().count(), 5 + (8 * len + 9) / 10);
        assert_eq!(decode(&text), Ok(payload));
    }
}

#[test]
fn encoding_is_repeatable() {
    let payload: Vec<u8> = (0..=255u8).collect();
    assert_eq!(encode(&payload), encode(&payload));
    assert_eq!(encode(&payload.clone()), encode(&payload));
    assert_eq!(encode(b""), encode(&[]));
}

#[test]
fn any_changed_symbol_before_the_last_is_refused() {
    for payload in [&b"Hello world"[..], b"abcd", b"abcde", b"0123456789", b"x"] {
        let text = encode(payload);
        let intact = indices(&text);
        for position in 0..intact.len() - 1 {
            if position == 4 {
                continue;
            }
            for step in [1u16, 2, 511, 512, 1023] {
                let changed = (intact[position] + step) % 1024;
                let damaged = replace(&text, position, symbol_at(changed));
                assert_eq!(decode(&damaged), Err(DecodeError::ChecksumMismatch));
            }
        }
    }
}

#[test]
fn flag_of_the_wrong_parity_is_noticed_on_a_byte_boundary() {
    // four bytes left over: without the flag the filling byte stays
    let text = encode(b"abcd");
    assert_eq!(decode(&replace(&text, 4, symbol_at(0))), Err(DecodeError::ChecksumMismatch));
    // no byte left over: under the flag the last byte goes
    let text = encode(b"abcde");
    assert_eq!(decode(&replace(&text, 4, symbol_at(1))), Err(DecodeError::ChecksumMismatch));
}

#[test]
fn flag_decides_nothing_off_a_byte_boundary() {
    for payload in [&b"a"[..], b"ab", b"abc", b"abcdef"] {
        let text = encode(payload);
        assert_eq!(decode(&replace(&text, 4, symbol_at(1))), Ok(payload.to_vec()));
    }
    let bare = replace(&encode(b""), 4, symbol_at(1));
    assert_eq!(decode(&bare), Ok(vec![]));
}
