use kyocode::alphabet::{index_of, search, symbol_at};
use kyocode::hash::{digest, truncate_hash};
use kyocode::header::{decode_header, encode_header, Header};
use kyocode::packer::{pack, unpack};
use kyocode::text::{chars_of, push_symbols, read_indices};
use kyocode::{
    div_roundup, encode, encode_with_digest, encoded_len, parse, push_bytes, verify, DecodeError,
    Parsed, KYOCODE_CHARS,
};

fn chars_at(indices: &[u16]) -> Vec<char> {
    indices.iter().map(|&i| symbol_at(i)).collect()
}

#[test]
fn table_holds_its_known_symbols() {
    let known = [
        (0usize, '一'),
        (111, '刊'),
        (129, '剤'),
        (289, '宴'),
        (400, '悔'),
        (403, '患'),
        (512, '春'),
        (562, '桟'),
        (598, '沈'),
        (620, '液'),
        (712, '的'),
        (795, '紺'),
        (886, '袋'),
        (988, '附'),
    ];
    assert_eq!(KYOCODE_CHARS.len(), 1024);
    for (i, c) in known {
        assert_eq!(KYOCODE_CHARS[i], c);
        assert_eq!(symbol_at(i as u16), c);
        assert_eq!(index_of(c), Some(i as u16));
    }
    assert!(index_of('時').is_some());
}

#[test]
fn alphabet_is_ascending_and_invertible() {
    for i in 0..1024u16 {
        assert_eq!(symbol_at(i), KYOCODE_CHARS[i as usize]);
        assert_eq!(index_of(symbol_at(i)), Some(i));
        if i > 0 {
            assert!(symbol_at(i - 1) < symbol_at(i));
        }
    }
}

#[test]
fn characters_outside_the_alphabet_have_no_index() {
    for c in ['\u{4dff}', '丂', '\u{9fff}', 'a', '☃', '\u{0}', '\u{10ffff}'] {
        assert_eq!(index_of(c), None);
    }
    // between any two neighbours of the table, and on both sides of it
    for i in 1..1024usize {
        let below = KYOCODE_CHARS[i - 1] as u32;
        let above = KYOCODE_CHARS[i] as u32;
        for code in below + 1..above {
            assert_eq!(index_of(char::from_u32(code).unwrap()), None);
        }
    }
}

#[test]
fn search_finds_the_place_in_an_ascending_table() {
    assert_eq!(search(&[], 'a'), None);
    assert_eq!(search(&['b'], 'b'), Some(0));
    assert_eq!(search(&['b'], 'a'), None);
    assert_eq!(search(&['b'], 'c'), None);
    let table = ['a', 'c', 'e', 'g', 'i'];
    for (i, c) in table.iter().enumerate() {
        assert_eq!(search(&table, *c), Some(i));
    }
    for c in ['0', 'b', 'd', 'f', 'h', 'j'] {
        assert_eq!(search(&table, c), None);
    }
    assert_eq!(search(&KYOCODE_CHARS, '悔'), Some(400));
    assert_eq!(search(&KYOCODE_CHARS, '☃'), None);
}

#[test]
fn every_symbol_takes_three_bytes() {
    for i in 0..1024u16 {
        assert_eq!(symbol_at(i).len_utf8(), 3);
    }
}

#[test]
fn div_roundup_rounds_up() {
    assert_eq!(div_roundup(0, 5), 0);
    assert_eq!(div_roundup(1, 5), 1);
    assert_eq!(div_roundup(5, 5), 1);
    assert_eq!(div_roundup(6, 5), 2);
    assert_eq!(div_roundup(44, 5), 9);
    assert_eq!(div_roundup(7, 1), 7);
    assert_eq!(div_roundup(usize::MAX, 1), usize::MAX);
    assert_eq!(div_roundup(usize::MAX, 2), usize::MAX / 2 + 1);
    assert_eq!(div_roundup(usize::MAX, usize::MAX), 1);
}

#[test]
fn encoded_len_counts_header_and_groups() {
    assert_eq!(encoded_len(0), 5);
    assert_eq!(encoded_len(1), 6);
    assert_eq!(encoded_len(4), 9);
    assert_eq!(encoded_len(5), 9);
    assert_eq!(encoded_len(11), 14);
    for n in 0..50usize {
        assert_eq!(encoded_len(n), encode(&vec![0u8; n]).chars().count());
    }
}

#[test]
fn pack_cuts_the_bits_anew() {
    assert_eq!(pack(&[]), Vec::<u16>::new());
    assert_eq!(pack(&[0xff]), vec![0b11_1111_1100]);
    assert_eq!(pack(&[0x01]), vec![0b00_0000_0100]);
    assert_eq!(pack(&[0xff, 0x00]), vec![0b11_1111_1100, 0]);
    assert_eq!(pack(&[0x12, 0x34, 0x56]), vec![0x048, 0x345, 0x180]);
    assert_eq!(pack(&[0x12, 0x34, 0x56, 0x78]), vec![0x048, 0x345, 0x19e, 0x000]);
    assert_eq!(pack(&[0x12, 0x34, 0x56, 0x78, 0x9a]), vec![0x048, 0x345, 0x19e, 0x09a]);
    assert_eq!(
        pack(b"Hello world"),
        vec![289, 598, 795, 111, 129, 886, 988, 620, 400]
    );
}

#[test]
fn unpack_keeps_the_whole_bytes() {
    assert_eq!(unpack(&[]), Vec::<u8>::new());
    assert_eq!(unpack(&[0b11_1111_1101]), vec![0xff]);
    assert_eq!(unpack(&[0x048, 0x345]), vec![0x12, 0x34]);
    assert_eq!(unpack(&[0x048, 0x345, 0x180]), vec![0x12, 0x34, 0x56]);
    assert_eq!(unpack(&[0x048, 0x345, 0x19e, 0x000]), vec![0x12, 0x34, 0x56, 0x78, 0x00]);
    assert_eq!(unpack(&[0x048, 0x345, 0x19e, 0x09a]), vec![0x12, 0x34, 0x56, 0x78, 0x9a]);
    assert_eq!(
        unpack(&[0x048, 0x345, 0x19e, 0x09a, 0x3ff]),
        vec![0x12, 0x34, 0x56, 0x78, 0x9a, 0xff]
    );
}

#[test]
fn unpack_undoes_pack_up_to_the_filling_byte() {
    for n in 0..40usize {
        let bytes: Vec<u8> = (0..n).map(|i| (i * 37 + 11) as u8).collect();
        let mut back = unpack(&pack(&bytes));
        if n % 5 == 4 {
            assert_eq!(back.pop(), Some(0));
        }
        assert_eq!(back, bytes);
    }
}

#[test]
fn header_is_four_digest_symbols_and_a_flag() {
    let header = Header { digest: [0x64, 0xec, 0x88, 0xca, 0x00], padded: false };
    assert_eq!(encode_header(&header), [403, 712, 562, 512, 0]);
    let header = Header { digest: [0xff, 0xff, 0xff, 0xff, 0xff], padded: true };
    assert_eq!(encode_header(&header), [1023, 1023, 1023, 1023, 1]);
}

#[test]
fn header_is_read_from_the_first_five_symbols() {
    let text = chars_at(&[403, 712, 562, 512, 1, 289, 598]);
    let header = decode_header(&text).unwrap();
    assert_eq!(header.digest, [0x64, 0xec, 0x88, 0xca, 0x00]);
    assert!(header.padded);
    let text: Vec<char> = "患的桟春一".chars().collect();
    let header = decode_header(&text).unwrap();
    assert_eq!(header.digest, [0x64, 0xec, 0x88, 0xca, 0x00]);
    assert!(!header.padded);
}

#[test]
fn header_failures() {
    let short: Vec<char> = "患的桟春".chars().collect();
    assert_eq!(decode_header(&short).err(), Some(DecodeError::TooShort));
    let foreign: Vec<char> = "患的桟春x".chars().collect();
    assert_eq!(decode_header(&foreign).err(), Some(DecodeError::InvalidSymbol));
    let flag: Vec<char> = "患的桟春春".chars().collect();
    assert_eq!(decode_header(&flag).err(), Some(DecodeError::MalformedHeader));
}

#[test]
fn sha256_of_known_inputs() {
    assert_eq!(digest(b""), [0xe3, 0xb0, 0xc4, 0x42, 0x98]);
    assert_eq!(digest(b"Hello world"), [0x64, 0xec, 0x88, 0xca, 0x00]);
    assert_eq!(digest(b"abc"), [0xba, 0x78, 0x16, 0xbf, 0x8f]);
}

#[test]
fn truncate_hash_keeps_the_first_five_bytes() {
    let mut hash = [0u8; 32];
    for (i, b) in hash.iter_mut().enumerate() {
        *b = i as u8 + 1;
    }
    assert_eq!(truncate_hash(&hash), [1, 2, 3, 4, 5]);
}

#[test]
fn chars_of_lists_the_characters() {
    assert_eq!(chars_of(""), Vec::<char>::new());
    assert_eq!(chars_of("a一☃"), vec!['a', '一', '☃']);
}

#[test]
fn push_symbols_appends() {
    let mut text = String::from("x");
    push_symbols(&[0, 111, 988], &mut text);
    assert_eq!(text, "x一刊附");
}

fn pushed(bs: &[u8]) -> String {
    let mut text = String::new();
    push_bytes(bs, &mut text);
    text
}

#[test]
fn push_bytes_appends_the_packed_symbols() {
    let mut text = String::from("x");
    push_bytes(&[0x64], &mut text);
    assert_eq!(text, "x悔");
    push_bytes(&[], &mut text);
    assert_eq!(text, "x悔");
    push_bytes(&[0x1b, 0xc0], &mut text);
    assert_eq!(text, "x悔刊一");
}

#[test]
fn push_bytes_on_one_window_and_across_two() {
    assert_eq!(pushed(&[]), "");
    assert_eq!(pushed(&[0x64]), "悔");
    assert_eq!(pushed(&[0x1b, 0xc0]), "刊一");
    assert_eq!(pushed(&[0x64, 0xec, 0x88, 0xca, 0x00]), "患的桟春");
    assert_eq!(pushed(&[0, 0, 0, 0, 0, 0x64]), "一一一一悔");
    assert_eq!(pushed(&[0, 0, 0, 0, 0, 0x1b, 0xc0]), "一一一一刊一");
    assert_eq!(pushed(b"Hello world"), "宴沈紺刊剤袋附液悔");
}

#[test]
fn read_indices_stops_at_a_foreign_character() {
    let text: Vec<char> = "xx一刊附".chars().collect();
    assert_eq!(read_indices(&text, 2), Some(vec![0, 111, 988]));
    assert_eq!(read_indices(&text, 5), Some(vec![]));
    assert_eq!(read_indices(&text, 1), None);
}

#[test]
fn encode_with_digest_carries_the_given_digest() {
    let digest = [0x64, 0xec, 0x88, 0xca, 0x00];
    assert_eq!(encode_with_digest(b"Hello world", &digest), encode(b"Hello world"));
    let text = encode_with_digest(b"abcd", &[0xff; 5]);
    let expected: String =
        [1023u16, 1023, 1023, 1023, 1, 389, 550, 217, 0].iter().map(|&i| symbol_at(i)).collect();
    assert_eq!(text, expected);
}

#[test]
fn parse_takes_a_text_apart() {
    let parsed = parse("患的桟春一宴沈紺刊剤袋附液悔").unwrap();
    assert_eq!(parsed.digest, [0x64, 0xec, 0x88, 0xca, 0x00]);
    assert_eq!(parsed.payload, b"Hello world");
    // the digest is not looked at
    let parsed = parse("一一一一一宴沈紺刊剤袋附液悔").unwrap();
    assert_eq!(parsed.digest, [0, 0, 0, 0, 0]);
    assert_eq!(parsed.payload, b"Hello world");
}

#[test]
fn parse_drops_the_filling_byte_under_the_flag() {
    let body = [0x048u16, 0x345, 0x19e, 0x000];
    let with_flag: String =
        [0u16, 0, 0, 0, 1].iter().chain(body.iter()).map(|&i| symbol_at(i)).collect();
    let without_flag: String =
        [0u16, 0, 0, 0, 0].iter().chain(body.iter()).map(|&i| symbol_at(i)).collect();
    assert_eq!(parse(&with_flag).unwrap().payload, vec![0x12, 0x34, 0x56, 0x78]);
    assert_eq!(parse(&without_flag).unwrap().payload, vec![0x12, 0x34, 0x56, 0x78, 0x00]);
    // the flag changes nothing where the groups do not end on a byte
    let odd: String =
        [0u16, 0, 0, 0, 1, 0x048, 0x345, 0x180].iter().map(|&i| symbol_at(i)).collect();
    assert_eq!(parse(&odd).unwrap().payload, vec![0x12, 0x34, 0x56]);
    // nor where there is no payload at all
    let bare: String = [0u16, 0, 0, 0, 1].iter().map(|&i| symbol_at(i)).collect();
    assert_eq!(parse(&bare).unwrap().payload, Vec::<u8>::new());
}

#[test]
fn parse_failures() {
    assert_eq!(parse("").err(), Some(DecodeError::TooShort));
    assert_eq!(parse("一一一一x").err(), Some(DecodeError::InvalidSymbol));
    assert_eq!(parse("一一一一春").err(), Some(DecodeError::MalformedHeader));
    assert_eq!(parse("一一一一一x").err(), Some(DecodeError::InvalidSymbol));
}

#[test]
fn verify_compares_all_five_bytes() {
    let actual = [1, 2, 3, 4, 5];
    let parsed = Parsed { digest: [1, 2, 3, 4, 5], payload: vec![7, 8] };
    assert_eq!(verify(parsed, &actual), Ok(vec![7, 8]));
    for i in 0..5 {
        let mut digest = [1, 2, 3, 4, 5];
        digest[i] ^= 0x80;
        let parsed = Parsed { digest, payload: vec![7, 8] };
        assert_eq!(verify(parsed, &actual), Err(DecodeError::ChecksumMismatch));
    }
}

#[test]
fn parse_then_verify_is_decode() {
    let text = encode(b"Hello world");
    let parsed = parse(&text).unwrap();
    let actual = digest(&parsed.payload);
    assert_eq!(verify(parsed, &actual), Ok(b"Hello world".to_vec()));
}
