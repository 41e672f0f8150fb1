use kyocode::alphabet::{index_of, symbol_at};
use kyocode::{decode, encode, DecodeError};
use quickcheck::{QuickCheck, TestResult};

fn identity_holds(bs: Vec<u8>) -> bool {
    decode(&encode(&bs)).unwrap() == bs
}

fn checksum_holds(bs: Vec<u8>, idx: usize, add: usize) -> TestResult {
    if add >= 1023 {
        return TestResult::discard();
    }
    let mut code = encode(&bs).chars().collect::<Vec<char>>();
    let idx = idx % (code.len() - 1);
    let changed = (index_of(code[idx]).unwrap() as usize + add + 1) % 1024;
    code[idx] = symbol_at(changed as u16);
    let code = code.iter().collect::<String>();
    if idx == 4 {
        // the flag: a value other than 0 and 1 is refused as such
        if changed < 2 {
            return TestResult::discard();
        }
        return TestResult::from_bool(decode(&code) == Err(DecodeError::MalformedHeader));
    }
    TestResult::from_bool(decode(&code) == Err(DecodeError::ChecksumMismatch))
}

#[test]
fn identity() {
    QuickCheck::new().quickcheck(identity_holds as fn(Vec<u8>) -> bool);
}

#[test]
fn checksum() {
    QuickCheck::new().quickcheck(checksum_holds as fn(Vec<u8>, usize, usize) -> TestResult);
}
