use wrought::hash::{Binary16, ContentHash, HashTextError};

#[test]
fn from_content_takes_first_sixteen_digest_bytes() {
    let h = ContentHash::from_content(b"abc");
    assert_eq!(
        h.0.value,
        [186, 120, 22, 191, 143, 1, 207, 234, 65, 65, 64, 222, 93, 174, 34, 35]
    );
}

#[test]
fn to_string_is_url_safe_base64_without_padding() {
    assert_eq!(ContentHash::from_content(b"abc").to_string(), "ungWv48Bz-pBQUDeXa4iIw");
    assert_eq!(ContentHash::from_content(b"").to_string(), "47DEQpj8HBSa-_TImW-5JA");
}

#[test]
fn hash_text_round_trips() {
    let corpus: Vec<&[u8]> = vec![b"", b"a", b"abc", b"This is a test", &[0u8, 255, 7, 9]];
    for b in corpus {
        let h = ContentHash::from_content(b);
        let back = ContentHash::from_string(&h.to_string()).unwrap();
        assert_eq!(back, h);
    }
}

#[test]
fn different_content_gives_different_hashes() {
    let mut hashes = vec![];
    for i in 0..200u32 {
        let content = format!("content number {}", i);
        hashes.push(ContentHash::from_content(content.as_bytes()));
    }
    for i in 0..hashes.len() {
        for j in (i + 1)..hashes.len() {
            assert_ne!(hashes[i], hashes[j]);
        }
    }
}

#[test]
fn from_string_parses_known_text() {
    let h = ContentHash::from_string("x74e2QL7jdTUiZfGRS9dfg").unwrap();
    assert_eq!(h, ContentHash::from_content(b"This is a test"));
}

#[test]
fn from_string_rejects_bad_alphabet() {
    assert_eq!(ContentHash::from_string("!!!!"), Err(HashTextError::NotBase64));
    assert_eq!(ContentHash::from_string("ab+/"), Err(HashTextError::NotBase64));
}

#[test]
fn from_string_rejects_wrong_length() {
    assert_eq!(ContentHash::from_string("AAAA"), Err(HashTextError::WrongLength));
    assert_eq!(Binary16::from_string(""), Err(HashTextError::WrongLength));
}

#[test]
fn zero_is_zero_and_content_is_not() {
    assert!(ContentHash::zero().is_zero());
    assert!(!ContentHash::from_content(b"abc").is_zero());
    assert_eq!(ContentHash::zero(), ContentHash::from_raw([0; 16]));
}

#[test]
fn from_u64s_is_little_endian() {
    let b = Binary16::from_u64s(0x0807060504030201, 0x100f0e0d0c0b0a09);
    assert_eq!(b.value, [1, 2, 3, 4, 5, 6, 7, 8, 9, 10, 11, 12, 13, 14, 15, 16]);
    assert!(Binary16::zero().is_zero());
    assert!(!b.is_zero());
    assert_eq!(Binary16::from_raw(b.value), b);
}

#[test]
fn hash_text_is_canonical() {
    let s = "x74e2QL7jdTUiZfGRS9dfg";
    assert_eq!(s.len(), 22);
    assert_eq!(ContentHash::from_string(s).unwrap().to_string(), s);
    assert_eq!(ContentHash::from_string("x74e2QL7jdTUiZfGRS9dfh"), Err(HashTextError::NotBase64));
}
