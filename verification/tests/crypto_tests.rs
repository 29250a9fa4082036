use cnet::crypto::{encode_ciphertext, encrypt_password, make_key, pkcs7_pad};

#[test]
fn make_key_uses_last_four_then_first_four_bytes() {
    assert_eq!(make_key("20230101"), *b"01012023");
    assert_eq!(make_key("2021300123"), *b"01232021");
}

#[test]
fn make_key_short_name_is_repeated_and_filled() {
    assert_eq!(make_key("abc"), *b"abcabc12");
    assert_eq!(make_key("s1"), *b"s1s11234");
    assert_eq!(make_key(""), *b"12345678");
}

#[test]
fn make_key_exactly_four_bytes() {
    assert_eq!(make_key("abcd"), *b"abcdabcd");
}

#[test]
fn make_key_multibyte_name_on_boundary() {
    // "é" is two bytes; the last four bytes "éé" start on a character boundary.
    let key = make_key("aéé");
    let expected: [u8; 8] = [0xc3, 0xa9, 0xc3, 0xa9, b'a', 0xc3, 0xa9, 0xc3];
    assert_eq!(key, expected);
}

#[test]
fn pkcs7_pad_partial_block() {
    assert_eq!(pkcs7_pad(vec![1, 2, 3]), vec![1, 2, 3, 5, 5, 5, 5, 5]);
}

#[test]
fn pkcs7_pad_full_block_gets_a_whole_block() {
    let padded = pkcs7_pad(vec![9; 8]);
    assert_eq!(padded.len(), 16);
    assert_eq!(&padded[..8], &[9; 8]);
    assert_eq!(&padded[8..], &[8; 8]);
}

#[test]
fn pkcs7_pad_empty() {
    assert_eq!(pkcs7_pad(Vec::new()), vec![8; 8]);
}

#[test]
fn pkcs7_padding_removes_cleanly() {
    for len in 0..20usize {
        let data: Vec<u8> = (0..len as u8).collect();
        let padded = pkcs7_pad(data.clone());
        assert_eq!(padded.len() % 8, 0);
        let p = *padded.last().unwrap() as usize;
        assert!((1..=8).contains(&p));
        assert_eq!(&padded[..padded.len() - p], &data[..]);
    }
}

#[test]
fn encode_ciphertext_is_lower_hex() {
    assert_eq!(encode_ciphertext(&[0x00, 0x0f, 0xab, 0xff, 0x10]), "000fabff10");
    assert_eq!(encode_ciphertext(&[]), "");
}

#[test]
fn encrypt_password_known_values() {
    assert_eq!(encrypt_password("20230101", "password"), "63b8deb993955d7c818df5aef31c1ea7");
    assert_eq!(encrypt_password("20230101", ""), "818df5aef31c1ea7");
    assert_eq!(encrypt_password("abc", "1234567"), "4e3ab72b254b6577");
    assert_eq!(encrypt_password("s1", "hello world!"), "ec95bfa54d9c4423ade22b9a665ffd0b");
    assert_eq!(encrypt_password("2021300123", "Passw0rd!"), "477d37d0b0d61a7536856398f8b562a8");
}

#[test]
fn encrypt_password_length_and_blockwise() {
    // 8-byte password: two blocks, the second one pure padding; the padding
    // block's ciphertext equals that of the empty password under the same key.
    let whole = encrypt_password("20230101", "password");
    let empty = encrypt_password("20230101", "");
    assert_eq!(whole.len(), 32);
    assert_eq!(&whole[16..], &empty[..]);
    assert!(whole.chars().all(|c| c.is_ascii_digit() || ('a'..='f').contains(&c)));
}

#[test]
fn encrypt_password_is_deterministic() {
    assert_eq!(encrypt_password("user", "secret"), encrypt_password("user", "secret"));
    assert_ne!(encrypt_password("user", "secret"), encrypt_password("user", "secreT"));
}

#[test]
fn equal_leading_blocks_give_equal_leading_hex() {
    let a = encrypt_password("20230101", "passwordA");
    let b = encrypt_password("20230101", "passwordBCDEFGHIJ");
    assert_eq!(&a[..16], &b[..16]);
    assert_eq!(&a[..16], "63b8deb993955d7c");
    assert_ne!(&a[16..32], &b[16..32]);
}

#[test]
fn username_counts_only_through_key() {
    assert_eq!(make_key("20231234"), *b"12342023");
    assert_eq!(make_key("2023xx1234"), *b"12342023");
    for p in ["", "pw", "a longer password!"] {
        assert_eq!(encrypt_password("20231234", p), encrypt_password("2023xx1234", p));
    }
}
