use patcher::digest::{file_digest, hex_encode, local_digest, needs_fetch};

#[test]
fn hex_of_nothing_is_empty() {
    assert_eq!(hex_encode(&[]), "");
}

#[test]
fn hex_has_two_lower_case_digits_for_each_byte() {
    assert_eq!(hex_encode(&[0x00, 0x0a, 0x14, 0x1e, 0x9f, 0xa0, 0xff]), "000a141e9fa0ff");
    assert_eq!(hex_encode(&[0xbe, 0xef]), "beef");
    assert_eq!(hex_encode(&[0x01, 0x23, 0x45, 0x67, 0x89, 0xab, 0xcd, 0xef]), "0123456789abcdef");
}

#[test]
fn digest_of_the_empty_file() {
    assert_eq!(
        file_digest(b""),
        "e3b0c44298fc1c149afbf4c8996fb92427ae41e4649b934ca495991b7852b855"
    );
}

#[test]
fn digest_of_known_contents() {
    assert_eq!(
        file_digest(b"abc"),
        "ba7816bf8f01cfea414140de5dae2223b00361a396177a9cb410ff61f20015ad"
    );
    assert_eq!(
        file_digest(b"hello world"),
        "b94d27b9934d3e08a52e52d7da7dabfac484efe37a5380ee9088f7ace2efcde9"
    );
}

#[test]
fn digest_is_not_the_content_itself() {
    let content = b"2cf24dba5fb0a30e26e83b2ac5b9e29e1b161e5c1fa7425e73043362938b9824";
    assert_ne!(file_digest(content).as_bytes(), &content[..]);
    assert_eq!(file_digest(content).len(), 64);
}

#[test]
fn absent_file_has_no_digest() {
    assert_eq!(local_digest(&None), None);
}

#[test]
fn present_file_has_its_digest() {
    assert_eq!(
        local_digest(&Some(b"hello".to_vec())),
        Some("2cf24dba5fb0a30e26e83b2ac5b9e29e1b161e5c1fa7425e73043362938b9824".to_string())
    );
}

#[test]
fn file_with_the_expected_digest_is_not_fetched() {
    assert!(!needs_fetch(&"abc123".to_string(), &Some("abc123".to_string())));
}

#[test]
fn file_with_another_digest_is_fetched() {
    assert!(needs_fetch(&"abc123".to_string(), &Some("abc124".to_string())));
    assert!(needs_fetch(&"abc123".to_string(), &Some("ABC123".to_string())));
    assert!(needs_fetch(&"abc123".to_string(), &Some("".to_string())));
}

#[test]
fn absent_file_is_fetched() {
    assert!(needs_fetch(&"abc123".to_string(), &None));
    assert!(needs_fetch(&"".to_string(), &None));
}
