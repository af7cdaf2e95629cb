use chat_tunnel::base64::decode_symbols;
use chat_tunnel::base64::encode_symbols;
use chat_tunnel::radix116::bytes_of_items;
use chat_tunnel::radix116::decode_text;
use chat_tunnel::radix85::check_groups;

#[test]
fn base64_symbols_are_ascii_bytes() {
    assert_eq!(encode_symbols(b"Man"), b"TWFu".to_vec());
    assert_eq!(encode_symbols(b"Ma"), b"TWE=".to_vec());
    assert_eq!(encode_symbols(b"M"), b"TQ==".to_vec());
    assert_eq!(encode_symbols(&[0, 0, 0]), b"AAAA".to_vec());
    assert_eq!(encode_symbols(&[255, 255, 255]), b"////".to_vec());
}

#[test]
fn base64_symbols_decode_to_their_bytes() {
    assert_eq!(decode_symbols(b"TWFu"), Some(b"Man".to_vec()));
    assert_eq!(decode_symbols(b"TWE="), Some(b"Ma".to_vec()));
    assert_eq!(decode_symbols(b"TQ=="), Some(b"M".to_vec()));
    assert_eq!(decode_symbols(b"TWFuTQ=="), Some(b"ManM".to_vec()));
    assert_eq!(decode_symbols(b"TQ==TWFu"), None);
    assert_eq!(decode_symbols(b"TWF"), None);
    assert_eq!(decode_symbols(&[b'T', b'W', b'F', 0xff]), None);
}

#[test]
fn radix85_groups_beyond_32_bits_are_found() {
    assert!(check_groups(b""));
    assert!(check_groups(b"VPRomVE"));
    assert!(check_groups(b"|NsC0"));
    assert!(!check_groups(b"|NsC1"));
    assert!(!check_groups(b"VPRom~~~~~"));
    assert!(!check_groups(b"~"));
    assert!(!check_groups(b"VPRom|O"));
    assert!(check_groups(b"\"\"\"\"\""));
    assert!(check_groups(b"{~~~~"));
}

#[test]
fn radix116_text_decodes_or_does_not() {
    let text = base116::encode_to_string([1u8, 2, 3].iter().copied());
    assert_eq!(decode_text(&text), Some(vec![1, 2, 3]));
    assert_eq!(decode_text("\u{1f1}\u{1f2}"), Some(vec![]));
    assert_eq!(decode_text("no marks"), None);
}

#[test]
fn items_give_bytes_only_where_none_failed() {
    let good: Vec<Result<u8, &str>> = vec![Ok(1), Ok(2), Ok(3)];
    assert_eq!(bytes_of_items(good), Some(vec![1, 2, 3]));
    let bad: Vec<Result<u8, &str>> = vec![Ok(1), Err("bad"), Ok(3)];
    assert_eq!(bytes_of_items(bad), None);
    let last: Vec<Result<u8, &str>> = vec![Ok(1), Ok(2), Err("bad")];
    assert_eq!(bytes_of_items(last), None);
    let none: Vec<Result<u8, &str>> = vec![];
    assert_eq!(bytes_of_items(none), Some(vec![]));
}
