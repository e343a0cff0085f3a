use newsletter::clock::{epoch_seconds, now};
use newsletter::tokens::{encode_token, hexish, token};

#[test]
fn a_token_is_its_bytes_in_hexadecimal() {
    let mut bytes = [0u8; 32];
    bytes[0] = 0xab;
    bytes[1] = 0x01;
    bytes[31] = 0xff;
    let t = encode_token(&bytes);
    assert_eq!(t.len(), 64);
    assert_eq!(&t[..6], "ab0100");
    assert_eq!(&t[60..], "00ff");
    assert_eq!(t, hex::encode(bytes));
}

#[test]
fn new_tokens_are_accepted_and_differ() {
    let a = token();
    let b = token();
    assert_eq!(a.len(), 64);
    assert!(hexish(&a));
    assert!(a.bytes().all(|c| c.is_ascii_digit() || (b'a'..=b'f').contains(&c)));
    assert_ne!(a, b);
}

#[test]
fn only_hexadecimal_digits_make_a_token() {
    assert!(hexish("0"));
    assert!(hexish("abcDEF0123456789"));
    assert!(hexish(&"f".repeat(128)));
    assert!(!hexish(&"f".repeat(129)));
    assert!(!hexish(""));
    assert!(!hexish("preview"));
    assert!(!hexish("ab "));
    assert!(!hexish("\u{661}"));
}

#[test]
fn the_clock_counts_from_the_start_of_1970() {
    assert_eq!(epoch_seconds(None), 0);
    assert_eq!(epoch_seconds(Some(0)), 0);
    assert_eq!(epoch_seconds(Some(1_700_000_000)), 1_700_000_000);
    assert_eq!(epoch_seconds(Some(1 << 63)), i64::MIN);
    assert_eq!(epoch_seconds(Some(u64::MAX)), -1);
}

#[test]
fn the_clock_is_read() {
    let before = std::time::SystemTime::now()
        .duration_since(std::time::UNIX_EPOCH)
        .unwrap()
        .as_secs() as i64;
    let n = now();
    assert!(n >= before && n <= before + 60);
}
