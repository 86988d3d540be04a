use yellowstone_grpc_kafka::decimal::parse_slot;
use yellowstone_grpc_kafka::hex::decode_hash;
use yellowstone_grpc_kafka::key::{format_key, parse_key, record_key, SeenKey};

const EMPTY_DIGEST: &str = "e3b0c44298fc1c149afbf4c8996fb92427ae41e4649b934ca495991b7852b855";
const ABC_DIGEST: &str = "ba7816bf8f01cfea414140de5dae2223b00361a396177a9cb410ff61f20015ad";

#[test]
fn record_key_of_empty_payload() {
    assert_eq!(record_key(0, b""), format!("0_{}", EMPTY_DIGEST));
}

#[test]
fn record_key_of_abc_at_slot_100() {
    assert_eq!(record_key(100, b"abc"), format!("100_{}", ABC_DIGEST));
}

#[test]
fn record_key_of_largest_slot() {
    assert_eq!(
        record_key(u64::MAX, b"abc"),
        format!("18446744073709551615_{}", ABC_DIGEST)
    );
}

#[test]
fn format_key_writes_lowercase_hex() {
    let mut hash = [0u8; 32];
    hash[0] = 0xAB;
    hash[1] = 0x0F;
    hash[31] = 0xF0;
    let key = format_key(7, &hash);
    assert_eq!(
        key,
        "7_ab0f0000000000000000000000000000000000000000000000000000000000f0"
    );
}

#[test]
fn parse_key_reads_what_format_key_wrote() {
    let mut hash = [0u8; 32];
    for (i, b) in hash.iter_mut().enumerate() {
        *b = (i * 7 + 3) as u8;
    }
    for slot in [0u64, 5, 10, 99, 100, 12345678901234567890, u64::MAX] {
        let key = format_key(slot, &hash);
        assert_eq!(parse_key(key.as_bytes()), Some(SeenKey { slot, hash }));
    }
}

#[test]
fn parse_key_accepts_uppercase_digest() {
    let text = format!("5_{}", ABC_DIGEST.to_uppercase());
    let key = parse_key(text.as_bytes()).unwrap();
    assert_eq!(key.slot, 5);
    assert_eq!(key.hash[0], 0xba);
    assert_eq!(key.hash[31], 0xad);
}

#[test]
fn parse_key_rejects_key_without_separator() {
    assert_eq!(parse_key(format!("5{}", ABC_DIGEST).as_bytes()), None);
    assert_eq!(parse_key(b""), None);
    assert_eq!(parse_key(b"5"), None);
}

#[test]
fn parse_key_rejects_non_numeric_slot() {
    assert_eq!(parse_key(format!("abc_{}", ABC_DIGEST).as_bytes()), None);
    assert_eq!(parse_key(format!("_{}", ABC_DIGEST).as_bytes()), None);
    assert_eq!(parse_key(format!("-5_{}", ABC_DIGEST).as_bytes()), None);
    assert_eq!(parse_key(format!("5 _{}", ABC_DIGEST).as_bytes()), None);
    assert_eq!(parse_key(format!("+_{}", ABC_DIGEST).as_bytes()), None);
    assert_eq!(
        parse_key(format!("18446744073709551616_{}", ABC_DIGEST).as_bytes()),
        None
    );
}

#[test]
fn parse_key_rejects_digest_that_is_not_64_hex_digits() {
    assert_eq!(parse_key(format!("5_{}", &ABC_DIGEST[..63]).as_bytes()), None);
    assert_eq!(parse_key(format!("5_{}0", ABC_DIGEST).as_bytes()), None);
    assert_eq!(parse_key(format!("5_{}g", &ABC_DIGEST[..63]).as_bytes()), None);
    assert_eq!(parse_key(format!("5_0x{}", ABC_DIGEST).as_bytes()), None);
    assert_eq!(parse_key(format!("5_0x{}", &ABC_DIGEST[..62]).as_bytes()), None);
    assert_eq!(parse_key(format!("5__{}", &ABC_DIGEST[..63]).as_bytes()), None);
    assert_eq!(parse_key(b"5_"), None);
}

#[test]
fn parse_key_rejects_bytes_that_are_not_text() {
    let mut raw = format!("5_{}", ABC_DIGEST).into_bytes();
    raw[10] = 0xff;
    assert_eq!(parse_key(&raw), None);
}

#[test]
fn parse_slot_follows_unsigned_decimal() {
    assert_eq!(parse_slot(b"0"), Some(0));
    assert_eq!(parse_slot(b"007"), Some(7));
    assert_eq!(parse_slot(b"+42"), Some(42));
    assert_eq!(parse_slot(b"18446744073709551615"), Some(u64::MAX));
    assert_eq!(parse_slot(b"18446744073709551616"), None);
    assert_eq!(parse_slot(b"99999999999999999999999"), None);
    assert_eq!(parse_slot(b""), None);
    assert_eq!(parse_slot(b"+"), None);
    assert_eq!(parse_slot(b"++1"), None);
    assert_eq!(parse_slot(b"1+"), None);
    assert_eq!(parse_slot(b" 1"), None);
    assert_eq!(parse_slot(b"1a"), None);
}

#[test]
fn parse_slot_agrees_with_std() {
    let texts = [
        "0",
        "1",
        "+1",
        "-1",
        "0010",
        "",
        "+",
        "1_",
        "٣",
        "18446744073709551615",
        "18446744073709551616",
    ];
    for text in texts {
        assert_eq!(parse_slot(text.as_bytes()), text.parse::<u64>().ok(), "{}", text);
    }
}

#[test]
fn decode_hash_reads_both_cases() {
    let lower = decode_hash(ABC_DIGEST.as_bytes()).unwrap();
    let upper = decode_hash(ABC_DIGEST.to_uppercase().as_bytes()).unwrap();
    assert_eq!(lower, upper);
    assert_eq!(lower[0], 0xba);
    assert_eq!(lower[1], 0x78);
    assert_eq!(decode_hash(b"ba78"), None);
}
