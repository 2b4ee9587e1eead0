use ecs::entity_id::{decode_entity_id, encode_entity_id};

#[test]
fn encode_writes_the_shortest_numeral() {
    assert_eq!(encode_entity_id(0), "0");
    assert_eq!(encode_entity_id(7), "7");
    assert_eq!(encode_entity_id(10), "10");
    assert_eq!(encode_entity_id(42), "42");
    assert_eq!(encode_entity_id(1000), "1000");
    assert_eq!(encode_entity_id(4294967296), "4294967296");
    assert_eq!(encode_entity_id(u64::MAX), "18446744073709551615");
}

#[test]
fn encode_agrees_with_the_standard_formatting() {
    let samples: Vec<u64> = vec![0, 1, 9, 10, 99, 100, 12345, 4294967295, 4294967296, 4294967297, u64::MAX - 1, u64::MAX];
    for bits in samples {
        assert_eq!(encode_entity_id(bits), format!("{}", bits));
    }
}

#[test]
fn decode_reads_plain_numerals() {
    assert_eq!(decode_entity_id("0"), Some(0));
    assert_eq!(decode_entity_id("42"), Some(42));
    assert_eq!(decode_entity_id("4294967296"), Some(4294967296));
    assert_eq!(decode_entity_id("18446744073709551615"), Some(u64::MAX));
}

#[test]
fn decode_accepts_a_leading_plus_and_leading_zeros() {
    assert_eq!(decode_entity_id("+42"), Some(42));
    assert_eq!(decode_entity_id("0042"), Some(42));
    assert_eq!(decode_entity_id("+000"), Some(0));
    assert_eq!(decode_entity_id("00000000000000000000000000000000000042"), Some(42));
}

#[test]
fn decode_rejects_text_without_digits() {
    assert_eq!(decode_entity_id(""), None);
    assert_eq!(decode_entity_id("+"), None);
    assert_eq!(decode_entity_id("-"), None);
    assert_eq!(decode_entity_id(" "), None);
}

#[test]
fn decode_rejects_foreign_characters() {
    assert_eq!(decode_entity_id("-1"), None);
    assert_eq!(decode_entity_id("4 2"), None);
    assert_eq!(decode_entity_id(" 42"), None);
    assert_eq!(decode_entity_id("42 "), None);
    assert_eq!(decode_entity_id("42a"), None);
    assert_eq!(decode_entity_id("0x2a"), None);
    assert_eq!(decode_entity_id("++1"), None);
    assert_eq!(decode_entity_id("1+"), None);
    assert_eq!(decode_entity_id("4.2"), None);
    assert_eq!(decode_entity_id("1_000"), None);
    assert_eq!(decode_entity_id("/"), None);
    assert_eq!(decode_entity_id(":"), None);
}

#[test]
fn decode_rejects_text_outside_ascii() {
    assert_eq!(decode_entity_id("\u{ff14}\u{ff12}"), None);
    assert_eq!(decode_entity_id("1\u{e9}"), None);
    assert_eq!(decode_entity_id("\u{e9}1"), None);
    assert_eq!(decode_entity_id("+\u{661}"), None);
}

#[test]
fn decode_rejects_values_beyond_64_bits() {
    assert_eq!(decode_entity_id("18446744073709551616"), None);
    assert_eq!(decode_entity_id("18446744073709551620"), None);
    assert_eq!(decode_entity_id("99999999999999999999"), None);
    assert_eq!(decode_entity_id("100000000000000000000"), None);
    assert_eq!(decode_entity_id("+18446744073709551616"), None);
    assert_eq!(decode_entity_id("184467440737095516150"), None);
}

#[test]
fn decode_rejects_an_overflow_followed_by_garbage() {
    assert_eq!(decode_entity_id("99999999999999999999999x"), None);
}

#[test]
fn decode_agrees_with_the_standard_parser() {
    let samples = vec![
        "", "+", "-", "0", "+0", "-0", "1", "42", "+42", "0042", "42 ", " 42", "4a", "a4",
        "18446744073709551615", "18446744073709551616", "+18446744073709551615",
        "018446744073709551615", "28446744073709551615", "4294967296", "\u{ff11}", "1\u{ff11}",
    ];
    for text in samples {
        assert_eq!(decode_entity_id(text), text.parse::<u64>().ok(), "{:?}", text);
    }
}

#[test]
fn decode_undoes_encode() {
    let samples: Vec<u64> = vec![0, 1, 9, 10, 11, 99, 100, 101, 65535, 4294967295, 4294967296, 8589934593, u64::MAX / 10, u64::MAX / 10 + 1, u64::MAX - 1, u64::MAX];
    for bits in samples {
        assert_eq!(decode_entity_id(&encode_entity_id(bits)), Some(bits));
    }
}
