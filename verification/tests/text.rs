use std::path::Path;

use alloy_primitives::B256;
use witness_tools::text::{chars_of, decimal_text, has_json_extension, hex_text};

#[test]
fn decimal_numerals() {
    for n in [0, 1, 9, 10, 11, 99, 100, 101, 4_294_967_296, u64::MAX - 1, u64::MAX] {
        assert_eq!(decimal_text(n), n.to_string());
    }
    assert_eq!(decimal_text(18_446_744_073_709_551_615), "18446744073709551615");
}

#[test]
fn decimal_numerals_differ() {
    let mut seen: Vec<String> = (0..2_000).map(decimal_text).collect();
    seen.sort();
    seen.dedup();
    assert_eq!(seen.len(), 2_000);
}

#[test]
fn hexadecimal_numerals() {
    assert_eq!(hex_text(&[]), "0x");
    assert_eq!(hex_text(&[0x00, 0x0a, 0xf0, 0x9f, 0xff]), "0x000af09fff");
    let mut bytes = [0u8; 32];
    for (i, byte) in bytes.iter_mut().enumerate() {
        *byte = (i * 37) as u8;
    }
    assert_eq!(hex_text(&bytes), format!("{:?}", B256::from(bytes)));
}

#[test]
fn characters_in_order() {
    assert_eq!(chars_of(""), Vec::<char>::new());
    assert_eq!(chars_of("a\u{e9}\u{1f600}z"), vec!['a', '\u{e9}', '\u{1f600}', 'z']);
}

#[test]
fn json_extensions_are_those_of_paths() {
    let names = [
        "a.json", ".json", "..json", "a.b.json", "json", "a.jso", "a.jsonl", "a.json.", "a.JSON",
        "...json", "\u{e9}.json", "a.json.gz", "x", ".a.json", "ajson", " .json",
    ];
    for name in names {
        let expected = Path::new(name).extension().is_some_and(|ext| ext == "json");
        assert_eq!(has_json_extension(name), expected, "{name}");
    }
    assert!(has_json_extension("a.json"));
    assert!(!has_json_extension(".json"));
}
