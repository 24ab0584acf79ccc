//! Texts, tables and addresses.

use aw_sync::address::parse_ipv4;
use aw_sync::stamps::{Stamps, Table};
use aw_sync::text::{
    contains, decimal_of, le, parse_integer, remove_char, same, starts_with, take_bytes,
    to_ascii_lower, to_hex, to_upper_hex, trim, trim_nul,
};

#[test]
fn numbers_are_written_and_read() {
    assert_eq!(decimal_of(0), "0");
    assert_eq!(decimal_of(-120), "-120");
    assert_eq!(parse_integer("+42", true, -128, 127), Some(42));
    assert_eq!(parse_integer("128", true, -128, 127), None);
    assert_eq!(parse_integer("-1", false, 0, 255), None);
    assert_eq!(parse_integer("", true, -128, 127), None);
    assert_eq!(parse_integer("4x", true, -128, 127), None);
}

#[test]
fn texts_are_compared_and_cut() {
    assert!(le("a", "ab") && le("ab", "b") && !le("b", "ab"));
    assert!(same("é", "é") && !same("é", "e"));
    assert_eq!(trim(" \u{3000}x y\n"), "x y");
    assert_eq!(trim_nul("ab\0\0"), "ab");
    assert!(starts_with("wlan0", "wlan") && !starts_with("wl", "wlan"));
    assert!(contains("a-vpn-b", "vpn") && !contains("vp", "vpn"));
    assert_eq!(to_ascii_lower("WiFi-É"), "wifi-É");
    assert_eq!(remove_char("a-b-c", '-'), "abc");
    assert_eq!(take_bytes("abcdefgh", 6), "abcdef");
    assert_eq!(take_bytes("ab", 6), "ab");
    assert_eq!(take_bytes("aé", 2), "a");
    assert_eq!(to_hex(&[0, 0xaf]), "00af");
    assert_eq!(to_upper_hex(&[0, 0xaf]), "00AF");
}

#[test]
fn tables_hold_one_value_per_key() {
    let mut t: Stamps = Table::new();
    t.insert("a", 1);
    t.insert("b", 2);
    t.insert("a", 3);
    assert_eq!(t.len(), 2);
    assert_eq!(t.get("a"), Some(3));
    t.keep_within(10, 8);
    assert_eq!((t.get("a"), t.get("b")), (Some(3), Some(2)));
    t.keep_within(11, 8);
    assert_eq!((t.get("a"), t.get("b")), (Some(3), None));
    t.remove("a");
    assert_eq!(t.len(), 0);
}

#[test]
fn addresses_are_dotted_quads() {
    let ip = parse_ipv4("192.168.5.34").unwrap();
    assert_eq!(ip.to_text(), "192.168.5.34");
    assert!(ip.is_reachable());
    for bad in ["", "1.2.3", "1.2.3.4.5", "256.1.1.1", "1.2.3.x", "01.2.3.4", " 1.2.3.4"] {
        assert!(parse_ipv4(bad).is_none(), "{bad}");
    }
    assert!(!parse_ipv4("169.254.0.1").unwrap().is_reachable());
}
