//! The fingerprint of an installation.

use aw_sync::machine_uid::{
    clear_injected, machine_guid, machine_uid, native_raw, set_raw, windows_raw, Injected,
    UID_HEX_LEN,
};

#[test]
fn derive_is_stable_platform_scoped_and_short() {
    let a = aw_sync::machine_uid::derive("windows", "11111111-2222-3333-4444-555555555555").unwrap();
    let b = aw_sync::machine_uid::derive("windows", "11111111-2222-3333-4444-555555555555").unwrap();
    assert_eq!(a, b, "同一原始值必须得到同一指纹，否则归并无从谈起");
    assert_eq!(a.len(), UID_HEX_LEN);
    assert!(a.chars().all(|c| c.is_ascii_hexdigit()));

    let c = aw_sync::machine_uid::derive("android", "11111111-2222-3333-4444-555555555555").unwrap();
    assert_ne!(a, c);
}

#[test]
fn empty_raw_yields_no_identity() {
    assert_eq!(aw_sync::machine_uid::derive("windows", ""), None);
    assert_eq!(aw_sync::machine_uid::derive("windows", "   "), None);
    assert_eq!(aw_sync::machine_uid::derive("", "abc"), None);
}

#[test]
fn injected_value_overrides_native_probe() {
    let mut slot = Injected::new();
    let native = Some(("linux".to_string(), "native-value".to_string()));
    set_raw(&mut slot, "android", "injected-test-value");
    let got = machine_uid(&slot, &native).expect("注入后必须能拿到指纹");
    assert_eq!(got, aw_sync::machine_uid::derive("android", "injected-test-value").unwrap());
    clear_injected(&mut slot);
    assert_eq!(machine_uid(&slot, &native), aw_sync::machine_uid::derive("linux", "native-value"));
    assert_eq!(machine_uid(&slot, &None), None);
}

#[test]
fn fingerprint_has_a_fixed_value() {
    assert_eq!(aw_sync::machine_uid::derive("linux", "abc").unwrap(), "0c08bcde493df18c");
    assert_eq!(aw_sync::machine_uid::derive("linux", " abc\n").unwrap(), "0c08bcde493df18c");
}

#[test]
fn first_readable_file_counts() {
    let files = vec![None, Some("  \n".to_string()), Some("id-1\n".to_string())];
    let (platform, raw) = native_raw(&files).unwrap();
    assert_eq!(platform, "linux");
    assert_eq!(aw_sync::machine_uid::derive(&platform, &raw), aw_sync::machine_uid::derive("linux", "id-1"));
    assert_eq!(native_raw(&vec![None, Some("".to_string())]), None);
}

#[test]
fn registry_value_ends_at_its_terminator() {
    let mut units: Vec<u16> = "GUID-é".encode_utf16().collect();
    units.push(0);
    assert_eq!(machine_guid(&units).unwrap(), "GUID-é");
    assert_eq!(machine_guid(&vec![0, 0]), None);
    let (platform, raw) = windows_raw(&units).unwrap();
    assert_eq!((platform.as_str(), raw.as_str()), ("windows", "GUID-é"));
}
