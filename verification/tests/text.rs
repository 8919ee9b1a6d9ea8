use orbit::text::{is_bar_title, telemetry_payload, title_prefix, window_title};

fn units(s: &str) -> Vec<u16> {
    s.encode_utf16().collect()
}

#[test]
fn window_title_trims_trailing_nuls() {
    let mut buf = units("Notepad");
    buf.extend([0u16, 0, 0]);
    assert_eq!(window_title(&buf), "Notepad");
}

#[test]
fn window_title_keeps_inner_nuls_and_decodes() {
    let mut buf = units("a");
    buf.push(0);
    buf.extend(units("b\u{e9}"));
    buf.push(0);
    assert_eq!(window_title(&buf), "a\0b\u{e9}");
    assert_eq!(window_title(&[0u16, 0]), "");
    assert_eq!(window_title(&[0xD800u16, 0]), "\u{FFFD}");
}

#[test]
fn title_prefix_decodes_first_units() {
    let buf = units("OrbitBar and more");
    assert_eq!(title_prefix(&buf, 8), "OrbitBar");
    assert_eq!(title_prefix(&buf, 0), "");
    assert_eq!(title_prefix(&buf, -1), "");
    assert_eq!(title_prefix(&units("\u{1F600}"), 2), "\u{1F600}");
}

#[test]
fn bar_title_is_recognised() {
    assert!(is_bar_title(&"OrbitBar".to_string()));
    assert!(!is_bar_title(&"OrbitBar2".to_string()));
    assert!(!is_bar_title(&"orbitbar".to_string()));
    assert!(!is_bar_title(&String::new()));
}

#[test]
fn payload_is_count_bar_title() {
    assert_eq!(telemetry_payload(3, "abc"), b"3|abc".to_vec());
    assert_eq!(telemetry_payload(0, ""), b"0|".to_vec());
    assert_eq!(telemetry_payload(1024, "x|y"), b"1024|x|y".to_vec());
    assert_eq!(
        telemetry_payload(usize::MAX, "\u{e9}"),
        format!("{}|\u{e9}", usize::MAX).into_bytes()
    );
}

#[test]
fn notepad_title() {
    let mut buf = units("Untitled - Notepad");
    buf.push(0);
    assert_eq!(window_title(&buf), "Untitled - Notepad");
}

#[test]
fn lone_surrogates_become_replacement_characters() {
    assert_eq!(window_title(&[0x41, 0xDC00, 0x42, 0xD800]), "A\u{FFFD}B\u{FFFD}");
    assert_eq!(title_prefix(&[0xD83D, 0xDE00, 0x41], 3), "\u{1F600}A");
}
