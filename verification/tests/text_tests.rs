use space_router::text::{append_tenths, text_contains};

fn tenths(v: i64) -> String {
    let mut s = String::new();
    append_tenths(&mut s, v);
    s
}

#[test]
fn tenths_rounds_half_to_even() {
    assert_eq!(tenths(0), "0.0");
    assert_eq!(tenths(1_234_567), "1.2");
    assert_eq!(tenths(1_250_000), "1.2");
    assert_eq!(tenths(1_350_000), "1.4");
    assert_eq!(tenths(250_000), "0.2");
    assert_eq!(tenths(750_000), "0.8");
    assert_eq!(tenths(1_250_001), "1.3");
    assert_eq!(tenths(-250_000), "-0.2");
    assert_eq!(tenths(1_249_999), "1.2");
    assert_eq!(tenths(9_960_000), "10.0");
    assert_eq!(tenths(12_345_678_900), "12345.7");
}

#[test]
fn tenths_keeps_minus_sign() {
    assert_eq!(tenths(-1_000_000), "-1.0");
    assert_eq!(tenths(-40_000), "-0.0");
    assert_eq!(tenths(i64::MIN), "-9223372036854.8");
}

#[test]
fn contains_finds_markers() {
    assert!(text_contains("CONNECTED [P2P]", "CONNECTED"));
    assert!(text_contains("CONNECTED [P2P]", "P2P"));
    assert!(!text_contains("CONNECTED", "CONNECTED [P2P]"));
    assert!(text_contains("anything", ""));
    assert!(text_contains("", ""));
    assert!(!text_contains("", "A"));
    assert!(!text_contains("HW Lock", "HW LOCK"));
    assert!(text_contains("ćma ⚡ GHOST LINK", "GHOST LINK"));
}

