//! Decimal formatting and scanning helpers.

use dnd_server::text::{fmt_u64, scan_u64};

#[test]
fn decimal_formatting_exact_values() {
    assert_eq!(fmt_u64(0), "0");
    assert_eq!(fmt_u64(7), "7");
    assert_eq!(fmt_u64(10), "10");
    assert_eq!(fmt_u64(360), "360");
    assert_eq!(fmt_u64(u64::MAX), "18446744073709551615");
}

#[test]
fn decimal_scanning_exact_values() {
    assert_eq!(scan_u64("360,", 0), Some((360, 3)));
    assert_eq!(scan_u64("x42y", 1), Some((42, 3)));
    assert_eq!(scan_u64("0,", 0), Some((0, 1)));
    assert_eq!(scan_u64("18446744073709551615,", 0), Some((u64::MAX, 20)));
}

#[test]
fn decimal_scanning_rejections() {
    // not a digit, leading zero, overflow, out of range
    assert_eq!(scan_u64("x", 0), None);
    assert_eq!(scan_u64("007", 0), None);
    assert_eq!(scan_u64("18446744073709551616", 0), None);
    assert_eq!(scan_u64("", 0), None);
    assert_eq!(scan_u64("5", 1), None);
}
