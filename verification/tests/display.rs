use crust::display::{
    altitude_text, battery_tone, checksum_tone, contains_text, flag_kind, flags_text, log_tone,
    signal_label, signal_tone, FlagKind, Tone,
};
use crust::station::checksum_word;

#[test]
fn battery_tone_thresholds() {
    assert_eq!(battery_tone(100), Tone::Green);
    assert_eq!(battery_tone(76), Tone::Green);
    assert_eq!(battery_tone(75), Tone::Peach);
    assert_eq!(battery_tone(26), Tone::Peach);
    assert_eq!(battery_tone(25), Tone::Red);
    assert_eq!(battery_tone(0), Tone::Red);
    assert_eq!(battery_tone(101), Tone::Red);
}

#[test]
fn signal_tone_thresholds() {
    assert_eq!(signal_tone(100), Tone::Teal);
    assert_eq!(signal_tone(61), Tone::Teal);
    assert_eq!(signal_tone(60), Tone::Yellow);
    assert_eq!(signal_tone(31), Tone::Yellow);
    assert_eq!(signal_tone(30), Tone::Maroon);
    assert_eq!(signal_tone(0), Tone::Maroon);
}

#[test]
fn log_lines_fade_with_age() {
    assert_eq!(log_tone(0), Tone::Text);
    assert_eq!(log_tone(1), Tone::Overlay2);
    assert_eq!(log_tone(2), Tone::Overlay1);
    assert_eq!(log_tone(3), Tone::Surface2);
    assert_eq!(log_tone(63), Tone::Surface2);
}

#[test]
fn checksum_row() {
    assert_eq!(checksum_tone(true), Tone::Green);
    assert_eq!(checksum_tone(false), Tone::Red);
    assert_eq!(checksum_word(true), "OK");
    assert_eq!(checksum_word(false), "FAIL");
}

#[test]
fn flag_marks() {
    assert_eq!(flag_kind("ERROR"), FlagKind::Error);
    assert_eq!(flag_kind("LOW BATTERY"), FlagKind::Battery);
    assert_eq!(flag_kind("ANTENNA OK"), FlagKind::Nominal);
    assert_eq!(flag_kind("GPS LOCK"), FlagKind::Nominal);
    assert_eq!(flag_kind("BATTERY ERROR"), FlagKind::Error);
    assert_eq!(flag_kind(""), FlagKind::Nominal);
}

#[test]
fn substring_search() {
    assert!(contains_text("LOW BATTERY", "BATTERY"));
    assert!(contains_text("abc", ""));
    assert!(contains_text("abc", "abc"));
    assert!(!contains_text("ab", "abc"));
    assert!(!contains_text("ERRO R", "ERROR"));
    assert!(contains_text("xxERRORxx", "ERROR"));
}

#[test]
fn gauge_and_panel_texts() {
    assert_eq!(signal_label(78, 200), "78%  RSSI:200");
    assert_eq!(signal_label(0, 0), "0%  RSSI:0");
    assert_eq!(altitude_text(408_000), "408000 m");
    assert_eq!(altitude_text(0), "0 m");
    assert_eq!(flags_text(0x87), "0b10000111");
    assert_eq!(flags_text(0), "0b00000000");
    assert_eq!(flags_text(0xff), "0b11111111");
}
