use crust::telemetry::{
    parse, TelemetryFrame, FLAG_ANTENNA_OK, FLAG_ERROR, FLAG_GPS_LOCK, FLAG_LOW_BATTERY,
    FRAME_SIZE,
};

fn frame(
    timestamp_ms: u32,
    battery_mv: u16,
    signal_strength: u8,
    status_flags: u8,
) -> TelemetryFrame {
    TelemetryFrame {
        timestamp_ms,
        temperature_c: -1234,
        battery_mv,
        altitude_m: 408_000,
        velocity_ms: 766,
        signal_strength,
        status_flags,
        checksum: 0,
    }
}

fn xor_of_body(f: &TelemetryFrame) -> u8 {
    f.to_bytes()[..16].iter().fold(0u8, |acc, b| acc ^ b)
}

#[test]
fn parse_rejects_short_input() {
    let r = parse(&[0u8; 5]);
    assert_eq!(r, Err("expected 18 bytes, got 5".to_string()));
}

#[test]
fn parse_rejects_long_and_empty_input() {
    assert_eq!(parse(&[0u8; 19]), Err("expected 18 bytes, got 19".to_string()));
    assert_eq!(parse(&[]), Err("expected 18 bytes, got 0".to_string()));
    assert_eq!(parse(&[7u8; 180]), Err("expected 18 bytes, got 180".to_string()));
}

#[test]
fn parse_reads_packed_little_endian_fields() {
    let raw: [u8; 18] = [
        0x78, 0x56, 0x34, 0x12, // timestamp_ms
        0x2e, 0xfb, // temperature_c = -1234
        0x68, 0x10, // battery_mv = 4200
        0xc0, 0x39, 0x06, 0x00, // altitude_m = 408_000
        0xfe, 0x02, // velocity_ms = 766
        0xc8, // signal_strength
        0x83, // status_flags
        0xab, 0xcd, // checksum
    ];
    let f = parse(&raw).unwrap();
    assert_eq!(f.timestamp_ms, 0x1234_5678);
    assert_eq!(f.temperature_c, -1234);
    assert_eq!(f.battery_mv, 4200);
    assert_eq!(f.altitude_m, 408_000);
    assert_eq!(f.velocity_ms, 766);
    assert_eq!(f.signal_strength, 0xc8);
    assert_eq!(f.status_flags, 0x83);
    assert_eq!(f.checksum, 0xcdab);
}

#[test]
fn parse_agrees_with_native_reads_of_the_packed_fields() {
    let raw: Vec<u8> = (0u8..18).map(|i| i.wrapping_mul(37).wrapping_add(11)).collect();
    let f = parse(&raw).unwrap();
    assert_eq!(f.timestamp_ms, bytemuck::pod_read_unaligned::<u32>(&raw[0..4]));
    assert_eq!(f.temperature_c, bytemuck::pod_read_unaligned::<i16>(&raw[4..6]));
    assert_eq!(f.battery_mv, bytemuck::pod_read_unaligned::<u16>(&raw[6..8]));
    assert_eq!(f.altitude_m, bytemuck::pod_read_unaligned::<u32>(&raw[8..12]));
    assert_eq!(f.velocity_ms, bytemuck::pod_read_unaligned::<i16>(&raw[12..14]));
    assert_eq!(f.signal_strength, raw[14]);
    assert_eq!(f.status_flags, raw[15]);
    assert_eq!(f.checksum, bytemuck::pod_read_unaligned::<u16>(&raw[16..18]));
}

#[test]
fn frame_bytes_parse_back_to_the_frame() {
    let mut f = frame(3_723_000, 3810, 200, 0x87);
    f.checksum = 0xbeef;
    let bytes = f.to_bytes();
    assert_eq!(bytes.len(), FRAME_SIZE);
    assert_eq!(parse(&bytes), Ok(f));
}

#[test]
fn bytes_parse_and_encode_back_to_themselves() {
    let raw: Vec<u8> = (0u8..18).map(|i| 255 - i * 3).collect();
    let f = parse(&raw).unwrap();
    assert_eq!(f.to_bytes(), raw);
}

#[test]
fn battery_percent_endpoints_and_clamping() {
    assert_eq!(frame(0, 4200, 0, 0).battery_percent(), 100);
    assert_eq!(frame(0, 3000, 0, 0).battery_percent(), 0);
    assert_eq!(frame(0, 3600, 0, 0).battery_percent(), 50);
    assert_eq!(frame(0, 4000, 0, 0).battery_percent(), 83);
    assert_eq!(frame(0, 2999, 0, 0).battery_percent(), 0);
    assert_eq!(frame(0, 0, 0, 0).battery_percent(), 0);
    assert_eq!(frame(0, 5000, 0, 0).battery_percent(), 100);
    assert_eq!(frame(0, u16::MAX, 0, 0).battery_percent(), 100);
}

#[test]
fn battery_percent_never_drops_as_voltage_rises() {
    let mut last = 0;
    for mv in (0..=u16::MAX).step_by(7) {
        let p = frame(0, mv, 0, 0).battery_percent();
        assert!(p <= 100);
        assert!(p >= last);
        last = p;
    }
}

#[test]
fn signal_percent_scales_raw_strength() {
    assert_eq!(frame(0, 0, 0, 0).signal_percent(), 0);
    assert_eq!(frame(0, 0, 255, 0).signal_percent(), 100);
    assert_eq!(frame(0, 0, 128, 0).signal_percent(), 50);
    assert_eq!(frame(0, 0, 200, 0).signal_percent(), 78);
    for raw in 0..=255u8 {
        assert_eq!(frame(0, 0, raw, 0).signal_percent() as u32, raw as u32 * 100 / 255);
    }
}

#[test]
fn elapsed_time_splits_into_hours_minutes_seconds() {
    assert_eq!(frame(0, 0, 0, 0).elapsed_time(), (0, 0, 0));
    assert_eq!(frame(999, 0, 0, 0).elapsed_time(), (0, 0, 0));
    assert_eq!(frame(3_723_000, 0, 0, 0).elapsed_time(), (1, 2, 3));
    assert_eq!(frame(86_399_999, 0, 0, 0).elapsed_time(), (23, 59, 59));
    assert_eq!(frame(u32::MAX, 0, 0, 0).elapsed_time(), (1193, 2, 47));
}

#[test]
fn elapsed_time_adds_back_up() {
    for ts in (0..u32::MAX).step_by(104_729) {
        let (h, m, s) = frame(ts, 0, 0, 0).elapsed_time();
        assert!(m < 60 && s < 60);
        assert_eq!(h * 3600 + m * 60 + s, ts / 1000);
    }
}

#[test]
fn checksum_of_body_makes_frame_valid() {
    let mut f = frame(123_456, 3900, 77, FLAG_GPS_LOCK);
    f.checksum = xor_of_body(&f) as u16;
    assert!(f.is_valid());
    f.checksum |= 0xab00;
    assert!(f.is_valid());
}

#[test]
fn corrupted_frame_is_invalid() {
    let mut f = frame(123_456, 3900, 77, FLAG_GPS_LOCK);
    f.checksum = xor_of_body(&f) as u16;
    f.altitude_m ^= 0x10;
    assert!(!f.is_valid());
    let mut g = frame(123_456, 3900, 77, FLAG_GPS_LOCK);
    g.checksum = (xor_of_body(&g) ^ 1) as u16;
    assert!(!g.is_valid());
}

#[test]
fn all_zero_frame_is_valid() {
    let f = parse(&[0u8; 18]).unwrap();
    assert!(f.is_valid());
}

#[test]
fn status_summary_lists_set_flags_in_order() {
    let all = FLAG_ANTENNA_OK | FLAG_GPS_LOCK | FLAG_LOW_BATTERY | FLAG_ERROR;
    assert_eq!(
        frame(0, 0, 0, all).status_summary(),
        vec!["ANTENNA OK", "GPS LOCK", "LOW BATTERY", "ERROR"]
    );
    assert_eq!(frame(0, 0, 0, 0).status_summary(), Vec::<&str>::new());
    assert_eq!(frame(0, 0, 0, FLAG_GPS_LOCK).status_summary(), vec!["GPS LOCK"]);
    assert_eq!(
        frame(0, 0, 0, FLAG_ERROR | FLAG_ANTENNA_OK).status_summary(),
        vec!["ANTENNA OK", "ERROR"]
    );
    assert_eq!(frame(0, 0, 0, 0x78).status_summary(), Vec::<&str>::new());
}

#[test]
fn flag_constants_are_the_documented_bits() {
    assert_eq!(FLAG_ANTENNA_OK, 1 << 0);
    assert_eq!(FLAG_GPS_LOCK, 1 << 1);
    assert_eq!(FLAG_LOW_BATTERY, 1 << 2);
    assert_eq!(FLAG_ERROR, 1 << 7);
    assert_eq!(FRAME_SIZE, 18);
}

#[test]
fn parsed_frame_is_valid_when_body_xors_to_the_checksum_low_byte() {
    let mut raw: Vec<u8> = (0u8..18).map(|i| i.wrapping_mul(53).wrapping_add(9)).collect();
    let xor = raw[..16].iter().fold(0u8, |a, b| a ^ b);
    let low = if u16::from_ne_bytes([1, 0]) == 1 { 16 } else { 17 };
    raw[low] = xor;
    assert!(parse(&raw).unwrap().is_valid());
    raw[33 - low] ^= 0x5a;
    assert!(parse(&raw).unwrap().is_valid());
    raw[low] ^= 0x01;
    assert!(!parse(&raw).unwrap().is_valid());
}
