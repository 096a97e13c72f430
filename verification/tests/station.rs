use crust::station::{
    fetch_outcome, frame_buffer, no_reading, poll_timeout_nanos, tick_due, App, Key, LOG_LEN,
    SIGNAL_HISTORY_LEN, TICK_RATE_NANOS,
};
use crust::telemetry::TelemetryFrame;

fn sealed(timestamp_ms: u32, altitude_m: u32, signal_strength: u8) -> TelemetryFrame {
    let mut f = TelemetryFrame {
        timestamp_ms,
        temperature_c: 2150,
        battery_mv: 3900,
        altitude_m,
        velocity_ms: -42,
        signal_strength,
        status_flags: 0x03,
        checksum: 0,
    };
    f.checksum = f.to_bytes()[..16].iter().fold(0u8, |a, b| a ^ b) as u16;
    f
}

fn log_lines(app: &App) -> Vec<String> {
    app.log.iter().cloned().collect()
}

#[test]
fn new_station_has_boot_line_only() {
    let app = App::new();
    assert_eq!(app.frame_count, 0);
    assert!(app.signal_history.is_empty());
    assert_eq!(log_lines(&app), vec!["[BOOT] Ground station online".to_string()]);
    assert_eq!(app.log_scroll, 0);
    assert_eq!(app.last_frame, None);
}

#[test]
fn failed_fetch_logs_error_in_front() {
    let mut app = App::new();
    app.update(Err("telemetry_get_frame returned error code -3".to_string()));
    assert_eq!(
        log_lines(&app),
        vec![
            "[ERR ] telemetry_get_frame returned error code -3".to_string(),
            "[BOOT] Ground station online".to_string()
        ]
    );
    assert_eq!(app.frame_count, 0);
    assert_eq!(app.last_frame, None);
}

#[test]
fn short_frame_logs_parse_error() {
    let mut app = App::new();
    app.update(Ok(vec![1, 2, 3]));
    assert_eq!(log_lines(&app)[0], "[ERR ] expected 18 bytes, got 3");
    assert_eq!(app.frame_count, 0);
    assert!(app.signal_history.is_empty());
}

#[test]
fn good_frame_is_counted_and_logged() {
    let mut app = App::new();
    let f = sealed(3_723_000, 408_000, 255);
    app.update(Ok(f.to_bytes()));
    assert_eq!(app.frame_count, 1);
    assert_eq!(app.last_frame, Some(f));
    assert_eq!(app.signal_history.iter().copied().collect::<Vec<_>>(), vec![100]);
    assert_eq!(log_lines(&app)[0], "[01:02:03] Frame #1 : alt 408000m , OK");
    assert_eq!(app.log.len(), 2);
}

#[test]
fn corrupted_frame_is_logged_as_fail() {
    let mut app = App::new();
    let mut f = sealed(5_000, 12, 0);
    f.checksum ^= 0x01;
    app.update(Ok(f.to_bytes()));
    assert_eq!(log_lines(&app)[0], "[00:00:05] Frame #1 : alt 12m , FAIL");
    assert_eq!(app.signal_history.iter().copied().collect::<Vec<_>>(), vec![0]);
}

#[test]
fn long_mission_time_keeps_all_hour_digits() {
    let mut app = App::new();
    app.update(Ok(sealed(u32::MAX, 7, 10).to_bytes()));
    assert_eq!(log_lines(&app)[0], "[1193:02:47] Frame #1 : alt 7m , OK");
}

#[test]
fn signal_history_keeps_newest_readings() {
    let mut app = App::new();
    for i in 0..40u32 {
        app.update(Ok(sealed(i * 1000, i, (i * 5) as u8).to_bytes()));
        assert!(app.signal_history.len() <= SIGNAL_HISTORY_LEN);
    }
    assert_eq!(app.signal_history.len(), 32);
    assert_eq!(app.frame_count, 40);
    let expected: Vec<u64> = (8..40u32).rev().map(|i| (i * 5 * 100 / 255) as u64).collect();
    assert_eq!(app.signal_history.iter().copied().collect::<Vec<_>>(), expected);
    let oldest_first: Vec<u64> = expected.iter().rev().copied().collect();
    assert_eq!(app.sparkline_data(), oldest_first);
}

#[test]
fn log_is_trimmed_after_frames() {
    let mut app = App::new();
    for i in 0..100u32 {
        app.update(Ok(sealed(i * 1000, i, 1).to_bytes()));
        assert!(app.log.len() <= LOG_LEN);
    }
    assert_eq!(app.log.len(), 64);
    assert_eq!(log_lines(&app)[0], "[00:01:39] Frame #100 : alt 99m , OK");
    assert_eq!(log_lines(&app)[63], "[00:00:36] Frame #37 : alt 36m , OK");
}

#[test]
fn error_lines_are_not_trimmed() {
    let mut app = App::new();
    for _ in 0..70 {
        app.update(Err("down".to_string()));
    }
    assert_eq!(app.log.len(), 71);
    app.update(Ok(sealed(0, 0, 0).to_bytes()));
    assert_eq!(app.log.len(), 71);
    assert_eq!(log_lines(&app)[0], "[00:00:00] Frame #1 : alt 0m , OK");
}

#[test]
fn keys_quit_and_scroll() {
    let mut app = App::new();
    assert!(app.handle_key(Key::Char('q')));
    assert!(app.handle_key(Key::Char('Q')));
    assert!(!app.handle_key(Key::Char('x')));
    assert!(!app.handle_key(Key::Up));
    assert_eq!(app.log_scroll, 0);
    assert!(!app.handle_key(Key::Down));
    assert!(!app.handle_key(Key::Down));
    assert_eq!(app.log_scroll, 2);
    assert!(!app.handle_key(Key::Up));
    assert_eq!(app.log_scroll, 1);
    assert!(!app.handle_key(Key::Other));
    assert_eq!(app.log_scroll, 1);
    app.log_scroll = u16::MAX;
    app.handle_key(Key::Down);
    assert_eq!(app.log_scroll, u16::MAX);
}

#[test]
fn header_texts_before_and_after_first_frame() {
    let mut app = App::new();
    assert_eq!(
        app.header_texts(),
        (" --:--:-- MET ".to_string(), " Waiting... ".to_string())
    );
    app.update(Ok(sealed(45_296_000, 1, 1).to_bytes()));
    assert_eq!(
        app.header_texts(),
        (" 12:34:56 MET ".to_string(), " Frame #1 ".to_string())
    );
}

#[test]
fn fetch_outcome_passes_buffer_or_reports_code() {
    assert_eq!(fetch_outcome(0, vec![9; 18]), Ok(vec![9; 18]));
    assert_eq!(
        fetch_outcome(-1, vec![0; 18]),
        Err("telemetry_get_frame returned error code -1".to_string())
    );
    assert_eq!(
        fetch_outcome(42, vec![]),
        Err("telemetry_get_frame returned error code 42".to_string())
    );
    assert_eq!(
        fetch_outcome(i32::MIN, vec![]),
        Err("telemetry_get_frame returned error code -2147483648".to_string())
    );
}

#[test]
fn frame_buffer_is_frame_size_zeros() {
    assert_eq!(frame_buffer(), vec![0u8; 18]);
    let fetched = fetch_outcome(0, frame_buffer());
    let mut app = App::new();
    app.update(fetched);
    assert_eq!(app.frame_count, 1);
}

#[test]
fn poll_waits_for_the_rest_of_the_tick() {
    assert_eq!(poll_timeout_nanos(0), 500_000_000);
    assert_eq!(poll_timeout_nanos(200_000_000), 300_000_000);
    assert_eq!(poll_timeout_nanos(499_999_999), 1);
    assert_eq!(poll_timeout_nanos(500_000_000), 0);
    assert_eq!(poll_timeout_nanos(u128::MAX), 0);
    assert!(!tick_due(0));
    assert!(!tick_due(499_999_999));
    assert!(tick_due(500_000_000));
    assert!(tick_due(7_000_000_000));
    assert_eq!(TICK_RATE_NANOS, 500_000_000);
}

#[test]
fn gauges_before_and_after_first_frame() {
    let mut app = App::new();
    let g = app.gauges();
    assert_eq!(g.battery_percent, 0);
    assert_eq!(g.signal_percent, 0);
    assert_eq!(g.signal_label, "---");
    assert!(g.flags.is_empty());
    assert_eq!(no_reading(), "---");
    app.update(Ok(sealed(1_000, 5, 200).to_bytes()));
    let g = app.gauges();
    assert_eq!(g.battery_percent, 75);
    assert_eq!(g.signal_percent, 78);
    assert_eq!(g.signal_label, "78%  RSSI:200");
    assert_eq!(g.flags, vec!["ANTENNA OK", "GPS LOCK"]);
}
