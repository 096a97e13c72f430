//! The ground station's state between screen refreshes: frame counter,
//! recent signal readings, event log, log scroll position and last frame,
//! with the decisions taken on each fetched frame and each key press.
use std::collections::VecDeque;

use vstd::prelude::*;
use vstd::string::*;

use crate::display::signal_label;
use crate::telemetry::{
    length_error_message, parse, spec_battery_percent, spec_decode_frame, spec_elapsed_time,
    lemma_elapsed_time_decomposes, spec_frame_body, spec_is_valid, spec_signal_percent,
    spec_status_labels, spec_xor_fold, TelemetryFrame, FRAME_SIZE,
};
use crate::text::{
    decimal, decimal_pad2, push_decimal, push_decimal_pad2, push_signed_decimal, signed_decimal,
};

verus! {

/// How many signal readings the station keeps.
pub const SIGNAL_HISTORY_LEN: usize = 32;

/// How many log entries the station keeps after a frame arrives.
pub const LOG_LEN: usize = 64;

/// A key press, as far as the station reacts to it.
#[derive(Debug, Clone, Copy, PartialEq, Eq, Structural)]
pub enum Key {
    /// A character key.
    Char(char),
    /// The up arrow.
    Up,
    /// The down arrow.
    Down,
    /// Any other key.
    Other,
}

/// The station's state: counters, signal history (newest first), event log
/// (newest first), scroll offset of the log, and the last frame received.
pub struct App {
    /// Frames received and parsed so far.
    pub frame_count: u64,
    /// Signal readings in percent, newest first.
    pub signal_history: VecDeque<u64>,
    /// Event log lines, newest first.
    pub log: VecDeque<String>,
    /// How many lines the log view is scrolled down.
    pub log_scroll: u16,
    /// The last frame that parsed.
    pub last_frame: Option<TelemetryFrame>,
}

/// What the gauges show: battery and signal percent, the signal gauge's
/// label, and the labels of the set status bits.
pub struct Gauges {
    pub battery_percent: u16,
    pub signal_percent: u16,
    pub signal_label: String,
    pub flags: Vec<&'static str>,
}

/// The station's state as values.
#[verifier::ext_equal]
pub struct StationView {
    /// Frames received and parsed so far.
    pub frame_count: u64,
    /// Signal readings in percent, newest first.
    pub signal_history: Seq<u64>,
    /// Event log lines, newest first.
    pub log: Seq<Seq<char>>,
    /// How many lines the log view is scrolled down.
    pub log_scroll: u16,
    /// The last frame that parsed.
    pub last_frame: Option<TelemetryFrame>,
}

impl View for App {
    type V = StationView;

    open spec fn view(&self) -> StationView {
        StationView {
            frame_count: self.frame_count,
            signal_history: self.signal_history@,
            log: self.log@.map_values(|s: String| s@),
            log_scroll: self.log_scroll,
            last_frame: self.last_frame,
        }
    }
}

/// The log line recorded for a failed fetch or a rejected frame.
pub open spec fn spec_error_line(message: Seq<char>) -> Seq<char> {
    "[ERR ] "@ + message
}

/// The word that the log and the telemetry panel use for a checksum result.
pub open spec fn spec_checksum_word(valid: bool) -> Seq<char> {
    if valid {
        "OK"@
    } else {
        "FAIL"@
    }
}

/// The log line recorded for the `count`-th frame `f`.
pub open spec fn spec_frame_line(f: TelemetryFrame, count: nat) -> Seq<char> {
    let (h, m, s) = spec_elapsed_time(f.timestamp_ms as int);
    "["@ + decimal_pad2(h as nat) + ":"@ + decimal_pad2(m as nat) + ":"@ + decimal_pad2(s as nat)
        + "] Frame #"@ + decimal(count) + " : alt "@ + decimal(f.altitude_m as nat) + "m , "@
        + spec_checksum_word(spec_is_valid(f))
}

/// The signal history after a new reading: the reading in front, the
/// oldest reading dropped when the history was full.
pub open spec fn spec_push_signal(history: Seq<u64>, reading: u64) -> Seq<u64> {
    seq![reading] + if history.len() == SIGNAL_HISTORY_LEN {
        history.drop_last()
    } else {
        history
    }
}

/// The log after a frame's line: the line in front, the oldest line
/// dropped when the log then holds more than `LOG_LEN` lines.
pub open spec fn spec_push_frame_line(log: Seq<Seq<char>>, line: Seq<char>) -> Seq<Seq<char>> {
    let grown = seq![line] + log;
    if grown.len() > LOG_LEN {
        grown.drop_last()
    } else {
        grown
    }
}

/// The state after a fetch that produced `fetched`: the raw frame bytes or
/// the fetch's error message.
pub open spec fn spec_update(v: StationView, fetched: Result<Seq<u8>, Seq<char>>) -> StationView {
    match fetched {
        Err(e) => StationView { log: seq![spec_error_line(e)] + v.log, ..v },
        Ok(raw) => if raw.len() != FRAME_SIZE {
            StationView {
                log: seq![spec_error_line(length_error_message(raw.len()))] + v.log,
                ..v
            }
        } else {
            let f = spec_decode_frame(raw);
            let count = (v.frame_count + 1) as u64;
            StationView {
                frame_count: count,
                signal_history: spec_push_signal(
                    v.signal_history,
                    spec_signal_percent(f.signal_strength as int) as u64,
                ),
                log: spec_push_frame_line(v.log, spec_frame_line(f, count as nat)),
                log_scroll: v.log_scroll,
                last_frame: Some(f),
            }
        },
    }
}

/// Whether a fetch result carries a frame that parses.
pub open spec fn spec_fetch_parses(fetched: Result<Seq<u8>, Seq<char>>) -> bool {
    fetched is Ok && fetched->Ok_0.len() == FRAME_SIZE
}

/// A fetch result as values.
pub open spec fn spec_fetch_view(fetched: Result<Vec<u8>, String>) -> Result<Seq<u8>, Seq<char>> {
    match fetched {
        Ok(raw) => Ok(raw@),
        Err(e) => Err(e@),
    }
}

/// Whether `key` ends the program.
pub open spec fn spec_is_quit(key: Key) -> bool {
    key == Key::Char('q') || key == Key::Char('Q')
}

/// The log scroll offset after `key`: down scrolls one line further, up one
/// line back, both saturating.
pub open spec fn spec_scroll_after(scroll: u16, key: Key) -> u16 {
    match key {
        Key::Down => if scroll < u16::MAX {
            (scroll + 1) as u16
        } else {
            scroll
        },
        Key::Up => if scroll > 0 {
            (scroll - 1) as u16
        } else {
            scroll
        },
        _ => scroll,
    }
}

/// The message of a failed fetch with return code `code`.
pub open spec fn spec_fetch_error_message(code: int) -> Seq<char> {
    "telemetry_get_frame returned error code "@ + signed_decimal(code)
}

/// What a fetch with return code `code` into `buf` yields: the buffer when
/// the frame source returned 0, an error message otherwise.
pub open spec fn spec_fetch_outcome(code: int, buf: Seq<u8>) -> Result<Seq<u8>, Seq<char>> {
    if code == 0 {
        Ok(buf)
    } else {
        Err(spec_fetch_error_message(code))
    }
}

/// The buffer a frame is fetched into: `FRAME_SIZE` zero bytes.
pub open spec fn spec_frame_buffer() -> Seq<u8> {
    Seq::new(FRAME_SIZE as nat, |i: int| 0u8)
}

/// Time between two fetches, in nanoseconds.
pub const TICK_RATE_NANOS: u128 = 500_000_000;

/// How long to wait for a key press, given the time since the last fetch:
/// what is left of the tick, or nothing once it has passed.
pub open spec fn spec_poll_timeout(elapsed_nanos: int) -> int {
    if elapsed_nanos >= TICK_RATE_NANOS {
        0
    } else {
        TICK_RATE_NANOS - elapsed_nanos
    }
}

/// The placeholder a gauge shows before the first frame.
pub open spec fn spec_no_reading() -> Seq<char> {
    "---"@
}

/// The header texts: the mission time and the frame counter.
pub open spec fn spec_header_texts(v: StationView) -> (Seq<char>, Seq<char>) {
    match v.last_frame {
        Some(f) => {
            let (h, m, s) = spec_elapsed_time(f.timestamp_ms as int);
            (
                " "@ + decimal_pad2(h as nat) + ":"@ + decimal_pad2(m as nat) + ":"@
                    + decimal_pad2(s as nat) + " MET "@,
                " Frame #"@ + decimal(v.frame_count as nat) + " "@,
            )
        },
        None => (" --:--:-- MET "@, " Waiting... "@),
    }
}

/// Whether `s` ends with `w`.
pub open spec fn ends_with(s: Seq<char>, w: Seq<char>) -> bool {
    w.len() <= s.len() && s.subrange(s.len() - w.len(), s.len() as int) == w
}

/// A mission time as the header shows it: ` HH:MM:SS MET `.
pub open spec fn met_text(h: nat, m: nat, s: nat) -> Seq<char> {
    " "@ + decimal_pad2(h) + ":"@ + decimal_pad2(m) + ":"@ + decimal_pad2(s) + " MET "@
}

/// A frame's log line ends in `OK` exactly when the XOR of the frame's 16
/// body bytes equals the low byte of its checksum, and in `FAIL` otherwise,
/// whatever its status bits and other fields hold.
pub proof fn lemma_frame_line_reports_checksum(f: TelemetryFrame, count: nat)
    ensures
        ends_with(spec_frame_line(f, count), "OK"@) <==> spec_xor_fold(spec_frame_body(f)) == (
        f.checksum % 256) as u8,
        ends_with(spec_frame_line(f, count), "FAIL"@) <==> spec_xor_fold(spec_frame_body(f)) != (
        f.checksum % 256) as u8,
{
    reveal_strlit("OK");
    reveal_strlit("FAIL");
    let line = spec_frame_line(f, count);
    let word = spec_checksum_word(spec_is_valid(f));
    let (h, m, s) = spec_elapsed_time(f.timestamp_ms as int);
    let prefix = "["@ + decimal_pad2(h as nat) + ":"@ + decimal_pad2(m as nat) + ":"@
        + decimal_pad2(s as nat) + "] Frame #"@ + decimal(count) + " : alt "@ + decimal(
        f.altitude_m as nat,
    ) + "m , "@;
    reveal_strlit("m , ");
    assert(line == prefix + word);
    assert(prefix.len() >= 4);
    assert(line.subrange(line.len() - word.len(), line.len() as int) =~= word);
    assert(line.last() == word.last());
    if spec_is_valid(f) {
        assert(word.last() == 'K');
        if ends_with(line, "FAIL"@) {
            assert(line.subrange(line.len() - 4, line.len() as int)[3] == line.last());
        }
    } else {
        assert(word.last() == 'L');
        if ends_with(line, "OK"@) {
            assert(line.subrange(line.len() - 2, line.len() as int)[1] == line.last());
        }
    }
}

/// Once a frame has arrived, the header shows a mission time of `h` hours,
/// `m` minutes and `s` seconds that add up to the whole seconds the frame
/// records, with minutes and seconds below 60 (hours are not wrapped).
pub proof fn lemma_header_shows_mission_time(v: StationView)
    requires
        v.last_frame is Some,
    ensures
        exists|h: nat, m: nat, s: nat|
            #![trigger met_text(h, m, s)]
            h * 3600 + m * 60 + s == v.last_frame->Some_0.timestamp_ms / 1000 && m < 60 && s < 60
                && spec_header_texts(v).0 == met_text(h, m, s),
{
    let f = v.last_frame->Some_0;
    lemma_elapsed_time_decomposes(f.timestamp_ms as int);
    let (h, m, s) = spec_elapsed_time(f.timestamp_ms as int);
    assert(spec_header_texts(v).0 == met_text(h as nat, m as nat, s as nat));
}

/// Every fetch adds exactly one line in front of the log; only a frame that
/// parses is counted, kept as the last frame and adds a signal reading.
pub proof fn lemma_update_records_outcome(v: StationView, fetched: Result<Seq<u8>, Seq<char>>)
    requires
        spec_fetch_parses(fetched) ==> v.frame_count < u64::MAX,
    ensures
        ({
            let w = spec_update(v, fetched);
            &&& w.log.len() >= 1
            &&& w.log.drop_first() == (if w.log.len() > v.log.len() {
                v.log
            } else {
                v.log.drop_last()
            })
            &&& w.log_scroll == v.log_scroll
            &&& spec_fetch_parses(fetched) ==> {
                let f = spec_decode_frame(fetched->Ok_0);
                &&& w.frame_count == v.frame_count + 1
                &&& w.last_frame == Some(f)
                &&& w.signal_history[0] == spec_signal_percent(f.signal_strength as int)
                &&& w.log[0] == spec_frame_line(f, w.frame_count as nat)
            }
            &&& !spec_fetch_parses(fetched) ==> {
                &&& w.frame_count == v.frame_count
                &&& w.last_frame == v.last_frame
                &&& w.signal_history == v.signal_history
                &&& w.log.len() == v.log.len() + 1
            }
        }),
{
    let w = spec_update(v, fetched);
    assert(w.log.drop_first() =~= (if w.log.len() > v.log.len() {
        v.log
    } else {
        v.log.drop_last()
    }));
}

/// The signal history never holds more than `SIGNAL_HISTORY_LEN` readings,
/// and a frame's line never takes the log beyond `LOG_LEN` lines.
pub proof fn lemma_update_keeps_bounds(v: StationView, fetched: Result<Seq<u8>, Seq<char>>)
    requires
        v.signal_history.len() <= SIGNAL_HISTORY_LEN,
    ensures
        spec_update(v, fetched).signal_history.len() <= SIGNAL_HISTORY_LEN,
        spec_fetch_parses(fetched) && v.log.len() <= LOG_LEN ==> spec_update(v, fetched).log.len()
            <= LOG_LEN,
{
}

/// After a frame, the signal history holds the new reading in front of the
/// newest earlier readings, at most `SIGNAL_HISTORY_LEN` in all, and the log
/// holds the frame's line in front of the newest earlier lines, at most
/// `LOG_LEN` in all.
pub proof fn lemma_frame_update_shape(v: StationView, raw: Seq<u8>)
    requires
        raw.len() == FRAME_SIZE,
        v.frame_count < u64::MAX,
        v.signal_history.len() <= SIGNAL_HISTORY_LEN,
        v.log.len() <= LOG_LEN,
    ensures
        ({
            let w = spec_update(v, Ok(raw));
            let f = spec_decode_frame(raw);
            let n = if v.signal_history.len() + 1 < SIGNAL_HISTORY_LEN {
                v.signal_history.len() + 1int
            } else {
                SIGNAL_HISTORY_LEN as int
            };
            let k = if v.log.len() + 1 < LOG_LEN {
                v.log.len() + 1int
            } else {
                LOG_LEN as int
            };
            &&& w.signal_history.len() == n
            &&& w.signal_history[0] == spec_signal_percent(f.signal_strength as int)
            &&& w.signal_history.subrange(1, n) == v.signal_history.subrange(0, n - 1)
            &&& w.log.len() == k
            &&& w.log[0] == spec_frame_line(f, w.frame_count as nat)
            &&& w.log.subrange(1, k) == v.log.subrange(0, k - 1)
        }),
{
    let w = spec_update(v, Ok(raw));
    let n = if v.signal_history.len() + 1 < SIGNAL_HISTORY_LEN {
        v.signal_history.len() + 1int
    } else {
        SIGNAL_HISTORY_LEN as int
    };
    let k = if v.log.len() + 1 < LOG_LEN {
        v.log.len() + 1int
    } else {
        LOG_LEN as int
    };
    assert(w.signal_history.subrange(1, n) =~= v.signal_history.subrange(0, n - 1));
    assert(w.log.subrange(1, k) =~= v.log.subrange(0, k - 1));
}

/// A successful fetch into the frame buffer yields bytes that parse, so the
/// station counts the frame.
pub proof fn lemma_successful_fetch_parses(v: StationView)
    requires
        v.frame_count < u64::MAX,
    ensures
        spec_fetch_parses(spec_fetch_outcome(0, spec_frame_buffer())),
        spec_update(v, spec_fetch_outcome(0, spec_frame_buffer())).frame_count == v.frame_count
            + 1,
{
}

/// The wait for a key press never exceeds one tick, and ends at once
/// exactly when the next fetch is due.
pub proof fn lemma_poll_timeout_within_tick(elapsed_nanos: int)
    requires
        elapsed_nanos >= 0,
    ensures
        0 <= spec_poll_timeout(elapsed_nanos) <= TICK_RATE_NANOS,
        spec_poll_timeout(elapsed_nanos) == 0 <==> elapsed_nanos >= TICK_RATE_NANOS,
{
}

/// Only `q` and `Q` end the program; a key that ends it never scrolls, and
/// the arrow keys never end it.
pub proof fn lemma_quit_keys(key: Key, scroll: u16)
    ensures
        spec_is_quit(key) <==> (key == Key::Char('q') || key == Key::Char('Q')),
        spec_is_quit(key) ==> spec_scroll_after(scroll, key) == scroll,
        !spec_is_quit(Key::Up) && !spec_is_quit(Key::Down) && !spec_is_quit(Key::Other),
{
}

/// Scrolling down and then up returns to the same line, unless the offset
/// was already at its maximum.
pub proof fn lemma_scroll_down_up(scroll: u16)
    requires
        scroll < u16::MAX,
    ensures
        spec_scroll_after(spec_scroll_after(scroll, Key::Down), Key::Up) == scroll,
{
}

/// Turns the outcome of the frame source into the fetched frame bytes: the
/// buffer when the source returned 0, an error message otherwise.
pub fn fetch_outcome(code: i32, buf: Vec<u8>) -> (r: Result<Vec<u8>, String>)
    ensures
        spec_fetch_view(r) == spec_fetch_outcome(code as int, buf@),
{
    if code == 0 {
        Ok(buf)
    } else {
        let mut msg = String::from_str("telemetry_get_frame returned error code ");
        push_signed_decimal(&mut msg, code);
        Err(msg)
    }
}

/// A fresh buffer to fetch one frame into.
pub fn frame_buffer() -> (r: Vec<u8>)
    ensures
        r@ == spec_frame_buffer(),
{
    let mut buf: Vec<u8> = Vec::new();
    let mut i: usize = 0;
    while i < FRAME_SIZE
        invariant
            i <= FRAME_SIZE,
            buf@ == Seq::new(i as nat, |j: int| 0u8),
        decreases FRAME_SIZE - i,
    {
        buf.push(0u8);
        i = i + 1;
        assert(buf@ =~= Seq::new(i as nat, |j: int| 0u8));
    }
    buf
}

/// How long to wait for a key press, in nanoseconds, when `elapsed_nanos`
/// have passed since the last fetch.
pub fn poll_timeout_nanos(elapsed_nanos: u128) -> (r: u128)
    ensures
        r as int == spec_poll_timeout(elapsed_nanos as int),
{
    if elapsed_nanos >= TICK_RATE_NANOS {
        0
    } else {
        TICK_RATE_NANOS - elapsed_nanos
    }
}

/// Whether the next fetch is due, `elapsed_nanos` after the last one.
pub fn tick_due(elapsed_nanos: u128) -> (r: bool)
    ensures
        r == (elapsed_nanos >= TICK_RATE_NANOS),
{
    elapsed_nanos >= TICK_RATE_NANOS
}

/// The placeholder a gauge shows before the first frame.
pub fn no_reading() -> (r: &'static str)
    ensures
        r@ == spec_no_reading(),
{
    "---"
}

/// The word for a checksum result.
pub fn checksum_word(valid: bool) -> (r: &'static str)
    ensures
        r@ == spec_checksum_word(valid),
{
    if valid {
        "OK"
    } else {
        "FAIL"
    }
}

fn error_line(message: String) -> (r: String)
    ensures
        r@ == spec_error_line(message@),
{
    let mut line = String::from_str("[ERR ] ");
    line.append(message.as_str());
    line
}

fn frame_line(f: &TelemetryFrame, count: u64) -> (r: String)
    ensures
        r@ == spec_frame_line(*f, count as nat),
{
    let (h, m, s) = f.elapsed_time();
    let valid = f.is_valid();
    let mut line = String::from_str("[");
    push_decimal_pad2(&mut line, h as u64);
    line.append(":");
    push_decimal_pad2(&mut line, m as u64);
    line.append(":");
    push_decimal_pad2(&mut line, s as u64);
    line.append("] Frame #");
    push_decimal(&mut line, count);
    line.append(" : alt ");
    push_decimal(&mut line, f.altitude_m as u64);
    line.append("m , ");
    line.append(checksum_word(valid));
    line
}

proof fn lemma_push_front_view(log: Seq<String>, line: String)
    ensures
        (seq![line] + log).map_values(|s: String| s@) == seq![line@] + log.map_values(
            |s: String| s@,
        ),
{
    assert((seq![line] + log).map_values(|s: String| s@) =~= seq![line@] + log.map_values(
        |s: String| s@,
    ));
}

impl App {
    /// A station that has received nothing yet; its log holds the boot line.
    pub fn new() -> (r: App)
        ensures
            r@ == (StationView {
                frame_count: 0,
                signal_history: Seq::empty(),
                log: seq!["[BOOT] Ground station online"@],
                log_scroll: 0,
                last_frame: None,
            }),
    {
        let mut log: VecDeque<String> = VecDeque::new();
        log.push_front(String::from_str("[BOOT] Ground station online"));
        let r = App {
            frame_count: 0,
            signal_history: VecDeque::with_capacity(SIGNAL_HISTORY_LEN),
            log,
            log_scroll: 0,
            last_frame: None,
        };
        assert(r@ =~= (StationView {
            frame_count: 0,
            signal_history: Seq::empty(),
            log: seq!["[BOOT] Ground station online"@],
            log_scroll: 0,
            last_frame: None,
        }));
        r
    }

    /// Records the outcome of one fetch: an error line for a failed fetch or
    /// a frame that does not parse; otherwise counts the frame, records its
    /// signal reading and log line, and keeps it as the last frame.
    pub fn update(&mut self, fetched: Result<Vec<u8>, String>)
        requires
            spec_fetch_parses(spec_fetch_view(fetched)) ==> old(self).frame_count < u64::MAX,
        ensures
            final(self)@ == spec_update(old(self)@, spec_fetch_view(fetched)),
    {
        let ghost pre = self@;
        match fetched {
            Err(e) => {
                let line = error_line(e);
                proof {
                    lemma_push_front_view(self.log@, line);
                }
                self.log.push_front(line);
                assert(self@ =~= spec_update(pre, spec_fetch_view(fetched)));
            },
            Ok(raw) => match parse(raw.as_slice()) {
                Err(e) => {
                    let line = error_line(e);
                    proof {
                        lemma_push_front_view(self.log@, line);
                    }
                    self.log.push_front(line);
                    assert(self@ =~= spec_update(pre, spec_fetch_view(fetched)));
                },
                Ok(frame) => {
                    self.frame_count = self.frame_count + 1;
                    let sig = frame.signal_percent() as u64;
                    if self.signal_history.len() == SIGNAL_HISTORY_LEN {
                        self.signal_history.pop_back();
                    }
                    self.signal_history.push_front(sig);
                    let line = frame_line(&frame, self.frame_count);
                    proof {
                        lemma_push_front_view(self.log@, line);
                    }
                    self.log.push_front(line);
                    let ghost grown = self.log@;
                    if self.log.len() > LOG_LEN {
                        self.log.pop_back();
                        assert(self.log@.map_values(|s: String| s@) =~= grown.map_values(
                            |s: String| s@,
                        ).drop_last());
                    }
                    self.last_frame = Some(frame);
                    assert(self@.signal_history =~= spec_update(
                        pre,
                        spec_fetch_view(fetched),
                    ).signal_history);
                    assert(self@ =~= spec_update(pre, spec_fetch_view(fetched)));
                },
            },
        }
    }

    /// Reacts to a key press: arrows scroll the log; returns whether the key
    /// ends the program (`q` or `Q`).
    pub fn handle_key(&mut self, key: Key) -> (quit: bool)
        ensures
            quit == spec_is_quit(key),
            final(self)@ == (StationView {
                log_scroll: spec_scroll_after(old(self).log_scroll, key),
                ..old(self)@
            }),
    {
        let ghost pre = self@;
        let quit = match key {
            Key::Char(c) => c == 'q' || c == 'Q',
            Key::Down => {
                self.log_scroll = self.log_scroll.saturating_add(1);
                false
            },
            Key::Up => {
                self.log_scroll = self.log_scroll.saturating_sub(1);
                false
            },
            Key::Other => false,
        };
        assert(self@ =~= (StationView {
            log_scroll: spec_scroll_after(pre.log_scroll, key),
            ..pre
        }));
        quit
    }

    /// The header texts: mission time of the last frame and the frame
    /// counter, or placeholders before the first frame.
    pub fn header_texts(&self) -> (r: (String, String))
        ensures
            (r.0@, r.1@) == spec_header_texts(self@),
    {
        match &self.last_frame {
            Some(frame) => {
                let (h, m, s) = frame.elapsed_time();
                let mut elapsed = String::from_str(" ");
                push_decimal_pad2(&mut elapsed, h as u64);
                elapsed.append(":");
                push_decimal_pad2(&mut elapsed, m as u64);
                elapsed.append(":");
                push_decimal_pad2(&mut elapsed, s as u64);
                elapsed.append(" MET ");
                let mut count = String::from_str(" Frame #");
                push_decimal(&mut count, self.frame_count);
                count.append(" ");
                (elapsed, count)
            },
            None => (String::from_str(" --:--:-- MET "), String::from_str(" Waiting... ")),
        }
    }

    /// What the gauges show for the last frame, or placeholders (zero
    /// percent, no label, no flags) before the first frame.
    pub fn gauges(&self) -> (r: Gauges)
        ensures
            match self.last_frame {
                Some(f) => {
                    &&& r.battery_percent as int == spec_battery_percent(f.battery_mv as int)
                    &&& r.signal_percent as int == spec_signal_percent(f.signal_strength as int)
                    &&& r.signal_label@ == decimal(r.signal_percent as nat) + "%  RSSI:"@ + decimal(
                        f.signal_strength as nat,
                    )
                    &&& r.flags@.map_values(|s: &'static str| s@) == spec_status_labels(
                        f.status_flags,
                    )
                },
                None => {
                    &&& r.battery_percent == 0
                    &&& r.signal_percent == 0
                    &&& r.signal_label@ == spec_no_reading()
                    &&& r.flags@.len() == 0
                },
            },
    {
        match &self.last_frame {
            Some(frame) => {
                let sp = frame.signal_percent();
                Gauges {
                    battery_percent: frame.battery_percent() as u16,
                    signal_percent: sp as u16,
                    signal_label: signal_label(sp, frame.signal_strength),
                    flags: frame.status_summary(),
                }
            },
            None => Gauges {
                battery_percent: 0,
                signal_percent: 0,
                signal_label: String::from_str(no_reading()),
                flags: Vec::new(),
            },
        }
    }

    /// The signal history oldest first, as the sparkline plots it.
    pub fn sparkline_data(&self) -> (r: Vec<u64>)
        ensures
            r@ == self.signal_history@.reverse(),
    {
        let n = self.signal_history.len();
        let mut data: Vec<u64> = Vec::new();
        let mut i: usize = n;
        while i > 0
            invariant
                n == self.signal_history@.len(),
                i <= n,
                data@ == self.signal_history@.subrange(i as int, n as int).reverse(),
            decreases i,
        {
            i = i - 1;
            data.push(self.signal_history[i]);
            assert(data@ =~= self.signal_history@.subrange(i as int, n as int).reverse());
        }
        assert(self.signal_history@.subrange(0, n as int) =~= self.signal_history@);
        data
    }
}

} // verus!
