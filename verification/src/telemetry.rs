//! One telemetry frame: its 18-byte packed layout (fields in order, no
//! padding, multi-byte fields in the machine's byte order, as the frame
//! source writes them), its checksum, and the readings derived from its
//! raw fields.
use vstd::endian::{endianness, Endian};
use vstd::prelude::*;
use vstd::string::*;

use crate::endian::{
    lemma_u16_round_trip, lemma_u32_round_trip, spec_u16_from_ne, spec_u16_ne_bytes,
    spec_u32_from_ne, spec_u32_ne_bytes, u16_from_ne, u16_to_ne, u32_from_ne, u32_to_ne,
};

use crate::text::{decimal, push_decimal};

verus! {

/// Size in bytes of one encoded frame.
pub const FRAME_SIZE: usize = 18;

/// Status bit: the antenna is deployed and working.
pub const FLAG_ANTENNA_OK: u8 = 0x01;

/// Status bit: the GPS receiver has a position lock.
pub const FLAG_GPS_LOCK: u8 = 0x02;

/// Status bit: the battery is low.
pub const FLAG_LOW_BATTERY: u8 = 0x04;

/// Status bit: the spacecraft reports an error.
pub const FLAG_ERROR: u8 = 0x80;

/// One telemetry frame, field by field as it is laid out on the wire.
#[derive(Debug, Clone, Copy, PartialEq, Eq, Structural)]
pub struct TelemetryFrame {
    /// Mission elapsed time in milliseconds.
    pub timestamp_ms: u32,
    /// Temperature in hundredths of a degree Celsius.
    pub temperature_c: i16,
    /// Battery voltage in millivolts.
    pub battery_mv: u16,
    /// Altitude in metres.
    pub altitude_m: u32,
    /// Velocity in centimetres per second.
    pub velocity_ms: i16,
    /// Raw received signal strength, 0 to 255.
    pub signal_strength: u8,
    /// Status bits (`FLAG_*`).
    pub status_flags: u8,
    /// Checksum; its low byte is the XOR of the 16 bytes before it.
    pub checksum: u16,
}

/// The 16 bytes of a frame before its checksum: each field in declaration
/// order, in the machine's byte order.
pub open spec fn spec_frame_body(f: TelemetryFrame) -> Seq<u8> {
    spec_u32_ne_bytes(f.timestamp_ms) + spec_u16_ne_bytes(f.temperature_c as u16)
        + spec_u16_ne_bytes(f.battery_mv) + spec_u32_ne_bytes(f.altitude_m)
        + spec_u16_ne_bytes(f.velocity_ms as u16) + seq![f.signal_strength, f.status_flags]
}

/// The 18 bytes of a frame: its body, then its checksum.
pub open spec fn spec_frame_bytes(f: TelemetryFrame) -> Seq<u8> {
    spec_frame_body(f) + spec_u16_ne_bytes(f.checksum)
}

/// The frame that 18 bytes encode (the inverse of `spec_frame_bytes`).
pub open spec fn spec_decode_frame(b: Seq<u8>) -> TelemetryFrame
    recommends
        b.len() == FRAME_SIZE,
{
    TelemetryFrame {
        timestamp_ms: spec_u32_from_ne(b.subrange(0, 4)),
        temperature_c: spec_u16_from_ne(b.subrange(4, 6)) as i16,
        battery_mv: spec_u16_from_ne(b.subrange(6, 8)),
        altitude_m: spec_u32_from_ne(b.subrange(8, 12)),
        velocity_ms: spec_u16_from_ne(b.subrange(12, 14)) as i16,
        signal_strength: b[14],
        status_flags: b[15],
        checksum: spec_u16_from_ne(b.subrange(16, 18)),
    }
}

/// XOR of all bytes of `s`.
pub open spec fn spec_xor_fold(s: Seq<u8>) -> u8
    decreases s.len(),
{
    if s.len() == 0 {
        0
    } else {
        spec_xor_fold(s.drop_last()) ^ s.last()
    }
}

/// A frame is valid when the XOR of the 16 bytes before its checksum equals
/// the low byte of its checksum.
pub open spec fn spec_is_valid(f: TelemetryFrame) -> bool {
    spec_xor_fold(spec_frame_body(f)) == (f.checksum % 256) as u8
}

/// Battery charge in percent: linear from 3000 mV (0 %) to 4200 mV (100 %),
/// clamped to 0..=100.
pub open spec fn spec_battery_percent(mv: int) -> int {
    let scaled = (mv - 3000) * 100 / 1200;
    if scaled < 0 {
        0
    } else if scaled > 100 {
        100
    } else {
        scaled
    }
}

/// Signal strength in percent: raw 0..=255 scaled down to 0..=100.
pub open spec fn spec_signal_percent(raw: int) -> int {
    raw * 100 / 255
}

/// Mission elapsed time as whole hours, minutes and seconds.
pub open spec fn spec_elapsed_time(timestamp_ms: int) -> (int, int, int) {
    let total = timestamp_ms / 1000;
    (total / 3600, (total % 3600) / 60, total % 60)
}

/// The status labels of the set bits, in the order antenna, GPS, battery, error.
pub open spec fn spec_status_labels(flags: u8) -> Seq<Seq<char>> {
    (if flags & FLAG_ANTENNA_OK != 0 {
        seq!["ANTENNA OK"@]
    } else {
        Seq::empty()
    }) + (if flags & FLAG_GPS_LOCK != 0 {
        seq!["GPS LOCK"@]
    } else {
        Seq::empty()
    }) + (if flags & FLAG_LOW_BATTERY != 0 {
        seq!["LOW BATTERY"@]
    } else {
        Seq::empty()
    }) + (if flags & FLAG_ERROR != 0 {
        seq!["ERROR"@]
    } else {
        Seq::empty()
    })
}

/// The message of `parse` for an input of `got` bytes.
pub open spec fn length_error_message(got: nat) -> Seq<char> {
    "expected "@ + decimal(FRAME_SIZE as nat) + " bytes, got "@ + decimal(got)
}

proof fn lemma_i16_bits(x: i16, y: u16)
    ensures
        (x as u16) as i16 == x,
        (y as i16) as u16 == y,
{
    assert((x as u16) as i16 == x) by (bit_vector);
    assert((y as i16) as u16 == y) by (bit_vector);
}

proof fn lemma_frame_fields_round_trip(f: TelemetryFrame, b: Seq<u8>)
    ensures
        spec_u32_ne_bytes(f.timestamp_ms).len() == 4,
        spec_u16_ne_bytes(f.temperature_c as u16).len() == 2,
        spec_u16_ne_bytes(f.battery_mv).len() == 2,
        spec_u32_ne_bytes(f.altitude_m).len() == 4,
        spec_u16_ne_bytes(f.velocity_ms as u16).len() == 2,
        spec_u16_ne_bytes(f.checksum).len() == 2,
        spec_u32_from_ne(spec_u32_ne_bytes(f.timestamp_ms)) == f.timestamp_ms,
        spec_u16_from_ne(spec_u16_ne_bytes(f.temperature_c as u16)) == f.temperature_c as u16,
        spec_u16_from_ne(spec_u16_ne_bytes(f.battery_mv)) == f.battery_mv,
        spec_u32_from_ne(spec_u32_ne_bytes(f.altitude_m)) == f.altitude_m,
        spec_u16_from_ne(spec_u16_ne_bytes(f.velocity_ms as u16)) == f.velocity_ms as u16,
        spec_u16_from_ne(spec_u16_ne_bytes(f.checksum)) == f.checksum,
        b.len() == FRAME_SIZE ==> {
            &&& spec_u32_ne_bytes(spec_u32_from_ne(b.subrange(0, 4))) == b.subrange(0, 4)
            &&& spec_u16_ne_bytes(spec_u16_from_ne(b.subrange(4, 6))) == b.subrange(4, 6)
            &&& spec_u16_ne_bytes(spec_u16_from_ne(b.subrange(6, 8))) == b.subrange(6, 8)
            &&& spec_u32_ne_bytes(spec_u32_from_ne(b.subrange(8, 12))) == b.subrange(8, 12)
            &&& spec_u16_ne_bytes(spec_u16_from_ne(b.subrange(12, 14))) == b.subrange(12, 14)
            &&& spec_u16_ne_bytes(spec_u16_from_ne(b.subrange(16, 18))) == b.subrange(16, 18)
        },
{
    lemma_u32_round_trip(f.timestamp_ms, b.subrange(0, 4));
    lemma_u16_round_trip(f.temperature_c as u16, b.subrange(4, 6));
    lemma_u16_round_trip(f.battery_mv, b.subrange(6, 8));
    lemma_u32_round_trip(f.altitude_m, b.subrange(8, 12));
    lemma_u16_round_trip(f.velocity_ms as u16, b.subrange(12, 14));
    lemma_u16_round_trip(f.checksum, b.subrange(16, 18));
}

/// An encoded frame is `FRAME_SIZE` bytes long.
pub proof fn lemma_frame_bytes_len(f: TelemetryFrame)
    ensures
        spec_frame_body(f).len() == FRAME_SIZE - 2,
        spec_frame_bytes(f).len() == FRAME_SIZE,
        spec_frame_bytes(f).take(FRAME_SIZE - 2) == spec_frame_body(f),
{
    lemma_frame_fields_round_trip(f, Seq::empty());
    assert(spec_u32_ne_bytes(f.timestamp_ms).len() == 4);
    assert(spec_u16_ne_bytes(f.temperature_c as u16).len() == 2);
    assert(spec_u16_ne_bytes(f.battery_mv).len() == 2);
    assert(spec_u32_ne_bytes(f.altitude_m).len() == 4);
    assert(spec_u16_ne_bytes(f.velocity_ms as u16).len() == 2);
    assert(spec_u16_ne_bytes(f.checksum).len() == 2);
    assert(spec_frame_bytes(f).take(FRAME_SIZE - 2) =~= spec_frame_body(f));
}

/// Decoding the bytes of a frame gives the frame back.
pub proof fn lemma_decode_encode(f: TelemetryFrame)
    ensures
        spec_decode_frame(spec_frame_bytes(f)) == f,
{
    lemma_frame_fields_round_trip(f, Seq::empty());
    lemma_i16_bits(f.temperature_c, 0);
    lemma_i16_bits(f.velocity_ms, 0);
    let b = spec_frame_bytes(f);
    assert(b.subrange(0, 4) =~= spec_u32_ne_bytes(f.timestamp_ms));
    assert(b.subrange(4, 6) =~= spec_u16_ne_bytes(f.temperature_c as u16));
    assert(b.subrange(6, 8) =~= spec_u16_ne_bytes(f.battery_mv));
    assert(b.subrange(8, 12) =~= spec_u32_ne_bytes(f.altitude_m));
    assert(b.subrange(12, 14) =~= spec_u16_ne_bytes(f.velocity_ms as u16));
    assert(b[14] == f.signal_strength);
    assert(b[15] == f.status_flags);
    assert(b.subrange(16, 18) =~= spec_u16_ne_bytes(f.checksum));
}

/// Encoding the frame that 18 bytes decode to gives the bytes back.
pub proof fn lemma_encode_decode(b: Seq<u8>)
    requires
        b.len() == FRAME_SIZE,
    ensures
        spec_frame_bytes(spec_decode_frame(b)) == b,
{
    let f = spec_decode_frame(b);
    lemma_frame_fields_round_trip(f, b);
    lemma_i16_bits(0, spec_u16_from_ne(b.subrange(4, 6)));
    lemma_i16_bits(0, spec_u16_from_ne(b.subrange(12, 14)));
    assert(spec_u32_ne_bytes(f.timestamp_ms) == b.subrange(0, 4));
    assert(spec_u16_ne_bytes(f.temperature_c as u16) == b.subrange(4, 6));
    assert(spec_u16_ne_bytes(f.battery_mv) == b.subrange(6, 8));
    assert(spec_u32_ne_bytes(f.altitude_m) == b.subrange(8, 12));
    assert(spec_u16_ne_bytes(f.velocity_ms as u16) == b.subrange(12, 14));
    assert(spec_u16_ne_bytes(f.checksum) == b.subrange(16, 18));
    assert(spec_frame_bytes(f) =~= b);
}

/// A frame read from 18 bytes is valid exactly when the XOR of its first
/// 16 bytes equals the checksum's low byte: byte 16 on a little-endian
/// machine, byte 17 on a big-endian one; the other checksum byte never counts.
pub proof fn lemma_parsed_frame_validity(raw: Seq<u8>)
    requires
        raw.len() == FRAME_SIZE,
    ensures
        spec_is_valid(spec_decode_frame(raw)) <==> spec_xor_fold(raw.take(16)) == match endianness() {
            Endian::Little => raw[16],
            Endian::Big => raw[17],
        },
{
    let f = spec_decode_frame(raw);
    lemma_encode_decode(raw);
    lemma_frame_bytes_len(f);
    assert(spec_frame_body(f) == raw.take(16));
    let c = crate::endian::spec_native_order(raw.subrange(16, 18));
    let low = c[0];
    let high = c[1];
    assert(f.checksum == low + 256 * high);
    assert((low + 256 * high) % 256 == low) by (nonlinear_arith)
        requires
            0 <= low < 256,
            0 <= high < 256,
    ;
    assert(low == match endianness() {
        Endian::Little => raw[16],
        Endian::Big => raw[17],
    });
}

/// Between 3000 mV and 4200 mV the battery percent is the voltage above
/// 3000 mV as a share of the 1200 mV span, rounded down; every further 12 mV
/// adds one percent; at or below 3000 mV it is 0 and at or above 4200 mV it
/// is 100.
pub proof fn lemma_battery_percent_scale(mv: int)
    ensures
        3000 <= mv <= 4200 ==> spec_battery_percent(mv) * 1200 <= (mv - 3000) * 100 < (
        spec_battery_percent(mv) + 1) * 1200,
        3000 <= mv <= 4188 ==> spec_battery_percent(mv + 12) == spec_battery_percent(mv) + 1,
        mv <= 3000 ==> spec_battery_percent(mv) == 0,
        mv >= 4200 ==> spec_battery_percent(mv) == 100,
        mv > 3012 ==> spec_battery_percent(mv) > 0,
{
    let x = (mv - 3000) * 100;
    vstd::arithmetic::div_mod::lemma_fundamental_div_mod(x, 1200);
    vstd::arithmetic::div_mod::lemma_fundamental_div_mod(x + 1200, 1200);
    if mv <= 3000 {
        lemma_div_monotone(x, 0, 1200);
    }
    if mv >= 4200 {
        lemma_div_monotone(120000, x, 1200);
    }
    if mv > 3012 {
        lemma_div_monotone(1200, x, 1200);
    }
    if 3000 <= mv <= 4200 {
        lemma_div_monotone(0, x, 1200);
        lemma_div_monotone(x, 120000, 1200);
    }
    if 3000 <= mv <= 4188 {
        lemma_div_monotone(0, x, 1200);
        lemma_div_monotone(x + 1200, 120000, 1200);
        vstd::arithmetic::div_mod::lemma_div_plus_one(x, 1200);
        assert(1200 + x == x + 1200);
        assert((mv + 12 - 3000) * 100 == x + 1200);
    }
}

/// The signal percent is the raw strength as a share of 255, rounded down:
/// 0 gives 0 and 255 gives 100.
pub proof fn lemma_signal_percent_scale(raw: int)
    requires
        0 <= raw <= 255,
    ensures
        spec_signal_percent(raw) * 255 <= raw * 100 < (spec_signal_percent(raw) + 1) * 255,
        raw == 0 ==> spec_signal_percent(raw) == 0,
        raw == 255 ==> spec_signal_percent(raw) == 100,
{
    vstd::arithmetic::div_mod::lemma_fundamental_div_mod(raw * 100, 255);
    vstd::arithmetic::div_mod::lemma_mod_bound(raw * 100, 255);
}

proof fn lemma_contains_concat(a: Seq<Seq<char>>, b: Seq<Seq<char>>, x: Seq<char>)
    ensures
        (a + b).contains(x) <==> a.contains(x) || b.contains(x),
{
    if (a + b).contains(x) {
        let i = choose|i: int| 0 <= i < (a + b).len() && (a + b)[i] == x;
        if i < a.len() {
            assert(a[i] == x);
        } else {
            assert(b[i - a.len()] == x);
        }
    }
    if a.contains(x) {
        let i = choose|i: int| 0 <= i < a.len() && a[i] == x;
        assert((a + b)[i] == x);
    }
    if b.contains(x) {
        let i = choose|i: int| 0 <= i < b.len() && b[i] == x;
        assert((a + b)[a.len() + i] == x);
    }
}

proof fn lemma_contains_optional(set: bool, label: Seq<char>, x: Seq<char>)
    ensures
        (if set {
            seq![label]
        } else {
            Seq::<Seq<char>>::empty()
        }).contains(x) <==> set && x == label,
{
    if set {
        assert(seq![label][0] == label);
    }
}

/// Each status label appears exactly when its own bit is set, whatever the
/// other bits; no label appears twice, so there are as many labels as set
/// status bits.
pub proof fn lemma_status_labels_follow_bits(flags: u8)
    ensures
        spec_status_labels(flags).contains("ANTENNA OK"@) <==> flags & 0x01 != 0,
        spec_status_labels(flags).contains("GPS LOCK"@) <==> flags & 0x02 != 0,
        spec_status_labels(flags).contains("LOW BATTERY"@) <==> flags & 0x04 != 0,
        spec_status_labels(flags).contains("ERROR"@) <==> flags & 0x80 != 0,
        spec_status_labels(flags).len() == (if flags & 0x01 != 0 {
            1int
        } else {
            0
        }) + (if flags & 0x02 != 0 {
            1int
        } else {
            0
        }) + (if flags & 0x04 != 0 {
            1int
        } else {
            0
        }) + (if flags & 0x80 != 0 {
            1int
        } else {
            0
        }),
{
    reveal_strlit("ANTENNA OK");
    reveal_strlit("GPS LOCK");
    reveal_strlit("LOW BATTERY");
    reveal_strlit("ERROR");
    assert("ANTENNA OK"@.len() == 10);
    assert("GPS LOCK"@.len() == 8);
    assert("LOW BATTERY"@.len() == 11);
    assert("ERROR"@.len() == 5);
    lemma_status_labels_contains(flags, "ANTENNA OK"@);
    lemma_status_labels_contains(flags, "GPS LOCK"@);
    lemma_status_labels_contains(flags, "LOW BATTERY"@);
    lemma_status_labels_contains(flags, "ERROR"@);
}

proof fn lemma_status_labels_contains(flags: u8, x: Seq<char>)
    ensures
        spec_status_labels(flags).contains(x) <==> (flags & FLAG_ANTENNA_OK != 0 && x
            == "ANTENNA OK"@) || (flags & FLAG_GPS_LOCK != 0 && x == "GPS LOCK"@) || (flags
            & FLAG_LOW_BATTERY != 0 && x == "LOW BATTERY"@) || (flags & FLAG_ERROR != 0 && x
            == "ERROR"@),
{
    let a = if flags & FLAG_ANTENNA_OK != 0 {
        seq!["ANTENNA OK"@]
    } else {
        Seq::<Seq<char>>::empty()
    };
    let g = if flags & FLAG_GPS_LOCK != 0 {
        seq!["GPS LOCK"@]
    } else {
        Seq::<Seq<char>>::empty()
    };
    let l = if flags & FLAG_LOW_BATTERY != 0 {
        seq!["LOW BATTERY"@]
    } else {
        Seq::<Seq<char>>::empty()
    };
    let e = if flags & FLAG_ERROR != 0 {
        seq!["ERROR"@]
    } else {
        Seq::<Seq<char>>::empty()
    };
    assert(spec_status_labels(flags) == a + g + l + e);
    lemma_contains_concat(a + g + l, e, x);
    lemma_contains_concat(a + g, l, x);
    lemma_contains_concat(a, g, x);
    lemma_contains_optional(flags & FLAG_ANTENNA_OK != 0, "ANTENNA OK"@, x);
    lemma_contains_optional(flags & FLAG_GPS_LOCK != 0, "GPS LOCK"@, x);
    lemma_contains_optional(flags & FLAG_LOW_BATTERY != 0, "LOW BATTERY"@, x);
    lemma_contains_optional(flags & FLAG_ERROR != 0, "ERROR"@, x);
}

/// Where each field lies in a frame's 18 bytes: timestamp at 0..4,
/// temperature at 4..6, battery at 6..8, altitude at 8..12, velocity at
/// 12..14, signal strength at 14, status bits at 15, checksum at 16..18.
pub proof fn lemma_frame_layout(f: TelemetryFrame)
    ensures
        spec_frame_bytes(f).subrange(0, 4) == spec_u32_ne_bytes(f.timestamp_ms),
        spec_frame_bytes(f).subrange(4, 6) == spec_u16_ne_bytes(f.temperature_c as u16),
        spec_frame_bytes(f).subrange(6, 8) == spec_u16_ne_bytes(f.battery_mv),
        spec_frame_bytes(f).subrange(8, 12) == spec_u32_ne_bytes(f.altitude_m),
        spec_frame_bytes(f).subrange(12, 14) == spec_u16_ne_bytes(f.velocity_ms as u16),
        spec_frame_bytes(f)[14] == f.signal_strength,
        spec_frame_bytes(f)[15] == f.status_flags,
        spec_frame_bytes(f).subrange(16, 18) == spec_u16_ne_bytes(f.checksum),
{
    lemma_frame_fields_round_trip(f, Seq::empty());
    let b = spec_frame_bytes(f);
    assert(b.subrange(0, 4) =~= spec_u32_ne_bytes(f.timestamp_ms));
    assert(b.subrange(4, 6) =~= spec_u16_ne_bytes(f.temperature_c as u16));
    assert(b.subrange(6, 8) =~= spec_u16_ne_bytes(f.battery_mv));
    assert(b.subrange(8, 12) =~= spec_u32_ne_bytes(f.altitude_m));
    assert(b.subrange(12, 14) =~= spec_u16_ne_bytes(f.velocity_ms as u16));
    assert(b.subrange(16, 18) =~= spec_u16_ne_bytes(f.checksum));
}

/// The checksum XOR: a byte XORed in twice cancels out, and a single byte
/// is its own XOR.
pub proof fn lemma_xor_fold_cancels(s: Seq<u8>, x: u8)
    ensures
        spec_xor_fold(s.push(x).push(x)) == spec_xor_fold(s),
        spec_xor_fold(seq![x]) == x,
{
    assert(s.push(x).push(x).drop_last() =~= s.push(x));
    assert(s.push(x).drop_last() =~= s);
    let a = spec_xor_fold(s);
    assert(spec_xor_fold(s.push(x)) == a ^ x);
    assert(spec_xor_fold(s.push(x).push(x)) == (a ^ x) ^ x);
    assert((a ^ x) ^ x == a) by (bit_vector);
    assert(seq![x].drop_last() =~= Seq::<u8>::empty());
    assert(spec_xor_fold(seq![x]) == spec_xor_fold(Seq::<u8>::empty()) ^ x);
    assert(0u8 ^ x == x) by (bit_vector);
}

/// The status labels come in the order antenna, GPS, battery, error: each
/// set bit's label stands after the labels of the set bits before it.
pub proof fn lemma_status_labels_order(flags: u8)
    ensures
        ({
            let labels = spec_status_labels(flags);
            let a: int = if flags & 0x01 != 0 {
                1
            } else {
                0
            };
            let g: int = if flags & 0x02 != 0 {
                1
            } else {
                0
            };
            let l: int = if flags & 0x04 != 0 {
                1
            } else {
                0
            };
            &&& flags & 0x01 != 0 ==> labels[0] == "ANTENNA OK"@
            &&& flags & 0x02 != 0 ==> labels[a] == "GPS LOCK"@
            &&& flags & 0x04 != 0 ==> labels[a + g] == "LOW BATTERY"@
            &&& flags & 0x80 != 0 ==> labels[a + g + l] == "ERROR"@
        }),
{
}

/// Battery percent stays within 0..=100 and never drops when the voltage rises.
pub proof fn lemma_battery_percent_bounded_monotone(mv1: int, mv2: int)
    ensures
        0 <= spec_battery_percent(mv1) <= 100,
        mv1 <= mv2 ==> spec_battery_percent(mv1) <= spec_battery_percent(mv2),
{
    if mv1 <= mv2 {
        lemma_div_monotone((mv1 - 3000) * 100, (mv2 - 3000) * 100, 1200);
    }
}

/// Signal percent stays within 0..=100 for raw values 0..=255 and never
/// drops when the raw strength rises.
pub proof fn lemma_signal_percent_bounded_monotone(raw1: int, raw2: int)
    requires
        0 <= raw1 <= 255,
        0 <= raw2 <= 255,
    ensures
        0 <= spec_signal_percent(raw1) <= 100,
        raw1 <= raw2 ==> spec_signal_percent(raw1) <= spec_signal_percent(raw2),
{
    lemma_div_monotone(raw1 * 100, 25500, 255);
    lemma_div_monotone(0, raw1 * 100, 255);
    if raw1 <= raw2 {
        lemma_div_monotone(raw1 * 100, raw2 * 100, 255);
    }
}

proof fn lemma_div_monotone(a: int, b: int, d: int)
    requires
        a <= b,
        d > 0,
    ensures
        a / d <= b / d,
{
    vstd::arithmetic::div_mod::lemma_div_is_ordered(a, b, d);
}

/// Hours, minutes and seconds add back up to the whole seconds elapsed,
/// with minutes and seconds below 60.
pub proof fn lemma_elapsed_time_decomposes(timestamp_ms: int)
    requires
        timestamp_ms >= 0,
    ensures
        ({
            let (h, m, s) = spec_elapsed_time(timestamp_ms);
            &&& h * 3600 + m * 60 + s == timestamp_ms / 1000
            &&& 0 <= m < 60
            &&& 0 <= s < 60
            &&& h >= 0
        }),
{
    let t = timestamp_ms / 1000;
    let r = t % 3600;
    assert(t == (t / 3600) * 3600 + r) by {
        vstd::arithmetic::div_mod::lemma_fundamental_div_mod(t, 3600);
    }
    assert(r == (r / 60) * 60 + r % 60) by {
        vstd::arithmetic::div_mod::lemma_fundamental_div_mod(r, 60);
    }
    assert(t % 60 == r % 60) by {
        let q = t / 3600;
        assert(t == 60 * (60 * q) + r);
        vstd::arithmetic::div_mod::lemma_mod_multiples_vanish(60 * q, r, 60);
    }
}

/// Whatever a frame holds, setting its checksum to one whose low byte is the
/// XOR of the frame's first 16 bytes makes it valid.
pub proof fn lemma_checksum_seals(f: TelemetryFrame, checksum: u16)
    requires
        checksum % 256 == spec_xor_fold(spec_frame_body(f)),
    ensures
        spec_is_valid(TelemetryFrame { checksum, ..f }),
{
}

/// Appends the two bytes of `v` in the machine's byte order.
fn push_u16(out: &mut Vec<u8>, v: u16)
    ensures
        final(out)@ == old(out)@ + spec_u16_ne_bytes(v),
{
    let (b0, b1) = u16_to_ne(v);
    out.push(b0);
    out.push(b1);
    assert(final(out)@ =~= old(out)@ + seq![b0, b1]);
}

/// Appends the four bytes of `v` in the machine's byte order.
fn push_u32(out: &mut Vec<u8>, v: u32)
    ensures
        final(out)@ == old(out)@ + spec_u32_ne_bytes(v),
{
    let (b0, b1, b2, b3) = u32_to_ne(v);
    out.push(b0);
    out.push(b1);
    out.push(b2);
    out.push(b3);
    assert(final(out)@ =~= old(out)@ + seq![b0, b1, b2, b3]);
}

impl TelemetryFrame {
    /// The 18 bytes of this frame in its wire layout.
    pub fn to_bytes(&self) -> (r: Vec<u8>)
        ensures
            r@ == spec_frame_bytes(*self),
    {
        let mut out: Vec<u8> = Vec::new();
        push_u32(&mut out, self.timestamp_ms);
        push_u16(&mut out, self.temperature_c as u16);
        push_u16(&mut out, self.battery_mv);
        push_u32(&mut out, self.altitude_m);
        push_u16(&mut out, self.velocity_ms as u16);
        out.push(self.signal_strength);
        out.push(self.status_flags);
        push_u16(&mut out, self.checksum);
        assert(out@ =~= spec_frame_bytes(*self));
        out
    }

    /// Battery charge in percent (4200 mV is 100 %, 3000 mV is 0 %).
    pub fn battery_percent(&self) -> (r: u8)
        ensures
            r as int == spec_battery_percent(self.battery_mv as int),
    {
        let mv = self.battery_mv as u32;
        if mv <= 3000 {
            0
        } else {
            let pct = (mv - 3000) * 100 / 1200;
            if pct > 100 {
                100
            } else {
                pct as u8
            }
        }
    }

    /// Signal strength in percent (raw 0..=255 scaled to 0..=100).
    pub fn signal_percent(&self) -> (r: u8)
        ensures
            r as int == spec_signal_percent(self.signal_strength as int),
    {
        ((self.signal_strength as u16 * 100) / 255) as u8
    }

    /// Mission elapsed time as (hours, minutes, seconds).
    pub fn elapsed_time(&self) -> (r: (u32, u32, u32))
        ensures
            (r.0 as int, r.1 as int, r.2 as int) == spec_elapsed_time(self.timestamp_ms as int),
    {
        let total_secs = self.timestamp_ms / 1000;
        let h = total_secs / 3600;
        let m = (total_secs % 3600) / 60;
        let s = total_secs % 60;
        (h, m, s)
    }

    /// Whether the checksum matches the frame's bytes (detects corrupted frames).
    pub fn is_valid(&self) -> (r: bool)
        ensures
            r == spec_is_valid(*self),
    {
        let bytes = self.to_bytes();
        proof {
            lemma_frame_bytes_len(*self);
        }
        let mut acc: u8 = 0;
        let mut i: usize = 0;
        while i < FRAME_SIZE - 2
            invariant
                bytes@ == spec_frame_bytes(*self),
                bytes@.len() == FRAME_SIZE,
                i <= FRAME_SIZE - 2,
                acc == spec_xor_fold(bytes@.take(i as int)),
            decreases FRAME_SIZE - 2 - i,
        {
            assert(bytes@.take(i + 1).drop_last() =~= bytes@.take(i as int));
            acc = acc ^ bytes[i];
            i = i + 1;
        }
        assert(bytes@.take(16) == spec_frame_body(*self));
        let checksum = self.checksum;
        assert((checksum & 0xff) == checksum % 256) by (bit_vector);
        acc == (checksum & 0xff) as u8
    }

    /// The labels of the status bits that are set.
    pub fn status_summary(&self) -> (r: Vec<&'static str>)
        ensures
            r@.map_values(|s: &'static str| s@) == spec_status_labels(self.status_flags),
    {
        let mut statuses: Vec<&'static str> = Vec::new();
        if self.status_flags & FLAG_ANTENNA_OK != 0 {
            statuses.push("ANTENNA OK");
        }
        if self.status_flags & FLAG_GPS_LOCK != 0 {
            statuses.push("GPS LOCK");
        }
        if self.status_flags & FLAG_LOW_BATTERY != 0 {
            statuses.push("LOW BATTERY");
        }
        if self.status_flags & FLAG_ERROR != 0 {
            statuses.push("ERROR");
        }
        assert(statuses@.map_values(|s: &'static str| s@) =~= spec_status_labels(
            self.status_flags,
        ));
        statuses
    }
}

/// Decodes a frame from its wire bytes; fails unless there are exactly
/// `FRAME_SIZE` of them.
pub fn parse(raw: &[u8]) -> (r: Result<TelemetryFrame, String>)
    ensures
        raw@.len() == FRAME_SIZE ==> r == Ok::<TelemetryFrame, String>(spec_decode_frame(raw@)),
        raw@.len() != FRAME_SIZE ==> r is Err && r->Err_0@ == length_error_message(
            raw@.len(),
        ),
{
    if raw.len() != FRAME_SIZE {
        proof {
            reveal_strlit("expected ");
            reveal_strlit(" bytes, got ");
        }
        let mut msg = String::from_str("expected ");
        push_decimal(&mut msg, FRAME_SIZE as u64);
        msg.append(" bytes, got ");
        push_decimal(&mut msg, raw.len() as u64);
        return Err(msg);
    }
    let timestamp_ms = u32_from_ne(raw[0], raw[1], raw[2], raw[3]);
    let temperature = u16_from_ne(raw[4], raw[5]);
    let battery_mv = u16_from_ne(raw[6], raw[7]);
    let altitude_m = u32_from_ne(raw[8], raw[9], raw[10], raw[11]);
    let velocity = u16_from_ne(raw[12], raw[13]);
    let checksum = u16_from_ne(raw[16], raw[17]);
    assert(raw@.subrange(0, 4) =~= seq![raw@[0], raw@[1], raw@[2], raw@[3]]);
    assert(raw@.subrange(4, 6) =~= seq![raw@[4], raw@[5]]);
    assert(raw@.subrange(6, 8) =~= seq![raw@[6], raw@[7]]);
    assert(raw@.subrange(8, 12) =~= seq![raw@[8], raw@[9], raw@[10], raw@[11]]);
    assert(raw@.subrange(12, 14) =~= seq![raw@[12], raw@[13]]);
    assert(raw@.subrange(16, 18) =~= seq![raw@[16], raw@[17]]);
    Ok(
        TelemetryFrame {
            timestamp_ms,
            temperature_c: temperature as i16,
            battery_mv,
            altitude_m,
            velocity_ms: velocity as i16,
            signal_strength: raw[14],
            status_flags: raw[15],
            checksum,
        },
    )
}

} // verus!
