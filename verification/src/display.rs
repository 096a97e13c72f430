//! What the dashboard shows, apart from drawing it: the palette tone of
//! each gauge, status flag and log line, and the texts of the gauges and
//! the telemetry panel.
use vstd::prelude::*;
use vstd::string::*;

use crate::text::{binary, decimal, push_binary, push_decimal};

verus! {

/// The palette tones the dashboard uses to signal a state.
#[derive(Debug, Clone, Copy, PartialEq, Eq, Structural)]
pub enum Tone {
    Text,
    Green,
    Peach,
    Red,
    Teal,
    Yellow,
    Maroon,
    Overlay2,
    Overlay1,
    Surface2,
}

/// How a status label is marked on the dashboard.
#[derive(Debug, Clone, Copy, PartialEq, Eq, Structural)]
pub enum FlagKind {
    /// The label names an error.
    Error,
    /// The label concerns the battery.
    Battery,
    /// Any other label: a healthy subsystem.
    Nominal,
}

/// The tone of the battery gauge: green above 75 %, peach above 25 %, red below.
pub open spec fn spec_battery_tone(pct: int) -> Tone {
    if 76 <= pct <= 100 {
        Tone::Green
    } else if 26 <= pct <= 75 {
        Tone::Peach
    } else {
        Tone::Red
    }
}

/// The tone of the signal gauge: teal above 60 %, yellow above 30 %, maroon below.
pub open spec fn spec_signal_tone(pct: int) -> Tone {
    if 61 <= pct <= 100 {
        Tone::Teal
    } else if 31 <= pct <= 60 {
        Tone::Yellow
    } else {
        Tone::Maroon
    }
}

/// The tone of the log line at `index`: the newest line (0) in the full
/// text tone, older lines fading through the overlay ramp.
pub open spec fn spec_log_tone(index: int) -> Tone {
    if index == 0 {
        Tone::Text
    } else if index == 1 {
        Tone::Overlay2
    } else if index == 2 {
        Tone::Overlay1
    } else {
        Tone::Surface2
    }
}

/// Only the newest log line has the full text tone; the second and third
/// newest each have a tone of their own; every older line has the same,
/// faintest tone.
pub proof fn lemma_log_tone_fades(index: int)
    requires
        index >= 0,
    ensures
        spec_log_tone(index) == Tone::Text <==> index == 0,
        index >= 3 ==> spec_log_tone(index) == Tone::Surface2,
        index < 3 ==> spec_log_tone(index) != Tone::Surface2,
        0 < index < 3 ==> spec_log_tone(index) != spec_log_tone(index + 1),
{
}

/// The battery gauge is green from 76 % up to 100 %, peach from 26 % to
/// 75 %, red below; draining never brightens it.
pub proof fn lemma_battery_tone_bands(pct: int, lower: int)
    requires
        0 <= lower <= pct <= 100,
    ensures
        spec_battery_tone(pct) == Tone::Green <==> pct >= 76,
        spec_battery_tone(pct) == Tone::Red <==> pct <= 25,
        spec_battery_tone(lower) == Tone::Green ==> spec_battery_tone(pct) == Tone::Green,
        spec_battery_tone(pct) == Tone::Red ==> spec_battery_tone(lower) == Tone::Red,
{
}

/// The signal gauge is teal from 61 % up to 100 %, yellow from 31 % to
/// 60 %, maroon below; a weaker signal never brightens it.
pub proof fn lemma_signal_tone_bands(pct: int, lower: int)
    requires
        0 <= lower <= pct <= 100,
    ensures
        spec_signal_tone(pct) == Tone::Teal <==> pct >= 61,
        spec_signal_tone(pct) == Tone::Maroon <==> pct <= 30,
        spec_signal_tone(lower) == Tone::Teal ==> spec_signal_tone(pct) == Tone::Teal,
        spec_signal_tone(pct) == Tone::Maroon ==> spec_signal_tone(lower) == Tone::Maroon,
{
}

/// A text that holds `pat` between any two pieces contains it, and a text
/// shorter than `pat` never does.
pub proof fn lemma_contains_occurrence(before: Seq<char>, pat: Seq<char>, after: Seq<char>)
    ensures
        spec_contains(before + pat + after, pat),
        before.len() < pat.len() ==> !spec_contains(before, pat),
{
    let s = before + pat + after;
    assert(s.subrange(before.len() as int, before.len() + pat.len() as int) =~= pat);
    assert(occurs_at(s, pat, before.len() as int));
}

/// Any label holding `ERROR` is marked as an error; a label holding
/// `BATTERY` but not `ERROR` is marked as a battery label.
pub proof fn lemma_flag_kind_marks(before: Seq<char>, after: Seq<char>)
    ensures
        spec_flag_kind(before + "ERROR"@ + after) == FlagKind::Error,
        !spec_contains(before + "BATTERY"@ + after, "ERROR"@) ==> spec_flag_kind(
            before + "BATTERY"@ + after,
        ) == FlagKind::Battery,
{
    lemma_contains_occurrence(before, "ERROR"@, after);
    lemma_contains_occurrence(before, "BATTERY"@, after);
}

/// Whether `pat` occurs in `s` starting at position `i`.
pub open spec fn occurs_at(s: Seq<char>, pat: Seq<char>, i: int) -> bool {
    0 <= i && i + pat.len() <= s.len() && s.subrange(i, i + pat.len()) == pat
}

/// Whether `pat` occurs anywhere in `s`.
pub open spec fn spec_contains(s: Seq<char>, pat: Seq<char>) -> bool {
    exists|i: int| #[trigger] occurs_at(s, pat, i)
}

/// The mark of a status label: errors first, then battery labels.
pub open spec fn spec_flag_kind(label: Seq<char>) -> FlagKind {
    if spec_contains(label, "ERROR"@) {
        FlagKind::Error
    } else if spec_contains(label, "BATTERY"@) {
        FlagKind::Battery
    } else {
        FlagKind::Nominal
    }
}

/// The tone of the battery gauge for a charge of `pct` percent.
pub fn battery_tone(pct: u16) -> (r: Tone)
    ensures
        r == spec_battery_tone(pct as int),
{
    if 76 <= pct && pct <= 100 {
        Tone::Green
    } else if 26 <= pct && pct <= 75 {
        Tone::Peach
    } else {
        Tone::Red
    }
}

/// The tone of the signal gauge for a strength of `pct` percent.
pub fn signal_tone(pct: u16) -> (r: Tone)
    ensures
        r == spec_signal_tone(pct as int),
{
    if 61 <= pct && pct <= 100 {
        Tone::Teal
    } else if 31 <= pct && pct <= 60 {
        Tone::Yellow
    } else {
        Tone::Maroon
    }
}

/// The tone of the log line at `index`, 0 being the newest: the newest in
/// the full text tone, older ones fading.
pub fn log_tone(index: usize) -> (r: Tone)
    ensures
        r == spec_log_tone(index as int),
{
    if index == 0 {
        Tone::Text
    } else if index == 1 {
        Tone::Overlay2
    } else if index == 2 {
        Tone::Overlay1
    } else {
        Tone::Surface2
    }
}

/// The tone of the checksum row: green when the frame is valid, red otherwise.
pub fn checksum_tone(valid: bool) -> (r: Tone)
    ensures
        r == (if valid {
            Tone::Green
        } else {
            Tone::Red
        }),
{
    if valid {
        Tone::Green
    } else {
        Tone::Red
    }
}

/// Whether `needle` occurs in `hay`.
pub fn contains_text(hay: &str, needle: &str) -> (r: bool)
    ensures
        r == spec_contains(hay@, needle@),
{
    let n = hay.unicode_len();
    let m = needle.unicode_len();
    if m > n {
        assert forall|i: int| !#[trigger] occurs_at(hay@, needle@, i) by {}
        return false;
    }
    let mut i: usize = 0;
    while i <= n - m
        invariant
            n == hay@.len(),
            m == needle@.len(),
            m <= n,
            i <= n - m + 1,
            forall|j: int| 0 <= j < i ==> !#[trigger] occurs_at(hay@, needle@, j),
        decreases n - i,
    {
        let mut k: usize = 0;
        let mut same = true;
        while k < m
            invariant
                n == hay@.len(),
                m == needle@.len(),
                i + m <= n,
                k <= m,
                same == (forall|t: int| 0 <= t < k ==> hay@[i + t] == needle@[t]),
            decreases m - k,
        {
            let a = hay.get_char(i + k);
            let b = needle.get_char(k);
            same = same && a == b;
            k = k + 1;
        }
        if same {
            assert(hay@.subrange(i as int, i + m) =~= needle@);
            assert(occurs_at(hay@, needle@, i as int));
            return true;
        }
        assert(!occurs_at(hay@, needle@, i as int)) by {
            if hay@.subrange(i as int, i + m) == needle@ {
                assert forall|t: int| 0 <= t < m implies hay@[i + t] == needle@[t] by {
                    assert(hay@.subrange(i as int, i + m)[t] == hay@[i + t]);
                }
            }
        }
        i = i + 1;
    }
    assert forall|j: int| !#[trigger] occurs_at(hay@, needle@, j) by {
        if 0 <= j && j + m <= n {
            assert(j < i);
        }
    }
    false
}

/// How the status label `label` is marked.
pub fn flag_kind(label: &str) -> (r: FlagKind)
    ensures
        r == spec_flag_kind(label@),
{
    if contains_text(label, "ERROR") {
        FlagKind::Error
    } else if contains_text(label, "BATTERY") {
        FlagKind::Battery
    } else {
        FlagKind::Nominal
    }
}

/// The label of the signal gauge: percent and raw strength.
pub fn signal_label(pct: u8, rssi: u8) -> (r: String)
    ensures
        r@ == decimal(pct as nat) + "%  RSSI:"@ + decimal(rssi as nat),
{
    let mut label = String::new();
    push_decimal(&mut label, pct as u64);
    label.append("%  RSSI:");
    push_decimal(&mut label, rssi as u64);
    assert(label@ =~= decimal(pct as nat) + "%  RSSI:"@ + decimal(rssi as nat));
    label
}

/// The altitude row of the telemetry panel.
pub fn altitude_text(altitude_m: u32) -> (r: String)
    ensures
        r@ == decimal(altitude_m as nat) + " m"@,
{
    let mut text = String::new();
    push_decimal(&mut text, altitude_m as u64);
    text.append(" m");
    assert(text@ =~= decimal(altitude_m as nat) + " m"@);
    text
}

/// The status bits row of the telemetry panel: `0b` and eight binary digits.
pub fn flags_text(flags: u8) -> (r: String)
    ensures
        r@ == "0b"@ + binary(flags as nat, 8),
{
    let mut text = String::from_str("0b");
    push_binary(&mut text, flags as u64, 8);
    text
}

} // verus!
