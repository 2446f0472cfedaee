//! Progress translation: turning the transcode engine's reported output
//! timestamps into a speed-corrected, bounded completion percentage.
//!
//! The engine reports how far it has come on the *compressed* (sped-up)
//! output timeline, so a reported microsecond count must be multiplied by
//! the speed multiplier to recover the position on the source timeline
//! before it is divided by the source duration.  Percentages are carried
//! as hundredths of a percent, and are clamped to 99.00% while the engine
//! still runs: 100% is reserved for a confirmed successful exit.

use vstd::prelude::*;
use crate::strnum::{all_digits, dec_val, parse_u64};
use crate::text::{has_prefix, starts_with};

verus! {

/// Hundredths of a percent standing for 99%, the cap while the engine runs.
pub const RUNNING_PERCENT_CAP: u64 = 9900;

/// The completion percentage, in hundredths of a percent, that a reported
/// output position `out_time_us` stands for, given the batch's speed
/// multiplier and the source duration in microseconds.
pub open spec fn spec_progress_hundredths(
    out_time_us: u64,
    speed_multiplier: u32,
    duration_us: u64,
) -> int
    recommends
        duration_us > 0,
{
    let raw = ((out_time_us as int) * (speed_multiplier as int) * 10000) / (duration_us as int);
    if raw > 9900 {
        9900int
    } else {
        raw
    }
}

/// Translates one reported output position into a completion percentage in
/// hundredths of a percent: the position is scaled back to the source
/// timeline, divided by the source duration, and clamped to 99.00%.
pub fn progress_percent_hundredths(out_time_us: u64, speed_multiplier: u32, duration_us: u64) -> (r:
    u64)
    requires
        duration_us > 0,
    ensures
        r == spec_progress_hundredths(out_time_us, speed_multiplier, duration_us),
        r <= RUNNING_PERCENT_CAP,
{
    proof {
        assert((out_time_us as int) * (speed_multiplier as int) * 10000 < 0x1_0000_0000_0000_0000_0000_0000_0000_0000)
            by (nonlinear_arith)
            requires
                out_time_us <= u64::MAX,
                speed_multiplier <= u32::MAX,
        ;
    }
    let scaled: u128 = (out_time_us as u128) * (speed_multiplier as u128) * 10000;
    let q: u128 = scaled / (duration_us as u128);
    if q > 9900 {
        9900
    } else {
        q as u64
    }
}

/// What one line of the engine's progress stream stands for: a line of
/// the form `out_time_us=<integer microseconds>` carries a percentage;
/// any other line carries nothing.
pub open spec fn spec_translate_line(line: Seq<char>, speed_multiplier: u32, duration_us: u64) -> Option<int>
    recommends
        duration_us > 0,
{
    let p = "out_time_us="@;
    let rest = line.subrange(p.len() as int, line.len() as int);
    if has_prefix(line, p) && rest.len() > 0 && all_digits(rest) && dec_val(rest) <= u64::MAX {
        Some(
            spec_progress_hundredths(dec_val(rest) as u64, speed_multiplier, duration_us),
        )
    } else {
        None
    }
}

/// Reads one line of the engine's progress stream: a well-formed
/// `out_time_us=` line yields the speed-corrected percentage it stands
/// for, in hundredths of a percent; every other line yields nothing.
pub fn translate_progress_line(line: &str, speed_multiplier: u32, duration_us: u64) -> (r: Option<
    u64,
>)
    requires
        duration_us > 0,
    ensures
        r is Some <==> spec_translate_line(line@, speed_multiplier, duration_us) is Some,
        r is Some ==> r->0 == spec_translate_line(line@, speed_multiplier, duration_us)->0
            && r->0 <= RUNNING_PERCENT_CAP,
{
    if !starts_with(line, "out_time_us=") {
        return None;
    }
    let p_len = "out_time_us=".unicode_len();
    let n = line.unicode_len();
    let rest = line.substring_char(p_len, n);
    proof {
        assert(rest@ =~= line@.subrange("out_time_us="@.len() as int, line@.len() as int));
    }
    match parse_u64(rest) {
        Some(out_time_us) => Some(
            progress_percent_hundredths(out_time_us, speed_multiplier, duration_us),
        ),
        None => None,
    }
}

/// The translated percentage never moves backwards as the engine's reported
/// position grows, and never exceeds the running cap of 99.00%.
pub proof fn lemma_progress_monotone_bounded(
    out_a: u64,
    out_b: u64,
    speed_multiplier: u32,
    duration_us: u64,
)
    requires
        out_a <= out_b,
        duration_us > 0,
    ensures
        spec_progress_hundredths(out_a, speed_multiplier, duration_us)
            <= spec_progress_hundredths(out_b, speed_multiplier, duration_us),
        spec_progress_hundredths(out_b, speed_multiplier, duration_us) <= 9900,
{
    assert((out_a as int) * (speed_multiplier as int) * 10000 <= (out_b as int)
        * (speed_multiplier as int) * 10000) by (nonlinear_arith)
        requires
            out_a <= out_b,
            speed_multiplier >= 0,
    ;
    let sa = (out_a as int) * (speed_multiplier as int) * 10000;
    let sb = (out_b as int) * (speed_multiplier as int) * 10000;
    assert(sa / (duration_us as int) <= sb / (duration_us as int)) by (nonlinear_arith)
        requires
            0 <= sa <= sb,
            duration_us > 0,
    ;
}

} // verus!
