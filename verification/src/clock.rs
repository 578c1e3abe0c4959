//! Conversion between time of day and the five base-16 digits.
//!
//! One calendar day is split into `16^5 = 1_048_576` equal ticks. A time of
//! day maps to the tick count of the moment's fraction of the day, and the
//! five digits are the five hex digits of that 20-bit tick count. The inverse
//! reconstructs the tick count, turns it back into milliseconds since
//! midnight (`ms = ticks * 86_400_000 / 16^5`), and reads whole seconds and
//! the leftover nanoseconds off that value.

use chrono::Timelike;
use vstd::arithmetic::div_mod::{
    lemma_basic_div, lemma_div_denominator, lemma_div_is_ordered, lemma_div_multiples_vanish,
    lemma_div_pos_is_pos, lemma_fundamental_div_mod, lemma_fundamental_div_mod_converse,
    lemma_mod_multiples_vanish, lemma_small_mod,
};
use vstd::prelude::*;

use crate::LightningTime;

verus! {

/// Nanoseconds in one calendar day.
pub const NANOS_PER_DAY: u64 = 86_400_000_000_000;

/// Ticks in one calendar day: `16^5`.
pub const TICKS_PER_DAY: u64 = 1_048_576;

/// A time of day: hours `0..24`, minutes and seconds `0..60`, and the
/// nanoseconds within the second.
#[derive(Clone, Copy, Debug, PartialEq, Eq, Structural)]
pub struct TimeOfDay {
    pub hour: u8,
    pub minute: u8,
    pub second: u8,
    pub nanosecond: u32,
}

impl TimeOfDay {
    /// Well-formed: every component within its daily range.
    pub open spec fn wf(self) -> bool {
        self.hour < 24 && self.minute < 60 && self.second < 60 && self.nanosecond
            < 1_000_000_000
    }
}

/// Nanoseconds since midnight of a time-of-day value.
pub open spec fn spec_total_nanos(hour: int, minute: int, second: int, nanosecond: int) -> int {
    hour * 3_600_000_000_000 + minute * 60_000_000_000 + second * 1_000_000_000 + nanosecond
}

/// Whole ticks elapsed since midnight: the fraction of the day scaled by
/// `16^5`, rounded down.
pub open spec fn spec_ticks_of_nanos(nanos: int) -> int {
    nanos * (TICKS_PER_DAY as int) / (NANOS_PER_DAY as int)
}

/// The five hex digits of a tick count, most significant first.
pub open spec fn spec_digits_of_ticks(ticks: int) -> LightningTime {
    LightningTime {
        bolts: ((ticks / 65536) % 16) as u8,
        zaps: ((ticks / 4096) % 16) as u8,
        sparks: ((ticks / 256) % 16) as u8,
        charges: ((ticks / 16) % 16) as u8,
        subcharges: (ticks % 16) as u8,
    }
}

/// What `from_time_of_day` returns: the digits of the elapsed tick count.
pub open spec fn spec_from_time_of_day(
    hour: int,
    minute: int,
    second: int,
    nanosecond: int,
) -> LightningTime {
    spec_digits_of_ticks(spec_ticks_of_nanos(spec_total_nanos(hour, minute, second, nanosecond)))
}

/// The 20-bit tick count a digit value encodes.
pub open spec fn spec_ticks_of_digits(t: LightningTime) -> int {
    (((t.bolts * 16 + t.zaps) * 16 + t.sparks) * 16 + t.charges) * 16 + t.subcharges
}

/// Nanoseconds since midnight of a tick count, rounded down: `ticks` times
/// the real tick length `NANOS_PER_DAY / 16^5`.
pub open spec fn spec_nanos_of_ticks(ticks: int) -> int {
    ticks * (NANOS_PER_DAY as int) / (TICKS_PER_DAY as int)
}

/// Whole seconds since midnight of a tick count: the floor of
/// `ms / 1000` where `ms = ticks * 86_400_000 / 16^5`.
pub open spec fn spec_second_of_day(ticks: int) -> int {
    ticks * 86_400 / (TICKS_PER_DAY as int)
}

/// What `to_time_of_day` returns. The nanosecond component is the leftover
/// `ms mod 1000` scaled by `10^6` and rounded down, which equals the whole
/// elapsed nanoseconds minus the whole seconds.
pub open spec fn spec_to_time_of_day(t: LightningTime) -> TimeOfDay {
    let secs = spec_second_of_day(spec_ticks_of_digits(t));
    let nanos = spec_nanos_of_ticks(spec_ticks_of_digits(t));
    TimeOfDay {
        hour: (secs / 3600) as u8,
        minute: ((secs / 60) % 60) as u8,
        second: (secs % 60) as u8,
        nanosecond: (nanos - secs * 1_000_000_000) as u32,
    }
}

impl LightningTime {
    /// Maps a time of day to its five digits. Total: any valid time of day,
    /// leap-second representations (nanosecond up to `2 * 10^9`) included,
    /// yields digits in nibble range.
    pub fn from_time_of_day(hour: u8, minute: u8, second: u8, nanosecond: u32) -> (r: Self)
        requires
            hour < 24,
            minute < 60,
            second < 60,
            nanosecond < 2_000_000_000,
        ensures
            r == spec_from_time_of_day(hour as int, minute as int, second as int, nanosecond as int),
            r.wf(),
    {
        let nanos: u64 = hour as u64 * 3_600_000_000_000 + minute as u64 * 60_000_000_000
            + second as u64 * 1_000_000_000 + nanosecond as u64;
        proof {
            lemma_div_is_ordered(
                nanos as int * TICKS_PER_DAY as int,
                86_402_000_000_000 * TICKS_PER_DAY as int,
                NANOS_PER_DAY as int,
            );
        }
        let ticks: u64 = ((nanos as u128 * TICKS_PER_DAY as u128) / NANOS_PER_DAY as u128) as u64;
        LightningTime {
            bolts: ((ticks / 65536) % 16) as u8,
            zaps: ((ticks / 4096) % 16) as u8,
            sparks: ((ticks / 256) % 16) as u8,
            charges: ((ticks / 16) % 16) as u8,
            subcharges: (ticks % 16) as u8,
        }
    }

    /// Maps the digits back to a time of day: whole seconds and leftover
    /// nanoseconds of `ticks * 86_400_000 / 16^5` milliseconds.
    pub fn to_time_of_day(&self) -> (r: TimeOfDay)
        requires
            self.wf(),
        ensures
            r == spec_to_time_of_day(*self),
            r.wf(),
    {
        let ticks: u64 = (((self.bolts as u64 * 16 + self.zaps as u64) * 16 + self.sparks as u64)
            * 16 + self.charges as u64) * 16 + self.subcharges as u64;
        proof {
            lemma_div_is_ordered(
                ticks as int * (NANOS_PER_DAY as int),
                1_048_575 * (NANOS_PER_DAY as int),
                TICKS_PER_DAY as int,
            );
        }
        let nanos: u64 = ((ticks as u128 * NANOS_PER_DAY as u128) / TICKS_PER_DAY as u128) as u64;
        let secs: u64 = ticks * 86_400 / TICKS_PER_DAY;
        proof {
            lemma_div_is_ordered(ticks as int * 86_400, (1_048_575 * 86_400) as int, TICKS_PER_DAY as int);
            lemma_seconds_of_ticks_divides(ticks as int);
            lemma_fundamental_div_mod(nanos as int, 1_000_000_000);
            lemma_div_is_ordered(secs as int, 86_399, 3600);
        }
        let leftover: u64 = nanos - secs * 1_000_000_000;
        TimeOfDay {
            hour: (secs / 3600) as u8,
            minute: ((secs / 60) % 60) as u8,
            second: (secs % 60) as u8,
            nanosecond: leftover as u32,
        }
    }
}

/// Relies on chrono: `Local::now().naive_local().time()` is a valid time of
/// day, with hour `0..24`, minute and second `0..60`, and nanosecond below
/// `2 * 10^9` (`10^9` and above encode a leap second).
#[verifier::external_body]
fn local_time_of_day() -> (r: (u8, u8, u8, u32))
    ensures
        r.0 < 24,
        r.1 < 60,
        r.2 < 60,
        r.3 < 2_000_000_000,
{
    let t = chrono::offset::Local::now().naive_local().time();
    (t.hour() as u8, t.minute() as u8, t.second() as u8, t.nanosecond())
}

impl LightningTime {
    /// The digits of the current local time of day: whatever moment the clock
    /// returned, the result is that moment's digit image, so its digits are
    /// nibbles.
    pub fn now() -> (r: Self)
        ensures
            r.wf(),
            exists|hour: int, minute: int, second: int, nanosecond: int|
                0 <= hour < 24 && 0 <= minute < 60 && 0 <= second < 60 && 0 <= nanosecond
                    < 2_000_000_000 && r == #[trigger] spec_from_time_of_day(
                    hour,
                    minute,
                    second,
                    nanosecond,
                ),
    {
        let (hour, minute, second, nanosecond) = local_time_of_day();
        let r = LightningTime::from_time_of_day(hour, minute, second, nanosecond);
        proof {
            assert(r == spec_from_time_of_day(
                hour as int,
                minute as int,
                second as int,
                nanosecond as int,
            ));
        }
        r
    }
}

/// The whole seconds of a tick count's elapsed time are the whole elapsed
/// nanoseconds divided by `10^9`: `floor(x / 10^9 / 16^5) ==
/// floor(floor(x / 16^5) / 10^9)` for `x = ticks * NANOS_PER_DAY`.
proof fn lemma_seconds_of_ticks_divides(ticks: int)
    requires
        0 <= ticks,
    ensures
        spec_second_of_day(ticks) == spec_nanos_of_ticks(ticks) / 1_000_000_000,
{
    let t = TICKS_PER_DAY as int;
    let d = NANOS_PER_DAY as int;
    lemma_div_denominator(ticks * d, t, 1_000_000_000);
    assert(spec_nanos_of_ticks(ticks) / 1_000_000_000 == ticks * d / (t * 1_000_000_000));
    lemma_div_denominator(ticks * d, 1_000_000_000, t);
    assert(ticks * d / (1_000_000_000 * t) == (ticks * d / 1_000_000_000) / t);
    assert(ticks * d == (ticks * 86_400) * 1_000_000_000);
    lemma_div_multiples_vanish(ticks * 86_400, 1_000_000_000);
    assert(1_000_000_000 * (ticks * 86_400) == ticks * d);
    assert(ticks * d / 1_000_000_000 == ticks * 86_400);
}

/// The five digits of a well-formed value recombine to the tick count they
/// were drawn from, which lies in `[0, 16^5)`.
pub proof fn lemma_digits_of_ticks_inverse(t: LightningTime)
    requires
        t.wf(),
    ensures
        0 <= spec_ticks_of_digits(t) < 1_048_576,
        spec_digits_of_ticks(spec_ticks_of_digits(t)) == t,
{
    let b = t.bolts as int;
    let z = t.zaps as int;
    let s = t.sparks as int;
    let c = t.charges as int;
    let u = t.subcharges as int;
    let e = spec_ticks_of_digits(t);
    assert(e == b * 65536 + z * 4096 + s * 256 + c * 16 + u);
    lemma_fundamental_div_mod_converse(e, 65536, b, z * 4096 + s * 256 + c * 16 + u);
    lemma_small_mod(t.bolts as nat, 16);
    lemma_fundamental_div_mod_converse(e, 4096, b * 16 + z, s * 256 + c * 16 + u);
    lemma_mod_multiples_vanish(b, z, 16);
    lemma_small_mod(t.zaps as nat, 16);
    lemma_fundamental_div_mod_converse(e, 256, b * 256 + z * 16 + s, c * 16 + u);
    lemma_mod_multiples_vanish(b * 16 + z, s, 16);
    lemma_small_mod(t.sparks as nat, 16);
    lemma_fundamental_div_mod_converse(e, 16, b * 4096 + z * 256 + s * 16 + c, u);
    lemma_mod_multiples_vanish(b * 256 + z * 16 + s, c, 16);
    lemma_small_mod(t.charges as nat, 16);
}

/// A tick count in `[0, 16^5)` is recombined from its own five digits.
pub proof fn lemma_ticks_of_digits_inverse(ticks: int)
    requires
        0 <= ticks < 1_048_576,
    ensures
        spec_ticks_of_digits(spec_digits_of_ticks(ticks)) == ticks,
{
    lemma_fundamental_div_mod(ticks, 16);
    lemma_div_pos_is_pos(ticks, 16);
    lemma_div_denominator(ticks, 16, 16);
    lemma_fundamental_div_mod(ticks / 16, 16);
    lemma_div_pos_is_pos(ticks, 256);
    lemma_div_denominator(ticks, 256, 16);
    lemma_fundamental_div_mod(ticks / 256, 16);
    lemma_div_pos_is_pos(ticks, 4096);
    lemma_div_denominator(ticks, 4096, 16);
    lemma_fundamental_div_mod(ticks / 4096, 16);
    lemma_div_pos_is_pos(ticks, 65536);
    lemma_div_denominator(ticks, 65536, 16);
    lemma_fundamental_div_mod(ticks / 65536, 16);
    lemma_basic_div(ticks, 1_048_576);
}

/// For a tick count that is a whole multiple of 16 — `subcharges` zero — the
/// elapsed nanoseconds are exact: nothing is rounded away.
proof fn lemma_nanos_of_ticks_exact(ticks: int)
    requires
        0 <= ticks,
        ticks % 16 == 0,
    ensures
        spec_nanos_of_ticks(ticks) * (TICKS_PER_DAY as int) == ticks * (NANOS_PER_DAY as int),
{
    let f = ticks / 16;
    lemma_fundamental_div_mod(ticks, 16);
    assert(ticks == 16 * f);
    assert(ticks * (NANOS_PER_DAY as int) == (TICKS_PER_DAY as int) * (f * 1_318_359_375));
    lemma_div_multiples_vanish(f * 1_318_359_375, TICKS_PER_DAY as int);
    assert(spec_nanos_of_ticks(ticks) == f * 1_318_359_375);
}

/// The reconstructed time of day recombines to the whole elapsed nanoseconds
/// of the digits' tick count: splitting the seconds into hour, minute and
/// second and the rest into the nanosecond field loses nothing.
proof fn lemma_tod_recomposition(t: LightningTime)
    requires
        t.wf(),
    ensures
        ({
            let d = spec_to_time_of_day(t);
            spec_total_nanos(d.hour as int, d.minute as int, d.second as int, d.nanosecond as int)
                == spec_nanos_of_ticks(spec_ticks_of_digits(t))
        }),
{
    let e = spec_ticks_of_digits(t);
    lemma_digits_of_ticks_inverse(t);
    let nanos = spec_nanos_of_ticks(e);
    let secs = spec_second_of_day(e);
    lemma_seconds_of_ticks_divides(e);
    lemma_div_pos_is_pos(e * (NANOS_PER_DAY as int), TICKS_PER_DAY as int);
    lemma_fundamental_div_mod(nanos, 1_000_000_000);
    lemma_div_is_ordered(e * 86_400, (1_048_575 * 86_400) as int, TICKS_PER_DAY as int);
    lemma_div_pos_is_pos(e * 86_400, TICKS_PER_DAY as int);
    lemma_div_is_ordered(secs, 86_399, 3600);
    lemma_div_pos_is_pos(secs, 3600);
    lemma_fundamental_div_mod(secs, 60);
    lemma_fundamental_div_mod(secs / 60, 60);
    lemma_div_pos_is_pos(secs, 60);
    lemma_div_denominator(secs, 60, 60);
    let d = spec_to_time_of_day(t);
    assert(d.hour as int * 3600 + d.minute as int * 60 + d.second as int == secs);
}

/// The round trip through time of day is exact when `subcharges` is zero:
/// the five digits come back unchanged.
pub proof fn lemma_digit_round_trip(t: LightningTime)
    requires
        t.wf(),
        t.subcharges == 0,
    ensures
        ({
            let d = spec_to_time_of_day(t);
            spec_from_time_of_day(
                d.hour as int,
                d.minute as int,
                d.second as int,
                d.nanosecond as int,
            ) == t
        }),
{
    let e = spec_ticks_of_digits(t);
    lemma_digits_of_ticks_inverse(t);
    lemma_tod_recomposition(t);
    let nanos = spec_nanos_of_ticks(e);
    lemma_nanos_of_ticks_exact(e);
    assert(nanos * (TICKS_PER_DAY as int) == (NANOS_PER_DAY as int) * e);
    lemma_div_multiples_vanish(e, NANOS_PER_DAY as int);
    assert(spec_ticks_of_nanos(nanos) == e);
}

/// With a nonzero `subcharges` the round trip through time of day is off by
/// exactly one tick: reconstructing the time truncates the fractional
/// nanosecond of the last tick, so `subcharges` comes back one lower and the
/// four upper digits unchanged.
pub proof fn lemma_digit_round_trip_truncates(t: LightningTime)
    requires
        t.wf(),
        1 <= t.subcharges,
    ensures
        ({
            let d = spec_to_time_of_day(t);
            spec_from_time_of_day(
                d.hour as int,
                d.minute as int,
                d.second as int,
                d.nanosecond as int,
            ) == LightningTime { subcharges: (t.subcharges - 1) as u8, ..t }
        }),
{
    let e = spec_ticks_of_digits(t);
    lemma_digits_of_ticks_inverse(t);
    lemma_tod_recomposition(t);
    let u = t.subcharges as int;
    let q = e / 16;
    lemma_fundamental_div_mod(e, 16);
    // One tick is 86_400_000_000_000 / 16^5 == 1_318_359_375 / 16 nanoseconds,
    // and 1_318_359_375 % 16 == 15, so the last `u` ticks leave a fractional
    // remainder of (16 - u) / 16 nanoseconds that truncation drops.
    let w = (u * 1_318_359_375) / 16;
    assert(u * 1_318_359_375 == (u * 82_397_460 + u - 1) * 16 + (16 - u));
    lemma_fundamental_div_mod_converse(u * 1_318_359_375, 16, u * 82_397_460 + u - 1, 16 - u);
    assert(w == u * 82_397_460 + u - 1);
    assert(e * 86_400_000_000_000 == (q * 1_318_359_375 + w) * 1_048_576 + 65_536 * (16 - u));
    lemma_fundamental_div_mod_converse(
        e * 86_400_000_000_000,
        1_048_576,
        q * 1_318_359_375 + w,
        65_536 * (16 - u),
    );
    let nanos = spec_nanos_of_ticks(e);
    assert(nanos == q * 1_318_359_375 + w);
    assert(nanos * 1_048_576 == (e - 1) * 86_400_000_000_000 + (86_400_000_000_000 - 65_536 * (16
        - u)));
    lemma_fundamental_div_mod_converse(
        nanos * 1_048_576,
        86_400_000_000_000,
        e - 1,
        86_400_000_000_000 - 65_536 * (16 - u),
    );
    assert(spec_ticks_of_nanos(nanos) == e - 1);
    let t2 = LightningTime { subcharges: (t.subcharges - 1) as u8, ..t };
    lemma_digits_of_ticks_inverse(t2);
    assert(spec_ticks_of_digits(t2) == e - 1);
}

/// The round trip through the digits reproduces the second of day up to the
/// width of one tick: the reconstructed second never exceeds the original and
/// falls short by at most one second.
pub proof fn lemma_second_round_trip(hour: u8, minute: u8, second: u8, nanosecond: u32)
    requires
        hour < 24,
        minute < 60,
        second < 60,
        nanosecond < 1_000_000_000,
    ensures
        ({
            let d = spec_to_time_of_day(
                spec_from_time_of_day(hour as int, minute as int, second as int, nanosecond as int),
            );
            let back = d.hour as int * 3600 + d.minute as int * 60 + d.second as int;
            let orig = hour as int * 3600 + minute as int * 60 + second as int;
            back <= orig && orig - back <= 1
        }),
{
    let orig = hour as int * 3600 + minute as int * 60 + second as int;
    let n = spec_total_nanos(hour as int, minute as int, second as int, nanosecond as int);
    assert(orig * 1_000_000_000 <= n < (orig + 1) * 1_000_000_000);
    let e = spec_ticks_of_nanos(n);
    assert(e == n * 1_048_576 / 86_400_000_000_000);
    lemma_div_pos_is_pos(n * 1_048_576, 86_400_000_000_000);
    lemma_div_is_ordered(
        n * 1_048_576,
        (86_399_999_999_999 * 1_048_576) as int,
        86_400_000_000_000,
    );
    assert(0 <= e < 1_048_576);
    let t = spec_digits_of_ticks(e);
    lemma_ticks_of_digits_inverse(e);
    let secs = spec_second_of_day(e);
    assert(secs == e * 86_400 / 1_048_576);
    lemma_div_is_ordered(e * 86_400, (1_048_575 * 86_400) as int, 1_048_576);
    lemma_div_pos_is_pos(e * 86_400, 1_048_576);
    lemma_div_is_ordered(secs, 86_399, 3600);
    lemma_div_pos_is_pos(secs, 3600);
    lemma_fundamental_div_mod(secs, 60);
    lemma_fundamental_div_mod(secs / 60, 60);
    lemma_div_pos_is_pos(secs, 60);
    lemma_div_denominator(secs, 60, 60);
    let d = spec_to_time_of_day(t);
    assert(d.hour as int * 3600 + d.minute as int * 60 + d.second as int == secs);
    // n * 16^5 == nd * e + r1 with 0 <= r1 < nd, and
    // e * 86400 == 16^5 * secs + r2 with 0 <= r2 < 16^5.
    lemma_fundamental_div_mod(n * 1_048_576, 86_400_000_000_000);
    lemma_fundamental_div_mod(e * 86_400, 1_048_576);
    assert(1_048_576 * secs <= e * 86_400);
    assert(e * 86_400 < 1_048_576 * secs + 1_048_576);
    assert(86_400_000_000_000 * e <= n * 1_048_576);
    assert(n * 1_048_576 < 86_400_000_000_000 * e + 86_400_000_000_000);
    // Upper bound, everything scaled by 10^9:
    // secs * (16^5 * 10^9) <= e * 86400 * 10^9 == e * nd <= n * 16^5
    // < (orig + 1) * 10^9 * 16^5, so secs <= orig.
    assert(secs * 1_048_576_000_000_000 <= e * 86_400_000_000_000);
    assert(n * 1_048_576 < (orig + 1) * 1_048_576_000_000_000);
    assert(secs * 1_048_576_000_000_000 < (orig + 1) * 1_048_576_000_000_000);
    assert(secs <= orig);
    // Lower bound: e * 86400 * 10^9 < (secs + 1) * (16^5 * 10^9), while
    // e * nd > n * 16^5 - nd >= orig * (16^5 * 10^9) - nd, so
    // (orig - secs) * (16^5 * 10^9) < nd + 16^5 * 10^9, forcing orig - secs <= 1.
    assert(e * 86_400_000_000_000 < secs * 1_048_576_000_000_000 + 1_048_576_000_000_000);
    assert(orig * 1_048_576_000_000_000 <= n * 1_048_576);
    assert(orig * 1_048_576_000_000_000 < secs * 1_048_576_000_000_000 + 1_048_576_000_000_000
        + 86_400_000_000_000);
    assert(orig - secs <= 1);
}

} // verus!
