use vstd::prelude::*;
use vstd::string::StringSliceAdditionalSpecFns;
use crate::unlocker::{bytes_eq_ignore_case, eq_ignore_case};

verus! {

/// Which time zone the game sees.
#[derive(Clone, Copy, PartialEq, Eq, Debug, Structural)]
pub enum TimezoneMode {
    /// The machine's own time zone.
    Real,
    /// Japan Standard Time, whatever the machine uses.
    Jst,
}

/// The clock settings, as packed into one byte for the hooks.
#[derive(Clone, Copy, PartialEq, Eq, Debug, Structural)]
pub struct ClockConfig {
    pub timezone: TimezoneMode,
    pub timewarp: bool,
    pub writeable: bool,
}

pub const TIMEZONE_JST: u8 = 1;
pub const TIMEWARP: u8 = 2;
pub const WRITEABLE: u8 = 4;

/// The packed form: JST at bit 0, time warp at bit 1, writable at bit 2.
pub open spec fn encode_spec(c: ClockConfig) -> u8 {
    ((if c.timezone == TimezoneMode::Jst { 1int } else { 0 }) + (if c.timewarp { 2int } else { 0 }) + (if c.writeable {
        4int
    } else {
        0
    })) as u8
}

/// The settings that a packed byte stands for; bits above bit 2 are ignored.
pub open spec fn decode_spec(bits: u8) -> ClockConfig {
    ClockConfig {
        timezone: if bits & TIMEZONE_JST != 0 { TimezoneMode::Jst } else { TimezoneMode::Real },
        timewarp: bits & TIMEWARP != 0,
        writeable: bits & WRITEABLE != 0,
    }
}

impl ClockConfig {
    /// Packs the settings into one byte (see `encode_spec`).
    pub fn encode(self) -> (bits: u8)
        ensures
            bits == encode_spec(self),
    {
        (if self.timezone == TimezoneMode::Jst { 1u8 } else { 0 }) + (if self.timewarp { 2u8 } else { 0 }) + (
        if self.writeable { 4u8 } else { 0 })
    }

    /// Unpacks the settings from a byte (see `decode_spec`).
    pub fn decode(bits: u8) -> (c: Self)
        ensures
            c == decode_spec(bits),
    {
        ClockConfig {
            timezone: if bits & TIMEZONE_JST != 0 { TimezoneMode::Jst } else { TimezoneMode::Real },
            timewarp: bits & TIMEWARP != 0,
            writeable: bits & WRITEABLE != 0,
        }
    }
}

/// Packing and unpacking are inverse: every setting comes back from its byte,
/// and every byte below 8 comes back from its settings.
pub proof fn lemma_clock_bits_roundtrip(c: ClockConfig, bits: u8)
    ensures
        decode_spec(encode_spec(c)) == c,
        bits < 8 ==> encode_spec(decode_spec(bits)) == bits,
{
    let e = encode_spec(c);
    assert(e & 1u8 != 0 <==> c.timezone == TimezoneMode::Jst) by {
        let b0: u8 = if c.timezone == TimezoneMode::Jst { 1 } else { 0 };
        let b1: u8 = if c.timewarp { 2 } else { 0 };
        let b2: u8 = if c.writeable { 4 } else { 0 };
        assert(e == b0 + b1 + b2);
        assert((b0 == 0 || b0 == 1) && (b1 == 0 || b1 == 2) && (b2 == 0 || b2 == 4) ==> ((b0 + b1 + b2) as u8 & 1u8
            != 0 <==> b0 == 1) && ((b0 + b1 + b2) as u8 & 2u8 != 0 <==> b1 == 2) && ((b0 + b1 + b2) as u8 & 4u8
            != 0 <==> b2 == 4)) by (bit_vector);
    }
    let b0: u8 = if c.timezone == TimezoneMode::Jst { 1 } else { 0 };
    let b1: u8 = if c.timewarp { 2 } else { 0 };
    let b2: u8 = if c.writeable { 4 } else { 0 };
    assert((b0 == 0 || b0 == 1) && (b1 == 0 || b1 == 2) && (b2 == 0 || b2 == 4) ==> ((b0 + b1 + b2) as u8 & 2u8 != 0
        <==> b1 == 2) && ((b0 + b1 + b2) as u8 & 4u8 != 0 <==> b2 == 4)) by (bit_vector);
    assert(bits < 8 ==> bits == ((if bits & 1u8 != 0 { 1u8 } else { 0u8 }) + (if bits & 2u8 != 0 { 2u8 } else { 0u8 })
        + (if bits & 4u8 != 0 { 4u8 } else { 0u8 }))) by (bit_vector);
}

/// The time zone a setting names: `real`, `local` and `system` (any ASCII
/// case) keep the machine's zone; anything else means JST.
pub open spec fn timezone_mode_spec(name: Seq<u8>) -> TimezoneMode {
    if eq_ignore_case(name, seq![114u8, 101, 97, 108]) || eq_ignore_case(name, seq![108u8, 111, 99, 97, 108])
        || eq_ignore_case(name, seq![115u8, 121, 115, 116, 101, 109]) {
        TimezoneMode::Real
    } else {
        TimezoneMode::Jst
    }
}

/// The time zone a setting names (see `timezone_mode_spec`).
pub fn timezone_mode(name: &str) -> (m: TimezoneMode)
    ensures
        m == timezone_mode_spec(name.spec_bytes()),
{
    let real_name: [u8; 4] = [114, 101, 97, 108];
    let local: [u8; 5] = [108, 111, 99, 97, 108];
    let system: [u8; 6] = [115, 121, 115, 116, 101, 109];
    assert(real_name@ =~= seq![114u8, 101, 97, 108]);
    assert(local@ =~= seq![108u8, 111, 99, 97, 108]);
    assert(system@ =~= seq![115u8, 121, 115, 116, 101, 109]);
    let b = name.as_bytes();
    if bytes_eq_ignore_case(b, real_name.as_slice()) || bytes_eq_ignore_case(b, local.as_slice()) || bytes_eq_ignore_case(
        b,
        system.as_slice(),
    ) {
        TimezoneMode::Real
    } else {
        TimezoneMode::Jst
    }
}

/// The clock settings of the `[Clock]` section: the zone named by
/// `timezone`, time warp when `timewarp` is non-zero, and `writeable`.
pub fn clock_config(timezone: &str, timewarp: i64, writeable: bool) -> (c: ClockConfig)
    ensures
        c == (ClockConfig {
            timezone: timezone_mode_spec(timezone.spec_bytes()),
            timewarp: timewarp != 0,
            writeable,
        }),
{
    ClockConfig { timezone: timezone_mode(timezone), timewarp: timewarp != 0, writeable }
}

/// Which groups of clock hooks a configuration needs: the file-time source
/// (for any virtualisation), the local-time and zone readers (unless the real
/// zone is kept), and the clock setters (unless the game may set the clock).
pub fn hooks_needed(c: ClockConfig) -> (h: (bool, bool, bool))
    ensures
        h == (c.timezone != TimezoneMode::Real || c.timewarp || !c.writeable, c.timezone != TimezoneMode::Real,
            !c.writeable),
{
    let zoned = match c.timezone {
        TimezoneMode::Real => false,
        TimezoneMode::Jst => true,
    };
    (zoned || c.timewarp || !c.writeable, zoned, !c.writeable)
}

/// A `FILETIME` split into its two 32-bit halves.
#[derive(Clone, Copy, PartialEq, Eq, Debug, Structural)]
pub struct FileTime {
    pub low_date_time: u32,
    pub high_date_time: u32,
}

/// The 64-bit tick count of a `FILETIME`.
pub open spec fn ticks_spec(f: FileTime) -> i64 {
    ((f.high_date_time as i64) << 32u64) | (f.low_date_time as i64)
}

/// The 64-bit tick count of a `FILETIME`.
pub fn filetime_ticks(value: FileTime) -> (t: i64)
    ensures
        t == ticks_spec(value),
{
    ((value.high_date_time as i64) << 32u64) | (value.low_date_time as i64)
}

/// The `FILETIME` of a tick count.
pub open spec fn filetime_spec(t: i64) -> FileTime {
    FileTime { low_date_time: t as u32, high_date_time: (t >> 32u64) as u32 }
}

/// The `FILETIME` of a tick count.
pub fn ticks_to_filetime(value: i64) -> (f: FileTime)
    ensures
        f == filetime_spec(value),
{
    FileTime { low_date_time: value as u32, high_date_time: (value >> 32u64) as u32 }
}

/// Tick counts and `FILETIME`s convert into each other without loss.
pub proof fn lemma_filetime_roundtrip(f: FileTime, t: i64)
    ensures
        filetime_spec(ticks_spec(f)) == f,
        ticks_spec(filetime_spec(t)) == t,
{
    let lo = f.low_date_time;
    let hi = f.high_date_time;
    assert((((hi as i64) << 32u64) | (lo as i64)) as u32 == lo) by (bit_vector);
    assert(((((hi as i64) << 32u64) | (lo as i64)) >> 32u64) as u32 == hi) by (bit_vector);
    assert((((((t >> 32u64) as u32) as i64) << 32u64) | ((t as u32) as i64)) == t) by (bit_vector);
}


/// Ticks (100 ns) in one hour and in one day.
pub const TICKS_PER_HOUR: i64 = 36_000_000_000;
pub const TICKS_PER_DAY: i64 = 864_000_000_000;

/// How far ahead of the real clock the warped day starts.
pub const WARP_LEAD: i64 = 72_000_000_000;

/// Division rounding towards zero, as Rust's `/` on signed integers does.
pub open spec fn trunc_div(a: int, b: int) -> int {
    if a >= 0 { a / b } else { -((-a) / b) }
}

/// Time warp, in ticks: the clock is read two hours ahead so that the day
/// starts at 22:00, and within each such day the clock runs at 19/24 of its
/// speed, so that the warped day ends at 17:00 and the hours of daily
/// maintenance never come. The result is the warped day's number and the
/// warped time, both computed with 64-bit wrapping as the hook does.
pub open spec fn warp_spec(now: i64) -> (i64, i64) {
    let biased = vstd::wrapping::i64_specs::wrapping_add(now, WARP_LEAD);
    let day = trunc_div(biased as int, TICKS_PER_DAY as int);
    let time = (biased - day * TICKS_PER_DAY) as i64;
    let scaled = trunc_div(vstd::wrapping::i64_specs::wrapping_mul(time, 19) as int, 24) as i64;
    let start = vstd::wrapping::i64_specs::wrapping_mul(day as i64, TICKS_PER_DAY);
    let fake = vstd::wrapping::i64_specs::wrapping_sub(
        vstd::wrapping::i64_specs::wrapping_add(start, scaled),
        WARP_LEAD,
    );
    (day as i64, fake)
}

/// The warped day number and warped tick count of a real tick count
/// (see `warp_spec`).
pub fn warp_ticks(now: i64) -> (r: (i64, i64))
    ensures
        r == warp_spec(now),
{
    let biased = now.wrapping_add(WARP_LEAD);
    let day = biased / TICKS_PER_DAY;
    let time = biased % TICKS_PER_DAY;
    assert(day == trunc_div(biased as int, TICKS_PER_DAY as int));
    assert(time == biased - day * TICKS_PER_DAY);
    let scaled = time.wrapping_mul(19) / 24;
    let fake = day.wrapping_mul(TICKS_PER_DAY).wrapping_add(scaled).wrapping_sub(WARP_LEAD);
    (day, fake)
}

/// The real tick counts for which the warp computes without wrapping:
/// from the `FILETIME` epoch up to the last count the lead can be added to.
pub open spec fn warp_in_range(now: i64) -> bool {
    0 <= now <= i64::MAX - WARP_LEAD
}

/// Where the warp does not wrap, it is plain arithmetic: the day number and
/// time of day of the count two hours on, and the time of day slowed to
/// 19/24.
proof fn lemma_warp_closed_form(now: i64)
    requires
        warp_in_range(now),
    ensures
        ({
            let b = now + WARP_LEAD;
            let day = b / (TICKS_PER_DAY as int);
            let time = b % (TICKS_PER_DAY as int);
            &&& 0 <= time < TICKS_PER_DAY
            &&& 0 <= day
            &&& warp_spec(now).0 == day
            &&& warp_spec(now).1 == day * TICKS_PER_DAY + time * 19 / 24 - WARP_LEAD
        }),
{
    let b: int = now + WARP_LEAD;
    let d: int = TICKS_PER_DAY as int;
    vstd::arithmetic::div_mod::lemma_fundamental_div_mod(b, d);
    let day = b / d;
    let time = b % d;
    assert(0 <= time < d);
    assert(day >= 0) by (nonlinear_arith)
        requires
            b >= 0,
            d > 0,
            day == b / d,
    ;
    assert(day * d <= b) by (nonlinear_arith)
        requires
            b == d * day + time,
            time >= 0,
    ;
    let biased = vstd::wrapping::i64_specs::wrapping_add(now, WARP_LEAD);
    assert(biased == b);
    assert(trunc_div(biased as int, d) == day);
    let t64 = (biased - day * TICKS_PER_DAY) as i64;
    assert(t64 == time);
    let m = vstd::wrapping::i64_specs::wrapping_mul(t64, 19);
    assert(0 <= time * 19 < 0x8000_0000_0000_0000);
    assert((time * 19) % 0x1_0000_0000_0000_0000int == time * 19);
    assert(m == time * 19);
    let scaled = trunc_div(m as int, 24);
    assert(scaled == time * 19 / 24);
    assert(0 <= scaled <= time) by (nonlinear_arith)
        requires
            scaled == time * 19 / 24,
            time >= 0,
    ;
    assert(0 <= day * d <= 0x7FFF_FFFF_FFFF_FFFF);
    assert((day * d) % 0x1_0000_0000_0000_0000int == day * d);
    let start = vstd::wrapping::i64_specs::wrapping_mul(day as i64, TICKS_PER_DAY);
    assert(start == day * d);
}

/// The warp skips daily maintenance: the warped clock never shows a time of
/// day (UTC) from 17:00 to 22:00, that is 02:00 to 07:00 in Japan.
pub proof fn lemma_warp_skips_maintenance(now: i64)
    requires
        warp_in_range(now),
    ensures
        !(17 * TICKS_PER_HOUR <= (warp_spec(now).1 as int) % (TICKS_PER_DAY as int) < 22 * TICKS_PER_HOUR),
{
    lemma_warp_closed_form(now);
    let b: int = now + WARP_LEAD;
    let d: int = TICKS_PER_DAY as int;
    let day = b / d;
    let time = b % d;
    let scaled = time * 19 / 24;
    assert(0 <= scaled < 19 * TICKS_PER_HOUR) by (nonlinear_arith)
        requires
            scaled == time * 19 / 24,
            0 <= time < 864_000_000_000,
    ;
    let f = warp_spec(now).1 as int;
    assert(f == day * d + scaled - WARP_LEAD);
    if scaled >= WARP_LEAD {
        vstd::arithmetic::div_mod::lemma_fundamental_div_mod_converse(f, d, day, scaled - WARP_LEAD);
    } else {
        assert(f == (day - 1) * d + (d + scaled - WARP_LEAD)) by (nonlinear_arith)
            requires
                f == day * d + scaled - 72_000_000_000,
        ;
        vstd::arithmetic::div_mod::lemma_fundamental_div_mod_converse(f, d, day - 1, d + scaled - WARP_LEAD);
    }
}

/// The warped clock never runs backwards: a later real time gives a warped
/// time no earlier.
pub proof fn lemma_warp_monotonic(a: i64, b: i64)
    requires
        warp_in_range(a),
        warp_in_range(b),
        a <= b,
    ensures
        warp_spec(a).1 <= warp_spec(b).1,
{
    lemma_warp_closed_form(a);
    lemma_warp_closed_form(b);
    let d: int = TICKS_PER_DAY as int;
    let ba: int = a + WARP_LEAD;
    let bb: int = b + WARP_LEAD;
    vstd::arithmetic::div_mod::lemma_fundamental_div_mod(ba, d);
    vstd::arithmetic::div_mod::lemma_fundamental_div_mod(bb, d);
    let da = ba / d;
    let db = bb / d;
    let ta = ba % d;
    let tb = bb % d;
    assert(da <= db) by {
        vstd::arithmetic::div_mod::lemma_div_is_ordered(ba, bb, d);
    }
    if da == db {
        assert(ta <= tb);
        assert(ta * 19 / 24 <= tb * 19 / 24) by (nonlinear_arith)
            requires
                0 <= ta <= tb,
        ;
    } else {
        assert(ta * 19 / 24 < 19 * TICKS_PER_HOUR) by (nonlinear_arith)
            requires
                0 <= ta < 864_000_000_000,
        ;
        assert(tb * 19 / 24 >= 0) by (nonlinear_arith)
            requires
                0 <= tb,
        ;
        assert(da * d + d <= db * d) by (nonlinear_arith)
            requires
                da + 1 <= db,
                d > 0,
        ;
    }
}

/// The bias, in minutes, of Japan Standard Time.
pub const JST_BIAS: i32 = -540;

/// `ERROR_INVALID_PARAMETER`.
pub const ERROR_INVALID_PARAMETER: u32 = 87;

/// Ticks in nine hours: JST is nine hours ahead of UTC.
pub const JST_OFFSET: i64 = 324_000_000_000;

/// What `GetSystemTimeAsFileTime` does under a configuration.
#[derive(Clone, Copy, PartialEq, Eq, Debug, Structural)]
pub enum FileTimeStep {
    /// No original function was found: nothing is written.
    Nothing,
    /// Time warp is off: the original function answers.
    Original,
    /// The output pointer is null: the last error becomes
    /// `ERROR_INVALID_PARAMETER` and nothing is written.
    InvalidParameter,
    /// The original function is read and its answer warped (`warp_file_time`).
    Warp,
}

/// The step `GetSystemTimeAsFileTime` takes: without an original function
/// nothing happens; without time warp the original answers; a null output is
/// refused; otherwise the real time is warped.
pub fn file_time_step(c: ClockConfig, has_original: bool, out_present: bool) -> (step: FileTimeStep)
    ensures
        step == (if !has_original {
            FileTimeStep::Nothing
        } else if !c.timewarp {
            FileTimeStep::Original
        } else if !out_present {
            FileTimeStep::InvalidParameter
        } else {
            FileTimeStep::Warp
        }),
{
    if !has_original {
        FileTimeStep::Nothing
    } else if !c.timewarp {
        FileTimeStep::Original
    } else if !out_present {
        FileTimeStep::InvalidParameter
    } else {
        FileTimeStep::Warp
    }
}

/// The warped day and warped `FILETIME` of a real `FILETIME`.
pub fn warp_file_time(now: FileTime) -> (r: (i64, FileTime))
    ensures
        r.0 == warp_spec(ticks_spec(now)).0,
        r.1 == filetime_spec(warp_spec(ticks_spec(now)).1),
{
    let (day, fake) = warp_ticks(filetime_ticks(now));
    (day, ticks_to_filetime(fake))
}

/// Whether a newly seen warped day moves the baseline that the hook reports:
/// a day was seen before (0 means none yet) and it differs from this one.
pub fn day_changed(previous_day: i64, day: i64) -> (changed: bool)
    ensures
        changed == (previous_day != 0 && previous_day != day),
{
    previous_day != 0 && previous_day != day
}

/// The `FILETIME` that local time is taken from under JST: the (possibly
/// warped) system time, nine hours on, with 64-bit wrapping.
pub fn jst_local_file_time(system: FileTime) -> (local: FileTime)
    ensures
        local == filetime_spec(vstd::wrapping::i64_specs::wrapping_add(ticks_spec(system), JST_OFFSET)),
{
    ticks_to_filetime(filetime_ticks(system).wrapping_add(JST_OFFSET))
}

/// Where `GetLocalTime` takes its answer from.
#[derive(Clone, Copy, PartialEq, Eq, Debug, Structural)]
pub enum LocalTimeStep {
    /// The machine's zone is kept, but no original function was found.
    Nothing,
    /// The machine's zone is kept: the original function answers.
    Original,
    /// JST: the hooked system time, shifted by `jst_local_file_time`.
    Jst,
}

/// The step `GetLocalTime` takes under a configuration.
pub fn local_time_step(c: ClockConfig, has_original: bool) -> (step: LocalTimeStep)
    ensures
        step == (if c.timezone == TimezoneMode::Jst {
            LocalTimeStep::Jst
        } else if has_original {
            LocalTimeStep::Original
        } else {
            LocalTimeStep::Nothing
        }),
{
    match c.timezone {
        TimezoneMode::Jst => LocalTimeStep::Jst,
        TimezoneMode::Real => if has_original {
            LocalTimeStep::Original
        } else {
            LocalTimeStep::Nothing
        },
    }
}

/// What `GetTimeZoneInformation` answers.
#[derive(Clone, Copy, PartialEq, Eq, Debug, Structural)]
pub enum ZoneStep {
    /// The original function answers.
    Original,
    /// Fail with `result`; where `last_error` is `Some`, it is set first.
    Fail { last_error: Option<u32>, result: u32 },
    /// Write the JST zone (bias `JST_BIAS`, all else zero), clear the last
    /// error and return 0.
    Jst,
}

/// The step `GetTimeZoneInformation` takes: under JST a null output fails with
/// `ERROR_INVALID_PARAMETER` and `0xFFFFFFFF`, any other is filled with JST;
/// under the real zone the original answers, or, without one, the call fails
/// with `0xFFFFFFFF`.
pub fn zone_step(c: ClockConfig, has_original: bool, out_present: bool) -> (step: ZoneStep)
    ensures
        step == (if c.timezone == TimezoneMode::Jst {
            if out_present {
                ZoneStep::Jst
            } else {
                ZoneStep::Fail { last_error: Some(ERROR_INVALID_PARAMETER), result: 0xFFFF_FFFF }
            }
        } else if has_original {
            ZoneStep::Original
        } else {
            ZoneStep::Fail { last_error: None, result: 0xFFFF_FFFF }
        }),
{
    match c.timezone {
        TimezoneMode::Jst => if out_present {
            ZoneStep::Jst
        } else {
            ZoneStep::Fail { last_error: Some(ERROR_INVALID_PARAMETER), result: 0xFFFF_FFFF }
        },
        TimezoneMode::Real => if has_original {
            ZoneStep::Original
        } else {
            ZoneStep::Fail { last_error: None, result: 0xFFFF_FFFF }
        },
    }
}

/// What one of the clock setters (`SetLocalTime`, `SetSystemTime`,
/// `SetTimeZoneInformation`) does.
#[derive(Clone, Copy, PartialEq, Eq, Debug, Structural)]
pub enum SetClockStep {
    /// The game may set the clock: the original function does it.
    Forward,
    /// Return this value without touching the clock: 1 (success) when the
    /// update is blocked, 0 when it is allowed but no original was found.
    Return(i32),
}

/// The step a clock setter takes: blocked updates report success without
/// effect; allowed ones go to the original function, or fail without one.
pub fn set_clock_step(c: ClockConfig, has_original: bool) -> (step: SetClockStep)
    ensures
        step == (if !c.writeable {
            SetClockStep::Return(1)
        } else if has_original {
            SetClockStep::Forward
        } else {
            SetClockStep::Return(0)
        }),
{
    if !c.writeable {
        SetClockStep::Return(1)
    } else if has_original {
        SetClockStep::Forward
    } else {
        SetClockStep::Return(0)
    }
}

} // verus!
