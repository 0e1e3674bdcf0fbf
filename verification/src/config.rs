use vstd::prelude::*;
use vstd::string::StringSliceAdditionalSpecFns;
use crate::clock::{clock_config, timezone_mode_spec, ClockConfig};
use crate::module_registry::HookModeConfig;
use crate::patches::{CustomTimers, PatchConfig};
use crate::system_config::{CabinetMode, SystemConfig};

verus! {

/// What the settings need of one section of the configuration file: whether
/// it is there, and its `enabled` key when that is set to a boolean.
#[derive(Clone, Copy)]
pub struct SectionPresence {
    pub present: bool,
    pub enabled: Option<bool>,
}

/// A section switches its feature on when it is there and not switched off
/// with `enabled = false`.
pub open spec fn section_on_spec(s: SectionPresence) -> bool {
    s.present && s.enabled != Some(false)
}

/// Whether a section switches its feature on (see `section_on_spec`).
pub fn section_on(s: SectionPresence) -> (b: bool)
    ensures
        b == section_on_spec(s),
{
    s.present && match s.enabled {
        Some(false) => false,
        _ => true,
    }
}

/// A boolean setting, or `default` when it is not set.
pub open spec fn bool_or(v: Option<bool>, default: bool) -> bool {
    match v {
        Some(b) => b,
        None => default,
    }
}

fn bool_setting(v: Option<bool>, default: bool) -> (b: bool)
    ensures
        b == bool_or(v, default),
{
    match v {
        Some(b) => b,
        None => default,
    }
}

/// The `[System]` settings as read: `enabled`, `enable_console`, `lan_slave`,
/// and `mode` (`None` when not set, else what the value names).
pub struct SystemSettings {
    pub enabled: Option<bool>,
    pub enable_console: Option<bool>,
    pub lan_slave: Option<bool>,
    pub mode: Option<Option<CabinetMode>>,
}

/// The `[System]` section: enabled, with its own console and as the master
/// unless set otherwise; an SP cabinet unless `mode` names another. The flag
/// tells that `mode` was set to something that names no cabinet.
pub fn system_settings(s: &SystemSettings) -> (r: (SystemConfig, bool))
    ensures
        r.0.enabled == bool_or(s.enabled, true),
        r.0.enable_console == bool_or(s.enable_console, true),
        r.0.lan_slave == bool_or(s.lan_slave, false),
        r.0.mode == (match s.mode {
            Some(Some(m)) => m,
            _ => CabinetMode::Sp,
        }),
        r.1 == (s.mode == Some(None::<CabinetMode>)),
{
    let (mode, invalid) = match s.mode {
        None => (CabinetMode::Sp, false),
        Some(None) => (CabinetMode::Sp, true),
        Some(Some(m)) => (m, false),
    };
    (
        SystemConfig {
            enabled: bool_setting(s.enabled, true),
            enable_console: bool_setting(s.enable_console, true),
            lan_slave: bool_setting(s.lan_slave, false),
            mode,
        },
        invalid,
    )
}

/// The `[HookMode]` switches, each on unless set otherwise.
pub fn hook_mode_settings(platform: Option<bool>, devices: Option<bool>, platform_modules: Option<bool>, iohook: Option<bool>) -> (c: HookModeConfig)
    ensures
        c.platform == bool_or(platform, true),
        c.devices == bool_or(devices, true),
        c.platform_modules == bool_or(platform_modules, true),
        c.iohook == bool_or(iohook, true),
{
    HookModeConfig {
        platform: bool_setting(platform, true),
        devices: bool_setting(devices, true),
        platform_modules: bool_setting(platform_modules, true),
        iohook: bool_setting(iohook, true),
    }
}

/// The `[Clock]` settings: the zone named by `timezone` (Japan's when not
/// set), time warp when `timewarp` is set and non-zero, and `writeable`
/// (off when not set).
pub fn clock_settings(timezone: Option<&str>, timewarp: Option<i64>, writeable: Option<bool>) -> (c: ClockConfig)
    ensures
        c.timezone == timezone_mode_spec(
            match timezone {
                Some(t) => t.spec_bytes(),
                None => "jst".spec_bytes(),
            },
        ),
        c.timewarp == (match timewarp {
            Some(w) => w != 0,
            None => false,
        }),
        c.writeable == bool_or(writeable, false),
{
    let tz = match timezone {
        Some(t) => t,
        None => "jst",
    };
    let warp: i64 = match timewarp {
        Some(w) => w,
        None => 0,
    };
    clock_config(tz, warp, bool_setting(writeable, false))
}

/// A selection timer in seconds: the value set when it fits a signed byte,
/// else 60 seconds; the flag tells that a set value did not fit.
pub open spec fn timer_setting_spec(v: Option<i64>) -> (i8, bool) {
    match v {
        None => (60i8, false),
        Some(x) => if -128 <= x <= 127 {
            (x as i8, false)
        } else {
            (60i8, true)
        },
    }
}

/// A selection timer in seconds (see `timer_setting_spec`).
pub fn timer_setting(v: Option<i64>) -> (r: (i8, bool))
    ensures
        r == timer_setting_spec(v),
{
    match v {
        None => (60, false),
        Some(x) => if -128 <= x && x <= 127 {
            (x as i8, false)
        } else {
            (60, true)
        },
    }
}

/// The maximum track count: the value set when it fits a 32-bit integer,
/// else 3.
pub open spec fn track_limit_spec(v: Option<i64>) -> i32 {
    match v {
        Some(x) => if i32::MIN <= x <= i32::MAX {
            x as i32
        } else {
            3i32
        },
        None => 3i32,
    }
}

/// The maximum track count (see `track_limit_spec`).
pub fn track_limit(v: Option<i64>) -> (r: i32)
    ensures
        r == track_limit_spec(v),
{
    match v {
        Some(x) => if i32::MIN as i64 <= x && x <= i32::MAX as i64 {
            x as i32
        } else {
            3
        },
        None => 3,
    }
}

/// The frame rate to hold: the `fps` set (60 when not set), when it lies in
/// 1 to 240; otherwise no frame lock.
pub open spec fn frame_lock_spec(fps: Option<i64>) -> Option<u32> {
    let f = match fps {
        Some(x) => x,
        None => 60,
    };
    if 1 <= f <= 240 {
        Some(f as u32)
    } else {
        None
    }
}

/// The frame rate to hold (see `frame_lock_spec`).
pub fn frame_lock_setting(fps: Option<i64>) -> (r: Option<u32>)
    ensures
        r == frame_lock_spec(fps),
{
    let f: i64 = match fps {
        Some(x) => x,
        None => 60,
    };
    if 1 <= f && f <= 240 {
        Some(f as u32)
    } else {
        None
    }
}

/// The patch sections as read, and the values of the two that hold some.
#[derive(Clone, Copy)]
pub struct PatchSections {
    pub disable_encryption: SectionPresence,
    pub disable_tls: SectionPresence,
    pub disable_timer: SectionPresence,
    pub custom_timers: SectionPresence,
    pub map_select: Option<i64>,
    pub ticket_select: Option<i64>,
    pub course_select: Option<i64>,
    pub all_timers_999: SectionPresence,
    pub skip_map_animation: SectionPresence,
    pub unlock_tracks: SectionPresence,
    pub max_tracks: Option<i64>,
    pub unlock_120fps: SectionPresence,
    pub bypass_1080p: SectionPresence,
    pub bypass_120hz: SectionPresence,
    pub bypass_appuser: SectionPresence,
    pub force_shared_audio: SectionPresence,
    pub force_2ch_audio: SectionPresence,
}

/// The patches to apply before the game starts: each one whose section
/// switches it on, the custom timers and the track count with their values.
/// The flags tell which of the three timers was set out of range.
pub fn patch_settings(s: &PatchSections) -> (r: (PatchConfig, [bool; 3]))
    ensures
        r.0.disable_encryption == section_on_spec(s.disable_encryption),
        r.0.disable_tls == section_on_spec(s.disable_tls),
        r.0.disable_timer == section_on_spec(s.disable_timer),
        r.0.all_timers_999 == section_on_spec(s.all_timers_999),
        r.0.skip_map_animation == section_on_spec(s.skip_map_animation),
        r.0.unlock_120fps == section_on_spec(s.unlock_120fps),
        r.0.bypass_1080p == section_on_spec(s.bypass_1080p),
        r.0.bypass_120hz == section_on_spec(s.bypass_120hz),
        r.0.bypass_appuser == section_on_spec(s.bypass_appuser),
        r.0.force_shared_audio == section_on_spec(s.force_shared_audio),
        r.0.force_2ch_audio == section_on_spec(s.force_2ch_audio),
        section_on_spec(s.custom_timers) ==> r.0.custom_timers == Some(
            CustomTimers {
                map_select: timer_setting_spec(s.map_select).0,
                ticket_select: timer_setting_spec(s.ticket_select).0,
                course_select: timer_setting_spec(s.course_select).0,
            },
        ) && r.1@ == seq![timer_setting_spec(s.map_select).1, timer_setting_spec(s.ticket_select).1, timer_setting_spec(s.course_select).1],
        !section_on_spec(s.custom_timers) ==> r.0.custom_timers is None && r.1@ == seq![false, false, false],
        r.0.unlock_tracks == (if section_on_spec(s.unlock_tracks) {
            Some(track_limit_spec(s.max_tracks))
        } else {
            None
        }),
{
    let (custom_timers, out_of_range) = if section_on(s.custom_timers) {
        let (map_select, m) = timer_setting(s.map_select);
        let (ticket_select, t) = timer_setting(s.ticket_select);
        let (course_select, c) = timer_setting(s.course_select);
        (Some(CustomTimers { map_select, ticket_select, course_select }), [m, t, c])
    } else {
        (None, [false, false, false])
    };
    let unlock_tracks = if section_on(s.unlock_tracks) {
        Some(track_limit(s.max_tracks))
    } else {
        None
    };
    let config = PatchConfig {
        disable_encryption: section_on(s.disable_encryption),
        disable_tls: section_on(s.disable_tls),
        disable_timer: section_on(s.disable_timer),
        custom_timers,
        all_timers_999: section_on(s.all_timers_999),
        skip_map_animation: section_on(s.skip_map_animation),
        unlock_tracks,
        unlock_120fps: section_on(s.unlock_120fps),
        bypass_1080p: section_on(s.bypass_1080p),
        bypass_120hz: section_on(s.bypass_120hz),
        bypass_appuser: section_on(s.bypass_appuser),
        force_shared_audio: section_on(s.force_shared_audio),
        force_2ch_audio: section_on(s.force_2ch_audio),
    };
    assert(out_of_range@ =~= (if section_on_spec(s.custom_timers) {
        seq![timer_setting_spec(s.map_select).1, timer_setting_spec(s.ticket_select).1, timer_setting_spec(s.course_select).1]
    } else {
        seq![false, false, false]
    }));
    (config, out_of_range)
}

/// The frame lock: the rate `frame_lock_setting` gives when the section
/// switches it on, else none.
pub fn frame_lock_settings(section: SectionPresence, fps: Option<i64>) -> (r: Option<u32>)
    ensures
        r == (if section_on_spec(section) {
            frame_lock_spec(fps)
        } else {
            None
        }),
{
    if section_on(section) {
        frame_lock_setting(fps)
    } else {
        None
    }
}

} // verus!
