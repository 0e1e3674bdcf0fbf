use applechu::config::{
    frame_lock_settings, patch_settings, section_on, system_settings, timer_setting, track_limit, PatchSections,
    SectionPresence, SystemSettings,
};
use applechu::system_config::CabinetMode;

const ABSENT: SectionPresence = SectionPresence { present: false, enabled: None };
const ON: SectionPresence = SectionPresence { present: true, enabled: None };

#[test]
fn sections_switch_on_unless_disabled() {
    assert!(!section_on(ABSENT));
    assert!(section_on(ON));
    assert!(section_on(SectionPresence { present: true, enabled: Some(true) }));
    assert!(!section_on(SectionPresence { present: true, enabled: Some(false) }));
}

#[test]
fn system_settings_default_and_flag_bad_modes() {
    let (c, bad) = system_settings(&SystemSettings { enabled: None, enable_console: Some(false), lan_slave: None, mode: Some(None) });
    assert!(bad);
    assert!(c.enabled && !c.enable_console && !c.lan_slave);
    assert_eq!(c.mode, CabinetMode::Sp);
    let (c, bad) = system_settings(&SystemSettings {
        enabled: None,
        enable_console: None,
        lan_slave: Some(true),
        mode: Some(Some(CabinetMode::Cvt)),
    });
    assert!(!bad && c.lan_slave);
    assert_eq!(c.mode, CabinetMode::Cvt);
}

#[test]
fn numeric_settings_fall_back_when_out_of_range() {
    assert_eq!(timer_setting(None), (60, false));
    assert_eq!(timer_setting(Some(-5)), (-5, false));
    assert_eq!(timer_setting(Some(300)), (60, true));
    assert_eq!(track_limit(Some(7)), 7);
    assert_eq!(track_limit(Some(1 << 40)), 3);
    assert_eq!(track_limit(None), 3);
    assert_eq!(frame_lock_settings(ON, None), Some(60));
    assert_eq!(frame_lock_settings(ON, Some(241)), None);
    assert_eq!(frame_lock_settings(ON, Some(120)), Some(120));
    assert_eq!(frame_lock_settings(ABSENT, Some(120)), None);
}

#[test]
fn patch_settings_follow_their_sections() {
    let sections = PatchSections {
        disable_encryption: ABSENT,
        disable_tls: ON,
        disable_timer: SectionPresence { present: true, enabled: Some(false) },
        custom_timers: ON,
        map_select: Some(30),
        ticket_select: Some(1000),
        course_select: None,
        all_timers_999: ABSENT,
        skip_map_animation: ON,
        unlock_tracks: ON,
        max_tracks: Some(9),
        unlock_120fps: ABSENT,
        bypass_1080p: ABSENT,
        bypass_120hz: ABSENT,
        bypass_appuser: ON,
        force_shared_audio: ABSENT,
        force_2ch_audio: ABSENT,
    };
    let (c, out_of_range) = patch_settings(&sections);
    assert!(!c.disable_encryption && c.disable_tls && !c.disable_timer && c.skip_map_animation && c.bypass_appuser);
    let timers = c.custom_timers.unwrap();
    assert_eq!((timers.map_select, timers.ticket_select, timers.course_select), (30, 60, 60));
    assert_eq!(out_of_range, [false, true, false]);
    assert_eq!(c.unlock_tracks, Some(9));
}
