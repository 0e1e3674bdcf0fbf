use applechu::clock::{
    clock_config, day_changed, file_time_step, filetime_ticks, hooks_needed, jst_local_file_time, local_time_step,
    set_clock_step, ticks_to_filetime, timezone_mode, warp_file_time, warp_ticks, zone_step, ClockConfig, FileTime,
    FileTimeStep, LocalTimeStep, SetClockStep, TimezoneMode, ZoneStep,
};
use applechu::display::{D3dPresentParameters, MonitorSelection};
use applechu::loader::{mod_init_accepted, mod_paths, mod_stem, should_load_external_mod, LogLevel};
use applechu::module_registry::{
    bytes_ends_with, disabled_notices, find_by_suffix, init_all, init_ordered, init_outcome, registered_modules,
    stage_enabled, DisabledNotice, InitOutcome, InitStage, StartedModules,
};
use applechu::system::{crc32, dipsw_bits, update_checksum, update_sysfile, BLOCK_SIZE, CREDIT_FREEPLAY_OFFSET};
use applechu::system_config::{cabinet_mode_of_str, is_sp_mode, CabinetMode, SystemConfig};
use applechu::vfs::{resolve_path, select_option_path, VfsRoot};

#[test]
fn runtime_config_bits_round_trip() {
    for bits in 0..8 {
        assert_eq!(ClockConfig::decode(bits).encode(), bits);
    }
}

#[test]
fn updates_the_same_crc32_used_by_segtools() {
    let mut block = vec![0; BLOCK_SIZE];
    block[CREDIT_FREEPLAY_OFFSET] = 1;
    update_checksum(&mut block);
    assert_eq!(u32::from_le_bytes(block[..4].try_into().unwrap()), crc32(&block[4..]));
}

#[test]
fn crc32_matches_the_ieee_check_value() {
    assert_eq!(crc32(b"123456789"), 0xCBF4_3926);
    assert_eq!(crc32(b""), 0);
}

#[test]
fn sysfile_update_writes_both_copies() {
    let mut data = vec![0u8; 0x6000];
    assert!(update_sysfile(&mut data, true, 0b101));
    assert_eq!(data[10], 1);
    assert_eq!(data[0x3000 + 10], 1);
    assert_eq!(data[0x2800 + 8], 0b101);
    assert_eq!(data[0x5800 + 8], 0b101);
    assert_eq!(&data[0..512], &data[0x3000..0x3200]);
    assert_eq!(u32::from_le_bytes(data[0x2800..0x2804].try_into().unwrap()), crc32(&data[0x2804..0x2A00]));
    let mut short = vec![0u8; 16];
    assert!(!update_sysfile(&mut short, true, 1));
    assert_eq!(short, vec![0u8; 16]);
}

#[test]
fn dip_switch_bits_follow_switch_order() {
    assert_eq!(dipsw_bits([true, false, false]), 1);
    assert_eq!(dipsw_bits([false, true, true]), 6);
}

#[test]
fn missing_candidates_keep_configured_option_path() {
    assert_eq!(select_option_path(false, [false, false, false, false]), None);
}

#[test]
fn option_candidates_are_tried_in_order() {
    assert_eq!(select_option_path(true, [true, true, true, true]), None);
    assert_eq!(select_option_path(false, [false, true, true, false]), Some(1));
    assert_eq!(select_option_path(false, [false, false, false, true]), Some(3));
}

#[test]
fn virtual_paths_resolve_to_their_roots() {
    let t = resolve_path(false, b"e:\\tmpicf.icf").unwrap();
    assert_eq!((t.root, t.tail.as_slice()), (VfsRoot::Appdata, b"tmpIcf.icf".as_slice()));
    let t = resolve_path(true, b"e:\\tmpicf.icf").unwrap();
    assert_eq!((t.root, t.tail.as_slice()), (VfsRoot::Amfs, b"tmpicf.icf".as_slice()));
    let t = resolve_path(false, b"y:\\sdhd\\a.bin").unwrap();
    assert_eq!((t.root, t.tail.as_slice()), (VfsRoot::Appdata, b"sdhd\\a.bin".as_slice()));
    let t = resolve_path(false, b"c:\\mount\\option\\a001").unwrap();
    assert_eq!((t.root, t.tail.as_slice()), (VfsRoot::Option, b"a001".as_slice()));
    let t = resolve_path(false, b"c:\\users\\appuser").unwrap();
    assert_eq!((t.root, t.tail.len()), (VfsRoot::Nthome, 0));
    assert!(resolve_path(false, b"c:\\mount\\optionx").is_none());
    assert!(resolve_path(false, b"d:\\game").is_none());
}

#[test]
fn built_in_modules_are_discovered_in_stage_order() {
    let modules = registered_modules();
    let expected = [
        ("gfx::windowed::init", InitStage::Graphics, 10),
        ("gfx::monitor::init", InitStage::Graphics, 20),
        ("gfx::d3d9::init", InitStage::Graphics, 30),
        ("iohook::proc_addr::init", InitStage::PlatformCore, 10),
        ("platform::reg_hook::init", InitStage::Platform, 10),
        ("platform::vfs::init", InitStage::Platform, 20),
        ("platform::amvideo::init", InitStage::Platform, 30),
        ("platform::clock::init", InitStage::Platform, 40),
        ("platform::misc::init", InitStage::Platform, 50),
        ("platform::pcbid::init", InitStage::Platform, 60),
        ("platform::dvd::init", InitStage::Platform, 70),
        ("platform::system::init", InitStage::Platform, 80),
        ("iohook::init_all", InitStage::IoHook, 10),
        ("chuniio::init", InitStage::Device, 10),
        ("io4::init", InitStage::Device, 20),
        ("slider::init", InitStage::Device, 30),
        ("vfd::init", InitStage::Device, 40),
        ("led::init", InitStage::Device, 50),
        ("aime::init", InitStage::Device, 60),
        ("national_match::init", InitStage::Late, 10),
        ("autoplay::init_all", InitStage::Late, 20),
        ("ux::dpi_aware::init", InitStage::Late, 30),
        ("d3d9::init_all", InitStage::Late, 40),
    ];

    for (name, stage, order) in expected {
        let module = modules
            .iter()
            .find(|module| module.name.ends_with(name))
            .unwrap_or_else(|| panic!("module not registered: {name}"));
        assert_eq!(module.stage, stage, "wrong stage: {name}");
        assert_eq!(module.order, order, "wrong order: {name}");
    }

    let rank = |stage: InitStage| stage as u8;
    assert!(modules.windows(2).all(|modules| {
        let left = modules[0];
        let right = modules[1];
        (rank(left.stage), left.order, left.name) <= (rank(right.stage), right.order, right.name)
    }));
}

#[test]
fn diagnostic_switches_gate_stages() {
    assert!(stage_enabled(InitStage::Graphics, false, false, false, false));
    assert!(!stage_enabled(InitStage::Platform, true, false, true, true));
    assert!(!stage_enabled(InitStage::IoHook, false, true, true, true));
    assert!(stage_enabled(InitStage::Device, false, false, false, true));
    let modules = registered_modules();
    let enabled = vec![true; modules.len()];
    let plan = init_all(&modules, &enabled, (true, true, true, false));
    assert!(plan.iter().all(|&i| modules[i].stage != InitStage::Device));
    assert_eq!(plan.len(), modules.len() - 6);
}

#[test]
fn cabinet_mode_selects_its_fixed_refresh_rate() {
    let sp = SystemConfig::default();
    let cvt = SystemConfig { lan_slave: true, mode: CabinetMode::Cvt, ..SystemConfig::default() };

    let sp_dipsw = sp.dipsw();
    let cvt_dipsw = cvt.dipsw();

    assert_eq!(sp_dipsw, [true, false, false]);
    assert_eq!(cvt_dipsw, [false, true, true]);
}

#[test]
fn cabinet_mode_setting_ignores_case_and_spaces() {
    assert_eq!(cabinet_mode_of_str(" Sp "), Some(CabinetMode::Sp));
    assert_eq!(cabinet_mode_of_str("CVT"), Some(CabinetMode::Cvt));
    assert_eq!(cabinet_mode_of_str("cvt2"), None);
    assert_eq!(cabinet_mode_of_str("\u{3000}\tcvt\r\n"), Some(CabinetMode::Cvt));
    assert_eq!(cabinet_mode_of_str("s p"), None);
    let value = toml::Value::String(String::from("cvt"));
    assert_eq!(CabinetMode::parse(&value), Some(CabinetMode::Cvt));
    assert_eq!(CabinetMode::parse(&toml::Value::Integer(1)), None);
    let off = SystemConfig { enabled: false, mode: CabinetMode::Cvt, ..SystemConfig::default() };
    assert!(is_sp_mode(Some(&off)));
    assert!(is_sp_mode(None));
}

#[test]
fn timezone_names_and_hooks() {
    assert_eq!(timezone_mode("REAL"), TimezoneMode::Real);
    assert_eq!(timezone_mode("System"), TimezoneMode::Real);
    assert_eq!(timezone_mode("jst"), TimezoneMode::Jst);
    let c = ClockConfig { timezone: TimezoneMode::Real, timewarp: false, writeable: true };
    assert_eq!(hooks_needed(c), (false, false, false));
    assert_eq!(ClockConfig::decode(5), ClockConfig { timezone: TimezoneMode::Jst, timewarp: false, writeable: true });
}

#[test]
fn filetime_ticks_round_trip() {
    let f = FileTime { low_date_time: 0x89AB_CDEF, high_date_time: 0x0123_4567 };
    assert_eq!(filetime_ticks(f), 0x0123_4567_89AB_CDEF);
    assert_eq!(ticks_to_filetime(filetime_ticks(f)), f);
}

#[test]
fn configured_adapter_falls_back_to_primary_when_out_of_range() {
    let monitor = MonitorSelection::new(2);
    assert_eq!(monitor.select_adapter(3), 2);
    assert_eq!(monitor.select_adapter(2), 0);
    assert_eq!(monitor.select_adapter(0), 0);
    assert_eq!(MonitorSelection::new(-4).preferred_adapter(), 0);
}

#[test]
fn force_windowed_sets_required_d3d_fields() {
    let mut parameters =
        D3dPresentParameters { windowed: 0, full_screen_refresh_rate_in_hz: 60, ..Default::default() };

    parameters.force_windowed();

    assert_eq!(parameters.windowed, 1);
    assert_eq!(parameters.full_screen_refresh_rate_in_hz, 0);
}

#[test]
fn bundled_applechu_is_not_loaded_as_external_mod() {
    let names = ["AppleChu.dll", "applechu.DLL", "CustomIo.dll"];

    let selected = names.into_iter().filter(|name| should_load_external_mod(name)).collect::<Vec<_>>();

    assert_eq!(selected, ["CustomIo.dll"]);
}

#[test]
fn log_levels_have_their_tags() {
    assert_eq!(LogLevel::Warn.label(), "WARN");
    assert_eq!(LogLevel::Error.body_ansi(), "\x1b[91m");
}

#[test]
fn time_warp_slows_the_day_and_skips_maintenance() {
    assert_eq!(warp_ticks(0), (0, -15_000_000_000));
    assert_eq!(warp_ticks(133_000_000_000_000_000), (153_935, 132_999_951_666_666_666));
    assert_eq!(warp_ticks(-100_000_000_000), (0, -94_166_666_666));
    assert_eq!(warp_ticks(i64::MAX), (-10_675_199, -9_223_372_030_843_364_182));
    let now = ticks_to_filetime(133_000_000_000_000_000);
    let (day, fake) = warp_file_time(now);
    assert_eq!(day, 153_935);
    assert_eq!(filetime_ticks(fake), 132_999_951_666_666_666);
    assert!(!day_changed(0, 5));
    assert!(!day_changed(5, 5));
    assert!(day_changed(4, 5));
}

#[test]
fn clock_hook_steps_follow_the_configuration() {
    let jst = clock_config("jst", 1, false);
    assert_eq!(jst, ClockConfig { timezone: TimezoneMode::Jst, timewarp: true, writeable: false });
    let real = clock_config("Local", 0, true);
    assert_eq!(real, ClockConfig { timezone: TimezoneMode::Real, timewarp: false, writeable: true });
    assert_eq!(file_time_step(jst, true, true), FileTimeStep::Warp);
    assert_eq!(file_time_step(jst, true, false), FileTimeStep::InvalidParameter);
    assert_eq!(file_time_step(real, true, true), FileTimeStep::Original);
    assert_eq!(file_time_step(jst, false, true), FileTimeStep::Nothing);
    assert_eq!(local_time_step(jst, false), LocalTimeStep::Jst);
    assert_eq!(local_time_step(real, true), LocalTimeStep::Original);
    assert_eq!(local_time_step(real, false), LocalTimeStep::Nothing);
    assert_eq!(zone_step(jst, true, true), ZoneStep::Jst);
    assert_eq!(zone_step(jst, true, false), ZoneStep::Fail { last_error: Some(87), result: 0xFFFF_FFFF });
    assert_eq!(zone_step(real, true, true), ZoneStep::Original);
    assert_eq!(zone_step(real, false, true), ZoneStep::Fail { last_error: None, result: 0xFFFF_FFFF });
    assert_eq!(set_clock_step(jst, true), SetClockStep::Return(1));
    assert_eq!(set_clock_step(real, true), SetClockStep::Forward);
    assert_eq!(set_clock_step(real, false), SetClockStep::Return(0));
    let utc = ticks_to_filetime(1_000);
    assert_eq!(filetime_ticks(jst_local_file_time(utc)), 324_000_001_000);
}

#[test]
fn am_daemon_order_picks_modules_by_suffix() {
    let modules = registered_modules();
    assert!(bytes_ends_with(b"platform::clock::init", b"clock::init"));
    assert!(!bytes_ends_with(b"init", b"clock::init"));
    assert_eq!(find_by_suffix(&modules, "clock::init"), Some(9));
    assert_eq!(find_by_suffix(&modules, "io4::init"), Some(17));
    assert_eq!(find_by_suffix(&modules, "missing::init"), None);
    let mut enabled = vec![true; modules.len()];
    assert_eq!(init_ordered(&modules, &enabled, &["io4::init", "clock::init"]), Ok(vec![17, 9]));
    enabled[17] = false;
    assert_eq!(init_ordered(&modules, &enabled, &["io4::init", "clock::init"]), Ok(vec![9]));
    assert_eq!(init_ordered(&modules, &enabled, &["clock::init", "nope"]), Err(1));
}

#[test]
fn modules_shut_down_in_reverse_start_order() {
    let mut started = StartedModules::new();
    started.remember(1);
    started.remember(2);
    started.remember(3);
    assert_eq!(started.take_shutdown_order(), vec![3, 2, 1]);
    assert!(started.take_shutdown_order().is_empty());
    assert_eq!(init_outcome(true, false, true), InitOutcome::Remember);
    assert_eq!(init_outcome(true, true, false), InitOutcome::Done);
    assert_eq!(init_outcome(false, false, true), InitOutcome::Done);
    assert_eq!(init_outcome(false, true, true), InitOutcome::Exit);
    assert_eq!(disabled_notices((false, false, false, false)), vec![DisabledNotice::Platform, DisabledNotice::Hardware]);
    assert_eq!(disabled_notices((true, false, false, true)), vec![DisabledNotice::PlatformModules, DisabledNotice::DeviceIo]);
    assert!(disabled_notices((true, true, true, true)).is_empty());
}

#[test]
fn warped_clock_skips_maintenance_and_never_runs_back() {
    const HOUR: i64 = 36_000_000_000;
    const DAY: i64 = 24 * HOUR;
    let start = 133_000_000_000_000_000i64;
    let mut previous = i64::MIN;
    for step in 0..(3 * 24 * 12) {
        let now = start + step * HOUR / 12;
        let (_, fake) = warp_ticks(now);
        let of_day = fake.rem_euclid(DAY);
        assert!(!(17 * HOUR <= of_day && of_day < 22 * HOUR), "warped clock shows maintenance time");
        assert!(fake >= previous, "warped clock ran backwards");
        previous = fake;
    }
}

#[test]
fn external_mods_are_started_with_files_named_after_their_stem() {
    assert_eq!(mod_stem("Foo.dll"), "Foo");
    assert_eq!(mod_stem("Foo.DLL"), "Foo");
    assert_eq!(mod_stem("Foo.Dll"), "Foo.Dll");
    assert_eq!(mod_stem("dll"), "dll");
    let paths = mod_paths("C:\\game", "Foo");
    assert_eq!(paths.log, "C:\\game\\mods\\log\\Foo.log");
    assert_eq!(paths.toml_config, "C:\\game\\mods\\config\\Foo.toml");
    assert_eq!(paths.ini_config, "C:\\game\\mods\\config\\Foo.ini");
    assert_eq!(paths.manifest, "C:\\game\\mods\\manifest\\Foo.toml");
    assert!(mod_init_accepted(Some(0)));
    assert!(!mod_init_accepted(Some(1)));
    assert!(!mod_init_accepted(None));
}
