use applechu::bytes::u32_to_le;
use applechu::hresult::{hresult_from_win32, E_FAIL, S_OK};
use applechu::iohook::{ioctl_args_valid, ioctl_finish, simple_finish, write_file_finish, Completion};
use applechu::loader::{log_error, LogLevel};
use applechu::module_registry::{hook_mode_switches, normalize_init_result, HookModeConfig};
use applechu::vfs::{mount_key, option_proc, OptionProc, VfsConfig, VfsState};
use applechu::iobuf::{iobuf_read, iobuf_write, IoBuf};
use applechu::national_match::{
    apply_intersection, build_frame, deliver_counts, difficulty_addrs, encode_music, parse_frame_header, MusicNode, RelayState, SendRoute,
    TYPE_MUSIC, TYPE_TUNNEL,
};
use applechu::platform::{
    amvideo_keys, amvideo_proc, computer_name_reply, is_amvideo_path, platform_keys, query_dos_device_result,
    validate_serial, AmVideoProc, ComputerName,
};
use applechu::platform::{exit_windows_reply, vbios_version_reply};
use applechu::reg_hook::{REG_DWORD, REG_SZ};
use applechu::serial::{
    comm_errors_from_status, comstat_from_status, escape_ioctl, finish, CE_OVERRUN, CE_RXPARITY, SERIAL_ERROR_PARITY,
    SERIAL_ERROR_QUEUEOVERRUN, SETDTR,
};
use applechu::uart::{
    bind_handle, port_from_handle, purge, push_readable, push_readable_port_bounded, snapshot, uart_init, SerialStatus,
    UartRegistry, IOCTL_SERIAL_SET_DTR,
};

fn utf16(s: &str) -> Vec<u16> {
    s.encode_utf16().collect()
}

#[test]
fn relay_routes_outgoing_datagrams() {
    let mut relay = RelayState::new();
    assert!(matches!(relay.route_send(b"hello", Some(([1, 2, 3, 4], 5)), &[0, 0]), SendRoute::Passthrough));
    let punch = b"{\"role\":1}";
    match relay.route_send(punch, Some(([9, 9, 9, 9], 7000)), &[0, 0]) {
        SendRoute::Relay { frames, reported } => {
            assert_eq!(frames, vec![build_frame(0, punch), build_frame(TYPE_MUSIC, &[0, 0])]);
            assert_eq!(reported, punch.len() as u32);
        }
        SendRoute::Passthrough => panic!("the hole punch goes to the reflector"),
    }
    assert_eq!(relay.reflector_addr, Some([9, 9, 9, 9]));
    assert_eq!(relay.reflector_port, 7000);
    assert!(relay.music_sent);
    match relay.route_send(punch, Some(([9, 9, 9, 9], 7000)), &[0, 0]) {
        SendRoute::Relay { frames, .. } => assert_eq!(frames, vec![build_frame(0, punch)]),
        SendRoute::Passthrough => panic!("the hole punch goes to the reflector"),
    }
    match relay.route_send(b"abc", Some(([9, 9, 9, 9], 1234)), &[0, 0]) {
        SendRoute::Relay { frames, reported } => {
            assert_eq!(frames, vec![vec![1, 3, 0, b'a', b'b', b'c']]);
            assert_eq!(reported, 3);
        }
        SendRoute::Passthrough => panic!("datagrams to the reflector are relayed"),
    }
    match relay.route_send(b"abc", Some(([5, 6, 7, 8], 0x1234)), &[0, 0]) {
        SendRoute::Relay { frames, .. } => {
            assert_eq!(frames, vec![vec![TYPE_TUNNEL, 9, 0, 5, 6, 7, 8, 0x12, 0x34, b'a', b'b', b'c']])
        }
        SendRoute::Passthrough => panic!("datagrams to peers are tunnelled"),
    }
    assert!(matches!(relay.route_send(b"abc", None, &[0, 0]), SendRoute::Passthrough));
}

#[test]
fn relay_delivers_incoming_frames() {
    let mut relay = RelayState::new();
    let _ = relay.route_send(b"{\"ro", Some(([9, 9, 9, 9], 7000)), &[0, 0]);
    let tunnel = relay.route_recv(TYPE_TUNNEL, &[5, 6, 7, 8, 0x12, 0x34, 1, 2]);
    assert_eq!(tunnel.from_ip, [5, 6, 7, 8]);
    assert_eq!(tunnel.from_port, 0x1234);
    assert_eq!(tunnel.data, vec![1, 2]);
    assert!(!tunnel.apply_music);
    let music = relay.route_recv(TYPE_MUSIC, &[1, 0, 7, 0, 5]);
    assert_eq!(music.data, b"{\"isFinish\":false}\0".to_vec());
    assert_eq!((music.from_ip, music.from_port), ([9, 9, 9, 9], 7000));
    assert!(music.apply_music);
    let plain = relay.route_recv(1, b"xyz");
    assert_eq!(plain.data, b"xyz".to_vec());
    assert_eq!(plain.from_ip, [9, 9, 9, 9]);
    assert_eq!(parse_frame_header([2, 0x34, 0x12]), (2, 0x1234));
    assert_eq!(deliver_counts(&[3, 0, 10], 5), vec![3, 0, 2]);
    assert_eq!(deliver_counts(&[8], 5), vec![5]);
}

#[test]
fn intersection_rewrites_named_musics_only() {
    let payload = encode_music(&[(7, 0b101)]);
    let musics = [MusicNode { id: 7, difficulties: vec![0, 1, 2] }, MusicNode { id: 8, difficulties: vec![0] }];
    assert_eq!(apply_intersection(&payload, &musics), vec![Some(vec![1, 0, 1]), None]);
}

#[test]
fn pcbid_serial_and_computer_name() {
    assert!(validate_serial("ACAE01A99999999").is_ok());
    assert!(validate_serial("ACAE01A9999999").is_err());
    assert!(validate_serial("ACAE01A999999９").is_err());
    match computer_name_reply(Some("ACAE01A99999999"), Some(16)) {
        ComputerName::Serial { bytes, len } => {
            assert_eq!(bytes, b"ACAE01A99999999\0".to_vec());
            assert_eq!(len, 15);
        }
        _ => panic!("the serial fits"),
    }
    assert!(matches!(computer_name_reply(Some("ACAE01A99999999"), Some(15)), ComputerName::BufferTooSmall));
    assert!(matches!(computer_name_reply(Some("ACAE01A99999999"), None), ComputerName::InvalidParameter));
    assert!(matches!(computer_name_reply(None, Some(16)), ComputerName::PassThrough));
}

#[test]
fn dvd_drives_are_hidden() {
    assert_eq!(query_dos_device_result(10, Some(&utf16("\\Device\\CdRom0"))), 0);
    assert_eq!(query_dos_device_result(10, Some(&utf16("\\Device\\HarddiskVolume1"))), 10);
    assert_eq!(query_dos_device_result(0, Some(&utf16("\\Device\\CdRom0"))), 0);
    assert_eq!(query_dos_device_result(7, None), 7);
}

#[test]
fn platform_and_amvideo_keys() {
    let keys = platform_keys(false, "C:\\next.exe");
    assert_eq!(keys.len(), 3);
    assert_eq!(keys[0].path, "SYSTEM\\SEGA\\SystemProperty");
    assert_eq!(keys[1].values[0].name, "CpuTempError");
    assert_eq!(keys[1].values[0].ty, REG_DWORD);
    assert_eq!(keys[1].values[0].bytes, vec![100, 0, 0, 0]);
    assert_eq!(keys[2].path, "SYSTEM\\SEGA\\SystemProperty\\Master");
    assert_eq!(keys[2].values[1].name, "NextProcess");
    assert_eq!(keys[2].values[1].ty, REG_SZ);
    let mut expected: Vec<u8> = Vec::new();
    for unit in utf16("C:\\next.exe") {
        expected.extend_from_slice(&unit.to_le_bytes());
    }
    expected.extend_from_slice(&[0, 0]);
    assert_eq!(keys[2].values[1].bytes, expected);
    assert_eq!(platform_keys(true, "").len(), 2);
    let video = amvideo_keys();
    assert_eq!(video.len(), 2);
    assert_eq!(video[1].values.len(), 13);
    assert_eq!(video[1].values[10].name, "resolution_1");
    assert!(is_amvideo_path("C:/Windows/AMVIDEO.DLL"));
    assert!(is_amvideo_path("$AmVideo"));
    assert!(!is_amvideo_path("amvideo.dll.bak"));
    assert_eq!(amvideo_proc("amDllVideoOpen"), Some(AmVideoProc::Open));
    assert_eq!(amvideo_proc("amDllVideoGetVBiosVersion"), Some(AmVideoProc::GetVBiosVersion));
    assert_eq!(amvideo_proc("amDllVideoopen"), None);
}

#[test]
fn serial_status_and_escape_functions() {
    assert_eq!(comm_errors_from_status(SERIAL_ERROR_QUEUEOVERRUN | SERIAL_ERROR_PARITY), CE_OVERRUN | CE_RXPARITY);
    assert_eq!(comm_errors_from_status(0), 0);
    let stat = comstat_from_status(SerialStatus {
        errors: 0,
        hold_reasons: 0x1 | 0x20,
        amount_in_in_queue: 7,
        amount_in_out_queue: 3,
        eof_received: 1,
        wait_for_immediate: 0,
    });
    assert_eq!(stat.flags, 0b1 | 0b1_0000 | 0b10_0000);
    assert_eq!((stat.cb_in_que, stat.cb_out_que), (7, 3));
    assert_eq!(escape_ioctl(SETDTR), Some(IOCTL_SERIAL_SET_DTR));
    assert_eq!(escape_ioctl(99), None);
    assert_eq!(finish(S_OK, true), (1, Some(0)));
    assert_eq!(finish(S_OK, false), (1, None));
    assert_eq!(finish(hresult_from_win32(5), false), (0, Some(5)));
    assert_eq!(finish(E_FAIL, true).0, 0);
}

#[test]
fn io_buffers_move_what_fits() {
    let mut src = IoBuf::with_data(vec![1, 2, 3, 4, 5], 5);
    let mut dest = IoBuf::new(vec![0; 3]);
    assert_eq!(iobuf_read(&mut dest, &mut src), 3);
    assert_eq!(dest.bytes, vec![1, 2, 3]);
    assert_eq!((dest.nbytes, src.pos), (3, 3));
    let mut more = IoBuf::new(vec![0; 4]);
    assert_eq!(iobuf_write(&mut more, &mut src), 2);
    assert_eq!(more.bytes, vec![4, 5, 0, 0]);
    assert_eq!(iobuf_write(&mut more, &mut src), 0);
}

#[test]
fn hooked_io_calls_complete_as_win32_expects() {
    use_completions();
}

fn use_completions() {
    let ok = write_file_finish(S_OK, true, false, 12);
    assert!(ok == Completion { ret: 1, last_error: Some(0), returned: Some(12), overlapped: None });
    let pending = write_file_finish(S_OK, false, true, 12);
    assert!(pending == Completion { ret: 0, last_error: Some(997), returned: None, overlapped: Some(12) });
    let failed = write_file_finish(hresult_from_win32(5), true, true, 12);
    assert!(failed == Completion { ret: 0, last_error: Some(5), returned: None, overlapped: None });
    let partial = ioctl_finish(hresult_from_win32(234), true, false, 4);
    assert!(partial == Completion { ret: 0, last_error: Some(234), returned: Some(4), overlapped: None });
    assert!(simple_finish(S_OK, true) == Completion { ret: 1, last_error: Some(0), returned: None, overlapped: None });
    assert!(simple_finish(S_OK, false) == Completion { ret: 1, last_error: None, returned: None, overlapped: None });
    assert!(ioctl_args_valid(0x10, true, false));
    assert!(ioctl_args_valid(0x10, false, true));
    assert!(!ioctl_args_valid(0x10, false, false));
    assert!(!ioctl_args_valid(0, true, true));
    assert!(!ioctl_args_valid(usize::MAX, true, true));
}

#[test]
fn serial_ports_purge_and_resolve_handles() {
    let mut reg = UartRegistry::new();
    uart_init(&mut reg, 3);
    bind_handle(&mut reg, 0x44, 3);
    assert_eq!(port_from_handle(&reg, 0x44), Some(3));
    assert_eq!(port_from_handle(&reg, 0x45), None);
    assert!(push_readable(&mut reg, 0x44, &[1, 2, 3]));
    assert_eq!(snapshot(&reg, 0x44).map(|s| s.input_queue), Some(3));
    assert!(purge(&mut reg, 0x44));
    assert_eq!(snapshot(&reg, 0x44).map(|s| s.input_queue), Some(0));
    assert!(!purge(&mut reg, 0x45));
}

#[test]
fn small_helpers_state_their_values() {
    assert_eq!(u32_to_le(0x1234_5678), [0x78, 0x56, 0x34, 0x12]);
    assert_eq!(hook_mode_switches(None), (true, true, true, true));
    let mode = HookModeConfig { platform: true, devices: false, platform_modules: false, iohook: true };
    assert_eq!(hook_mode_switches(Some(&mode)), (true, false, true, false));
    let state = VfsState {
        config: Some(VfsConfig {
            amfs: "E:\\amfs".to_owned(),
            option: "X:\\option".to_owned(),
            appdata: "Y:\\appdata".to_owned(),
            nthome: "E:\\nthome".to_owned(),
            allow_amfs_downloads: false,
        }),
    };
    assert_eq!(state.amfs_path().as_deref(), Some("E:\\amfs"));
    assert_eq!(state.appdata_path().as_deref(), Some("Y:\\appdata"));
    assert_eq!(VfsState { config: None }.amfs_path(), None);
    let entry = log_error("boom");
    assert_eq!(entry.level, LogLevel::Error);
    assert_eq!(entry.message, "boom");
}

#[test]
fn vfs_roots_and_amdaemon_overrides() {
    let state = VfsState {
        config: Some(VfsConfig {
            amfs: "E:\\amfs".to_owned(),
            option: "X:\\option".to_owned(),
            appdata: "Y:\\appdata".to_owned(),
            nthome: "E:\\nthome".to_owned(),
            allow_amfs_downloads: true,
        }),
    };
    assert_eq!(state.root_path("option").as_deref(), Some("X:\\option"));
    assert_eq!(state.root_path("amfs").as_deref(), Some("E:\\amfs"));
    assert_eq!(state.root_path("appdata").as_deref(), Some("Y:\\appdata"));
    assert_eq!(state.root_path("nthome"), None);
    assert_eq!(VfsState { config: None }.root_path("amfs"), None);
    assert_eq!(option_proc("System_getAppRootPath"), Some(OptionProc::AppRootPath));
    assert_eq!(option_proc("AppImage_getOptionMountRootPath"), Some(OptionProc::OptionMountRootPath));
    assert_eq!(option_proc("System_getAppRootPathW"), None);
    let key = mount_key();
    assert_eq!(key.path, "SYSTEM\\SEGA\\SystemProperty\\mount");
    assert_eq!(key.values.len(), 2);
    assert_eq!(key.values[0].name, "AMFS");
    assert_eq!(key.values[1].name, "APPDATA");
    assert_eq!(key.values[1].bytes, vec![b'Y', 0, b':', 0, b'\\', 0, 0, 0]);
}

#[test]
fn amvideo_firmware_and_reboot_replies() {
    assert_eq!(vbios_version_reply(true, 64), Some(b"01.02.03.04.05\0".to_vec()));
    assert_eq!(vbios_version_reply(true, 5), Some(b"01.0\0".to_vec()));
    assert_eq!(vbios_version_reply(true, 1), Some(vec![0]));
    assert_eq!(vbios_version_reply(true, 0), None);
    assert_eq!(vbios_version_reply(false, 64), None);
    assert_eq!(exit_windows_reply(false, true), Some(1));
    assert_eq!(exit_windows_reply(true, true), None);
    assert_eq!(exit_windows_reply(true, false), Some(0));
}

#[test]
fn module_start_results_are_normalized() {
    assert_eq!(normalize_init_result(()), Ok(()));
    assert_eq!(normalize_init_result(Ok::<(), String>(())), Ok(()));
    assert_eq!(normalize_init_result(Err::<(), String>("boom".to_owned())), Err("boom".to_owned()));
    assert_eq!(normalize_init_result(Err::<(), &str>("boom")), Err("boom".to_string()));
    assert_eq!(normalize_init_result(Ok::<(), &str>(())), Ok(()));
}

#[test]
fn iobuf_copy_into_an_overfilled_destination_moves_nothing() {
    let mut src = IoBuf::with_data(vec![1, 2, 3], 3);
    let mut dest = IoBuf::new(vec![9; 2]);
    dest.nbytes = 5;
    assert_eq!(iobuf_write(&mut dest, &mut src), 0);
    assert_eq!(dest.bytes, vec![9, 9]);
    assert_eq!(src.pos, 0);
}

#[test]
fn refused_bounded_push_leaves_the_registry_alone() {
    let mut reg = UartRegistry::new();
    uart_init(&mut reg, 3);
    bind_handle(&mut reg, 0x44, 3);
    assert!(push_readable_port_bounded(&mut reg, 3, &[1, 2, 3], 4));
    assert!(!push_readable_port_bounded(&mut reg, 3, &[4, 5], 4));
    assert!(!push_readable_port_bounded(&mut reg, 9, &[4], 4));
    let snap = snapshot(&reg, 0x44).unwrap();
    assert_eq!(snap.input_queue, 3);
    assert_eq!(snap.modem_status, 0);
    assert_eq!(reg.ports.len(), 1);
    assert_eq!(reg.ports[&3].readable, vec![1, 2, 3]);
}

#[test]
fn vfs_resolves_full_paths_onto_the_configured_roots() {
    let state = VfsState {
        config: Some(VfsConfig {
            amfs: "D:\\amfs".to_owned(),
            option: "D:\\option\\".to_owned(),
            appdata: "D:\\appdata".to_owned(),
            nthome: "D:\\home".to_owned(),
            allow_amfs_downloads: false,
        }),
    };
    assert_eq!(VfsState { config: None }.resolve(b"e:\\icf1"), None);
    assert_eq!(state.resolve(b"e:\\icf1"), Some(b"D:\\amfs\\icf1".to_vec()));
    assert_eq!(state.resolve(b"e:"), Some(b"D:\\amfs".to_vec()));
    assert_eq!(state.resolve(b"e:\\tmpicf.icf"), Some(b"D:\\appdata\\tmpIcf.icf".to_vec()));
    assert_eq!(state.resolve(b"c:\\mount\\apm\\a001"), Some(b"D:\\option\\a001".to_vec()));
    assert_eq!(state.resolve(b"c:\\users\\appuser"), Some(b"D:\\home".to_vec()));
    assert_eq!(state.resolve(b"c:\\mount\\optionx"), None);
}

#[test]
fn difficulty_entries_step_through_the_vector_and_stop_at_64() {
    assert_eq!(difficulty_addrs(0x1000, 0x10C0), vec![0x1000, 0x1040, 0x1080]);
    assert_eq!(difficulty_addrs(0x1000, 0x1000), Vec::<usize>::new());
    let capped = difficulty_addrs(0x1000, 0x1001);
    assert_eq!(capped.len(), 64);
    assert_eq!(capped[63], 0x1000 + 63 * 0x40);
    assert_eq!(difficulty_addrs(usize::MAX - 0x3F, 0x0), vec![usize::MAX - 0x3F]);
}
