use applechu::exit_trace::{
    crash_frame_line, exception_reported, exit_frame_line, exit_is_fatal, exit_report, module_offset, registers_text,
    symbol_text, EXIT_REPORT_HEAD,
};
use applechu::loader::{
    banner_lines, colored_line, console_mode_request, console_sink, formatted_len, output_write, plain_line,
    timestamp, write_len, LogLevel, OutputSink, OutputWrite,
};
use applechu::present::{
    fps_window_end, frame_due, frame_interval, present_needs_recovery, recovery_step, reset_succeeded,
    should_patch_slot, CallbackSlots, RecoveryStep, D3DERR_DEVICELOST, D3DERR_DEVICENOTRESET, D3D_OK,
};

#[test]
fn timestamps_are_zero_padded() {
    assert_eq!(timestamp(9, 5, 7, 42), b"09:05:07.042".to_vec());
    assert_eq!(timestamp(23, 59, 59, 999), b"23:59:59.999".to_vec());
    assert_eq!(timestamp(123, 0, 0, 1234), b"123:00:00.1234".to_vec());
}

#[test]
fn loader_lines_have_plain_and_coloured_forms() {
    let t = timestamp(9, 5, 7, 42);
    assert_eq!(plain_line(&t, LogLevel::Warn, "hello"), b"[09:05:07.042] [loader] [WARN] hello\n".to_vec());
    assert_eq!(plain_line(&t, LogLevel::Info, ""), b"[09:05:07.042] [loader] [INFO] \n".to_vec());
    assert_eq!(
        colored_line(&t, LogLevel::Error, "x"),
        b"\x1b[92m[09:05:07.042]\x1b[0m \x1b[96m[loader]\x1b[0m \x1b[91m[ERROR] x\x1b[0m\n".to_vec()
    );
    let (plain, colored) = banner_lines(&t, b"\x1b[96m", "sep");
    assert_eq!(plain, b"[09:05:07.042] sep\n".to_vec());
    assert_eq!(colored, b"\x1b[92m[09:05:07.042]\x1b[0m \x1b[96msep\x1b[0m\n".to_vec());
}

#[test]
fn output_sinks_pick_the_right_form() {
    let plain = b"p".to_vec();
    let colored = b"c".to_vec();
    assert!(matches!(output_write(OutputSink::Nowhere, &plain, &colored), OutputWrite::Nothing));
    match output_write(OutputSink::Console { handle: 7, ansi_enabled: true }, &plain, &colored) {
        OutputWrite::Console { handle, text } => {
            assert_eq!(handle, 7);
            assert_eq!(text, b"c");
        }
        _ => panic!("expected console output"),
    }
    match output_write(OutputSink::Console { handle: 7, ansi_enabled: false }, &plain, &colored) {
        OutputWrite::Console { text, .. } => assert_eq!(text, b"p"),
        _ => panic!("expected console output"),
    }
    match output_write(OutputSink::Stream(9), &plain, &colored) {
        OutputWrite::Stream { handle, text } => {
            assert_eq!(handle, 9);
            assert_eq!(text, b"p");
        }
        _ => panic!("expected stream output"),
    }
    assert_eq!(write_len(5), 5);
    assert_eq!(formatted_len(-1, 480), 0);
    assert_eq!(formatted_len(10, 480), 10);
    assert_eq!(formatted_len(600, 480), 479);
    assert_eq!(console_mode_request(0x2), 0x7);
    assert_eq!(console_sink(3, false, Some(4), true, true), OutputSink::Nowhere);
    assert_eq!(console_sink(3, true, None, true, true), OutputSink::Stream(3));
    assert_eq!(console_sink(3, true, Some(0), true, false), OutputSink::Console { handle: 3, ansi_enabled: false });
    assert_eq!(console_sink(3, true, Some(4), false, false), OutputSink::Console { handle: 3, ansi_enabled: true });
    assert_eq!(console_sink(3, true, Some(3), false, true), OutputSink::Console { handle: 3, ansi_enabled: false });
}

#[test]
fn exit_reports_name_the_reason_and_stack() {
    let report = exit_report("abort()", "exit_stack:\n");
    let mut expected = EXIT_REPORT_HEAD.as_bytes().to_vec();
    expected.extend_from_slice(b"abort()\n\nexit_stack:\n");
    assert_eq!(report, expected);
    assert!(EXIT_REPORT_HEAD.starts_with("=== Chusan Exited Unexpectedly"));
    assert!(!exception_reported(0xE06D_7363));
    assert!(!exception_reported(0x406D_1388));
    assert!(exception_reported(0xC000_0005));
    assert!(exit_is_fatal(1));
    assert!(!exit_is_fatal(0));
}

#[test]
fn stack_frames_and_registers_are_listed() {
    assert_eq!(
        exit_frame_line(3, 0x0040_1000, Some((b"chusanApp.exe", 0x1000))),
        b"  #03 0x00401000 chusanApp.exe+0x1000\n".to_vec()
    );
    assert_eq!(exit_frame_line(3, 0x0040_1000, None), b"  #03 0x00401000 <unknown>\n".to_vec());
    assert_eq!(exit_frame_line(100, 0x1_2345_6789, Some((b"", 0xABC))), b"  #100 0x123456789 <module>+0xABC\n".to_vec());
    assert_eq!(crash_frame_line(12, 0xDEAD_BEEF, Some(b"foo+0x10"), None), b"  #12 0xDEADBEEF foo+0x10\n".to_vec());
    assert_eq!(crash_frame_line(0, 0x10, None, Some((b"a.dll", 0))), b"  #00 0x00000010 a.dll+0x0\n".to_vec());
    assert_eq!(symbol_text(b"main", 0x1F), b"main+0x1F".to_vec());
    assert_eq!(module_offset(0x1500, 0x1000), 0x500);
    assert_eq!(module_offset(0x0500, 0x1000), 0);
    assert_eq!(
        registers_text([1, 2, 3, 4, 5, 6, 7, 8, 9, 0x246]),
        b"\nregisters:\n  EAX=0x00000001 EBX=0x00000002 ECX=0x00000003 EDX=0x00000004\n  ESI=0x00000005 EDI=0x00000006 EBP=0x00000007 ESP=0x00000008\n  EIP=0x00000009 EFLAGS=0x00000246\n".to_vec()
    );
}

#[test]
fn callback_slots_fill_in_order() {
    let mut slots = CallbackSlots::new(2);
    assert_eq!(slots.register(Some(10)), 0);
    assert_eq!(slots.register(None), -1);
    assert_eq!(slots.register(Some(20)), 0);
    assert_eq!(slots.register(Some(30)), -1);
    assert_eq!(slots.live(), vec![10, 20]);
    assert!(CallbackSlots::new(3).live().is_empty());
}

#[test]
fn frame_lock_and_device_recovery_decisions() {
    assert_eq!(frame_interval(10_000_000, 60), Some(166_666));
    assert_eq!(frame_interval(0, 60), None);
    assert_eq!(frame_interval(10_000_000, 0), None);
    assert!(frame_due(5, u64::MAX, 6));
    assert!(!frame_due(100, 50, 51));
    assert!(frame_due(101, 50, 51));
    assert!(present_needs_recovery(D3DERR_DEVICELOST));
    assert!(!present_needs_recovery(D3D_OK));
    assert!(reset_succeeded(0));
    assert!(!reset_succeeded(D3DERR_DEVICELOST));
    assert_eq!(recovery_step(D3DERR_DEVICENOTRESET), RecoveryStep::Reset);
    assert_eq!(recovery_step(D3D_OK), RecoveryStep::Done);
    assert_eq!(recovery_step(D3DERR_DEVICELOST), RecoveryStep::Wait);
    assert_eq!(D3DERR_DEVICELOST as u32, 0x8876_0868);
    assert!(should_patch_slot(1, 2, false));
    assert!(!should_patch_slot(2, 2, false));
    assert!(!should_patch_slot(1, 2, true));
    assert_eq!(fps_window_end(30, 10, 20), Some(20));
    assert_eq!(fps_window_end(30, 10, 21), None);
    assert_eq!(fps_window_end(5, 10, 1), None);
    assert_eq!(fps_window_end(5, 0, 0), None);
}
