use applechu::io4::{
    build_report, foreground_matches, io4_handle_irp, manufacturer_string_utf16, path_bytes_match, product_string_utf16, ChusanIo4Ops,
    output_command, Io4Device, Io4Ops, Io4Outcome, OutputCommand, Io4State, BUTTON_SERVICE, BUTTON_TEST, IOCTL_HID_GET_INPUT_REPORT,
    IOCTL_HID_GET_MANUFACTURER_STRING, IOCTL_HID_SET_OUTPUT_REPORT, REPORT_LEN,
};
use applechu::uart_irp::{IrpOp, UartIrp};

struct FixedOps(Io4State);

impl Io4Ops for FixedOps {
    fn poll(&self) -> Io4State {
        self.0
    }

    fn write_gpio(&self, _payload: &[u8]) -> Result<(), i32> {
        Ok(())
    }

    fn write_pwm(&self, _payload: &[u8]) -> Result<(), i32> {
        Ok(())
    }

    fn write_unique(&self, _payload: &[u8]) -> Result<(), i32> {
        Ok(())
    }
}

/// Answers each output command with a code made of the command, the payload
/// length and the payload's first byte, so a test sees what was handed over.
struct EchoOps;

fn echo(cmd: i32, payload: &[u8]) -> Result<(), i32> {
    Err(cmd * 1_000_000 + (payload.len() as i32) * 1000 + payload[0] as i32)
}

impl Io4Ops for EchoOps {
    fn poll(&self) -> Io4State {
        Io4State::default()
    }

    fn write_gpio(&self, payload: &[u8]) -> Result<(), i32> {
        echo(4, payload)
    }

    fn write_pwm(&self, payload: &[u8]) -> Result<(), i32> {
        echo(5, payload)
    }

    fn write_unique(&self, payload: &[u8]) -> Result<(), i32> {
        echo(0x41, payload)
    }
}

fn irp(op: IrpOp, handle: usize) -> UartIrp {
    UartIrp {
        op,
        handle,
        open_name_a: None,
        open_name_w: None,
        nbytes: 0,
        has_buffer: false,
        write_data: Vec::new(),
        ioctl: 0,
        ioctl_in: Vec::new(),
        ioctl_out_capacity: 0,
    }
}

#[test]
fn report_layout_puts_words_little_endian_after_the_id() {
    let mut state = Io4State::default();
    state.adcs[0] = 0x1234;
    state.buttons[1] = 0xBEEF;
    let report = build_report(&state, 0x30);
    assert_eq!(report.len(), REPORT_LEN);
    assert_eq!(report[0], 1);
    assert_eq!(&report[1..3], &[0x34, 0x12]);
    assert_eq!(&report[31..33], &[0xEF, 0xBE]);
    assert_eq!(report[33], 0x30);
    assert!(report[34..].iter().all(|b| *b == 0));
}

#[test]
fn foreground_only_device_repeats_last_sample_in_background() {
    let mut state = Io4State::default();
    state.buttons[0] = BUTTON_TEST;
    let mut device = Io4Device::new(FixedOps(state), true);
    let background = device.read_report(false);
    assert_eq!(&background[29..31], &[0, 0]);
    let front = device.read_report(true);
    assert_eq!(&front[29..31], &[0x00, 0x02]);
    assert_eq!(front[33], 0x02);
}

#[test]
fn output_commands_set_board_status() {
    let mut device = Io4Device::new(FixedOps(Io4State::default()), false);
    let mut report = [0u8; 64];
    report[0] = 0x10;
    report[1] = 0x01;
    assert_eq!(device.write_report(&report), Ok(()));
    assert_eq!(device.read_report(true)[33], 0x30);
    report[1] = 0x03;
    assert_eq!(device.write_report(&report), Ok(()));
    assert_eq!(device.read_report(true)[33], 0);
    report[1] = 0x85;
    assert_eq!(device.write_report(&report), Err(-1));
    report[1] = 0x04;
    assert_eq!(device.write_report(&report), Ok(()));
    assert_eq!(device.write_report(&report[..10]), Err(-1));
    report[0] = 0x11;
    assert_eq!(device.write_report(&report), Err(-1));
}

#[test]
fn chusan_inputs_map_to_buttons_and_coins() {
    let ops = ChusanIo4Ops { opbtn: 0x03, beams: 0b11_1110, coins: 3, api_version: 0x0102 };
    let state = ops.poll();
    assert_eq!(state.buttons[0], BUTTON_TEST | BUTTON_SERVICE | (1 << 13));
    assert_eq!(state.buttons[1], 0);
    assert_eq!(state.chutes[0], 3 << 8);
    let old = ChusanIo4Ops { opbtn: 0, beams: 0b11_1110, coins: 0, api_version: 0x0100 };
    let state = old.poll();
    assert_eq!(state.buttons[0], 0);
    assert_eq!(state.buttons[1], 1 << 13);
}

#[test]
fn device_paths_match_ignoring_case() {
    assert!(Io4Device::<ChusanIo4Ops>::matches_path("$io4\\vid_0ca3"));
    assert!(Io4Device::<ChusanIo4Ops>::matches_path("\\\\?\\HID#VID_0CA3&PID_0021"));
    assert!(!Io4Device::<ChusanIo4Ops>::matches_path("COM3"));
    assert!(path_bytes_match(b"$IO4\\VID_0CA3"));
}

#[test]
fn hid_strings_are_nul_terminated_utf16() {
    let m = manufacturer_string_utf16();
    assert_eq!(m, vec![83, 69, 71, 65, 0]);
    let p = product_string_utf16();
    assert_eq!(p.len(), 93);
    assert_eq!(p[0], 'I' as u16);
    assert_eq!(*p.last().unwrap(), 0);
}

#[test]
fn irp_handler_opens_reads_and_writes() {
    let mut device = Io4Device::new(FixedOps(Io4State::default()), false);
    let mut open = irp(IrpOp::Open, 0);
    open.open_name_w = Some("\\\\?\\hid#vid_0ca3&pid_0021".encode_utf16().collect());
    assert!(matches!(io4_handle_irp(&mut device, 7, &open, false, true), Io4Outcome::Opened));
    open.open_name_w = Some("COM1".encode_utf16().collect());
    assert!(matches!(io4_handle_irp(&mut device, 7, &open, false, true), Io4Outcome::Next));

    let other = irp(IrpOp::Read, 8);
    assert!(matches!(io4_handle_irp(&mut device, 7, &other, false, true), Io4Outcome::Next));

    let mut read = irp(IrpOp::Read, 7);
    read.has_buffer = true;
    read.nbytes = 64;
    match io4_handle_irp(&mut device, 7, &read, false, true) {
        Io4Outcome::Done { hr, out_nbytes, data } => {
            assert_eq!(hr, 0);
            assert_eq!(out_nbytes, 64);
            assert_eq!(data[0], 1);
        }
        _ => panic!("read must complete"),
    }
    assert!(matches!(io4_handle_irp(&mut device, 7, &read, true, true), Io4Outcome::ReadPending));
    read.nbytes = 10;
    match io4_handle_irp(&mut device, 7, &read, false, true) {
        Io4Outcome::Done { hr, .. } => assert_eq!(hr as u32, 0x8007_007A),
        _ => panic!("short read must fail"),
    }

    let mut ioctl = irp(IrpOp::Ioctl, 7);
    ioctl.ioctl = IOCTL_HID_GET_MANUFACTURER_STRING;
    ioctl.ioctl_out_capacity = 64;
    match io4_handle_irp(&mut device, 7, &ioctl, false, true) {
        Io4Outcome::Done { hr, out_nbytes, data } => {
            assert_eq!(hr, 0);
            assert_eq!(out_nbytes, 10);
            assert_eq!(data, vec![83, 0, 69, 0, 71, 0, 65, 0, 0, 0]);
        }
        _ => panic!("string request must complete"),
    }
    ioctl.ioctl = IOCTL_HID_GET_INPUT_REPORT;
    assert!(matches!(io4_handle_irp(&mut device, 7, &ioctl, false, true), Io4Outcome::Done { hr: 0, out_nbytes: 64, .. }));
    ioctl.ioctl = IOCTL_HID_SET_OUTPUT_REPORT;
    let mut out = vec![0u8; 64];
    out[0] = 0x10;
    out[1] = 0x02;
    ioctl.ioctl_in = out;
    assert!(matches!(io4_handle_irp(&mut device, 7, &ioctl, false, true), Io4Outcome::Done { hr: 0, out_nbytes: 64, .. }));
    assert_eq!(device.read_report(true)[33], 0x30);
    ioctl.ioctl = 0x1234;
    match io4_handle_irp(&mut device, 7, &ioctl, false, true) {
        Io4Outcome::Done { hr, .. } => assert_eq!(hr as u32, 0x8007_0001),
        _ => panic!("unknown control code must fail"),
    }
}

#[test]
fn configured_status_shows_in_next_report() {
    let mut device = Io4Device::new(FixedOps(Io4State::default()), false);
    assert_eq!(device.read_report(true)[33], 0x02);
    let mut report = [0u8; 64];
    report[0] = 0x10;
    report[1] = 0x02;
    assert_eq!(device.write_report(&report), Ok(()));
    assert_eq!(device.read_report(false)[33], 0x30);
}

#[test]
fn foreground_title_decides_input() {
    assert!(foreground_matches(None, "CHUNITHM"));
    assert!(foreground_matches(Some("CHUNITHM"), "CHUNITHM"));
    assert!(!foreground_matches(Some("Other"), "CHUNITHM"));
    assert!(foreground_matches(Some("中二節奏"), "中二節奏"));
}

#[test]
fn output_commands_hand_the_payload_after_the_command_byte_to_the_backend() {
    let mut device = Io4Device::new(EchoOps, false);
    let mut report = [0u8; 64];
    report[0] = 0x10;
    report[2] = 0x77;
    report[3] = 0x88;
    report[1] = 0x04;
    assert_eq!(device.write_report(&report), Err(4_062_119));
    report[1] = 0x05;
    assert_eq!(device.write_report(&report), Err(5_062_119));
    report[1] = 0x41;
    assert_eq!(device.write_report(&report), Err(65_062_119));
    assert_eq!(device.read_report(true)[33], 0x02);
}

#[test]
fn output_reports_are_classified_by_command_byte() {
    let mut report = [0u8; 64];
    report[0] = 0x10;
    report[1] = 0x02;
    assert!(matches!(output_command(&report), OutputCommand::Status(0x02)));
    report[1] = 0x04;
    report[2] = 9;
    match output_command(&report) {
        OutputCommand::Gpio(payload) => {
            assert_eq!(payload.len(), 62);
            assert_eq!(payload[0], 9);
        }
        _ => panic!("command 4 drives the general-purpose outputs"),
    }
    report[1] = 0x41;
    assert!(matches!(output_command(&report), OutputCommand::Unique(p) if p.len() == 62));
    report[1] = 0x06;
    assert!(matches!(output_command(&report), OutputCommand::Unknown(0x06)));
    assert!(matches!(output_command(&report[..63]), OutputCommand::Invalid));
    report[0] = 0x11;
    assert!(matches!(output_command(&report), OutputCommand::Invalid));
}

#[test]
fn cabinet_reports_carry_a_fresh_sample_of_its_inputs() {
    let ops = ChusanIo4Ops { opbtn: 0x01, beams: 0xFF, coins: 2, api_version: 0x0102 };
    let mut device = Io4Device::new(ops, false);
    let report = device.read_report(false);
    let expected = build_report(&ChusanIo4Ops { opbtn: 0x01, beams: 0xFF, coins: 2, api_version: 0x0102 }.poll(), 0x02);
    assert_eq!(report, expected);
    assert_eq!(&report[29..31], &BUTTON_TEST.to_le_bytes());
    assert_eq!(&report[25..27], &(2u16 << 8).to_le_bytes());
}
