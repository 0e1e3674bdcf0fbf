use applechu::led::{encode_frame_into as led_encode, Led15093Config, Led15093Device, CMD_GET_BOARD_INFO, STATUS_OK, REPORT_OK, SYNC};
use applechu::led_host::{led_ports_for, Led15093SectionConfig, LedHost};
use applechu::slider::{decode_frame, encode_frame_into, SliderAction, SliderDevice, CMD_SET_LED};
use applechu::uart::{UartPort, UartRegistry};
use applechu::uart_irp::{IrpOp, IrpOutcome, UartIrp};

fn test_config() -> Led15093Config {
    Led15093Config {
        board_number: *b"15093-06",
        chip_number: *b"6710 ",
        boot_chip_number: *b"6709 ",
        fw_ver: 0x90,
        fw_sum: 0xADF7,
        high_baudrate: false,
    }
}

#[test]
fn two_serial_boards_use_the_same_node_address() {
    let config = test_config();
    let board0 = Led15093Device::new(0, 2, 1, config.clone());
    let board1 = Led15093Device::new(1, 2, 1, config);

    assert_eq!(board0.board_addr, 2);
    assert_eq!(board1.board_addr, 2);
}

#[test]
fn board_info_matches_expected_c_struct_layout() {
    let mut board = Led15093Device::new(0, 2, 1, test_config());

    assert_eq!(
        board.board_info(),
        [
            b'1', b'5', b'0', b'9', b'3', b'-', b'0', b'6', 0x0A, b'6', b'7', b'1', b'0', b' ', 0xFF, 0x90, 0x00,
            0xCC,
        ]
    );

    board.dispatch(&[SYNC, 2, 1, 1, CMD_GET_BOARD_INFO]).unwrap();
    assert_eq!(
        board.take_response(),
        [
            SYNC, 1, 2, 0x15, STATUS_OK, CMD_GET_BOARD_INFO, REPORT_OK, b'1', b'5', b'0', b'9', b'3', b'-', b'0',
            b'6', 0x0A, b'6', b'7', b'1', b'0', b' ', 0xFF, 0x90, 0x00, 0xCC, 0xF2,
        ]
    );
}

#[test]
fn bounded_readable_queue_drops_whole_messages() {
    let mut port = UartPort::default();
    let frame = [0xA5; 36];

    for _ in 0..14 {
        assert!(port.push_readable_bounded(&frame, 520));
    }
    assert_eq!(port.readable.len(), 504);

    assert!(!port.push_readable_bounded(&frame, 520));
    assert_eq!(port.readable.len(), 504);
    assert!(port.readable.chunks_exact(frame.len()).all(|item| item == frame));
}

#[test]
fn bounded_readable_queue_resumes_after_data_is_read() {
    let mut port = UartPort::default();
    let first = [0x11; 260];
    let second = [0x22; 260];

    assert!(port.push_readable_bounded(&first, 520));
    assert!(port.push_readable_bounded(&second, 520));
    assert!(!port.push_readable_bounded(&second, 520));

    port.readable.drain(..first.len());
    assert!(port.push_readable_bounded(&first, 520));
    assert_eq!(&port.readable[..second.len()], &second);
    assert_eq!(&port.readable[second.len()..], &first);
}

#[test]
fn set_led_rgb_starts_after_the_unknown_payload_byte() {
    let mut encoded = Vec::new();
    let mut payload = [0u8; 97];
    payload[0] = 0x28;
    for (index, byte) in payload[1..].iter_mut().enumerate() {
        *byte = index as u8;
    }
    encode_frame_into(&mut encoded, CMD_SET_LED, &payload).unwrap();

    let decoded = decode_frame(&mut encoded).unwrap().unwrap();
    assert_eq!(decoded[3], 0x28);
    assert_eq!(&decoded[4..4 + 96], &payload[1..]);
}

#[test]
fn slider_set_led_command_asks_the_backend_for_the_colours() {
    let mut encoded = Vec::new();
    let mut payload = [0u8; 97];
    for (index, byte) in payload.iter_mut().enumerate() {
        *byte = index as u8;
    }
    encode_frame_into(&mut encoded, CMD_SET_LED, &payload).unwrap();
    let mut device = SliderDevice::new();
    let mut readable = Vec::new();
    device.process(&mut encoded, &mut readable).unwrap();
    assert!(encoded.is_empty());
    assert!(readable.is_empty());
    let actions = device.take_actions();
    assert_eq!(actions.len(), 1);
    match &actions[0] {
        SliderAction::SetLeds(colours) => assert_eq!(colours.as_slice(), &payload[1..]),
        _ => panic!("expected a colour update"),
    }
}

#[test]
fn led_ports_default_by_cabinet() {
    assert_eq!(led_ports_for(true, 0, 0), [20, 21]);
    assert_eq!(led_ports_for(false, 0, 0), [2, 3]);
    assert_eq!(led_ports_for(false, 7, 0), [7, 3]);
}

fn section() -> Led15093SectionConfig {
    Led15093SectionConfig {
        port0: 0,
        port1: 0,
        board_number: String::from("15093-06"),
        chip_number: String::from("6710 "),
        boot_chip_number: String::from("6709 "),
        fw_ver: 0x90,
        fw_sum: 0xADF7,
        high_baudrate: true,
    }
}

fn open_irp(name: &str) -> UartIrp {
    UartIrp {
        op: IrpOp::Open,
        handle: 0,
        open_name_a: None,
        open_name_w: Some(name.encode_utf16().collect()),
        nbytes: 0,
        has_buffer: false,
        write_data: Vec::new(),
        ioctl: 0,
        ioctl_in: Vec::new(),
        ioctl_out_capacity: 0,
    }
}

#[test]
fn led_board_open_write_and_read_back() {
    let mut host = LedHost::new(false, &section());
    let mut reg = UartRegistry::new();
    let irp = open_irp("\\\\.\\COM3");
    assert!(matches!(host.led_irp_handler(&mut reg, &irp), IrpOutcome::StartBackend(1)));
    host.record_backend_start(1, 0);
    assert!(matches!(host.led_irp_handler(&mut reg, &irp), IrpOutcome::OpenNul(1)));
    assert_eq!(host.open_completed(&mut reg, 1, 0x44, 0), 0);
    assert_eq!(reg.ports.get(&3).map(|p| p.baud_rate), Some(460_800));
    let again = host.led_irp_handler(&mut reg, &irp);
    assert!(matches!(again, IrpOutcome::Done { hr, .. } if hr == 0x8007_0005u32 as i32));

    let mut request = Vec::new();
    led_encode(&mut request, 2, 1, &[CMD_GET_BOARD_INFO]).unwrap();
    assert_eq!(request.len(), 6);
    let write = UartIrp {
        op: IrpOp::Write,
        handle: 0x44,
        open_name_a: None,
        open_name_w: None,
        nbytes: 6,
        has_buffer: true,
        write_data: request,
        ioctl: 0,
        ioctl_in: Vec::new(),
        ioctl_out_capacity: 0,
    };
    assert!(matches!(host.led_irp_handler(&mut reg, &write), IrpOutcome::Done { hr: 0, out_nbytes: 6, .. }));
    let read = UartIrp { op: IrpOp::Read, nbytes: 64, has_buffer: true, write_data: Vec::new(), ..write };
    match host.led_irp_handler(&mut reg, &read) {
        IrpOutcome::Done { hr, out_nbytes, data } => {
            assert_eq!(hr, 0);
            assert_eq!(out_nbytes, 26);
            assert_eq!(data[0], SYNC);
            assert_eq!(data[5], CMD_GET_BOARD_INFO);
        }
        _ => panic!("read must complete"),
    }
    match host.led_irp_handler(&mut reg, &read) {
        IrpOutcome::Done { hr, out_nbytes, .. } => {
            assert_eq!(hr, 0x8000_000Au32 as i32);
            assert_eq!(out_nbytes, 0);
        }
        _ => panic!("read must complete"),
    }
}

#[test]
fn led_process_runs_every_frame_even_after_a_failed_command() {
    let mut board = Led15093Device::new(0, 2, 1, test_config());
    let mut written = Vec::new();
    // SET_ID without an id fails; the frame after it still runs.
    led_encode(&mut written, 2, 1, &[0x18]).unwrap();
    led_encode(&mut written, 2, 1, &[CMD_GET_BOARD_INFO]).unwrap();
    assert_eq!(board.process(&mut written), Ok(()));
    assert!(written.is_empty());
    assert_eq!(board.failed_commands, vec![0x8000_4005_u32 as i32]);
    assert_eq!(
        board.take_response(),
        [
            SYNC, 1, 2, 0x15, STATUS_OK, CMD_GET_BOARD_INFO, REPORT_OK, b'1', b'5', b'0', b'9', b'3', b'-', b'0',
            b'6', 0x0A, b'6', b'7', b'1', b'0', b' ', 0xFF, 0x90, 0x00, 0xCC, 0xF2,
        ]
    );
}
