use vstd::prelude::*;
use crate::bytes::{from_le32, le32};
use crate::hresult::{E_FAIL, E_PENDING, S_OK};
use crate::uart::{
    chars_bytes, chars_from, chars_to_bytes, decode_chars, decode_handflow, decode_line_control, handflow_bytes,
    handflow_from, handflow_to_bytes, line_control_bytes, line_control_from, line_control_to_bytes, u32_to_bytes,
    IoctlOutcome, SerialBaudRate, SerialChars, SerialHandflow, SerialLineControl, SerialStatus, SerialTimeouts,
    IOCTL_SERIAL_CLR_DTR, IOCTL_SERIAL_CLR_RTS, IOCTL_SERIAL_SET_BAUD_RATE, IOCTL_SERIAL_SET_BREAK_OFF,
    IOCTL_SERIAL_SET_BREAK_ON, IOCTL_SERIAL_SET_CHARS, IOCTL_SERIAL_SET_DTR, IOCTL_SERIAL_SET_HANDFLOW,
    IOCTL_SERIAL_SET_LINE_CONTROL, IOCTL_SERIAL_SET_RTS, IOCTL_SERIAL_SET_XOFF, IOCTL_SERIAL_SET_XON,
};

verus! {

pub const ERROR_INVALID_PARAMETER: u32 = 87;

/// Size of `DCB` in bytes, the only `DCBlength` accepted.
pub const DCB_SIZE: u32 = 28;

pub const CLRBREAK: u32 = 9;
pub const CLRDTR: u32 = 6;
pub const CLRRTS: u32 = 4;
pub const SETBREAK: u32 = 8;
pub const SETDTR: u32 = 5;
pub const SETRTS: u32 = 3;
pub const SETXOFF: u32 = 1;
pub const SETXON: u32 = 2;

pub const SERIAL_DTR_CONTROL: u32 = 0x0000_0001;
pub const SERIAL_DTR_HANDSHAKE: u32 = 0x0000_0002;
pub const SERIAL_ERROR_CHAR: u32 = 0x0000_0004;
pub const SERIAL_CTS_HANDSHAKE: u32 = 0x0000_0008;
pub const SERIAL_DSR_HANDSHAKE: u32 = 0x0000_0010;
pub const SERIAL_DSR_SENSITIVITY: u32 = 0x0000_0040;
pub const SERIAL_RTS_CONTROL: u32 = 0x0000_0040;
pub const SERIAL_RTS_HANDSHAKE: u32 = 0x0000_0080;
pub const SERIAL_NULL_STRIPPING: u32 = 0x0000_0008;
pub const SERIAL_XOFF_CONTINUE: u32 = 0x8000_0000;
pub const SERIAL_ERROR_ABORT: u32 = 0x8000_0000;

pub const SERIAL_ERROR_QUEUEOVERRUN: u32 = 0x0000_0002;
pub const SERIAL_ERROR_OVERRUN: u32 = 0x0000_0004;
pub const SERIAL_ERROR_BREAK: u32 = 0x0000_0008;
pub const SERIAL_ERROR_PARITY: u32 = 0x0000_0001;
pub const SERIAL_ERROR_FRAMING: u32 = 0x0000_0010;
pub const SERIAL_TX_WAITING_FOR_CTS: u32 = 0x0000_0001;
pub const SERIAL_TX_WAITING_FOR_DSR: u32 = 0x0000_0002;
pub const SERIAL_TX_WAITING_FOR_DCD: u32 = 0x0000_0004;
pub const SERIAL_TX_WAITING_FOR_XON: u32 = 0x0000_0008;
pub const SERIAL_TX_WAITING_XOFF_SENT: u32 = 0x0000_0020;

pub const CE_RXOVER: u32 = 0x0001;
pub const CE_OVERRUN: u32 = 0x0002;
pub const CE_RXPARITY: u32 = 0x0004;
pub const CE_FRAME: u32 = 0x0008;
pub const CE_BREAK: u32 = 0x0010;

pub const ERROR_ACCESS_DENIED: u32 = 5;
pub const ERROR_GEN_FAILURE: u32 = 31;
pub const ERROR_INVALID_HANDLE: u32 = 6;
pub const ERROR_NOT_SUPPORTED: u32 = 50;
pub const ERROR_OUTOFMEMORY: u32 = 14;
pub const ERROR_OPERATION_ABORTED: u32 = 995;
pub const ERROR_INVALID_ADDRESS: u32 = 487;
pub const ERROR_INTERNAL_ERROR: u32 = 1359;
pub const ERROR_IO_PENDING: u32 = 997;

/// `E_ABORT` (`0x80004004`).
pub const E_ABORT: i32 = -2147467260i32;
/// `E_ACCESSDENIED` (`0x80070005`).
pub const E_ACCESSDENIED: i32 = -2147024891i32;
/// `E_HANDLE` (`0x80070006`).
pub const E_HANDLE: i32 = -2147024890i32;
/// `E_INVALIDARG` (`0x80070057`).
pub const E_INVALIDARG: i32 = -2147024809i32;
/// `E_NOINTERFACE` (`0x80004002`).
pub const E_NOINTERFACE: i32 = -2147467262i32;
/// `E_NOTIMPL` (`0x80004001`).
pub const E_NOTIMPL: i32 = -2147467263i32;
/// `E_OUTOFMEMORY` (`0x8007000E`).
pub const E_OUTOFMEMORY: i32 = -2147024882i32;
/// `E_POINTER` (`0x80004003`).
pub const E_POINTER: i32 = -2147467261i32;
/// `E_UNEXPECTED` (`0x8000FFFF`).
pub const E_UNEXPECTED: i32 = -2147418113i32;

/// Device control block of the Win32 serial API.
#[derive(Clone, Copy)]
pub struct Dcb {
    pub dcblength: u32,
    pub baud_rate: u32,
    pub flags: u32,
    pub w_reserved: u16,
    pub xon_lim: u16,
    pub xoff_lim: u16,
    pub byte_size: u8,
    pub parity: u8,
    pub stop_bits: u8,
    pub xon_char: i8,
    pub xoff_char: i8,
    pub error_char: i8,
    pub eof_char: i8,
    pub evt_char: i8,
    pub w_reserved1: u16,
}

/// Timeouts of the Win32 serial API.
#[derive(Clone, Copy)]
pub struct CommTimeouts {
    pub read_interval_timeout: u32,
    pub read_total_timeout_multiplier: u32,
    pub read_total_timeout_constant: u32,
    pub write_total_timeout_multiplier: u32,
    pub write_total_timeout_constant: u32,
}

/// Queue status of the Win32 serial API.
#[derive(Clone, Copy)]
pub struct ComStat {
    pub flags: u32,
    pub cb_in_que: u32,
    pub cb_out_que: u32,
}

impl Default for CommTimeouts {
    fn default() -> (t: Self)
        ensures
            t.read_interval_timeout == 0 && t.read_total_timeout_multiplier == 0
                && t.read_total_timeout_constant == 0 && t.write_total_timeout_multiplier == 0
                && t.write_total_timeout_constant == 0,
    {
        CommTimeouts {
            read_interval_timeout: 0,
            read_total_timeout_multiplier: 0,
            read_total_timeout_constant: 0,
            write_total_timeout_multiplier: 0,
            write_total_timeout_constant: 0,
        }
    }
}

impl Default for ComStat {
    fn default() -> (s: Self)
        ensures
            s.flags == 0 && s.cb_in_que == 0 && s.cb_out_que == 0,
    {
        ComStat { flags: 0, cb_in_que: 0, cb_out_que: 0 }
    }
}

/// Timeouts as the serial API hands them out, field by field.
pub open spec fn comm_from_serial(v: SerialTimeouts) -> CommTimeouts {
    CommTimeouts {
        read_interval_timeout: v.read_interval_timeout,
        read_total_timeout_multiplier: v.read_total_timeout_multiplier,
        read_total_timeout_constant: v.read_total_timeout_constant,
        write_total_timeout_multiplier: v.write_total_timeout_multiplier,
        write_total_timeout_constant: v.write_total_timeout_constant,
    }
}

/// Timeouts as the driver takes them, field by field.
pub open spec fn serial_from_comm(v: CommTimeouts) -> SerialTimeouts {
    SerialTimeouts {
        read_interval_timeout: v.read_interval_timeout,
        read_total_timeout_multiplier: v.read_total_timeout_multiplier,
        read_total_timeout_constant: v.read_total_timeout_constant,
        write_total_timeout_multiplier: v.write_total_timeout_multiplier,
        write_total_timeout_constant: v.write_total_timeout_constant,
    }
}

impl From<SerialTimeouts> for CommTimeouts {
    fn from(value: SerialTimeouts) -> (out: Self) {
        CommTimeouts {
            read_interval_timeout: value.read_interval_timeout,
            read_total_timeout_multiplier: value.read_total_timeout_multiplier,
            read_total_timeout_constant: value.read_total_timeout_constant,
            write_total_timeout_multiplier: value.write_total_timeout_multiplier,
            write_total_timeout_constant: value.write_total_timeout_constant,
        }
    }
}

impl vstd::std_specs::convert::FromSpecImpl<SerialTimeouts> for CommTimeouts {
    open spec fn obeys_from_spec() -> bool {
        true
    }

    open spec fn from_spec(v: SerialTimeouts) -> CommTimeouts {
        comm_from_serial(v)
    }
}

impl From<CommTimeouts> for SerialTimeouts {
    fn from(value: CommTimeouts) -> (out: Self) {
        SerialTimeouts {
            read_interval_timeout: value.read_interval_timeout,
            read_total_timeout_multiplier: value.read_total_timeout_multiplier,
            read_total_timeout_constant: value.read_total_timeout_constant,
            write_total_timeout_multiplier: value.write_total_timeout_multiplier,
            write_total_timeout_constant: value.write_total_timeout_constant,
        }
    }
}

impl vstd::std_specs::convert::FromSpecImpl<CommTimeouts> for SerialTimeouts {
    open spec fn obeys_from_spec() -> bool {
        true
    }

    open spec fn from_spec(v: CommTimeouts) -> SerialTimeouts {
        serial_from_comm(v)
    }
}

/// `bit` when `c` holds, 0 otherwise.
pub open spec fn flag(c: bool, bit: u32) -> u32 {
    if c { bit } else { 0 }
}

/// The `DCB` flags that a driver handshake word reads back as.
pub open spec fn dcb_flags_spec(ch: u32) -> u32 {
    1u32 | flag(ch & SERIAL_CTS_HANDSHAKE != 0, 1u32 << 2) | flag(ch & SERIAL_DSR_HANDSHAKE != 0, 1u32 << 3) | flag(
        ch & SERIAL_DTR_CONTROL != 0,
        1u32 << 4,
    ) | flag(ch & SERIAL_DTR_HANDSHAKE != 0, 2u32 << 4) | flag(ch & SERIAL_DSR_SENSITIVITY != 0, 1u32 << 6) | flag(
        ch & SERIAL_XOFF_CONTINUE != 0,
        1u32 << 7,
    ) | flag(ch & SERIAL_RTS_CONTROL != 0, 1u32 << 12) | flag(ch & SERIAL_RTS_HANDSHAKE != 0, 2u32 << 12) | flag(
        ch & SERIAL_ERROR_ABORT != 0,
        1u32 << 14,
    ) | flag(ch & SERIAL_ERROR_CHAR != 0, 1u32 << 10) | flag(ch & SERIAL_NULL_STRIPPING != 0, 1u32 << 11)
}

/// The `DCB` that `GetCommState` reports for the driver settings.
pub open spec fn dcb_spec(
    baud: SerialBaudRate,
    handflow: SerialHandflow,
    line: SerialLineControl,
    chars: SerialChars,
) -> Dcb {
    Dcb {
        dcblength: DCB_SIZE,
        baud_rate: baud.baud_rate,
        flags: dcb_flags_spec(handflow.control_handshake),
        w_reserved: 0,
        xon_lim: handflow.xon_limit as u16,
        xoff_lim: handflow.xoff_limit as u16,
        byte_size: line.word_length,
        parity: line.parity,
        stop_bits: line.stop_bits,
        xon_char: chars.xon_char as i8,
        xoff_char: chars.xoff_char as i8,
        error_char: chars.error_char as i8,
        eof_char: chars.eof_char as i8,
        evt_char: chars.event_char as i8,
        w_reserved1: 0,
    }
}

fn flag_if(c: bool, bit: u32) -> (out: u32)
    ensures
        out == flag(c, bit),
{
    if c { bit } else { 0 }
}

/// Builds the `DCB` that `GetCommState` reports for the driver settings.
pub fn dcb_from_state(
    baud: SerialBaudRate,
    handflow: SerialHandflow,
    line: SerialLineControl,
    chars: SerialChars,
) -> (dcb: Dcb)
    ensures
        dcb == dcb_spec(baud, handflow, line, chars),
{
    let ch = handflow.control_handshake;
    let flags: u32 = 1u32 | flag_if(ch & SERIAL_CTS_HANDSHAKE != 0, 1u32 << 2) | flag_if(
        ch & SERIAL_DSR_HANDSHAKE != 0,
        1u32 << 3,
    ) | flag_if(ch & SERIAL_DTR_CONTROL != 0, 1u32 << 4) | flag_if(ch & SERIAL_DTR_HANDSHAKE != 0, 2u32 << 4)
        | flag_if(ch & SERIAL_DSR_SENSITIVITY != 0, 1u32 << 6) | flag_if(ch & SERIAL_XOFF_CONTINUE != 0, 1u32 << 7)
        | flag_if(ch & SERIAL_RTS_CONTROL != 0, 1u32 << 12) | flag_if(ch & SERIAL_RTS_HANDSHAKE != 0, 2u32 << 12)
        | flag_if(ch & SERIAL_ERROR_ABORT != 0, 1u32 << 14) | flag_if(ch & SERIAL_ERROR_CHAR != 0, 1u32 << 10)
        | flag_if(ch & SERIAL_NULL_STRIPPING != 0, 1u32 << 11);
    Dcb {
        dcblength: DCB_SIZE,
        baud_rate: baud.baud_rate,
        flags,
        w_reserved: 0,
        xon_lim: handflow.xon_limit as u16,
        xoff_lim: handflow.xoff_limit as u16,
        byte_size: line.word_length,
        parity: line.parity,
        stop_bits: line.stop_bits,
        xon_char: chars.xon_char as i8,
        xoff_char: chars.xoff_char as i8,
        error_char: chars.error_char as i8,
        eof_char: chars.eof_char as i8,
        evt_char: chars.event_char as i8,
        w_reserved1: 0,
    }
}

/// The driver settings that `SetCommState` hands down for a `DCB`.
#[derive(Clone, Copy)]
pub struct CommSettings {
    pub baud: SerialBaudRate,
    pub handflow: SerialHandflow,
    pub line: SerialLineControl,
    pub chars: SerialChars,
}

/// The DTR control field of `DCB` flags (bits 4 and 5).
pub open spec fn dtr_field(flags: u32) -> u32 {
    (flags >> 4u32) & 3u32
}

/// The RTS control field of `DCB` flags (bits 12 and 13).
pub open spec fn rts_field(flags: u32) -> u32 {
    (flags >> 12u32) & 3u32
}

/// Whether `SetCommState` accepts the `DCB`: the right length and no reserved
/// value in the DTR or RTS control fields.
pub open spec fn dcb_valid(dcb: Dcb) -> bool {
    dcb.dcblength == DCB_SIZE && dtr_field(dcb.flags) != 3 && rts_field(dcb.flags) != 3
}

/// The handshake word that `SetCommState` derives from `DCB` flags.
pub open spec fn handshake_spec(f: u32) -> u32 {
    flag(f & (1u32 << 2) != 0, SERIAL_CTS_HANDSHAKE) | flag(f & (1u32 << 3) != 0, SERIAL_DSR_HANDSHAKE) | flag(
        dtr_field(f) == 1,
        SERIAL_DTR_CONTROL,
    ) | flag(dtr_field(f) == 2, SERIAL_DTR_HANDSHAKE) | flag(f & (1u32 << 6) != 0, SERIAL_DSR_SENSITIVITY) | flag(
        f & (1u32 << 7) != 0,
        SERIAL_XOFF_CONTINUE,
    )
}

/// The flow-replace word that `SetCommState` derives from `DCB` flags.
pub open spec fn flow_replace_spec(f: u32) -> u32 {
    flag(rts_field(f) == 1, SERIAL_RTS_CONTROL) | flag(rts_field(f) == 2, SERIAL_RTS_HANDSHAKE)
}

/// The driver settings for a valid `DCB`.
pub open spec fn settings_spec(dcb: Dcb) -> CommSettings {
    CommSettings {
        baud: SerialBaudRate { baud_rate: dcb.baud_rate },
        handflow: SerialHandflow {
            control_handshake: handshake_spec(dcb.flags),
            flow_replace: flow_replace_spec(dcb.flags),
            xon_limit: dcb.xon_lim as i32,
            xoff_limit: dcb.xoff_lim as i32,
        },
        line: SerialLineControl { stop_bits: dcb.stop_bits, parity: dcb.parity, word_length: dcb.byte_size },
        chars: SerialChars {
            eof_char: dcb.eof_char as u8,
            error_char: dcb.error_char as u8,
            break_char: 0,
            event_char: dcb.evt_char as u8,
            xon_char: dcb.xon_char as u8,
            xoff_char: dcb.xoff_char as u8,
        },
    }
}

/// The driver settings for a `DCB`, or `ERROR_INVALID_PARAMETER` when
/// `SetCommState` refuses it.
pub fn settings_from_dcb(dcb: &Dcb) -> (res: Result<CommSettings, u32>)
    ensures
        dcb_valid(*dcb) ==> res == Ok::<CommSettings, u32>(settings_spec(*dcb)),
        !dcb_valid(*dcb) ==> res == Err::<CommSettings, u32>(ERROR_INVALID_PARAMETER),
{
    let f = dcb.flags;
    let dtr = (f >> 4u32) & 3u32;
    let rts = (f >> 12u32) & 3u32;
    if dcb.dcblength != DCB_SIZE || dtr == 3 || rts == 3 {
        return Err(ERROR_INVALID_PARAMETER);
    }
    let control_handshake: u32 = flag_if(f & (1u32 << 2) != 0, SERIAL_CTS_HANDSHAKE) | flag_if(
        f & (1u32 << 3) != 0,
        SERIAL_DSR_HANDSHAKE,
    ) | flag_if(dtr == 1, SERIAL_DTR_CONTROL) | flag_if(dtr == 2, SERIAL_DTR_HANDSHAKE) | flag_if(
        f & (1u32 << 6) != 0,
        SERIAL_DSR_SENSITIVITY,
    ) | flag_if(f & (1u32 << 7) != 0, SERIAL_XOFF_CONTINUE);
    let flow_replace: u32 = flag_if(rts == 1, SERIAL_RTS_CONTROL) | flag_if(rts == 2, SERIAL_RTS_HANDSHAKE);
    Ok(
        CommSettings {
            baud: SerialBaudRate { baud_rate: dcb.baud_rate },
            handflow: SerialHandflow {
                control_handshake,
                flow_replace,
                xon_limit: dcb.xon_lim as i32,
                xoff_limit: dcb.xoff_lim as i32,
            },
            line: SerialLineControl { stop_bits: dcb.stop_bits, parity: dcb.parity, word_length: dcb.byte_size },
            chars: SerialChars {
                eof_char: dcb.eof_char as u8,
                error_char: dcb.error_char as u8,
                break_char: 0,
                event_char: dcb.evt_char as u8,
                xon_char: dcb.xon_char as u8,
                xoff_char: dcb.xoff_char as u8,
            },
        },
    )
}

/// One driver request: its control code and the bytes of its input buffer.
pub struct SerialRequest {
    pub code: u32,
    pub input: Vec<u8>,
}

/// The four requests, in order, that carry the settings of `SetCommState`.
pub open spec fn set_requests_spec(s: CommSettings) -> Seq<(u32, Seq<u8>)> {
    seq![
        (IOCTL_SERIAL_SET_BAUD_RATE, le32(s.baud.baud_rate)),
        (IOCTL_SERIAL_SET_HANDFLOW, handflow_bytes(s.handflow)),
        (IOCTL_SERIAL_SET_LINE_CONTROL, line_control_bytes(s.line)),
        (IOCTL_SERIAL_SET_CHARS, chars_bytes(s.chars)),
    ]
}

/// Whether `reqs` are the requests `expected`.
pub open spec fn requests_match(reqs: Seq<SerialRequest>, expected: Seq<(u32, Seq<u8>)>) -> bool {
    reqs.len() == expected.len() && forall|i: int|
        0 <= i < reqs.len() ==> (#[trigger] reqs[i]).code == expected[i].0 && reqs[i].input@ == expected[i].1
}

proof fn lemma_flags_roundtrip(ch: u32)
    ensures
        dtr_field(dcb_flags_spec(ch)) == ch & 3u32,
        rts_field(dcb_flags_spec(ch)) == (ch >> 6u32) & 3u32,
        handshake_spec(dcb_flags_spec(ch)) == ch & 0x8000_005Bu32 || ch & 3u32 == 3u32,
        flow_replace_spec(dcb_flags_spec(ch)) == ch & 0xC0u32 || ch & 0xC0u32 == 0xC0u32,
{
    assert(dtr_field(dcb_flags_spec(ch)) == ch & 3u32) by (bit_vector);
    assert(rts_field(dcb_flags_spec(ch)) == (ch >> 6u32) & 3u32) by (bit_vector);
    assert(handshake_spec(dcb_flags_spec(ch)) == ch & 0x8000_005Bu32 || ch & 3u32 == 3u32) by (bit_vector);
    assert(flow_replace_spec(dcb_flags_spec(ch)) == ch & 0xC0u32 || ch & 0xC0u32 == 0xC0u32) by (bit_vector);
}

/// Handing `SetCommState` the `DCB` that `GetCommState` reported gives the
/// driver back its settings: the same baud rate, framing and characters (the
/// break character aside, which a `DCB` does not carry), the handshake bits a
/// `DCB` can express, with RTS control moved from the handshake word to the
/// flow-replace word, and the XON/XOFF limits as 16-bit values. It refuses the
/// `DCB` exactly when both DTR bits or both RTS bits were set.
pub proof fn lemma_comm_state_roundtrip(
    baud: SerialBaudRate,
    handflow: SerialHandflow,
    line: SerialLineControl,
    chars: SerialChars,
)
    ensures
        dcb_valid(dcb_spec(baud, handflow, line, chars)) <==> (handflow.control_handshake & 3u32 != 3u32
            && handflow.control_handshake & 0xC0u32 != 0xC0u32),
        dcb_valid(dcb_spec(baud, handflow, line, chars)) ==> settings_spec(dcb_spec(baud, handflow, line, chars))
            == (CommSettings {
            baud,
            handflow: SerialHandflow {
                control_handshake: handflow.control_handshake & 0x8000_005Bu32,
                flow_replace: handflow.control_handshake & 0xC0u32,
                xon_limit: (handflow.xon_limit as u16) as i32,
                xoff_limit: (handflow.xoff_limit as u16) as i32,
            },
            line,
            chars: SerialChars { break_char: 0, ..chars },
        }),
{
    let ch = handflow.control_handshake;
    lemma_flags_roundtrip(ch);
    assert((ch >> 6u32) & 3u32 == 3u32 <==> ch & 0xC0u32 == 0xC0u32) by (bit_vector);
    lemma_byte_roundtrip(chars.eof_char);
    lemma_byte_roundtrip(chars.error_char);
    lemma_byte_roundtrip(chars.event_char);
    lemma_byte_roundtrip(chars.xon_char);
    lemma_byte_roundtrip(chars.xoff_char);
}

proof fn lemma_byte_roundtrip(x: u8)
    ensures
        (x as i8) as u8 == x,
{
    assert((x as i8) as u8 == x) by (bit_vector);
}

/// The driver requests that `SetCommState` issues for a `DCB`, or the Win32
/// error it fails with before issuing any.
pub fn set_comm_state_requests(dcb: &Dcb) -> (res: Result<Vec<SerialRequest>, u32>)
    ensures
        dcb_valid(*dcb) ==> (res matches Ok(v) && requests_match(v@, set_requests_spec(settings_spec(*dcb)))),
        !dcb_valid(*dcb) ==> res == Err::<Vec<SerialRequest>, u32>(ERROR_INVALID_PARAMETER),
{
    match settings_from_dcb(dcb) {
        Err(e) => Err(e),
        Ok(s) => {
            let mut v: Vec<SerialRequest> = Vec::new();
            v.push(SerialRequest { code: IOCTL_SERIAL_SET_BAUD_RATE, input: u32_to_bytes(s.baud.baud_rate) });
            v.push(SerialRequest { code: IOCTL_SERIAL_SET_HANDFLOW, input: handflow_to_bytes(s.handflow) });
            v.push(SerialRequest { code: IOCTL_SERIAL_SET_LINE_CONTROL, input: line_control_to_bytes(s.line) });
            v.push(SerialRequest { code: IOCTL_SERIAL_SET_CHARS, input: chars_to_bytes(s.chars) });
            Ok(v)
        },
    }
}

/// The first failing HRESULT of `hrs`, or `S_OK` when none failed.
pub open spec fn first_failure(hrs: Seq<i32>) -> i32
    decreases hrs.len(),
{
    if hrs.len() == 0 {
        S_OK
    } else if hrs[0] < 0 {
        hrs[0]
    } else {
        first_failure(hrs.skip(1))
    }
}

/// The outcome of a series of driver requests that were all issued: the first
/// failure, or `S_OK`.
pub fn first_failed(hrs: &[i32]) -> (hr: i32)
    ensures
        hr == first_failure(hrs@),
{
    let mut i: usize = 0;
    assert(hrs@.skip(0) =~= hrs@);
    while i < hrs.len()
        invariant
            i <= hrs@.len(),
            first_failure(hrs@) == first_failure(hrs@.skip(i as int)),
        decreases hrs@.len() - i,
    {
        assert(hrs@.skip(i as int).skip(1) =~= hrs@.skip(i + 1));
        if hrs[i] < 0 {
            return hrs[i];
        }
        i = i + 1;
    }
    assert(hrs@.skip(i as int).len() == 0);
    S_OK
}

/// What `GetCommState` reports from the four driver replies (baud rate,
/// handflow, line control, characters), each answered into a zeroed buffer of
/// its structure's size: the first failure, or the `DCB`.
pub open spec fn comm_state_spec(hrs: Seq<i32>, baud: Seq<u8>, handflow: Seq<u8>, line: Seq<u8>, chars: Seq<u8>) -> Result<Dcb, i32> {
    if first_failure(hrs) < 0 {
        Err(first_failure(hrs))
    } else {
        Ok(
            dcb_spec(
                SerialBaudRate { baud_rate: from_le32(baud.subrange(0, 4)) },
                decode_handflow(handflow),
                decode_line_control(line),
                decode_chars(chars),
            ),
        )
    }
}

/// Builds the answer of `GetCommState` from the replies to its four driver
/// requests, which were all issued, in the order baud rate, handflow, line
/// control, characters.
pub fn comm_state_from_replies(
    baud: &IoctlOutcome,
    handflow: &IoctlOutcome,
    line: &IoctlOutcome,
    chars: &IoctlOutcome,
) -> (res: Result<Dcb, i32>)
    requires
        baud.output@.len() >= 4,
        handflow.output@.len() >= 16,
        line.output@.len() >= 3,
        chars.output@.len() >= 6,
    ensures
        res == comm_state_spec(
            seq![baud.hr, handflow.hr, line.hr, chars.hr],
            baud.output@,
            handflow.output@,
            line.output@,
            chars.output@,
        ),
{
    let hrs: [i32; 4] = [baud.hr, handflow.hr, line.hr, chars.hr];
    assert(hrs@ =~= seq![baud.hr, handflow.hr, line.hr, chars.hr]);
    let hr = first_failed(hrs.as_slice());
    if hr < 0 {
        return Err(hr);
    }
    let b = crate::bytes::u32_from_le(baud.output.as_slice(), 0);
    let dcb = dcb_from_state(
        SerialBaudRate { baud_rate: b },
        handflow_from(handflow.output.as_slice()),
        line_control_from(line.output.as_slice()),
        chars_from(chars.output.as_slice()),
    );
    Ok(dcb)
}

/// The `CE_*` error bits that `ClearCommError` reports for driver error bits.
pub open spec fn comm_errors_spec(e: u32) -> u32 {
    flag(e & SERIAL_ERROR_QUEUEOVERRUN != 0, CE_OVERRUN) | flag(e & SERIAL_ERROR_OVERRUN != 0, CE_RXOVER) | flag(
        e & SERIAL_ERROR_BREAK != 0,
        CE_BREAK,
    ) | flag(e & SERIAL_ERROR_PARITY != 0, CE_RXPARITY) | flag(e & SERIAL_ERROR_FRAMING != 0, CE_FRAME)
}

/// The `COMSTAT` that `ClearCommError` reports for a driver status.
pub open spec fn comstat_spec(s: SerialStatus) -> ComStat {
    let h = s.hold_reasons;
    ComStat {
        flags: flag(h & SERIAL_TX_WAITING_FOR_CTS != 0, 1u32 << 0) | flag(h & SERIAL_TX_WAITING_FOR_DSR != 0, 1u32 << 1)
            | flag(h & SERIAL_TX_WAITING_FOR_DCD != 0, 1u32 << 2) | flag(h & SERIAL_TX_WAITING_FOR_XON != 0, 1u32 << 3)
            | flag(h & SERIAL_TX_WAITING_XOFF_SENT != 0, 1u32 << 4) | flag(s.eof_received != 0, 1u32 << 5) | flag(
            s.wait_for_immediate != 0,
            1u32 << 6,
        ),
        cb_in_que: s.amount_in_in_queue,
        cb_out_que: s.amount_in_out_queue,
    }
}

/// Maps driver error bits to the `CE_*` bits of `ClearCommError`.
pub fn comm_errors_from_status(errors: u32) -> (out: u32)
    ensures
        out == comm_errors_spec(errors),
{
    flag_if(errors & SERIAL_ERROR_QUEUEOVERRUN != 0, CE_OVERRUN) | flag_if(errors & SERIAL_ERROR_OVERRUN != 0, CE_RXOVER)
        | flag_if(errors & SERIAL_ERROR_BREAK != 0, CE_BREAK) | flag_if(errors & SERIAL_ERROR_PARITY != 0, CE_RXPARITY)
        | flag_if(errors & SERIAL_ERROR_FRAMING != 0, CE_FRAME)
}

/// Maps a driver status to the `COMSTAT` of `ClearCommError`.
pub fn comstat_from_status(s: SerialStatus) -> (out: ComStat)
    ensures
        out == comstat_spec(s),
{
    let h = s.hold_reasons;
    ComStat {
        flags: flag_if(h & SERIAL_TX_WAITING_FOR_CTS != 0, 1u32 << 0) | flag_if(
            h & SERIAL_TX_WAITING_FOR_DSR != 0,
            1u32 << 1,
        ) | flag_if(h & SERIAL_TX_WAITING_FOR_DCD != 0, 1u32 << 2) | flag_if(
            h & SERIAL_TX_WAITING_FOR_XON != 0,
            1u32 << 3,
        ) | flag_if(h & SERIAL_TX_WAITING_XOFF_SENT != 0, 1u32 << 4) | flag_if(s.eof_received != 0, 1u32 << 5)
            | flag_if(s.wait_for_immediate != 0, 1u32 << 6),
        cb_in_que: s.amount_in_in_queue,
        cb_out_que: s.amount_in_out_queue,
    }
}

/// The driver request behind an `EscapeCommFunction` command.
pub open spec fn escape_ioctl_spec(command: u32) -> Option<u32> {
    if command == CLRBREAK {
        Some(IOCTL_SERIAL_SET_BREAK_OFF)
    } else if command == CLRDTR {
        Some(IOCTL_SERIAL_CLR_DTR)
    } else if command == CLRRTS {
        Some(IOCTL_SERIAL_CLR_RTS)
    } else if command == SETBREAK {
        Some(IOCTL_SERIAL_SET_BREAK_ON)
    } else if command == SETDTR {
        Some(IOCTL_SERIAL_SET_DTR)
    } else if command == SETRTS {
        Some(IOCTL_SERIAL_SET_RTS)
    } else if command == SETXOFF {
        Some(IOCTL_SERIAL_SET_XOFF)
    } else if command == SETXON {
        Some(IOCTL_SERIAL_SET_XON)
    } else {
        None
    }
}

/// The driver request behind an `EscapeCommFunction` command; `None` for an
/// unknown command, which fails with `ERROR_INVALID_PARAMETER`.
pub fn escape_ioctl(command: u32) -> (code: Option<u32>)
    ensures
        code == escape_ioctl_spec(command),
{
    if command == CLRBREAK {
        Some(IOCTL_SERIAL_SET_BREAK_OFF)
    } else if command == CLRDTR {
        Some(IOCTL_SERIAL_CLR_DTR)
    } else if command == CLRRTS {
        Some(IOCTL_SERIAL_CLR_RTS)
    } else if command == SETBREAK {
        Some(IOCTL_SERIAL_SET_BREAK_ON)
    } else if command == SETDTR {
        Some(IOCTL_SERIAL_SET_DTR)
    } else if command == SETRTS {
        Some(IOCTL_SERIAL_SET_RTS)
    } else if command == SETXOFF {
        Some(IOCTL_SERIAL_SET_XOFF)
    } else if command == SETXON {
        Some(IOCTL_SERIAL_SET_XON)
    } else {
        None
    }
}

/// Whether an HRESULT reports a failure.
pub open spec fn failed_spec(hr: i32) -> bool {
    hr < 0
}

/// Whether an HRESULT reports a failure.
pub fn failed(hr: i32) -> (b: bool)
    ensures
        b == failed_spec(hr),
{
    hr < 0
}

/// The Win32 error that a failed HRESULT stands for: the low word of a
/// `0x8007xxxx` code, a fixed error for each well-known HRESULT, and
/// `ERROR_INTERNAL_ERROR` for anything else.
pub open spec fn win32_error_spec(hr: i32) -> u32 {
    let u = hr as u32;
    if u & 0xFFFF_0000u32 == 0x8007_0000u32 {
        u & 0xFFFFu32
    } else if hr == E_ABORT {
        ERROR_OPERATION_ABORTED
    } else if hr == E_ACCESSDENIED {
        ERROR_ACCESS_DENIED
    } else if hr == E_FAIL {
        ERROR_GEN_FAILURE
    } else if hr == E_HANDLE {
        ERROR_INVALID_HANDLE
    } else if hr == E_INVALIDARG {
        ERROR_INVALID_PARAMETER
    } else if hr == E_NOINTERFACE {
        1
    } else if hr == E_NOTIMPL {
        ERROR_NOT_SUPPORTED
    } else if hr == E_OUTOFMEMORY {
        ERROR_OUTOFMEMORY
    } else if hr == E_PENDING {
        ERROR_IO_PENDING
    } else if hr == E_POINTER {
        ERROR_INVALID_ADDRESS
    } else {
        ERROR_INTERNAL_ERROR
    }
}

/// The Win32 last-error value that reports a failed HRESULT to the caller of
/// a hooked API.
pub fn win32_error_from_hresult(hr: i32) -> (e: u32)
    ensures
        e == win32_error_spec(hr),
{
    let u = hr as u32;
    if u & 0xFFFF_0000u32 == 0x8007_0000u32 {
        u & 0xFFFFu32
    } else if hr == E_ABORT {
        ERROR_OPERATION_ABORTED
    } else if hr == E_ACCESSDENIED {
        ERROR_ACCESS_DENIED
    } else if hr == E_FAIL {
        ERROR_GEN_FAILURE
    } else if hr == E_HANDLE {
        ERROR_INVALID_HANDLE
    } else if hr == E_INVALIDARG {
        ERROR_INVALID_PARAMETER
    } else if hr == E_NOINTERFACE {
        1
    } else if hr == E_NOTIMPL {
        ERROR_NOT_SUPPORTED
    } else if hr == E_OUTOFMEMORY {
        ERROR_OUTOFMEMORY
    } else if hr == E_PENDING {
        ERROR_IO_PENDING
    } else if hr == E_POINTER {
        ERROR_INVALID_ADDRESS
    } else {
        ERROR_INTERNAL_ERROR
    }
}

/// How a hooked serial API reports an HRESULT: its `BOOL` result and the
/// last-error value to set, if any (a success sets 0 only when asked to).
pub fn finish(hr: i32, clear_last_error: bool) -> (res: (i32, Option<u32>))
    ensures
        hr < 0 ==> res == (0i32, Some(win32_error_spec(hr))),
        hr >= 0 ==> res == (1i32, if clear_last_error { Some(0u32) } else { None::<u32> }),
{
    if failed(hr) {
        (0, Some(win32_error_from_hresult(hr)))
    } else if clear_last_error {
        (1, Some(0))
    } else {
        (1, None)
    }
}

} // verus!
