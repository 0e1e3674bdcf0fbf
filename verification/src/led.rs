use vstd::prelude::*;
use vstd::string::StringSliceAdditionalSpecFns;
use crate::hresult::{hresult_from_win32, spec_hresult_from_win32, E_FAIL};
use crate::frame::{bytes_eq, byte_sum, checksum8, escape_byte, escape_seq, extend_bytes, lemma_byte_sum_push, lemma_escape_seq_append, lemma_escape_seq_push, markers_ok, push_escaped, sum8};

verus! {

/// Frame start marker of the 15093 LED board protocol.
pub const SYNC: u8 = 0xE0;
/// Escape marker of the 15093 LED board protocol.
pub const ESC: u8 = 0xD0;

/// Where a scan over received bytes stopped.
pub enum FrameScan {
    Error,
    Pending,
    Complete { end: int, frame: Seq<u8> },
}

/// What one decoding step yields.
pub enum Decoded {
    Error,
    Pending,
    Frame(Seq<u8>),
}

/// Index of the first `b` in `s` at or after `i`, or `s.len()` when there is none.
pub open spec fn first_index_of(s: Seq<u8>, b: u8, i: int) -> int
    decreases s.len() - i,
{
    if i < 0 || i >= s.len() {
        s.len() as int
    } else if s[i] == b {
        i
    } else {
        first_index_of(s, b, i + 1)
    }
}

/// Unescapes `rx` from position `i` on, with `decoded` collected so far, until
/// a whole frame (header, payload and checksum) is assembled.
pub open spec fn led_scan(rx: Seq<u8>, i: int, decoded: Seq<u8>, escape: bool) -> FrameScan
    decreases rx.len() - i,
{
    if i < 0 || i >= rx.len() {
        FrameScan::Pending
    } else {
        let b = rx[i];
        if b == SYNC {
            FrameScan::Error
        } else if b == ESC {
            led_scan(rx, i + 1, decoded, true)
        } else {
            let d = decoded.push(
                if escape {
                    ((b as int + 1) % 256) as u8
                } else {
                    b
                },
            );
            if d.len() >= 5 && d.len() == d[3] as int + 5 {
                if checksum8(d.subrange(1, d.len() - 1)) == d.last() {
                    FrameScan::Complete { end: i, frame: d }
                } else {
                    FrameScan::Error
                }
            } else {
                led_scan(rx, i + 1, d, false)
            }
        }
    }
}

/// One decoding step over the received bytes `rx`: the outcome and the bytes
/// that stay queued afterwards.
pub open spec fn led_decode(rx: Seq<u8>) -> (Decoded, Seq<u8>) {
    let s = first_index_of(rx, SYNC, 0);
    if s >= rx.len() {
        (Decoded::Pending, Seq::empty())
    } else {
        let r = rx.skip(s);
        match led_scan(r, 1, seq![r[0]], false) {
            FrameScan::Error => (Decoded::Error, r),
            FrameScan::Pending => (Decoded::Pending, r),
            FrameScan::Complete { end, frame } => (Decoded::Frame(frame.drop_last()), r.skip(end + 1)),
        }
    }
}

/// Raw bytes of a frame after the sync marker: destination, source, length,
/// payload and checksum.
pub open spec fn led_raw(dest: u8, src: u8, payload: Seq<u8>) -> Seq<u8> {
    let header = seq![dest, src, payload.len() as u8] + payload;
    header.push(checksum8(header))
}

/// Wire form of a frame.
pub open spec fn led_encode(dest: u8, src: u8, payload: Seq<u8>) -> Seq<u8> {
    seq![SYNC] + escape_seq(led_raw(dest, src, payload), SYNC, ESC)
}

/// A decoded frame: sync, destination, source, length and payload.
pub open spec fn led_frame(dest: u8, src: u8, payload: Seq<u8>) -> Seq<u8> {
    seq![SYNC, dest, src, payload.len() as u8] + payload
}

/// Appends the wire form of a frame to `tx`; fails on payloads over 255 bytes.
pub fn encode_frame_into(tx: &mut Vec<u8>, dest: u8, src: u8, payload: &[u8]) -> (res: Result<(), i32>)
    ensures
        payload@.len() <= 255 ==> res == Ok::<(), i32>(()) && final(tx)@ == old(tx)@ + led_encode(dest, src, payload@),
        payload@.len() > 255 ==> res == Err::<(), i32>(-1i32) && final(tx)@ == old(tx)@,
{
    if payload.len() > 255 {
        return Err(-1);
    }
    let n = payload.len() as u8;
    let mut raw: Vec<u8> = Vec::new();
    raw.push(dest);
    raw.push(src);
    raw.push(n);
    extend_bytes(&mut raw, payload);
    let sum = sum8(raw.as_slice(), 0, raw.len());
    proof {
        assert(raw@.subrange(0, raw@.len() as int) =~= raw@);
        assert(raw@ =~= seq![dest, src, payload@.len() as u8] + payload@);
    }
    raw.push(sum);
    tx.push(SYNC);
    push_escaped(tx, raw.as_slice(), SYNC, ESC);
    proof {
        assert(final_tx_shape(old(tx)@, tx@, dest, src, payload@));
    }
    Ok(())
}

spec fn final_tx_shape(old_tx: Seq<u8>, tx: Seq<u8>, dest: u8, src: u8, payload: Seq<u8>) -> bool {
    tx =~= old_tx + led_encode(dest, src, payload)
}


/// Takes the next frame out of the received bytes `rx`. Garbage before the
/// first sync marker is dropped; a stray sync marker inside a frame or a bad
/// checksum is an error; an incomplete frame stays queued.
pub fn decode_frame(rx: &mut Vec<u8>) -> (res: Result<Option<Vec<u8>>, i32>)
    ensures
        final(rx)@ == led_decode(old(rx)@).1,
        match led_decode(old(rx)@).0 {
            Decoded::Error => res == Err::<Option<Vec<u8>>, i32>(-1i32),
            Decoded::Pending => res matches Ok(None),
            Decoded::Frame(f) => res matches Ok(Some(v)) && v@ == f,
        },
{
    let ghost orig = rx@;
    let mut sync: usize = 0;
    while sync < rx.len() && rx[sync] != SYNC
        invariant
            sync <= rx@.len(),
            rx@ == orig,
            first_index_of(orig, SYNC, 0) == first_index_of(orig, SYNC, sync as int),
        decreases rx@.len() - sync,
    {
        sync = sync + 1;
    }
    if sync == rx.len() {
        rx.clear();
        return Ok(None);
    }
    if sync > 0 {
        let tail = rx.split_off(sync);
        *rx = tail;
    }
    assert(rx@ =~= orig.skip(sync as int));
    let ghost r = rx@;
    let mut decoded: Vec<u8> = Vec::new();
    decoded.push(rx[0]);
    let mut escape = false;
    let mut idx: usize = 1;
    while idx < rx.len()
        invariant
            rx@ == r,
            old(rx)@ == orig,
            r == orig.skip(sync as int),
            first_index_of(orig, SYNC, 0) == sync as int,
            (sync as int) < orig.len(),
            1 <= idx <= r.len(),
            decoded@.len() <= idx,
            led_scan(r, idx as int, decoded@, escape) == led_scan(r, 1, seq![r[0]], false),
        decreases r.len() - idx,
    {
        let byte = rx[idx];
        if byte == SYNC {
            assert(led_scan(r, idx as int, decoded@, escape) == FrameScan::Error);
            return Err(-1);
        }
        if byte == ESC {
            assert(led_scan(r, idx as int, decoded@, escape) == led_scan(r, idx + 1, decoded@, true));
            escape = true;
        } else {
            let value: u8 = if escape { ((byte as u16 + 1) % 256) as u8 } else { byte };
            let ghost before = decoded@;
            let ghost was_escape = escape;
            decoded.push(value);
            assert(value == (if was_escape { ((byte as int + 1) % 256) as u8 } else { byte }));
            escape = false;
            let len = decoded.len();
            if len >= 5 && len == decoded[3] as usize + 5 {
                let sum = sum8(decoded.as_slice(), 1, len - 1);
                if sum != decoded[len - 1] {
                    return Err(-1);
                }
                let tail = rx.split_off(idx + 1);
                *rx = tail;
                decoded.pop();
                return Ok(Some(decoded));
            }
        }
        idx = idx + 1;
    }
    Ok(None)
}

/// Decoding gives back exactly what encoding wrote: the frame's wire bytes,
/// followed by anything, decode to the frame and leave that rest queued.
pub proof fn lemma_led_decode_encode(dest: u8, src: u8, payload: Seq<u8>, rest: Seq<u8>)
    requires
        payload.len() <= 255,
    ensures
        led_decode(led_encode(dest, src, payload) + rest) == (Decoded::Frame(led_frame(dest, src, payload)), rest),
{
    let t = led_raw(dest, src, payload);
    let f = seq![SYNC] + t;
    let e = led_encode(dest, src, payload) + rest;
    assert(e[0] == SYNC);
    assert(first_index_of(e, SYNC, 0) == 0);
    assert(e.skip(0) =~= e);
    assert(f.take(1) =~= seq![e[0]]);
    assert(escape_seq(t.take(0), SYNC, ESC) =~= Seq::<u8>::empty()) by {
        assert(t.take(0) =~= Seq::<u8>::empty());
    }
    lemma_led_scan_encoded(dest, src, payload, rest, 0);
    let end = escape_seq(t, SYNC, ESC).len() as int;
    assert(e.skip(end + 1) =~= rest);
    assert(f.drop_last() =~= led_frame(dest, src, payload));
}

proof fn lemma_led_scan_encoded(dest: u8, src: u8, payload: Seq<u8>, rest: Seq<u8>, k: int)
    requires
        payload.len() <= 255,
        0 <= k < led_raw(dest, src, payload).len(),
    ensures
        ({
            let t = led_raw(dest, src, payload);
            let f = seq![SYNC] + t;
            let e = led_encode(dest, src, payload) + rest;
            led_scan(e, 1 + escape_seq(t.take(k), SYNC, ESC).len() as int, f.take(1 + k), false)
                == FrameScan::Complete { end: escape_seq(t, SYNC, ESC).len() as int, frame: f }
        }),
    decreases led_raw(dest, src, payload).len() - k,
{
    let t = led_raw(dest, src, payload);
    let f = seq![SYNC] + t;
    let e = led_encode(dest, src, payload) + rest;
    let m = t.len();
    let b = t[k];
    let a = escape_seq(t.take(k), SYNC, ESC);
    let bb = escape_byte(b, SYNC, ESC);
    let c = escape_seq(t.skip(k + 1), SYNC, ESC);
    assert(t.take(k + 1) =~= t.take(k).push(b));
    lemma_escape_seq_push(t.take(k), b, SYNC, ESC);
    assert(t =~= t.take(k + 1) + t.skip(k + 1));
    lemma_escape_seq_append(t.take(k + 1), t.skip(k + 1), SYNC, ESC);
    assert(escape_seq(t, SYNC, ESC) == a + bb + c);
    assert(e =~= seq![SYNC] + a + bb + c + rest);
    let pos: int = 1 + a.len() as int;
    assert(f.take(1 + k).push(b) =~= f.take(2 + k));
    let d2 = f.take(2 + k);
    // the decoded prefix only completes once the checksum arrives
    assert(m == payload.len() + 4);
    assert(f.len() == payload.len() + 5);
    if d2.len() >= 4 {
        assert(d2[3] == payload.len() as u8);
    }
    if b == SYNC || b == ESC {
        assert(e[pos] == ESC);
        assert(e[pos + 1] == (b - 1) as u8);
        assert(((((b - 1) as u8) as int + 1) % 256) as u8 == b);
        assert(led_scan(e, pos, f.take(1 + k), false) == led_scan(e, pos + 1, f.take(1 + k), true));
        if k + 1 < m {
            assert(escape_seq(t.take(k + 1), SYNC, ESC).len() == a.len() + 2);
            lemma_led_scan_encoded(dest, src, payload, rest, k + 1);
        } else {
            assert(d2 =~= f);
            assert(f.subrange(1, f.len() - 1) =~= t.drop_last());
            assert(t.drop_last() =~= seq![dest, src, payload.len() as u8] + payload);
        }
    } else {
        assert(e[pos] == b);
        if k + 1 < m {
            assert(escape_seq(t.take(k + 1), SYNC, ESC).len() == a.len() + 1);
            lemma_led_scan_encoded(dest, src, payload, rest, k + 1);
        } else {
            assert(d2 =~= f);
            assert(f.subrange(1, f.len() - 1) =~= t.drop_last());
            assert(t.drop_last() =~= seq![dest, src, payload.len() as u8] + payload);
        }
    }
}


/// Command status byte reported with every response.
pub const STATUS_OK: u8 = 0x01;
/// Report byte of an accepted command.
pub const REPORT_OK: u8 = 0x01;
/// Report byte of an unknown command.
pub const REPORT_ERR2: u8 = 0x04;
/// Bytes of LED colour and brightness data a board holds.
pub const LED_DATA_LEN: usize = 198;
pub const CMD_RESET: u8 = 0x10;
pub const CMD_SET_TIMEOUT: u8 = 0x11;
pub const CMD_SET_DISABLE_RESPONSE: u8 = 0x14;
pub const CMD_SET_ID: u8 = 0x18;
pub const CMD_CLEAR_ID: u8 = 0x19;
pub const CMD_SET_MAX_BRIGHT: u8 = 0x3F;
pub const CMD_UPDATE_LED: u8 = 0x80;
pub const CMD_SET_LED: u8 = 0x81;
pub const CMD_SET_IMM_LED: u8 = 0x82;
pub const CMD_SET_FADE_LED: u8 = 0x83;
pub const CMD_SET_FADE_LEVEL: u8 = 0x84;
pub const CMD_SET_FADE_SHIFT: u8 = 0x85;
pub const CMD_SET_AUTO_SHIFT: u8 = 0x86;
pub const CMD_GET_BOARD_INFO: u8 = 0xF0;
pub const CMD_GET_BOARD_STATUS: u8 = 0xF1;
pub const CMD_GET_FW_SUM: u8 = 0xF2;
pub const CMD_GET_PROTOCOL_VER: u8 = 0xF3;
pub const CMD_SET_BOOTMODE: u8 = 0xFD;
pub const CMD_FW_UPDATE: u8 = 0xFE;

/// Identity strings and firmware data a board reports.
#[derive(Clone, Copy)]
pub struct Led15093Config {
    pub board_number: [u8; 8],
    pub chip_number: [u8; 5],
    pub boot_chip_number: [u8; 5],
    pub fw_ver: u8,
    pub fw_sum: u16,
    pub high_baudrate: bool,
}

/// `value`'s bytes cut or padded with spaces to `n` bytes.
pub open spec fn spec_fixed_ascii(value: Seq<u8>, n: nat) -> Seq<u8> {
    Seq::new(n, |i: int| if i < value.len() { value[i] } else { 0x20u8 })
}

/// The first `N` bytes of `value`, padded with spaces.
pub fn fixed_ascii<const N: usize>(value: &str) -> (out: [u8; N])
    ensures
        out@ == spec_fixed_ascii(value.spec_bytes(), N as nat),
{
    let bytes = value.as_bytes();
    let mut out: [u8; N] = vstd::array::array_fill_for_copy_types::<u8, N>(0x20u8);
    assert(out@ =~= Seq::new(N as nat, |i: int| 0x20u8)) by {
        assert forall|i: int| 0 <= i < N implies out@[i] == 0x20u8 by {}
    }
    let mut i: usize = 0;
    while i < N && i < bytes.len()
        invariant
            bytes@ == value.spec_bytes(),
            i <= N,
            out@.len() == N,
            forall|j: int| 0 <= j < N ==> out@[j] == (if j < i && j < bytes@.len() { bytes@[j] } else { 0x20u8 }),
        decreases N - i,
    {
        out[i] = bytes[i];
        i = i + 1;
    }
    assert(out@ =~= spec_fixed_ascii(value.spec_bytes(), N as nat));
    out
}

/// The observable state of an emulated board.
pub struct LedView {
    pub board_index: u8,
    pub board_addr: u8,
    pub host_addr: u8,
    pub config: Led15093Config,
    pub enable_bootloader: bool,
    pub enable_response: bool,
    pub board_status: Seq<u8>,
    pub status_code: u8,
    pub report_code: u8,
    pub led_count: u8,
    pub fade_depth: u8,
    pub fade_cycle: u8,
    pub tx: Seq<u8>,
    pub led: Seq<u8>,
    pub led_bright: Seq<u8>,
    pub color_updates: Seq<Seq<u8>>,
    pub failed_commands: Seq<i32>,
}

/// One emulated 15093 LED control board on one serial line.
pub struct Led15093Device {
    pub board_index: u8,
    pub board_addr: u8,
    pub host_addr: u8,
    pub config: Led15093Config,
    pub enable_bootloader: bool,
    pub enable_response: bool,
    pub board_status: [u8; 4],
    pub status_code: u8,
    pub report_code: u8,
    pub led_count: u8,
    pub fade_depth: u8,
    pub fade_cycle: u8,
    /// Responses waiting to be queued on the serial line.
    pub tx: Vec<u8>,
    pub led: Vec<u8>,
    pub led_bright: Vec<u8>,
    /// Colour frames to hand to the LED output backend, oldest first.
    pub color_updates: Vec<Vec<u8>>,
    /// The results of received commands that failed, oldest first, for the
    /// log.
    pub failed_commands: Vec<i32>,
}

impl View for Led15093Device {
    type V = LedView;

    open spec fn view(&self) -> LedView {
        LedView {
            board_index: self.board_index,
            board_addr: self.board_addr,
            host_addr: self.host_addr,
            config: self.config,
            enable_bootloader: self.enable_bootloader,
            enable_response: self.enable_response,
            board_status: self.board_status@,
            status_code: self.status_code,
            report_code: self.report_code,
            led_count: self.led_count,
            fade_depth: self.fade_depth,
            fade_cycle: self.fade_cycle,
            tx: self.tx@,
            led: self.led@,
            led_bright: self.led_bright@,
            color_updates: self.color_updates@.map_values(|v: Vec<u8>| v@),
            failed_commands: self.failed_commands@,
        }
    }
}

/// Both LED data buffers hold exactly one frame of data.
pub open spec fn led_wf(s: LedView) -> bool {
    &&& s.led.len() == LED_DATA_LEN
    &&& s.led_bright.len() == LED_DATA_LEN
    &&& s.board_status.len() == 4
}

/// The state after sending a response frame for `cmd` with `data`.
pub open spec fn respond_spec(s: LedView, cmd: u8, data: Seq<u8>) -> LedView {
    LedView { tx: s.tx + led_encode(s.host_addr, s.board_addr, seq![s.status_code, cmd, s.report_code] + data), ..s }
}

/// The state after a response that the host may have switched off.
pub open spec fn respond_if_enabled_spec(s: LedView, cmd: u8, data: Seq<u8>) -> LedView {
    if s.enable_response {
        respond_spec(s, cmd, data)
    } else {
        s
    }
}

/// Whether `payload` fits the configured LED count and the data buffer.
pub open spec fn led_payload_fits(s: LedView, payload: Seq<u8>) -> bool {
    payload.len() <= s.led_count as int * 3 && payload.len() <= LED_DATA_LEN
}

/// `target` with its first bytes replaced by `payload`.
pub open spec fn overwrite_prefix(target: Seq<u8>, payload: Seq<u8>) -> Seq<u8> {
    payload + target.skip(payload.len() as int)
}

/// The 18-byte board information block.
pub open spec fn board_info_spec(s: LedView) -> Seq<u8> {
    let chip = if s.enable_bootloader { s.config.boot_chip_number@ } else { s.config.chip_number@ };
    s.config.board_number@ + seq![0x0Au8] + chip + seq![0xFFu8, s.config.fw_ver, 0x00u8, 0xCCu8]
}

/// The 10-byte board information block of the legacy board.
pub open spec fn legacy_board_info_spec(s: LedView) -> Seq<u8> {
    s.config.board_number@ + seq![0xFFu8, s.config.fw_ver]
}

/// The legacy board reports itself with the bare number `15093`.
pub open spec fn is_legacy_spec(s: LedView) -> bool {
    s.config.board_number@ == seq![0x31u8, 0x35, 0x30, 0x39, 0x33, 0x20, 0x20, 0x20]
}

pub open spec fn set_id_spec(s: LedView, destination: u8, payload: Seq<u8>) -> (LedView, Result<(), i32>) {
    if payload.len() == 0 {
        (s, Err(E_FAIL))
    } else if payload[0] == 0 || payload[0] > 8 {
        (s, Err(spec_hresult_from_win32(20) as i32))
    } else {
        let addr = if destination != 0 || s.board_addr == 0 { payload[0] } else { s.board_addr };
        (respond_spec(LedView { board_addr: addr, ..s }, CMD_SET_ID, seq![]), Ok(()))
    }
}

/// What one decoded command frame does to the board: the new state and the
/// command's result.
pub open spec fn dispatch_spec(s: LedView, frame: Seq<u8>) -> (LedView, Result<(), i32>) {
    if frame.len() < 5 {
        (s, Err(-1i32))
    } else if frame[1] > 8 {
        (s, Ok(()))
    } else {
        let cmd = frame[4];
        let p = frame.skip(5);
        if cmd == CMD_RESET {
            (respond_spec(LedView { enable_bootloader: false, enable_response: true, ..s }, cmd, seq![]), Ok(()))
        } else if cmd == CMD_SET_ID {
            set_id_spec(s, frame[1], p)
        } else if cmd == CMD_CLEAR_ID {
            (respond_spec(LedView { board_addr: 0, ..s }, cmd, seq![]), Ok(()))
        } else if cmd == CMD_UPDATE_LED || cmd == CMD_SET_FADE_SHIFT {
            (respond_if_enabled_spec(s, cmd, seq![]), Ok(()))
        } else if cmd == CMD_SET_MAX_BRIGHT {
            if led_payload_fits(s, p) {
                (respond_if_enabled_spec(LedView { led_bright: overwrite_prefix(s.led_bright, p), ..s }, cmd, seq![]), Ok(()))
            } else {
                (s, Err(E_FAIL))
            }
        } else if cmd == CMD_SET_LED || cmd == CMD_SET_FADE_LED {
            if led_payload_fits(s, p) {
                (respond_if_enabled_spec(LedView { led: overwrite_prefix(s.led, p), ..s }, cmd, seq![]), Ok(()))
            } else {
                (s, Err(E_FAIL))
            }
        } else if cmd == CMD_SET_IMM_LED {
            if led_payload_fits(s, p) {
                let led = overwrite_prefix(s.led, p);
                (respond_if_enabled_spec(LedView { led: led, color_updates: s.color_updates.push(led), ..s }, cmd, seq![]), Ok(()))
            } else {
                (s, Err(E_FAIL))
            }
        } else if cmd == CMD_SET_FADE_LEVEL {
            let s2 = if p.len() >= 2 { LedView { fade_depth: p[0], fade_cycle: p[1], ..s } } else { s };
            (respond_if_enabled_spec(s2, cmd, seq![]), Ok(()))
        } else if cmd == CMD_SET_TIMEOUT {
            let count = if p.len() >= 2 { seq![p[1], p[0]] } else { seq![0u8, 0u8] };
            (respond_spec(s, cmd, count), Ok(()))
        } else if cmd == CMD_SET_DISABLE_RESPONSE {
            let s2 = if p.len() > 0 { LedView { enable_response: p[0] == 0, ..s } } else { s };
            (respond_spec(s2, cmd, seq![if s2.enable_response { 0u8 } else { 1u8 }]), Ok(()))
        } else if cmd == CMD_SET_AUTO_SHIFT {
            let count = if p.len() > 0 { p[0] } else { 0u8 };
            (respond_if_enabled_spec(LedView { led_count: count, ..s }, cmd, seq![count]), Ok(()))
        } else if cmd == CMD_GET_BOARD_STATUS {
            let s2 = if p.len() > 0 && p[0] != 0 { LedView { board_status: seq![0u8, 0u8, 0u8, 1u8], ..s } } else { s };
            let len: int = if s.enable_bootloader { 3 } else { 4 };
            (respond_spec(s2, cmd, s2.board_status.take(len)), Ok(()))
        } else if cmd == CMD_GET_FW_SUM {
            (respond_spec(s, cmd, seq![(s.config.fw_sum / 256) as u8, (s.config.fw_sum % 256) as u8]), Ok(()))
        } else if cmd == CMD_GET_PROTOCOL_VER {
            let ver = if s.enable_bootloader { seq![0u8, 1u8, 1u8] } else { seq![1u8, 1u8, 4u8] };
            (respond_spec(s, cmd, ver), Ok(()))
        } else if cmd == CMD_GET_BOARD_INFO {
            let info = if is_legacy_spec(s) { legacy_board_info_spec(s) } else { board_info_spec(s) };
            (respond_spec(s, cmd, info), Ok(()))
        } else if cmd == CMD_SET_BOOTMODE {
            (respond_spec(LedView { enable_bootloader: true, ..s }, cmd, seq![1u8]), Ok(()))
        } else if cmd == CMD_FW_UPDATE {
            (respond_spec(s, cmd, seq![]), Ok(()))
        } else {
            (LedView { report_code: REPORT_ERR2, ..s }, Ok(()))
        }
    }
}

impl Led15093Device {
    /// A freshly reset board with the given numbering and identity.
    pub fn new(board_index: u8, board_addr: u8, host_addr: u8, config: Led15093Config) -> (dev: Self)
        ensures
            dev.board_index == board_index,
            dev.board_addr == board_addr,
            dev.host_addr == host_addr,
            dev.config == config,
            !dev.enable_bootloader,
            dev.enable_response,
            dev.board_status@ == seq![0u8, 0u8, 0u8, 1u8],
            dev.status_code == STATUS_OK,
            dev.report_code == REPORT_OK,
            dev.led_count == 66,
            dev.fade_depth == 32,
            dev.fade_cycle == 8,
            dev.tx@ == Seq::<u8>::empty(),
            dev.led@ == Seq::new(198, |i: int| 0u8),
            dev.led_bright@ == Seq::new(198, |i: int| 0x3Fu8),
            dev.color_updates@ == Seq::<Vec<u8>>::empty(),
            dev.failed_commands@ == Seq::<i32>::empty(),
            led_wf(dev@),
    {
        let mut led: Vec<u8> = Vec::new();
        let mut led_bright: Vec<u8> = Vec::new();
        let mut i: usize = 0;
        while i < LED_DATA_LEN
            invariant
                i <= LED_DATA_LEN,
                led@ == Seq::new(i as nat, |j: int| 0u8),
                led_bright@ == Seq::new(i as nat, |j: int| 0x3Fu8),
            decreases LED_DATA_LEN - i,
        {
            led.push(0);
            led_bright.push(0x3F);
            i = i + 1;
            assert(led@ =~= Seq::new(i as nat, |j: int| 0u8));
            assert(led_bright@ =~= Seq::new(i as nat, |j: int| 0x3Fu8));
        }
        Led15093Device {
            board_index,
            board_addr,
            host_addr,
            config,
            enable_bootloader: false,
            enable_response: true,
            board_status: [0, 0, 0, 1],
            status_code: STATUS_OK,
            report_code: REPORT_OK,
            led_count: 66,
            fade_depth: 32,
            fade_cycle: 8,
            tx: Vec::new(),
            led,
            led_bright,
            color_updates: Vec::new(),
            failed_commands: Vec::new(),
        }
    }

    /// Hands out the queued response bytes and empties the queue.
    pub fn take_response(&mut self) -> (out: Vec<u8>)
        ensures
            out@ == old(self)@.tx,
            final(self)@ == (LedView { tx: Seq::empty(), ..old(self)@ }),
    {
        let mut out: Vec<u8> = Vec::new();
        std::mem::swap(&mut out, &mut self.tx);
        out
    }

    /// Hands out the queued colour frames and empties the queue.
    pub fn take_color_updates(&mut self) -> (out: Vec<Vec<u8>>)
        ensures
            out@.map_values(|v: Vec<u8>| v@) == old(self)@.color_updates,
            final(self)@ == (LedView { color_updates: Seq::empty(), ..old(self)@ }),
    {
        let mut out: Vec<Vec<u8>> = Vec::new();
        std::mem::swap(&mut out, &mut self.color_updates);
        assert(self@.color_updates =~= Seq::<Seq<u8>>::empty());
        out
    }

    /// Queues a response frame for `cmd` carrying `data`.
    pub fn respond(&mut self, cmd: u8, data: &[u8]) -> (res: Result<(), i32>)
        requires
            data@.len() <= 252,
        ensures
            res == Ok::<(), i32>(()),
            final(self)@ == respond_spec(old(self)@, cmd, data@),
    {
        let mut payload: Vec<u8> = Vec::new();
        payload.push(self.status_code);
        payload.push(cmd);
        payload.push(self.report_code);
        extend_bytes(&mut payload, data);
        assert(payload@ =~= seq![self.status_code, cmd, self.report_code] + data@);
        let host = self.host_addr;
        let board = self.board_addr;
        encode_frame_into(&mut self.tx, host, board, payload.as_slice())
    }

    /// Queues a response unless the host switched responses off.
    pub fn respond_if_enabled(&mut self, cmd: u8, data: &[u8]) -> (res: Result<(), i32>)
        requires
            data@.len() <= 252,
        ensures
            res == Ok::<(), i32>(()),
            final(self)@ == respond_if_enabled_spec(old(self)@, cmd, data@),
    {
        if self.enable_response {
            self.respond(cmd, data)
        } else {
            Ok(())
        }
    }

    /// The 18-byte board information block.
    pub fn board_info(&self) -> (info: [u8; 18])
        ensures
            info@ == board_info_spec(self@),
    {
        let n = self.config.board_number;
        let c = if self.enable_bootloader { self.config.boot_chip_number } else { self.config.chip_number };
        let info = [
            n[0], n[1], n[2], n[3], n[4], n[5], n[6], n[7], 0x0A,
            c[0], c[1], c[2], c[3], c[4], 0xFF, self.config.fw_ver, 0x00, 0xCC,
        ];
        assert(info@ =~= board_info_spec(self@));
        info
    }

    /// The 10-byte board information block of the legacy board.
    pub fn legacy_board_info(&self) -> (info: [u8; 10])
        ensures
            info@ == legacy_board_info_spec(self@),
    {
        let n = self.config.board_number;
        let info = [n[0], n[1], n[2], n[3], n[4], n[5], n[6], n[7], 0xFF, self.config.fw_ver];
        assert(info@ =~= legacy_board_info_spec(self@));
        info
    }

    /// Whether the board is configured as the legacy `15093` model.
    pub fn is_legacy_board(&self) -> (legacy: bool)
        ensures
            legacy == is_legacy_spec(self@),
    {
        let legacy: [u8; 8] = fixed_ascii::<8>("15093");
        proof {
            reveal_strlit("15093");
            vstd::string::is_ascii_spec_bytes("15093");
            assert(legacy@ =~= seq![0x31u8, 0x35, 0x30, 0x39, 0x33, 0x20, 0x20, 0x20]);
        }
        bytes_eq(self.config.board_number.as_slice(), legacy.as_slice())
    }
}


impl Led15093Device {
    /// Assigns the node address; a broadcast only numbers a board that has none yet.
    pub fn set_id(&mut self, destination: u8, payload: &[u8]) -> (res: Result<(), i32>)
        ensures
            (final(self)@, res) == set_id_spec(old(self)@, destination, payload@),
    {
        if payload.len() == 0 {
            return Err(E_FAIL);
        }
        let id = payload[0];
        if id == 0 || id > 8 {
            return Err(hresult_from_win32(20));
        }
        if destination != 0 || self.board_addr == 0 {
            self.board_addr = id;
        }
        let empty: [u8; 0] = [];
        proof {
            assert(empty@ =~= Seq::<u8>::empty());
        }
        self.respond(CMD_SET_ID, empty.as_slice())
    }

    /// Copies LED colour data, or brightness data when `brightness` is set,
    /// into the front of the board's buffer.
    pub fn copy_led_data(&mut self, payload: &[u8], brightness: bool) -> (res: Result<(), i32>)
        requires
            led_wf(old(self)@),
        ensures
            led_payload_fits(old(self)@, payload@) ==> res == Ok::<(), i32>(()) && final(self)@ == (if brightness {
                LedView { led_bright: overwrite_prefix(old(self)@.led_bright, payload@), ..old(self)@ }
            } else {
                LedView { led: overwrite_prefix(old(self)@.led, payload@), ..old(self)@ }
            }),
            !led_payload_fits(old(self)@, payload@) ==> res == Err::<(), i32>(E_FAIL) && final(self)@ == old(self)@,
            led_wf(final(self)@),
    {
        let max = self.led_count as usize * 3;
        if payload.len() > max || payload.len() > LED_DATA_LEN {
            return Err(E_FAIL);
        }
        let mut i: usize = 0;
        if brightness {
            while i < payload.len()
                invariant
                    i <= payload@.len() <= LED_DATA_LEN,
                    self.led_bright@.len() == LED_DATA_LEN,
                    old(self).led_bright@.len() == LED_DATA_LEN,
                    self.led_bright@ == payload@.subrange(0, i as int) + old(self).led_bright@.skip(i as int),
                    self@ == (LedView { led_bright: self.led_bright@, ..old(self)@ }),
                decreases payload@.len() - i,
            {
                self.led_bright.set(i, payload[i]);
                i = i + 1;
                assert(self.led_bright@ =~= payload@.subrange(0, i as int) + old(self).led_bright@.skip(i as int));
            }
            assert(payload@.subrange(0, i as int) =~= payload@);
        } else {
            while i < payload.len()
                invariant
                    i <= payload@.len() <= LED_DATA_LEN,
                    self.led@.len() == LED_DATA_LEN,
                    old(self).led@.len() == LED_DATA_LEN,
                    self.led@ == payload@.subrange(0, i as int) + old(self).led@.skip(i as int),
                    self@ == (LedView { led: self.led@, ..old(self)@ }),
                decreases payload@.len() - i,
            {
                self.led.set(i, payload[i]);
                i = i + 1;
                assert(self.led@ =~= payload@.subrange(0, i as int) + old(self).led@.skip(i as int));
            }
            assert(payload@.subrange(0, i as int) =~= payload@);
        }
        Ok(())
    }
}


impl Led15093Device {
    /// Runs one decoded command frame: `frame[1]` is the destination node,
    /// `frame[4]` the command and the rest its payload.
    pub fn dispatch(&mut self, frame: &[u8]) -> (res: Result<(), i32>)
        requires
            led_wf(old(self)@),
        ensures
            (final(self)@, res) == dispatch_spec(old(self)@, frame@),
            led_wf(final(self)@),
    {
        if frame.len() < 5 {
            return Err(-1);
        }
        let destination = frame[1];
        if destination > 8 {
            return Ok(());
        }
        let cmd = frame[4];
        let payload = slice_skip(frame, 5);
        let empty: [u8; 0] = [];
        proof {
            assert(empty@ =~= Seq::<u8>::empty());
        }
        if cmd == CMD_RESET {
            self.enable_bootloader = false;
            self.enable_response = true;
            self.respond(cmd, empty.as_slice())
        } else if cmd == CMD_SET_ID {
            self.set_id(destination, payload)
        } else if cmd == CMD_CLEAR_ID {
            self.board_addr = 0;
            self.respond(cmd, empty.as_slice())
        } else if cmd == CMD_UPDATE_LED || cmd == CMD_SET_FADE_SHIFT {
            self.respond_if_enabled(cmd, empty.as_slice())
        } else if cmd == CMD_SET_MAX_BRIGHT {
            let r = self.copy_led_data(payload, true);
            if r.is_err() {
                return r;
            }
            self.respond_if_enabled(cmd, empty.as_slice())
        } else if cmd == CMD_SET_LED || cmd == CMD_SET_FADE_LED {
            let r = self.copy_led_data(payload, false);
            if r.is_err() {
                return r;
            }
            self.respond_if_enabled(cmd, empty.as_slice())
        } else if cmd == CMD_SET_IMM_LED {
            let r = self.copy_led_data(payload, false);
            if r.is_err() {
                return r;
            }
            let colors = self.led.clone();
            proof {
                assert(colors@ =~= self.led@);
            }
            self.color_updates.push(colors);
            proof {
                assert(self@.color_updates =~= old(self)@.color_updates.push(self.led@));
            }
            self.respond_if_enabled(cmd, empty.as_slice())
        } else if cmd == CMD_SET_FADE_LEVEL {
            if payload.len() >= 2 {
                self.fade_depth = payload[0];
                self.fade_cycle = payload[1];
            }
            self.respond_if_enabled(cmd, empty.as_slice())
        } else if cmd == CMD_SET_TIMEOUT {
            let count: [u8; 2] = if payload.len() >= 2 { [payload[1], payload[0]] } else { [0, 0] };
            proof {
                if payload@.len() >= 2 {
                    assert(count@ =~= seq![payload@[1], payload@[0]]);
                } else {
                    assert(count@ =~= seq![0u8, 0u8]);
                }
            }
            self.respond(cmd, count.as_slice())
        } else if cmd == CMD_SET_DISABLE_RESPONSE {
            if payload.len() > 0 {
                self.enable_response = payload[0] == 0;
            }
            let flag: [u8; 1] = [if self.enable_response { 0 } else { 1 }];
            proof {
                assert(flag@ =~= seq![if self.enable_response { 0u8 } else { 1u8 }]);
            }
            self.respond(cmd, flag.as_slice())
        } else if cmd == CMD_SET_AUTO_SHIFT {
            let count: u8 = if payload.len() > 0 { payload[0] } else { 0 };
            self.led_count = count;
            let data: [u8; 1] = [count];
            proof {
                assert(data@ =~= seq![count]);
            }
            self.respond_if_enabled(cmd, data.as_slice())
        } else if cmd == CMD_GET_BOARD_STATUS {
            let len: usize = if self.enable_bootloader { 3 } else { 4 };
            if payload.len() > 0 && payload[0] != 0 {
                self.board_status = [0, 0, 0, 1];
            }
            let status = slice_take(self.board_status.as_slice(), len);
            self.respond(cmd, status.as_slice())
        } else if cmd == CMD_GET_FW_SUM {
            let sum = self.config.fw_sum;
            let data: [u8; 2] = [(sum / 256) as u8, (sum % 256) as u8];
            proof {
                assert(data@ =~= seq![(sum / 256) as u8, (sum % 256) as u8]);
            }
            self.respond(cmd, data.as_slice())
        } else if cmd == CMD_GET_PROTOCOL_VER {
            let ver: [u8; 3] = if self.enable_bootloader { [0, 1, 1] } else { [1, 1, 4] };
            proof {
                if self.enable_bootloader {
                    assert(ver@ =~= seq![0u8, 1u8, 1u8]);
                } else {
                    assert(ver@ =~= seq![1u8, 1u8, 4u8]);
                }
            }
            self.respond(cmd, ver.as_slice())
        } else if cmd == CMD_GET_BOARD_INFO {
            if self.is_legacy_board() {
                let info = self.legacy_board_info();
                self.respond(cmd, info.as_slice())
            } else {
                let info = self.board_info();
                self.respond(cmd, info.as_slice())
            }
        } else if cmd == CMD_SET_BOOTMODE {
            self.enable_bootloader = true;
            let one: [u8; 1] = [1];
            proof {
                assert(one@ =~= seq![1u8]);
            }
            self.respond(cmd, one.as_slice())
        } else if cmd == CMD_FW_UPDATE {
            self.respond(cmd, empty.as_slice())
        } else {
            self.report_code = REPORT_ERR2;
            Ok(())
        }
    }
}

/// The bytes of `s` from `n` on.
pub fn slice_skip(s: &[u8], n: usize) -> (out: &[u8])
    requires
        n <= s@.len(),
    ensures
        out@ == s@.skip(n as int),
{
    let out = vstd::slice::slice_subrange(s, n, s.len());
    assert(out@ =~= s@.skip(n as int));
    out
}

/// The first `n` bytes of `s`, copied.
pub fn slice_take(s: &[u8], n: usize) -> (out: Vec<u8>)
    requires
        n <= s@.len(),
    ensures
        out@ == s@.take(n as int),
{
    let mut out: Vec<u8> = Vec::new();
    let mut i: usize = 0;
    while i < n
        invariant
            i <= n <= s@.len(),
            out@ == s@.take(i as int),
        decreases n - i,
    {
        out.push(s[i]);
        i = i + 1;
        assert(out@ =~= s@.take(i as int));
    }
    out
}


proof fn lemma_led_scan_end(rx: Seq<u8>, i: int, decoded: Seq<u8>, escape: bool)
    ensures
        led_scan(rx, i, decoded, escape) matches FrameScan::Complete { end, frame } ==> i <= end < rx.len(),
    decreases rx.len() - i,
{
    if 0 <= i < rx.len() {
        let b = rx[i];
        let d = decoded.push(if escape { ((b as int + 1) % 256) as u8 } else { b });
        lemma_led_scan_end(rx, i + 1, decoded, true);
        lemma_led_scan_end(rx, i + 1, d, false);
    }
}

pub proof fn lemma_first_index_of(s: Seq<u8>, b: u8, i: int)
    requires
        0 <= i,
    ensures
        i <= first_index_of(s, b, i) || first_index_of(s, b, i) == s.len(),
        first_index_of(s, b, i) <= s.len(),
    decreases s.len() - i,
{
    if i < s.len() && s[i] != b {
        lemma_first_index_of(s, b, i + 1);
    }
}

/// A decoded frame always consumes received bytes.
pub proof fn lemma_led_decode_shrinks(rx: Seq<u8>)
    ensures
        led_decode(rx).0 is Frame ==> led_decode(rx).1.len() < rx.len(),
        led_decode(rx).1.len() <= rx.len(),
{
    lemma_first_index_of(rx, SYNC, 0);
    let s = first_index_of(rx, SYNC, 0);
    if s < rx.len() {
        let r = rx.skip(s);
        lemma_led_scan_end(r, 1, seq![r[0]], false);
    }
}

/// Status bytes are reset after every command.
pub open spec fn after_command(s: LedView) -> LedView {
    LedView { status_code: STATUS_OK, report_code: REPORT_OK, board_status: seq![0u8, 0u8, 0u8, 1u8], ..s }
}

/// The board after a command with result `r`: a failure is recorded.
pub open spec fn record_result(s: LedView, r: Result<(), i32>) -> LedView {
    match r {
        Ok(()) => s,
        Err(e) => LedView { failed_commands: s.failed_commands.push(e), ..s },
    }
}

/// The board after running one decoded command frame: the command's effect,
/// the status bytes reset, and its failure recorded.
pub open spec fn run_frame(s: LedView, frame: Seq<u8>) -> LedView {
    let (s1, r) = dispatch_spec(s, frame);
    record_result(after_command(s1), r)
}

/// Decodes and runs every complete frame in `rx`: the resulting board state,
/// the bytes left queued, and whether decoding failed. A failing command does
/// not stop processing (its result is recorded); only a malformed frame does.
pub open spec fn process_spec(s: LedView, rx: Seq<u8>) -> (LedView, Seq<u8>, Result<(), i32>)
    decreases rx.len(),
{
    let (d, rest) = led_decode(rx);
    match d {
        Decoded::Error => (s, rest, Err(-1i32)),
        Decoded::Pending => (s, rest, Ok(())),
        Decoded::Frame(f) => if rest.len() < rx.len() {
            process_spec(run_frame(s, f), rest)
        } else {
            (s, rest, Ok(()))
        },
    }
}

impl Led15093Device {
    /// Runs every complete command frame in the bytes the host wrote.
    pub fn process(&mut self, written: &mut Vec<u8>) -> (res: Result<(), i32>)
        requires
            led_wf(old(self)@),
        ensures
            (final(self)@, final(written)@, res) == process_spec(old(self)@, old(written)@),
            led_wf(final(self)@),
    {
        loop
            invariant
                led_wf(self@),
                process_spec(self@, written@) == process_spec(old(self)@, old(written)@),
            decreases written@.len(),
        {
            let ghost before = written@;
            let ghost state = self@;
            proof {
                lemma_led_decode_shrinks(before);
            }
            let decoded = decode_frame(written);
            match decoded {
                Err(e) => {
                    return Err(e);
                },
                Ok(None) => {
                    return Ok(());
                },
                Ok(Some(frame)) => {
                    let result = self.dispatch(frame.as_slice());
                    self.status_code = STATUS_OK;
                    self.report_code = REPORT_OK;
                    self.board_status = [0, 0, 0, 1];
                    proof {
                        assert(self@.board_status =~= seq![0u8, 0u8, 0u8, 1u8]);
                        assert(self@ == after_command(dispatch_spec(state, frame@).0));
                    }
                    match result {
                        Ok(()) => {},
                        Err(e) => {
                            self.failed_commands.push(e);
                        },
                    }
                    proof {
                        assert(self@ == run_frame(state, frame@));
                    }
                },
            }
        }
    }
}

/// A command frame as the host sends it: destination, source and payload.
pub struct LedCommand {
    pub dest: u8,
    pub src: u8,
    pub payload: Seq<u8>,
}

/// The wire bytes of `cmds`, one frame after another.
pub open spec fn encode_all(cmds: Seq<LedCommand>) -> Seq<u8>
    decreases cmds.len(),
{
    if cmds.len() == 0 {
        Seq::empty()
    } else {
        led_encode(cmds[0].dest, cmds[0].src, cmds[0].payload) + encode_all(cmds.drop_first())
    }
}

/// The board after running `cmds` in order, the status bytes reset after each.
pub open spec fn run_all(s: LedView, cmds: Seq<LedCommand>) -> LedView
    decreases cmds.len(),
{
    if cmds.len() == 0 {
        s
    } else {
        let c = cmds[0];
        run_all(run_frame(s, led_frame(c.dest, c.src, c.payload)), cmds.drop_first())
    }
}

/// A complete frame at the front of the received bytes is run first, its
/// command's failure recorded, and processing goes on with the bytes after it.
pub proof fn lemma_process_runs_first_frame(s: LedView, dest: u8, src: u8, payload: Seq<u8>, rest: Seq<u8>)
    requires
        payload.len() <= 255,
    ensures
        process_spec(s, led_encode(dest, src, payload) + rest) == process_spec(run_frame(s, led_frame(dest, src, payload)), rest),
{
    lemma_led_decode_encode(dest, src, payload, rest);
    assert(led_encode(dest, src, payload).len() > 0);
}

/// Received bytes made of whole frames are all run, in order, and processing
/// succeeds with nothing left queued, even when commands fail (their failures
/// are recorded).
pub proof fn lemma_process_runs_all_frames(s: LedView, cmds: Seq<LedCommand>)
    requires
        forall|i: int| 0 <= i < cmds.len() ==> (#[trigger] cmds[i]).payload.len() <= 255,
    ensures
        process_spec(s, encode_all(cmds)) == (run_all(s, cmds), Seq::<u8>::empty(), Ok::<(), i32>(())),
    decreases cmds.len(),
{
    if cmds.len() == 0 {
        assert(led_decode(Seq::<u8>::empty()) == (Decoded::Pending, Seq::<u8>::empty()));
    } else {
        let c = cmds[0];
        let tail = cmds.drop_first();
        assert(c.payload.len() <= 255);
        lemma_process_runs_first_frame(s, c.dest, c.src, c.payload, encode_all(tail));
        assert forall|i: int| 0 <= i < tail.len() implies (#[trigger] tail[i]).payload.len() <= 255 by {
            assert(tail[i] == cmds[i + 1]);
        }
        lemma_process_runs_all_frames(run_frame(s, led_frame(c.dest, c.src, c.payload)), tail);
    }
}

/// An immediate colour command whose colours fit the board writes them at
/// the front of the LED buffer and hands the new buffer to the LED backend
/// as exactly one more colour update.
pub proof fn lemma_set_imm_led_hands_colours_to_backend(s: LedView, frame: Seq<u8>)
    requires
        frame.len() >= 5,
        frame[1] <= 8,
        frame[4] == 0x82u8,
        frame.len() - 5 <= s.led_count * 3,
        frame.len() - 5 <= s.led.len(),
        led_wf(s),
    ensures
        ({
            let (s1, r) = dispatch_spec(s, frame);
            let colours = frame.skip(5);
            let buffer = colours + s.led.skip(colours.len() as int);
            &&& r is Ok
            &&& s1.led == buffer
            &&& s1.color_updates.len() == s.color_updates.len() + 1
            &&& s1.color_updates.take(s.color_updates.len() as int) == s.color_updates
            &&& s1.color_updates.last() == buffer
        }),
{
    let (s1, r) = dispatch_spec(s, frame);
    assert(s1.color_updates.take(s.color_updates.len() as int) =~= s.color_updates);
}

/// Only the immediate colour command hands colours to the LED backend: every
/// other command leaves the colour updates as they were.
pub proof fn lemma_only_set_imm_led_hands_colours(s: LedView, frame: Seq<u8>)
    requires
        frame.len() < 5 || frame[4] != 0x82u8,
    ensures
        dispatch_spec(s, frame).0.color_updates == s.color_updates,
{
}

} // verus!
