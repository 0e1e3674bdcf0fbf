use vstd::prelude::*;
use crate::frame::{
    byte_sum, checksum8, escape_byte, escape_seq, extend_bytes, lemma_byte_sum_push, lemma_escape_seq_append,
    lemma_escape_seq_push, markers_ok, push_escaped, sum8,
};
use crate::hresult::{hresult_from_win32, spec_hresult_from_win32, E_FAIL, S_OK};
use crate::led::{first_index_of, lemma_first_index_of, Decoded, FrameScan};
use crate::uart::{
    bind_handle, device_io_control, handle_bound, handle_has_port, ioctl_spec, port_of, push_readable,
    push_readable_port, restore_written, take_written, unbind_handle, UartPort, UartRegistry, ERROR_INVALID_FUNCTION,
};
use crate::uart_irp::{done_with, open_port, open_port_spec, uart_handle_irp, uart_irp_post, IrpOp, IrpOutcome, UartIrp};

verus! {

/// Frame start marker of the slider protocol.
pub const SYNC: u8 = 0xFF;
/// Escape marker of the slider protocol.
pub const ESC: u8 = 0xFD;
pub const CMD_AUTO_SCAN: u8 = 0x01;
pub const CMD_SET_LED: u8 = 0x02;
pub const CMD_AUTO_SCAN_START: u8 = 0x03;
pub const CMD_AUTO_SCAN_STOP: u8 = 0x04;
pub const CMD_RESET: u8 = 0x10;
pub const CMD_GET_BOARD_INFO: u8 = 0xF0;

/// The COM port number the slider is attached to.
pub const SLIDER_PORT: u32 = 1;

/// Bytes of LED colour data in a set-LED command.
pub const SLIDER_LED_BYTES: usize = 96;

/// The firmware information block: model `15330`, chip `0671` and firmware
/// version 0x90, zero padded to 32 bytes.
pub open spec fn board_info_spec() -> Seq<u8> {
    seq![0x31u8, 0x35, 0x33, 0x33, 0x30, 0x20, 0x20, 0x20, 0xA0, 0x30, 0x36, 0x37, 0x31, 0x32, 0xFF, 0x90]
        + Seq::new(16, |i: int| 0u8)
}

/// Unescapes `rx` from position `i` on, with `decoded` collected so far, until
/// a whole frame (header, payload and checksum) is assembled. Two escape
/// markers in a row are an error.
pub open spec fn slider_scan(rx: Seq<u8>, i: int, decoded: Seq<u8>, escape: bool) -> FrameScan
    decreases rx.len() - i,
{
    if i < 0 || i >= rx.len() {
        FrameScan::Pending
    } else {
        let b = rx[i];
        if b == SYNC {
            FrameScan::Error
        } else if b == ESC {
            if escape {
                FrameScan::Error
            } else {
                slider_scan(rx, i + 1, decoded, true)
            }
        } else {
            let d = decoded.push(
                if escape {
                    ((b as int + 1) % 256) as u8
                } else {
                    b
                },
            );
            if d.len() >= 4 && d.len() == d[2] as int + 4 {
                if checksum8(d) == 0 {
                    FrameScan::Complete { end: i, frame: d }
                } else {
                    FrameScan::Error
                }
            } else {
                slider_scan(rx, i + 1, d, false)
            }
        }
    }
}

/// One decoding step over the received bytes `rx`: the outcome and the bytes
/// that stay queued afterwards.
pub open spec fn slider_decode(rx: Seq<u8>) -> (Decoded, Seq<u8>) {
    let s = first_index_of(rx, SYNC, 0);
    if s >= rx.len() {
        (Decoded::Pending, Seq::empty())
    } else {
        let r = rx.skip(s);
        match slider_scan(r, 1, seq![r[0]], false) {
            FrameScan::Error => (Decoded::Error, r),
            FrameScan::Pending => (Decoded::Pending, r),
            FrameScan::Complete { end, frame } => (Decoded::Frame(frame.drop_last()), r.skip(end + 1)),
        }
    }
}

/// A decoded frame: sync, command, length and payload.
pub open spec fn slider_frame(cmd: u8, payload: Seq<u8>) -> Seq<u8> {
    seq![SYNC, cmd, payload.len() as u8] + payload
}

/// The byte that makes the 8-bit sum of a frame zero.
pub open spec fn negated_sum(h: Seq<u8>) -> u8 {
    ((256 - checksum8(h) as int) % 256) as u8
}

/// Raw bytes of a frame after the sync marker: command, length, payload and
/// the byte that brings the frame's sum to zero.
pub open spec fn slider_raw(cmd: u8, payload: Seq<u8>) -> Seq<u8> {
    (seq![cmd, payload.len() as u8] + payload).push(negated_sum(slider_frame(cmd, payload)))
}

/// Wire form of a frame.
pub open spec fn slider_encode(cmd: u8, payload: Seq<u8>) -> Seq<u8> {
    seq![SYNC] + escape_seq(slider_raw(cmd, payload), SYNC, ESC)
}

/// Appends the wire form of a frame to `tx`; fails on payloads over 255 bytes.
pub fn encode_frame_into(tx: &mut Vec<u8>, cmd: u8, payload: &[u8]) -> (res: Result<(), i32>)
    ensures
        payload@.len() <= 255 ==> res == Ok::<(), i32>(()) && final(tx)@ == old(tx)@ + slider_encode(cmd, payload@),
        payload@.len() > 255 ==> res == Err::<(), i32>(-1i32) && final(tx)@ == old(tx)@,
{
    if payload.len() > 255 {
        return Err(-1);
    }
    let n = payload.len() as u8;
    let mut raw: Vec<u8> = Vec::new();
    raw.push(SYNC);
    raw.push(cmd);
    raw.push(n);
    extend_bytes(&mut raw, payload);
    let sum = sum8(raw.as_slice(), 0, raw.len());
    proof {
        assert(raw@.subrange(0, raw@.len() as int) =~= raw@);
        assert(raw@ =~= slider_frame(cmd, payload@));
    }
    let check: u8 = ((256u16 - sum as u16) % 256) as u8;
    let ghost body = raw@;
    raw.push(check);
    let (_, rest) = raw.as_slice().split_at(1);
    proof {
        assert(rest@ =~= slider_raw(cmd, payload@));
    }
    tx.push(SYNC);
    push_escaped(tx, rest, SYNC, ESC);
    proof {
        assert(tx@ =~= old(tx)@ + slider_encode(cmd, payload@));
    }
    Ok(())
}

/// Takes the next frame out of the received bytes `rx`. Garbage before the
/// first sync marker is dropped; a stray sync marker, a doubled escape or a
/// frame whose bytes do not sum to zero is an error; an incomplete frame stays
/// queued.
pub fn decode_frame(rx: &mut Vec<u8>) -> (res: Result<Option<Vec<u8>>, i32>)
    ensures
        final(rx)@ == slider_decode(old(rx)@).1,
        match slider_decode(old(rx)@).0 {
            Decoded::Error => res == Err::<Option<Vec<u8>>, i32>(-1i32),
            Decoded::Pending => res matches Ok(None),
            Decoded::Frame(f) => res matches Ok(Some(v)) && v@ == f,
        },
{
    let ghost orig = rx@;
    let mut sync: usize = 0;
    while sync < rx.len() && rx[sync] != SYNC
        invariant
            sync <= rx@.len(),
            rx@ == orig,
            first_index_of(orig, SYNC, 0) == first_index_of(orig, SYNC, sync as int),
        decreases rx@.len() - sync,
    {
        sync = sync + 1;
    }
    if sync == rx.len() {
        rx.clear();
        return Ok(None);
    }
    if sync > 0 {
        let tail = rx.split_off(sync);
        *rx = tail;
    }
    assert(rx@ =~= orig.skip(sync as int));
    let ghost r = rx@;
    let mut decoded: Vec<u8> = Vec::new();
    decoded.push(rx[0]);
    let mut escape = false;
    let mut idx: usize = 1;
    while idx < rx.len()
        invariant
            rx@ == r,
            old(rx)@ == orig,
            r == orig.skip(sync as int),
            first_index_of(orig, SYNC, 0) == sync as int,
            (sync as int) < orig.len(),
            1 <= idx <= r.len(),
            decoded@.len() <= idx,
            slider_scan(r, idx as int, decoded@, escape) == slider_scan(r, 1, seq![r[0]], false),
        decreases r.len() - idx,
    {
        let byte = rx[idx];
        if byte == SYNC {
            return Err(-1);
        }
        if byte == ESC {
            if escape {
                return Err(-1);
            }
            escape = true;
        } else {
            let value: u8 = if escape { ((byte as u16 + 1) % 256) as u8 } else { byte };
            decoded.push(value);
            escape = false;
            let len = decoded.len();
            if len >= 4 && len == decoded[2] as usize + 4 {
                let sum = sum8(decoded.as_slice(), 0, len);
                assert(decoded@.subrange(0, len as int) =~= decoded@);
                if sum != 0 {
                    return Err(-1);
                }
                let tail = rx.split_off(idx + 1);
                *rx = tail;
                decoded.pop();
                return Ok(Some(decoded));
            }
        }
        idx = idx + 1;
    }
    Ok(None)
}

proof fn lemma_negated_sum(h: Seq<u8>)
    ensures
        checksum8(h.push(negated_sum(h))) == 0,
{
    lemma_byte_sum_push(h, negated_sum(h));
    let s = byte_sum(h);
    let c = checksum8(h) as int;
    assert(c == s % 256);
    assert((s + (256 - c) % 256) % 256 == 0) by (nonlinear_arith)
        requires
            c == s % 256,
            s >= 0,
    ;
}

/// Decoding gives back exactly what encoding wrote: the frame's wire bytes,
/// followed by anything, decode to the frame and leave that rest queued.
pub proof fn lemma_slider_decode_encode(cmd: u8, payload: Seq<u8>, rest: Seq<u8>)
    requires
        payload.len() <= 255,
    ensures
        slider_decode(slider_encode(cmd, payload) + rest) == (Decoded::Frame(slider_frame(cmd, payload)), rest),
{
    let t = slider_raw(cmd, payload);
    let f = seq![SYNC] + t;
    let e = slider_encode(cmd, payload) + rest;
    assert(e[0] == SYNC);
    assert(first_index_of(e, SYNC, 0) == 0);
    assert(e.skip(0) =~= e);
    assert(f.take(1) =~= seq![e[0]]);
    assert(escape_seq(t.take(0), SYNC, ESC) =~= Seq::<u8>::empty()) by {
        assert(t.take(0) =~= Seq::<u8>::empty());
    }
    lemma_slider_scan_encoded(cmd, payload, rest, 0);
    let end = escape_seq(t, SYNC, ESC).len() as int;
    assert(e.skip(end + 1) =~= rest);
    assert(f.drop_last() =~= slider_frame(cmd, payload));
}

proof fn lemma_slider_scan_encoded(cmd: u8, payload: Seq<u8>, rest: Seq<u8>, k: int)
    requires
        payload.len() <= 255,
        0 <= k < slider_raw(cmd, payload).len(),
    ensures
        ({
            let t = slider_raw(cmd, payload);
            let f = seq![SYNC] + t;
            let e = slider_encode(cmd, payload) + rest;
            slider_scan(e, 1 + escape_seq(t.take(k), SYNC, ESC).len() as int, f.take(1 + k), false)
                == FrameScan::Complete { end: escape_seq(t, SYNC, ESC).len() as int, frame: f }
        }),
    decreases slider_raw(cmd, payload).len() - k,
{
    let t = slider_raw(cmd, payload);
    let f = seq![SYNC] + t;
    let e = slider_encode(cmd, payload) + rest;
    let m = t.len();
    let b = t[k];
    let a = escape_seq(t.take(k), SYNC, ESC);
    let bb = escape_byte(b, SYNC, ESC);
    let c = escape_seq(t.skip(k + 1), SYNC, ESC);
    assert(t.take(k + 1) =~= t.take(k).push(b));
    lemma_escape_seq_push(t.take(k), b, SYNC, ESC);
    assert(t =~= t.take(k + 1) + t.skip(k + 1));
    lemma_escape_seq_append(t.take(k + 1), t.skip(k + 1), SYNC, ESC);
    assert(escape_seq(t, SYNC, ESC) == a + bb + c);
    assert(e =~= seq![SYNC] + a + bb + c + rest);
    let pos: int = 1 + a.len() as int;
    assert(f.take(1 + k).push(b) =~= f.take(2 + k));
    let d2 = f.take(2 + k);
    assert(m == payload.len() + 3);
    assert(f.len() == payload.len() + 4);
    if d2.len() >= 3 {
        assert(d2[2] == payload.len() as u8);
    }
    if k + 1 == m {
        assert(d2 =~= f);
        assert(f =~= slider_frame(cmd, payload).push(negated_sum(slider_frame(cmd, payload))));
        lemma_negated_sum(slider_frame(cmd, payload));
    }
    if b == SYNC || b == ESC {
        assert(e[pos] == ESC);
        assert(e[pos + 1] == (b - 1) as u8);
        assert(((((b - 1) as u8) as int + 1) % 256) as u8 == b);
        assert(slider_scan(e, pos, f.take(1 + k), false) == slider_scan(e, pos + 1, f.take(1 + k), true));
        if k + 1 < m {
            assert(escape_seq(t.take(k + 1), SYNC, ESC).len() == a.len() + 2);
            lemma_slider_scan_encoded(cmd, payload, rest, k + 1);
        }
    } else {
        assert(e[pos] == b);
        if k + 1 < m {
            assert(escape_seq(t.take(k + 1), SYNC, ESC).len() == a.len() + 1);
            lemma_slider_scan_encoded(cmd, payload, rest, k + 1);
        }
    }
}


/// What the slider asks of its input backend.
pub enum SliderAction {
    /// Show these 96 bytes of LED colour.
    SetLeds(Vec<u8>),
    /// Start reporting touch pressure.
    Start,
    /// Stop reporting touch pressure.
    Stop,
}

/// The spec form of a backend request.
pub enum SliderActionView {
    SetLeds(Seq<u8>),
    Start,
    Stop,
}

pub open spec fn action_view(a: SliderAction) -> SliderActionView {
    match a {
        SliderAction::SetLeds(v) => SliderActionView::SetLeds(v@),
        SliderAction::Start => SliderActionView::Start,
        SliderAction::Stop => SliderActionView::Stop,
    }
}

/// The emulated slider board: it answers commands on its serial line and
/// collects the requests for its input backend, oldest first.
pub struct SliderDevice {
    pub actions: Vec<SliderAction>,
}

impl View for SliderDevice {
    type V = Seq<SliderActionView>;

    open spec fn view(&self) -> Seq<SliderActionView> {
        self.actions@.map_values(|a: SliderAction| action_view(a))
    }
}

/// What one decoded command frame does: the backend requests afterwards, the
/// response bytes appended for the host, and the command's result.
pub open spec fn slider_dispatch_spec(acts: Seq<SliderActionView>, frame: Seq<u8>) -> (Seq<SliderActionView>, Seq<u8>, Result<(), i32>) {
    if frame.len() < 3 {
        (acts, Seq::empty(), Err(-1i32))
    } else {
        let cmd = frame[1];
        if cmd == CMD_RESET {
            (acts, slider_encode(CMD_RESET, Seq::empty()), Ok(()))
        } else if cmd == CMD_GET_BOARD_INFO {
            (acts, slider_encode(CMD_GET_BOARD_INFO, board_info_spec()), Ok(()))
        } else if cmd == CMD_SET_LED {
            if frame.len() >= 4 + 96 {
                (acts.push(SliderActionView::SetLeds(frame.subrange(4, 100))), Seq::empty(), Ok(()))
            } else {
                (acts, Seq::empty(), Ok(()))
            }
        } else if cmd == CMD_AUTO_SCAN_START {
            (acts.push(SliderActionView::Start), Seq::empty(), Ok(()))
        } else if cmd == CMD_AUTO_SCAN_STOP {
            (acts.push(SliderActionView::Stop), slider_encode(CMD_AUTO_SCAN_STOP, Seq::empty()), Ok(()))
        } else {
            (acts, Seq::empty(), Ok(()))
        }
    }
}

/// Decodes and runs every complete frame in `rx`: the backend requests, the
/// bytes left queued, the responses for the host, and whether it failed. A
/// malformed frame or a failing command stops processing.
pub open spec fn slider_process_spec(acts: Seq<SliderActionView>, rx: Seq<u8>) -> (Seq<SliderActionView>, Seq<u8>, Seq<u8>, Result<(), i32>)
    decreases rx.len(),
{
    let (d, rest) = slider_decode(rx);
    match d {
        Decoded::Error => (acts, rest, Seq::empty(), Err(-1i32)),
        Decoded::Pending => (acts, rest, Seq::empty(), Ok(())),
        Decoded::Frame(f) => {
            let (a2, out, r) = slider_dispatch_spec(acts, f);
            if r is Err {
                (a2, rest, out, r)
            } else if rest.len() < rx.len() {
                let (a3, rest3, out3, r3) = slider_process_spec(a2, rest);
                (a3, rest3, out + out3, r3)
            } else {
                (a2, rest, out, Ok(()))
            }
        },
    }
}

proof fn lemma_slider_scan_end(rx: Seq<u8>, i: int, decoded: Seq<u8>, escape: bool)
    ensures
        slider_scan(rx, i, decoded, escape) matches FrameScan::Complete { end, frame } ==> i <= end < rx.len(),
    decreases rx.len() - i,
{
    if 0 <= i < rx.len() {
        let b = rx[i];
        let d = decoded.push(if escape { ((b as int + 1) % 256) as u8 } else { b });
        lemma_slider_scan_end(rx, i + 1, decoded, true);
        lemma_slider_scan_end(rx, i + 1, d, false);
    }
}

/// A decoded frame always consumes received bytes.
pub proof fn lemma_slider_decode_shrinks(rx: Seq<u8>)
    ensures
        slider_decode(rx).0 is Frame ==> slider_decode(rx).1.len() < rx.len(),
        slider_decode(rx).1.len() <= rx.len(),
{
    lemma_first_index_of(rx, SYNC, 0);
    let s = first_index_of(rx, SYNC, 0);
    if s < rx.len() {
        let r = rx.skip(s);
        lemma_slider_scan_end(r, 1, seq![r[0]], false);
    }
}

fn board_info() -> (out: Vec<u8>)
    ensures
        out@ == board_info_spec(),
{
    let mut out: Vec<u8> = vec![0x31u8, 0x35, 0x33, 0x33, 0x30, 0x20, 0x20, 0x20, 0xA0, 0x30, 0x36, 0x37, 0x31, 0x32, 0xFF, 0x90];
    let mut i: usize = 0;
    while i < 16
        invariant
            i <= 16,
            out@ == seq![0x31u8, 0x35, 0x33, 0x33, 0x30, 0x20, 0x20, 0x20, 0xA0, 0x30, 0x36, 0x37, 0x31, 0x32, 0xFF, 0x90]
                + Seq::new(i as nat, |j: int| 0u8),
        decreases 16 - i,
    {
        out.push(0);
        i = i + 1;
        assert(out@ =~= seq![0x31u8, 0x35, 0x33, 0x33, 0x30, 0x20, 0x20, 0x20, 0xA0, 0x30, 0x36, 0x37, 0x31, 0x32, 0xFF, 0x90]
                + Seq::new(i as nat, |j: int| 0u8));
    }
    out
}

impl SliderDevice {
    /// A slider with no pending backend requests.
    pub fn new() -> (d: Self)
        ensures
            d@ == Seq::<SliderActionView>::empty(),
    {
        let d = SliderDevice { actions: Vec::new() };
        assert(d@ =~= Seq::<SliderActionView>::empty());
        d
    }

    /// Hands out the pending backend requests, oldest first.
    pub fn take_actions(&mut self) -> (out: Vec<SliderAction>)
        ensures
            out@.map_values(|a: SliderAction| action_view(a)) == old(self)@,
            final(self)@ == Seq::<SliderActionView>::empty(),
    {
        let mut out: Vec<SliderAction> = Vec::new();
        std::mem::swap(&mut out, &mut self.actions);
        assert(self@ =~= Seq::<SliderActionView>::empty());
        out
    }

    fn push_action(&mut self, a: SliderAction)
        ensures
            final(self)@ == old(self)@.push(action_view(a)),
    {
        self.actions.push(a);
        assert(self@ =~= old(self)@.push(action_view(a)));
    }

    /// Runs one decoded command frame, appending any response to `readable`.
    pub fn dispatch(&mut self, frame: &[u8], readable: &mut Vec<u8>) -> (res: Result<(), i32>)
        ensures
            ({
                let (a, out, r) = slider_dispatch_spec(old(self)@, frame@);
                final(self)@ == a && final(readable)@ == old(readable)@ + out && res == r
            }),
    {
        if frame.len() < 3 {
            assert(old(readable)@ + Seq::<u8>::empty() =~= old(readable)@);
            return Err(-1);
        }
        let cmd = frame[1];
        if cmd == CMD_RESET {
            let empty: Vec<u8> = Vec::new();
            encode_frame_into(readable, CMD_RESET, empty.as_slice())
        } else if cmd == CMD_GET_BOARD_INFO {
            let info = board_info();
            encode_frame_into(readable, CMD_GET_BOARD_INFO, info.as_slice())
        } else if cmd == CMD_SET_LED {
            if frame.len() >= 4 + 96 {
                let mut leds: Vec<u8> = Vec::new();
                let mut i: usize = 4;
                while i < 100
                    invariant
                        4 <= i <= 100,
                        frame@.len() >= 100,
                        leds@ == frame@.subrange(4, i as int),
                    decreases 100 - i,
                {
                    leds.push(frame[i]);
                    i = i + 1;
                    assert(leds@ =~= frame@.subrange(4, i as int));
                }
                self.push_action(SliderAction::SetLeds(leds));
            }
            assert(old(readable)@ + Seq::<u8>::empty() =~= old(readable)@);
            Ok(())
        } else if cmd == CMD_AUTO_SCAN_START {
            self.push_action(SliderAction::Start);
            assert(old(readable)@ + Seq::<u8>::empty() =~= old(readable)@);
            Ok(())
        } else if cmd == CMD_AUTO_SCAN_STOP {
            self.push_action(SliderAction::Stop);
            let empty: Vec<u8> = Vec::new();
            encode_frame_into(readable, CMD_AUTO_SCAN_STOP, empty.as_slice())
        } else {
            assert(old(readable)@ + Seq::<u8>::empty() =~= old(readable)@);
            Ok(())
        }
    }

    /// Runs every complete command frame in the bytes the host wrote, leaving
    /// incomplete input queued and appending responses to `readable`.
    pub fn process(&mut self, written: &mut Vec<u8>, readable: &mut Vec<u8>) -> (res: Result<(), i32>)
        ensures
            ({
                let (a, rest, out, r) = slider_process_spec(old(self)@, old(written)@);
                final(self)@ == a && final(written)@ == rest && final(readable)@ == old(readable)@ + out && res == r
            }),
    {
        loop
            invariant
                ({
                    let (a, rest, out, r) = slider_process_spec(self@, written@);
                    let (a0, rest0, out0, r0) = slider_process_spec(old(self)@, old(written)@);
                    a == a0 && rest == rest0 && readable@ + out == old(readable)@ + out0 && r == r0
                }),
            decreases written@.len(),
        {
            let ghost before = written@;
            let ghost acts = self@;
            let ghost rd = readable@;
            proof {
                lemma_slider_decode_shrinks(before);
            }
            let decoded = decode_frame(written);
            match decoded {
                Err(e) => {
                    assert(readable@ + Seq::<u8>::empty() =~= readable@);
                    return Err(e);
                },
                Ok(None) => {
                    assert(readable@ + Seq::<u8>::empty() =~= readable@);
                    return Ok(());
                },
                Ok(Some(frame)) => {
                    let r = self.dispatch(frame.as_slice(), readable);
                    proof {
                        let (a2, out, rr) = slider_dispatch_spec(acts, frame@);
                        if rr is Ok {
                            let (a3, rest3, out3, r3) = slider_process_spec(a2, written@);
                            assert(rd + (out + out3) =~= (rd + out) + out3);
                        }
                    }
                    if r.is_err() {
                        return r;
                    }
                },
            }
        }
    }
}

/// Encodes a touch report with `pressure` and queues it on the slider's port,
/// as the input backend does for every scan; `false` when the port is not set up.
pub fn auto_scan_report(reg: &mut UartRegistry, pressure: &[u8]) -> (ok: bool)
    requires
        pressure@.len() <= 255,
    ensures
        ok == old(reg).ports@.contains_key(SLIDER_PORT),
        final(reg).handles@ == old(reg).handles@,
        !ok ==> final(reg).ports@ == old(reg).ports@,
        ok ==> final(reg).ports@.dom() == old(reg).ports@.dom()
            && final(reg).ports@[SLIDER_PORT].readable@ == old(reg).ports@[SLIDER_PORT].readable@ + slider_encode(
            CMD_AUTO_SCAN,
            pressure@,
        ) && forall|k: u32| k != SLIDER_PORT ==> #[trigger] final(reg).ports@.index(k) == old(reg).ports@.index(k),
{
    let mut response: Vec<u8> = Vec::new();
    let _ = encode_frame_into(&mut response, CMD_AUTO_SCAN, pressure);
    assert(response@ =~= slider_encode(CMD_AUTO_SCAN, pressure@));
    push_readable_port(reg, SLIDER_PORT, response.as_slice())
}


pub const ERROR_ACCESS_DENIED: u32 = 5;

/// The slider device and the handle its port is open on (0 when closed).
pub struct SliderHost {
    pub device: SliderDevice,
    pub fd: usize,
}

/// What a write on the slider's handle does: the bytes join the port's write
/// queue, the slider runs every complete frame in it, the unconsumed bytes stay
/// queued and the responses join the read queue. The write fails with `E_FAIL`
/// when a frame is malformed.
pub open spec fn slider_write_ok(h0: SliderHost, h1: SliderHost, r0: UartRegistry, r1: UartRegistry, irp: UartIrp, out: IrpOutcome) -> bool {
    let q = port_of(r0, irp.handle);
    let k = r0.handles@[irp.handle];
    let w = if irp.has_buffer && irp.nbytes != 0 { q.written@ + irp.write_data@ } else { q.written@ };
    let (a, rest, resp, res) = slider_process_spec(h0.device@, w);
    if !handle_bound(r0, irp.handle) {
        out is NextThenFail && h1.device@ == h0.device@ && h1.fd == h0.fd && r1 == r0
    } else if !handle_has_port(r0, irp.handle) {
        done_with(out, E_FAIL, irp.nbytes, Seq::empty()) && r1.ports@ == r0.ports@ && r1.handles@ == r0.handles@
            && h1.device@ == h0.device@ && h1.fd == h0.fd
    } else {
        &&& done_with(out, if res is Ok { S_OK } else { E_FAIL }, irp.nbytes, Seq::empty())
        &&& h1.device@ == a
        &&& h1.fd == h0.fd
        &&& r1.handles@ == r0.handles@
        &&& r1.ports@ == r0.ports@.insert(k, UartPort { written: r1.ports@[k].written, readable: r1.ports@[k].readable, ..q })
        &&& r1.ports@[k].written@ == rest
        &&& r1.ports@[k].readable@ == q.readable@ + resp
    }
}

/// What the slider does with a file request on the hook chain: opening COM1
/// is refused while it is open and otherwise starts the input backend; close,
/// read, write, control and flush requests on its handle are served; the rest
/// goes to the next handler.
pub open spec fn slider_irp_ok(h0: SliderHost, h1: SliderHost, r0: UartRegistry, r1: UartRegistry, irp: UartIrp, out: IrpOutcome) -> bool {
    if irp.op == IrpOp::Open {
        &&& h1.device@ == h0.device@ && h1.fd == h0.fd && r1 == r0
        &&& if open_port_spec(irp) != Some(SLIDER_PORT) {
            out is Next
        } else if h0.fd != 0 {
            done_with(out, spec_hresult_from_win32(ERROR_ACCESS_DENIED) as i32, 0, Seq::empty())
        } else {
            out matches IrpOutcome::StartBackend(j) && j == 0
        }
    } else if h0.fd == 0 || irp.handle != h0.fd {
        h1.device@ == h0.device@ && h1.fd == h0.fd && r1 == r0 && out is Next
    } else if irp.op == IrpOp::Close {
        &&& h1.device@ == h0.device@ && h1.fd == 0
        &&& r1.handles@ == r0.handles@.remove(h0.fd)
        &&& r1.ports@ == r0.ports@
        &&& out is Next
    } else if irp.op == IrpOp::Read {
        h1.device@ == h0.device@ && h1.fd == h0.fd && uart_irp_post(r0, r1, irp, out)
    } else if irp.op == IrpOp::Write {
        slider_write_ok(h0, h1, r0, r1, irp, out)
    } else if irp.op == IrpOp::Ioctl {
        let r = ioctl_spec(r0, irp.handle, irp.ioctl, irp.ioctl_in@, irp.ioctl_out_capacity);
        &&& h1.device@ == h0.device@ && h1.fd == h0.fd
        &&& r1.handles@ == r0.handles@
        &&& r1.ports@ == r.0
        &&& done_with(out, r.1, r.2.len() as u32, r.2)
    } else if irp.op == IrpOp::Fsync {
        h1.device@ == h0.device@ && h1.fd == h0.fd && r1 == r0 && done_with(out, S_OK, 0, Seq::empty())
    } else {
        h1.device@ == h0.device@ && h1.fd == h0.fd && r1 == r0 && done_with(
            out,
            spec_hresult_from_win32(ERROR_INVALID_FUNCTION) as i32,
            0,
            Seq::empty(),
        )
    }
}

impl SliderHost {
    /// A slider with a closed port.
    pub fn new() -> (h: Self)
        ensures
            h.device@ == Seq::<SliderActionView>::empty(),
            h.fd == 0,
    {
        SliderHost { device: SliderDevice::new(), fd: 0 }
    }

    /// Finishes opening the slider's port once the backend started and a
    /// null-device handle was opened: binds the handle to COM1 and remembers it.
    pub fn open_completed(&mut self, reg: &mut UartRegistry, handle: usize) -> (hr: i32)
        ensures
            hr == S_OK,
            final(self).fd == handle,
            final(self).device@ == old(self).device@,
            final(reg).handles@ == old(reg).handles@.insert(handle, SLIDER_PORT),
            final(reg).ports@.contains_key(SLIDER_PORT),
    {
        bind_handle(reg, handle, SLIDER_PORT);
        self.fd = handle;
        S_OK
    }

    /// Handles a write on the slider's handle (see `slider_write_ok`).
    #[verifier::rlimit(40)]
    pub fn write_slider(&mut self, reg: &mut UartRegistry, irp: &UartIrp) -> (out: IrpOutcome)
        requires
            irp.op == IrpOp::Write,
        ensures
            slider_write_ok(*old(self), *final(self), *old(reg), *final(reg), *irp, out),
    {
        let ghost r0 = *reg;
        if !crate::uart::is_uart_handle(reg, irp.handle) {
            return IrpOutcome::NextThenFail;
        }
        let u = uart_handle_irp(reg, irp);
        let ghost r1 = *reg;
        let hr = match u {
            IrpOutcome::Done { hr, .. } => hr,
            _ => E_FAIL,
        };
        let handle = irp.handle;
        let ghost k = r0.handles@[handle];
        let ghost q = port_of(r0, handle);
        let mut written = match take_written(reg, handle) {
            Some(w) => w,
            None => {
                return IrpOutcome::Done { hr: E_FAIL, out_nbytes: irp.nbytes, data: Vec::new() };
            },
        };
        proof {
            assert(r1.ports@.dom() =~= r0.ports@.dom());
            assert(r1.ports@[k] == (UartPort { written: r1.ports@[k].written, ..q }));
        }
        let mut readable: Vec<u8> = Vec::new();
        let res = self.device.process(&mut written, &mut readable);
        proof {
            assert(Seq::<u8>::empty() + readable@ =~= readable@);
        }
        let restored = restore_written(reg, handle, written);
        let ghost r3 = *reg;
        proof {
            assert(r3.ports@[k].written@ =~= written@);
        }
        if readable.len() > 0 {
            let queued = push_readable(reg, handle, readable.as_slice());
        }
        proof {
            if readable@.len() == 0 {
                assert(q.readable@ + readable@ =~= q.readable@);
            }
            assert(reg.ports@[k] == (UartPort { written: reg.ports@[k].written, readable: reg.ports@[k].readable, ..q }));
            assert forall|j: u32| j != k implies #[trigger] reg.ports@.index(j) == r0.ports@.index(j) by {
                assert(r1.ports@.index(j) == r0.ports@.index(j));
            }
            assert(reg.ports@.dom() =~= r0.ports@.dom());
            assert(reg.ports@ =~= r0.ports@.insert(
                k,
                UartPort { written: reg.ports@[k].written, readable: reg.ports@[k].readable, ..q },
            ));
        }
        let out_hr = match res {
            Ok(()) => hr,
            Err(_) => E_FAIL,
        };
        IrpOutcome::Done { hr: out_hr, out_nbytes: irp.nbytes, data: Vec::new() }
    }

    /// Serves a file request for the slider (see `slider_irp_ok`).
    pub fn slider_irp_handler(&mut self, reg: &mut UartRegistry, irp: &UartIrp) -> (out: IrpOutcome)
        ensures
            slider_irp_ok(*old(self), *final(self), *old(reg), *final(reg), *irp, out),
    {
        if irp.op == IrpOp::Open {
            match open_port(irp) {
                Some(p) => {
                    if p != SLIDER_PORT {
                        return IrpOutcome::Next;
                    }
                },
                None => {
                    return IrpOutcome::Next;
                },
            }
            if self.fd != 0 {
                return IrpOutcome::Done { hr: hresult_from_win32(ERROR_ACCESS_DENIED), out_nbytes: 0, data: Vec::new() };
            }
            return IrpOutcome::StartBackend(0);
        }
        let my_fd = self.fd;
        if my_fd == 0 || irp.handle != my_fd {
            return IrpOutcome::Next;
        }
        match irp.op {
            IrpOp::Close => {
                self.fd = 0;
                unbind_handle(reg, my_fd);
                IrpOutcome::Next
            },
            IrpOp::Read => uart_handle_irp(reg, irp),
            IrpOp::Write => self.write_slider(reg, irp),
            IrpOp::Ioctl => {
                let r = device_io_control(
                    reg,
                    irp.handle,
                    irp.ioctl,
                    irp.ioctl_in.as_slice(),
                    irp.ioctl_out_capacity,
                );
                let n = r.output.len() as u32;
                IrpOutcome::Done { hr: r.hr, out_nbytes: n, data: r.output }
            },
            IrpOp::Fsync => IrpOutcome::Done { hr: S_OK, out_nbytes: 0, data: Vec::new() },
            _ => IrpOutcome::Done { hr: hresult_from_win32(ERROR_INVALID_FUNCTION), out_nbytes: 0, data: Vec::new() },
        }
    }
}

/// An auto-scan start command asks the backend, once, to start reporting
/// touches, and sends nothing back to the host.
pub proof fn lemma_auto_scan_start_requests_start(acts: Seq<SliderActionView>, frame: Seq<u8>)
    requires
        frame.len() >= 3,
        frame[1] == 0x03u8,
    ensures
        ({
            let (a, out, r) = slider_dispatch_spec(acts, frame);
            &&& a.len() == acts.len() + 1
            &&& a.take(acts.len() as int) == acts
            &&& a.last() == SliderActionView::Start
            &&& out.len() == 0
            &&& r is Ok
        }),
{
    let (a, out, r) = slider_dispatch_spec(acts, frame);
    assert(a.take(acts.len() as int) =~= acts);
}

/// No command but auto-scan start asks the backend to start reporting
/// touches: every other frame keeps the earlier requests and adds no start.
pub proof fn lemma_only_auto_scan_start_requests_start(acts: Seq<SliderActionView>, frame: Seq<u8>)
    requires
        frame.len() < 3 || frame[1] != 0x03u8,
    ensures
        ({
            let a = slider_dispatch_spec(acts, frame).0;
            &&& a.len() >= acts.len()
            &&& a.take(acts.len() as int) == acts
            &&& forall|i: int| acts.len() <= i < a.len() ==> a[i] != SliderActionView::Start
        }),
{
    let a = slider_dispatch_spec(acts, frame).0;
    assert(a.take(acts.len() as int) =~= acts);
}

} // verus!
