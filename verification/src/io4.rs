use vstd::prelude::*;
use vstd::string::StringSliceAdditionalSpecFns;
use crate::com_name::{narrow_name, truncate_to, truncated_prefix};
use crate::hresult::{hresult_from_win32, spec_hresult_from_win32, E_FAIL, S_OK};
use crate::uart::ERROR_INVALID_FUNCTION;
use crate::uart_irp::{IrpOp, UartIrp};
use crate::unlocker::{ascii_lower, eq_ignore_case, utf8_valid};
use crate::wide::{units_to_le_bytes, utf16_le_bytes};

verus! {

/// Test button bit of the first button word.
pub const BUTTON_TEST: u16 = 0x0200;
/// Service button bit of the first button word.
pub const BUTTON_SERVICE: u16 = 0x0040;
/// Size of every IO4 input and output report.
pub const REPORT_LEN: usize = 64;
/// Size of the payload of an output command.
pub const OUT_PAYLOAD_LEN: usize = 62;
/// Board status reported right after power-on.
pub const STATUS_POWER_ON: u8 = 0x02;
/// Board status once a timeout or sampling count has been configured.
pub const STATUS_CONFIGURED: u8 = 0x30;
/// Operator button bits of the JVS poll.
pub const OPBTN_TEST: u8 = 0x01;
pub const OPBTN_SERVICE: u8 = 0x02;
/// First backend API version whose IR beams use the current order.
pub const IR_ORDER_API_VERSION: u16 = 0x0101;

/// Input state of the IO4 board: analog inputs, spinners, coin chutes and the
/// two button words.
#[derive(Clone, Copy)]
pub struct Io4State {
    pub adcs: [u16; 8],
    pub spinners: [u16; 4],
    pub chutes: [u16; 2],
    pub buttons: [u16; 2],
}

/// Whether every input of `s` is zero.
pub open spec fn is_zero_state(s: Io4State) -> bool {
    &&& s.adcs@ == Seq::new(8, |_i: int| 0u16)
    &&& s.spinners@ == Seq::new(4, |_i: int| 0u16)
    &&& s.chutes@ == Seq::new(2, |_i: int| 0u16)
    &&& s.buttons@ == Seq::new(2, |_i: int| 0u16)
}

impl Default for Io4State {
    fn default() -> (s: Self)
        ensures
            is_zero_state(s),
    {
        let s = Io4State { adcs: [0u16; 8], spinners: [0u16; 4], chutes: [0u16; 2], buttons: [0u16; 2] };
        assert(s.adcs@ =~= Seq::new(8, |_i: int| 0u16));
        assert(s.spinners@ =~= Seq::new(4, |_i: int| 0u16));
        assert(s.chutes@ =~= Seq::new(2, |_i: int| 0u16));
        assert(s.buttons@ =~= Seq::new(2, |_i: int| 0u16));
        s
    }
}

/// The sixteen input words of a state, in report order.
pub open spec fn state_words(s: Io4State) -> Seq<u16> {
    s.adcs@ + s.spinners@ + s.chutes@ + s.buttons@
}

/// Byte `i` of an input report: the report id 1, the sixteen words in
/// little-endian order, the board status, then zeros.
pub open spec fn report_byte(words: Seq<u16>, status: u8, i: int) -> u8 {
    if i == 0 {
        1u8
    } else if 1 <= i < 33 {
        let w = words[(i - 1) / 2];
        if (i - 1) % 2 == 0 {
            (w % 256) as u8
        } else {
            (w / 256) as u8
        }
    } else if i == 33 {
        status
    } else {
        0u8
    }
}

/// The input report for state `s` and board status `status`.
pub open spec fn report_spec(s: Io4State, status: u8) -> Seq<u8> {
    Seq::new(REPORT_LEN as nat, |i: int| report_byte(state_words(s), status, i))
}

/// Writes `values` little-endian into `buf` from `*pos` on and moves `*pos`
/// past them.
fn write_u16s(buf: &mut [u8; 64], pos: &mut usize, values: &[u16])
    requires
        *old(pos) + 2 * values@.len() <= 64,
    ensures
        *final(pos) == *old(pos) + 2 * values@.len(),
        forall|i: int|
            0 <= i < 64 ==> #[trigger] final(buf)@[i] == (if *old(pos) <= i < *final(pos) {
                let w = values@[(i - *old(pos)) / 2];
                if (i - *old(pos)) % 2 == 0 {
                    (w % 256) as u8
                } else {
                    (w / 256) as u8
                }
            } else {
                old(buf)@[i]
            }),
{
    let start: usize = *pos;
    let n = values.len();
    let mut k: usize = 0;
    while k < n
        invariant
            n == values@.len(),
            start + 2 * n <= 64,
            k <= n,
            *pos == start + 2 * k,
            start == *old(pos),
            forall|i: int|
                0 <= i < 64 ==> #[trigger] buf@[i] == (if start <= i < start + 2 * k {
                    let w = values@[(i - start) / 2];
                    if (i - start) % 2 == 0 {
                        (w % 256) as u8
                    } else {
                        (w / 256) as u8
                    }
                } else {
                    old(buf)@[i]
                }),
        decreases n - k,
    {
        let value = values[k];
        let p: usize = *pos;
        buf[p] = (value % 256) as u8;
        buf[p + 1] = (value / 256) as u8;
        *pos = p + 2;
        k = k + 1;
    }
}

/// Lays out the input report for `state` and `status`.
pub fn build_report(state: &Io4State, status: u8) -> (report: [u8; 64])
    ensures
        report@ == report_spec(*state, status),
{
    let mut report = [0u8; 64];
    report[0] = 1;
    let mut pos: usize = 1;
    write_u16s(&mut report, &mut pos, &state.adcs);
    write_u16s(&mut report, &mut pos, &state.spinners);
    write_u16s(&mut report, &mut pos, &state.chutes);
    write_u16s(&mut report, &mut pos, &state.buttons);
    report[pos] = status;
    report[pos + 1] = 0;
    proof {
        let words = state_words(*state);
        assert(words.len() == 16);
        assert forall|i: int| 0 <= i < 64 implies #[trigger] report@[i] == report_byte(words, status, i) by {
            if 1 <= i < 17 {
                assert(words[(i - 1) / 2] == state.adcs@[(i - 1) / 2]);
            } else if 17 <= i < 25 {
                assert(words[(i - 1) / 2] == state.spinners@[(i - 17) / 2]);
            } else if 25 <= i < 29 {
                assert(words[(i - 1) / 2] == state.chutes@[(i - 25) / 2]);
            } else if 29 <= i < 33 {
                assert(words[(i - 1) / 2] == state.buttons@[(i - 29) / 2]);
            }
        }
        assert(report@ =~= report_spec(*state, status));
    }
    report
}

/// The board-side behaviour of an IO4 device: where its inputs come from and
/// what its output commands drive.
pub trait Io4Ops {
    /// Whether `r` is an answer the backend may give to output command `cmd`
    /// carrying `payload`. A backend that says nothing of its answers allows
    /// every one.
    open spec fn output_answer(&self, cmd: u8, payload: Seq<u8>, r: Result<(), i32>) -> bool {
        true
    }

    /// Whether `s` is a sample the backend may give when polled. A backend
    /// that says nothing of its samples allows every one.
    open spec fn poll_answer(&self, s: Io4State) -> bool {
        true
    }

    /// Samples the current inputs.
    fn poll(&self) -> (s: Io4State)
        ensures
            self.poll_answer(s),
    ;

    /// Drives the general-purpose outputs with a command payload.
    fn write_gpio(&self, payload: &[u8]) -> (r: Result<(), i32>)
        ensures
            self.output_answer(0x04, payload@, r),
    ;

    /// Drives the PWM outputs with a command payload.
    fn write_pwm(&self, payload: &[u8]) -> (r: Result<(), i32>)
        ensures
            self.output_answer(0x05, payload@, r),
    ;

    /// Handles the board-specific output command.
    fn write_unique(&self, payload: &[u8]) -> (r: Result<(), i32>)
        ensures
            self.output_answer(0x41, payload@, r),
    ;
}

/// An emulated IO4 board in front of a backend `O`.
pub struct Io4Device<O> {
    ops: O,
    foreground_only: bool,
    system_status: u8,
    previous_state: Io4State,
}

/// What the contracts see of a device.
pub struct Io4DeviceView<O> {
    pub ops: O,
    /// Inputs are only sampled while the game window is in front.
    pub foreground_only: bool,
    /// Status byte reported in every input report.
    pub system_status: u8,
    /// The inputs last sampled.
    pub previous_state: Io4State,
}

impl<O> View for Io4Device<O> {
    type V = Io4DeviceView<O>;

    closed spec fn view(&self) -> Io4DeviceView<O> {
        Io4DeviceView {
            ops: self.ops,
            foreground_only: self.foreground_only,
            system_status: self.system_status,
            previous_state: self.previous_state,
        }
    }
}

/// How a report read moves the device from `d0` to `d1` and what it returns:
/// inputs are sampled unless the device only samples in the foreground and
/// the game is not in front, in which case the last sample is repeated. A
/// fresh sample is one the backend gave when polled.
pub open spec fn read_post<O: Io4Ops>(d0: Io4DeviceView<O>, d1: Io4DeviceView<O>, is_foreground: bool, report: Seq<u8>) -> bool {
    &&& d1.ops == d0.ops
    &&& d1.foreground_only == d0.foreground_only
    &&& d1.system_status == d0.system_status
    &&& (d0.foreground_only && !is_foreground) ==> d1.previous_state == d0.previous_state
    &&& (!d0.foreground_only || is_foreground) ==> d0.ops.poll_answer(d1.previous_state)
    &&& report == report_spec(d1.previous_state, d0.system_status)
}

/// Whether `report` is a well-formed output report.
pub open spec fn valid_output_report(report: Seq<u8>) -> bool {
    report.len() == REPORT_LEN && report[0] == 0x10
}

/// Whether output command `cmd` is passed on to the backend.
pub open spec fn forwarded_command(cmd: u8) -> bool {
    cmd == 0x04 || cmd == 0x05 || cmd == 0x41
}

/// Whether output command `cmd` only changes the board status.
pub open spec fn status_command(cmd: u8) -> bool {
    cmd == 0x01 || cmd == 0x02 || cmd == 0x03
}

/// The board status after status command `cmd`: configuring a timeout or a
/// sampling count reports the configured status, clearing reports zero.
pub open spec fn status_after(cmd: u8) -> u8 {
    if cmd == 0x03 {
        0
    } else {
        STATUS_CONFIGURED
    }
}

/// The payload of an output command: the report after its id and command bytes.
pub open spec fn output_payload(report: Seq<u8>) -> Seq<u8> {
    report.subrange(2, REPORT_LEN as int)
}

/// An output report, told apart by its command byte. The payload of a
/// forwarded command borrows the report.
pub enum OutputCommand<'a> {
    /// Not a well-formed output report.
    Invalid,
    /// Configure or clear the board status (commands 1 to 3).
    Status(u8),
    /// Drive the general-purpose outputs (command 4).
    Gpio(&'a [u8]),
    /// Drive the PWM outputs (command 5).
    Pwm(&'a [u8]),
    /// The board-specific command (0x41).
    Unique(&'a [u8]),
    /// A command the board does not know.
    Unknown(u8),
}

/// Whether `c` is how output report `report` is classified.
pub open spec fn output_command_spec(c: OutputCommand, report: Seq<u8>) -> bool {
    match c {
        OutputCommand::Invalid => !valid_output_report(report),
        OutputCommand::Status(cmd) => valid_output_report(report) && cmd == report[1] && status_command(cmd),
        OutputCommand::Gpio(p) => valid_output_report(report) && report[1] == 0x04 && p@ == output_payload(report),
        OutputCommand::Pwm(p) => valid_output_report(report) && report[1] == 0x05 && p@ == output_payload(report),
        OutputCommand::Unique(p) => valid_output_report(report) && report[1] == 0x41 && p@ == output_payload(report),
        OutputCommand::Unknown(cmd) => {
            valid_output_report(report) && cmd == report[1] && !status_command(cmd) && !forwarded_command(cmd)
        },
    }
}

/// Classifies an output report by its command byte.
pub fn output_command(report: &[u8]) -> (c: OutputCommand)
    ensures
        output_command_spec(c, report@),
{
    if report.len() != REPORT_LEN || report[0] != 0x10 {
        return OutputCommand::Invalid;
    }
    let cmd = report[1];
    if cmd == 0x01 || cmd == 0x02 || cmd == 0x03 {
        OutputCommand::Status(cmd)
    } else if cmd == 0x04 {
        OutputCommand::Gpio(&report[2..REPORT_LEN])
    } else if cmd == 0x05 {
        OutputCommand::Pwm(&report[2..REPORT_LEN])
    } else if cmd == 0x41 {
        OutputCommand::Unique(&report[2..REPORT_LEN])
    } else {
        OutputCommand::Unknown(cmd)
    }
}

/// How an output report moves the device from `d0` to `d1` and what it
/// returns. A forwarded command hands the report's payload to the backend and
/// returns the backend's answer.
pub open spec fn write_post<O: Io4Ops>(d0: Io4DeviceView<O>, d1: Io4DeviceView<O>, report: Seq<u8>, r: Result<(), i32>) -> bool {
    &&& d1.ops == d0.ops
    &&& d1.foreground_only == d0.foreground_only
    &&& d1.previous_state == d0.previous_state
    &&& if !valid_output_report(report) {
        r == Err::<(), i32>(-1i32) && d1.system_status == d0.system_status
    } else if status_command(report[1]) {
        r == Ok::<(), i32>(()) && d1.system_status == status_after(report[1])
    } else if forwarded_command(report[1]) {
        d1.system_status == d0.system_status && d0.ops.output_answer(report[1], output_payload(report), r)
    } else {
        r == Err::<(), i32>(-1i32) && d1.system_status == d0.system_status
    }
}

impl<O: Io4Ops> Io4Device<O> {
    /// A freshly powered board: power-on status and all inputs zero.
    pub fn new(ops: O, foreground_only: bool) -> (d: Self)
        ensures
            d@.ops == ops,
            d@.foreground_only == foreground_only,
            d@.system_status == STATUS_POWER_ON,
            is_zero_state(d@.previous_state),
    {
        Io4Device { ops, foreground_only, system_status: STATUS_POWER_ON, previous_state: Io4State::default() }
    }

    /// Builds the next input report. `is_foreground` tells whether the game
    /// window is in front; it only matters for a foreground-only device.
    pub fn read_report(&mut self, is_foreground: bool) -> (report: [u8; 64])
        ensures
            read_post(old(self)@, final(self)@, is_foreground, report@),
    {
        let sample = !self.foreground_only || is_foreground;
        if sample {
            let state = self.ops.poll();
            self.previous_state = state;
        }
        build_report(&self.previous_state, self.system_status)
    }

    /// Handles an output report.
    pub fn write_report(&mut self, report: &[u8]) -> (r: Result<(), i32>)
        ensures
            write_post(old(self)@, final(self)@, report@, r),
    {
        match output_command(report) {
            OutputCommand::Invalid => Err(-1),
            OutputCommand::Status(cmd) => {
                if cmd == 0x03 {
                    self.system_status = 0;
                } else {
                    self.system_status = STATUS_CONFIGURED;
                }
                Ok(())
            },
            OutputCommand::Gpio(payload) => self.ops.write_gpio(payload),
            OutputCommand::Pwm(payload) => self.ops.write_pwm(payload),
            OutputCommand::Unique(payload) => self.ops.write_unique(payload),
            OutputCommand::Unknown(_) => Err(-1),
        }
    }
}

/// A status command shows in the next input report: after an output report
/// with command 1 or 2 (configure) or 3 (clear), the status byte of the next
/// input report is the configured status or zero, and the sampled inputs
/// are unchanged by the write.
pub proof fn lemma_status_reaches_next_report<O: Io4Ops>(
    d0: Io4DeviceView<O>,
    d1: Io4DeviceView<O>,
    d2: Io4DeviceView<O>,
    out: Seq<u8>,
    r: Result<(), i32>,
    is_foreground: bool,
    report: Seq<u8>,
)
    requires
        write_post(d0, d1, out, r),
        valid_output_report(out),
        status_command(out[1]),
        read_post(d1, d2, is_foreground, report),
    ensures
        r is Ok,
        report[33] == status_after(out[1]),
        d1.previous_state == d0.previous_state,
{
}

/// The IR bit that one beam of a sensor pair sets in a player's button word
/// when the beam is interrupted. Before API 1.01 the two beams of a pair were
/// reported the other way round.
pub open spec fn ir_bit(beams: u8, pair: u8, player: u8, current_order: bool) -> u16 {
    let idx = (2 * pair + (if current_order { player } else { (1 - player) as u8 })) as u8;
    if beams & (1u8 << idx) == 0 {
        1u16 << ((13 - pair) as u16)
    } else {
        0u16
    }
}

/// All IR bits of a player's button word.
pub open spec fn ir_bits(beams: u8, player: u8, current_order: bool) -> u16 {
    ir_bit(beams, 0, player, current_order) | ir_bit(beams, 1, player, current_order) | ir_bit(beams, 2, player, current_order)
}

/// The operator-button bits of the first button word.
pub open spec fn operator_bits(opbtn: u8) -> u16 {
    (if opbtn & OPBTN_TEST != 0 { BUTTON_TEST } else { 0u16 }) | (if opbtn & OPBTN_SERVICE != 0 { BUTTON_SERVICE } else { 0u16 })
}

fn ir_bit_of(beams: u8, pair: u8, player: u8, current_order: bool) -> (b: u16)
    requires
        pair < 3,
        player < 2,
    ensures
        b == ir_bit(beams, pair, player, current_order),
{
    let side: u8 = if current_order { player } else { 1 - player };
    let idx: u8 = 2 * pair + side;
    if beams & (1u8 << idx) == 0 {
        1u16 << (13 - pair as u16)
    } else {
        0u16
    }
}

/// IO4 inputs of a CHUNITHM cabinet, as the backend last reported them: the
/// operator buttons, the IR beams (bit set while a beam is clear), the coin
/// counter and the backend's API version.
pub struct ChusanIo4Ops {
    pub opbtn: u8,
    pub beams: u8,
    pub coins: u16,
    pub api_version: u16,
}

/// Whether the state `s` is what a cabinet with these backend inputs reports:
/// operator buttons and player 1's IR bits in the first button word, player
/// 2's IR bits in the second, the coin count in the high byte of the first
/// chute, every other input zero.
pub open spec fn chusan_state_spec(s: Io4State, opbtn: u8, beams: u8, coins: u16, api_version: u16) -> bool {
    let current = api_version >= IR_ORDER_API_VERSION;
    &&& s.adcs@ == Seq::new(8, |_i: int| 0u16)
    &&& s.spinners@ == Seq::new(4, |_i: int| 0u16)
    &&& s.chutes@ == seq![(coins << 8u16) as u16, 0u16]
    &&& s.buttons@ == seq![operator_bits(opbtn) | ir_bits(beams, 0, current), ir_bits(beams, 1, current)]
}

impl Io4Ops for ChusanIo4Ops {
    /// A sample holds what the backend last reported.
    open spec fn poll_answer(&self, s: Io4State) -> bool {
        chusan_state_spec(s, self.opbtn, self.beams, self.coins, self.api_version)
    }

    /// The cabinet drives no outputs: every output command is accepted.
    open spec fn output_answer(&self, cmd: u8, payload: Seq<u8>, r: Result<(), i32>) -> bool {
        r == Ok::<(), i32>(())
    }

    fn poll(&self) -> (s: Io4State)
        ensures
            chusan_state_spec(s, self.opbtn, self.beams, self.coins, self.api_version),
    {
        let mut state = Io4State::default();
        let current = self.api_version >= IR_ORDER_API_VERSION;
        let test: u16 = if self.opbtn & OPBTN_TEST != 0 { BUTTON_TEST } else { 0u16 };
        let service: u16 = if self.opbtn & OPBTN_SERVICE != 0 { BUTTON_SERVICE } else { 0u16 };
        let p1: u16 = ir_bit_of(self.beams, 0, 0, current) | ir_bit_of(self.beams, 1, 0, current) | ir_bit_of(self.beams, 2, 0, current);
        let p2: u16 = ir_bit_of(self.beams, 0, 1, current) | ir_bit_of(self.beams, 1, 1, current) | ir_bit_of(self.beams, 2, 1, current);
        state.buttons[0] = (test | service) | p1;
        state.buttons[1] = p2;
        state.chutes[0] = self.coins << 8u16;
        assert(state.chutes@ =~= seq![(self.coins << 8u16) as u16, 0u16]);
        assert(state.buttons@ =~= seq![operator_bits(self.opbtn) | ir_bits(self.beams, 0, current), ir_bits(self.beams, 1, current)]);
        state
    }

    fn write_gpio(&self, payload: &[u8]) -> (r: Result<(), i32>) {
        Ok(())
    }

    fn write_pwm(&self, payload: &[u8]) -> (r: Result<(), i32>) {
        Ok(())
    }

    fn write_unique(&self, payload: &[u8]) -> (r: Result<(), i32>) {
        Ok(())
    }
}

proof fn lemma_ir_words_current(beams: u8, opbtn: u8)
    by (bit_vector)
    ensures
        ((operator_bits(opbtn) | ir_bits(beams, 0, true)) & 0x2000u16 != 0) == (beams & 0x01u8 == 0),
        (ir_bits(beams, 1, true) & 0x2000u16 != 0) == (beams & 0x02u8 == 0),
        ((operator_bits(opbtn) | ir_bits(beams, 0, true)) & 0x1000u16 != 0) == (beams & 0x04u8 == 0),
        (ir_bits(beams, 1, true) & 0x1000u16 != 0) == (beams & 0x08u8 == 0),
        ((operator_bits(opbtn) | ir_bits(beams, 0, true)) & 0x0800u16 != 0) == (beams & 0x10u8 == 0),
        (ir_bits(beams, 1, true) & 0x0800u16 != 0) == (beams & 0x20u8 == 0),
        (operator_bits(opbtn) | ir_bits(beams, 0, true)) & 0xC5BFu16 == 0,
        ir_bits(beams, 1, true) & 0xC7FFu16 == 0,
{
}

proof fn lemma_ir_words_legacy(beams: u8, opbtn: u8)
    by (bit_vector)
    ensures
        ((operator_bits(opbtn) | ir_bits(beams, 0, false)) & 0x2000u16 != 0) == (beams & 0x02u8 == 0),
        (ir_bits(beams, 1, false) & 0x2000u16 != 0) == (beams & 0x01u8 == 0),
        ((operator_bits(opbtn) | ir_bits(beams, 0, false)) & 0x1000u16 != 0) == (beams & 0x08u8 == 0),
        (ir_bits(beams, 1, false) & 0x1000u16 != 0) == (beams & 0x04u8 == 0),
        ((operator_bits(opbtn) | ir_bits(beams, 0, false)) & 0x0800u16 != 0) == (beams & 0x20u8 == 0),
        (ir_bits(beams, 1, false) & 0x0800u16 != 0) == (beams & 0x10u8 == 0),
        (operator_bits(opbtn) | ir_bits(beams, 0, false)) & 0xC5BFu16 == 0,
        ir_bits(beams, 1, false) & 0xC7FFu16 == 0,
{
}

/// The IR air sensors in the cabinet's button words: with the current beam
/// order, interrupting beam `2k + p` (`k < 3`) sets bit `13 - k` of player
/// `p`'s button word and a clear beam leaves it clear, so the six beams cover
/// bits 13, 12 and 11 of both words, one bit per sensor pair. Backends older
/// than API 1.01 report the two beams of a pair the other way round. No other
/// bit is set but the test and service buttons in player 1's word.
pub proof fn lemma_ir_beams_map_to_sensor_bits(s: Io4State, opbtn: u8, beams: u8, coins: u16, api_version: u16)
    requires
        chusan_state_spec(s, opbtn, beams, coins, api_version),
    ensures
        api_version >= 0x0101 ==> {
            &&& (s.buttons@[0] & 0x2000u16 != 0) == (beams & 0x01u8 == 0)
            &&& (s.buttons@[1] & 0x2000u16 != 0) == (beams & 0x02u8 == 0)
            &&& (s.buttons@[0] & 0x1000u16 != 0) == (beams & 0x04u8 == 0)
            &&& (s.buttons@[1] & 0x1000u16 != 0) == (beams & 0x08u8 == 0)
            &&& (s.buttons@[0] & 0x0800u16 != 0) == (beams & 0x10u8 == 0)
            &&& (s.buttons@[1] & 0x0800u16 != 0) == (beams & 0x20u8 == 0)
        },
        api_version < 0x0101 ==> {
            &&& (s.buttons@[0] & 0x2000u16 != 0) == (beams & 0x02u8 == 0)
            &&& (s.buttons@[1] & 0x2000u16 != 0) == (beams & 0x01u8 == 0)
            &&& (s.buttons@[0] & 0x1000u16 != 0) == (beams & 0x08u8 == 0)
            &&& (s.buttons@[1] & 0x1000u16 != 0) == (beams & 0x04u8 == 0)
            &&& (s.buttons@[0] & 0x0800u16 != 0) == (beams & 0x20u8 == 0)
            &&& (s.buttons@[1] & 0x0800u16 != 0) == (beams & 0x10u8 == 0)
        },
        s.buttons@[0] & 0xC5BFu16 == 0,
        s.buttons@[1] & 0xC7FFu16 == 0,
{
    lemma_ir_words_current(beams, opbtn);
    lemma_ir_words_legacy(beams, opbtn);
}

/// `vid_0ca3`, the vendor id of the board in its device path.
pub open spec fn vendor_tag() -> Seq<u8> {
    seq![118u8, 105, 100, 95, 48, 99, 97, 51]
}

/// `$io4\vid_0ca3`, the path the board is opened under.
pub open spec fn io4_path() -> Seq<u8> {
    seq![36u8, 105, 111, 52, 92] + vendor_tag()
}

/// Whether `needle` occurs in `hay` ignoring ASCII letter case.
pub open spec fn contains_ignore_case(hay: Seq<u8>, needle: Seq<u8>) -> bool {
    exists|i: int| 0 <= i <= hay.len() - needle.len() && #[trigger] eq_ignore_case(hay.subrange(i, i + needle.len()), needle)
}

/// Whether a device path names the IO4 board: the board's own path, or any
/// path carrying its vendor id, ignoring ASCII case.
pub open spec fn io4_path_matches(path: Seq<u8>) -> bool {
    eq_ignore_case(path, io4_path()) || contains_ignore_case(path, vendor_tag())
}

fn lower(b: u8) -> (out: u8)
    ensures
        out == ascii_lower(b),
{
    if 65 <= b && b <= 90 { b + 32 } else { b }
}

fn eq_ignore_case_at(hay: &[u8], start: usize, needle: &[u8]) -> (eq: bool)
    requires
        start + needle@.len() <= hay@.len(),
    ensures
        eq == eq_ignore_case(hay@.subrange(start as int, start + needle@.len()), needle@),
{
    let n = needle.len();
    let h = hay.len();
    let mut k: usize = 0;
    while k < n
        invariant
            n == needle@.len(),
            h == hay@.len(),
            start + n <= hay@.len(),
            k <= n,
            forall|j: int| 0 <= j < k ==> ascii_lower(#[trigger] hay@[start + j]) == ascii_lower(needle@[j]),
        decreases n - k,
    {
        if lower(hay[start + k]) != lower(needle[k]) {
            proof {
                let sub = hay@.subrange(start as int, start + n);
                assert(sub[k as int] == hay@[start + k]);
            }
            return false;
        }
        k = k + 1;
    }
    proof {
        let sub = hay@.subrange(start as int, start + n);
        assert forall|j: int| 0 <= j < sub.len() implies ascii_lower(#[trigger] sub[j]) == ascii_lower(needle@[j]) by {
            assert(sub[j] == hay@[start + j]);
        }
    }
    true
}

fn contains_ignore_case_exec(hay: &[u8], needle: &[u8]) -> (found: bool)
    ensures
        found == contains_ignore_case(hay@, needle@),
{
    let n = needle.len();
    let h = hay.len();
    if n > h {
        return false;
    }
    let mut i: usize = 0;
    while i <= h - n
        invariant
            n == needle@.len(),
            h == hay@.len(),
            n <= h,
            i <= h - n + 1,
            forall|j: int| 0 <= j < i ==> !#[trigger] eq_ignore_case(hay@.subrange(j, j + n), needle@),
        decreases h - n + 1 - i,
    {
        if eq_ignore_case_at(hay, i, needle) {
            return true;
        }
        i = i + 1;
    }
    false
}

/// Whether the device path given as UTF-8 bytes names the IO4 board.
pub fn path_bytes_match(path: &[u8]) -> (b: bool)
    ensures
        b == io4_path_matches(path@),
{
    let full: [u8; 13] = [36u8, 105, 111, 52, 92, 118, 105, 100, 95, 48, 99, 97, 51];
    let tag: [u8; 8] = [118u8, 105, 100, 95, 48, 99, 97, 51];
    assert(full@ =~= io4_path());
    assert(tag@ =~= vendor_tag());
    if crate::unlocker::bytes_eq_ignore_case(path, &full) {
        return true;
    }
    contains_ignore_case_exec(path, &tag)
}

impl<O: Io4Ops> Io4Device<O> {
    /// Whether a device path names the IO4 board.
    pub fn matches_path(path: &str) -> (b: bool)
        ensures
            b == io4_path_matches(path.spec_bytes()),
    {
        path_bytes_match(path.as_bytes())
    }
}

/// A string of ASCII text as UTF-16 code units.
pub open spec fn ascii_units(s: Seq<char>) -> Seq<u16> {
    Seq::new(s.len(), |i: int| s[i] as u16)
}

fn ascii_to_utf16(s: &str) -> (out: Vec<u16>)
    requires
        vstd::string::is_ascii(s),
    ensures
        out@ == ascii_units(s@),
{
    proof {
        vstd::string::is_ascii_spec_bytes(s);
    }
    let bytes = s.as_bytes();
    let n = bytes.len();
    let mut out: Vec<u16> = Vec::new();
    let mut i: usize = 0;
    while i < n
        invariant
            n == bytes@.len(),
            bytes@ == s.spec_bytes(),
            s.spec_bytes() == Seq::new(s@.len(), |k: int| s@[k] as u8),
            vstd::string::is_ascii(s),
            i <= n,
            out@.len() == i,
            forall|k: int| 0 <= k < i ==> out@[k] == s@[k] as u16,
        decreases n - i,
    {
        proof {
            assert(bytes@[i as int] == s@[i as int] as u8);
            assert(vstd::utf8::is_ascii_chars(s@));
            assert((s@[i as int] as u32) < 128);
        }
        out.push(bytes[i] as u16);
        i = i + 1;
    }
    assert(out@ =~= ascii_units(s@));
    out
}

/// The manufacturer string the board reports, NUL-terminated.
pub open spec fn manufacturer_text() -> Seq<char> {
    "SEGA\0"@
}

/// The product string the board reports, NUL-terminated.
pub open spec fn product_text() -> Seq<char> {
    "I/O CONTROL BD;15257;01;90;1831;6679A;00;GOUT=14_ADIN=8,E_ROTIN=4_COININ=2_SWIN=2,E_UQ1=41,6\0"@
}

/// The manufacturer string as UTF-16.
pub fn manufacturer_string_utf16() -> (units: Vec<u16>)
    ensures
        units@ == ascii_units(manufacturer_text()),
{
    let text = "SEGA\0";
    proof {
        reveal_strlit("SEGA\0");
        assert(vstd::string::is_ascii(text));
    }
    ascii_to_utf16(text)
}

/// The product string as UTF-16.
pub fn product_string_utf16() -> (units: Vec<u16>)
    ensures
        units@ == ascii_units(product_text()),
{
    let text = "I/O CONTROL BD;15257;01;90;1831;6679A;00;GOUT=14_ADIN=8,E_ROTIN=4_COININ=2_SWIN=2,E_UQ1=41,6\0";
    proof {
        reveal_strlit("I/O CONTROL BD;15257;01;90;1831;6679A;00;GOUT=14_ADIN=8,E_ROTIN=4_COININ=2_SWIN=2,E_UQ1=41,6\0");
        assert(vstd::string::is_ascii(text));
    }
    ascii_to_utf16(text)
}

/// HID control code: read the manufacturer string.
pub const IOCTL_HID_GET_MANUFACTURER_STRING: u32 = 0x000B_01BA;
/// HID control code: read the product string.
pub const IOCTL_HID_GET_PRODUCT_STRING: u32 = 0x000B_01BE;
/// HID control code: read an input report.
pub const IOCTL_HID_GET_INPUT_REPORT: u32 = 0x000B_01A2;
/// HID control code: write an output report.
pub const IOCTL_HID_SET_OUTPUT_REPORT: u32 = 0x000B_0195;
/// Win32 error for a buffer that is missing or too small.
pub const ERROR_INSUFFICIENT_BUFFER: u32 = 122;
/// Longest device path, in code units, that is looked at.
pub const MAX_PATH_UNITS: usize = 260;

/// The units of `s` before its first NUL, at most `n` of them.
pub open spec fn truncated_units(s: Seq<u16>, n: nat) -> Seq<u16>
    decreases n,
{
    if n == 0 || s.len() == 0 || s[0] == 0 {
        Seq::empty()
    } else {
        seq![s[0]] + truncated_units(s.skip(1), (n - 1) as nat)
    }
}

fn truncate_units(name: &[u16], limit: usize) -> (out: Vec<u16>)
    ensures
        out@ == truncated_units(name@, limit as nat),
{
    let mut out: Vec<u16> = Vec::new();
    let mut i: usize = 0;
    assert(name@.skip(0) =~= name@);
    assert(Seq::<u16>::empty() + truncated_units(name@, limit as nat) =~= truncated_units(name@, limit as nat));
    while i < name.len() && i < limit && name[i] != 0
        invariant
            i <= name@.len(),
            i <= limit,
            out@ + truncated_units(name@.skip(i as int), (limit - i) as nat) == truncated_units(name@, limit as nat),
        decreases name@.len() - i,
    {
        proof {
            let rest = name@.skip(i as int);
            assert(rest.skip(1) =~= name@.skip(i + 1));
            assert(rest[0] == name@[i as int]);
            assert(out@.push(name@[i as int]) + truncated_units(name@.skip(i + 1), (limit - i - 1) as nat)
                =~= out@ + truncated_units(rest, (limit - i) as nat));
        }
        out.push(name[i]);
        i = i + 1;
    }
    assert(truncated_units(name@.skip(i as int), (limit - i) as nat) =~= Seq::<u16>::empty());
    assert(out@ + Seq::<u16>::empty() =~= out@);
    out
}

pub open spec fn is_high_surrogate(u: u16) -> bool {
    0xD800 <= u < 0xDC00
}

pub open spec fn is_low_surrogate(u: u16) -> bool {
    0xDC00 <= u < 0xE000
}

/// Whether `s` is well-formed UTF-16: every high surrogate is followed by a
/// low one and every low surrogate follows a high one.
pub open spec fn valid_utf16(s: Seq<u16>) -> bool {
    forall|i: int|
        0 <= i < s.len() ==> {
            &&& is_high_surrogate(#[trigger] s[i]) ==> i + 1 < s.len() && is_low_surrogate(s[i + 1])
            &&& is_low_surrogate(s[i]) ==> i > 0 && is_high_surrogate(s[i - 1])
        }
}

fn utf16_valid(s: &[u16]) -> (ok: bool)
    ensures
        ok == valid_utf16(s@),
{
    let n = s.len();
    let mut i: usize = 0;
    while i < n
        invariant
            n == s@.len(),
            i <= n,
            forall|j: int|
                0 <= j < i ==> {
                    &&& is_high_surrogate(#[trigger] s@[j]) ==> j + 1 < s@.len() && is_low_surrogate(s@[j + 1])
                    &&& is_low_surrogate(s@[j]) ==> j > 0 && is_high_surrogate(s@[j - 1])
                },
        decreases n - i,
    {
        let u = s[i];
        if 0xD800 <= u && u < 0xDC00 {
            if i + 1 >= n || !(0xDC00 <= s[i + 1] && s[i + 1] < 0xE000) {
                return false;
            }
        }
        if 0xDC00 <= u && u < 0xE000 {
            if i == 0 || !(0xD800 <= s[i - 1] && s[i - 1] < 0xDC00) {
                return false;
            }
        }
        i = i + 1;
    }
    true
}

fn narrow_units(name: &[u16]) -> (out: Vec<u8>)
    ensures
        out@ == narrow_name(name@),
{
    let mut narrow: Vec<u8> = Vec::new();
    let mut i: usize = 0;
    while i < name.len()
        invariant
            i <= name@.len(),
            narrow@ == narrow_name(name@.take(i as int)),
        decreases name@.len() - i,
    {
        let u = name[i];
        let b: u8 = if u < 0x80 { u as u8 } else { 0xFF };
        proof {
            assert(narrow_name(name@.take(i + 1)) =~= narrow_name(name@.take(i as int)).push(crate::com_name::narrow_unit(u)));
        }
        narrow.push(b);
        i = i + 1;
    }
    assert(name@.take(name@.len() as int) =~= name@);
    narrow
}

/// Whether an `Open` request names the IO4 board. The narrow name is used
/// when it is given and is UTF-8; otherwise the wide name, when it is given
/// and is UTF-16. Names end at their first NUL and at `MAX_PATH_UNITS` units.
/// A wide name is matched unit by unit, every unit outside ASCII standing for
/// a byte that matches nothing.
pub open spec fn open_names_io4(irp: UartIrp) -> bool {
    let narrow = match irp.open_name_a {
        Some(n) => {
            let p = truncated_prefix(n@, MAX_PATH_UNITS as nat);
            if vstd::utf8::valid_utf8(p) { Some(io4_path_matches(p)) } else { None }
        },
        None => None,
    };
    match narrow {
        Some(m) => m,
        None => match irp.open_name_w {
            Some(w) => {
                let p = truncated_units(w@, MAX_PATH_UNITS as nat);
                valid_utf16(p) && io4_path_matches(narrow_name(p))
            },
            None => false,
        },
    }
}

fn open_matches(irp: &UartIrp) -> (b: bool)
    ensures
        b == open_names_io4(*irp),
{
    match &irp.open_name_a {
        Some(n) => {
            let p = truncate_to(n.as_slice(), MAX_PATH_UNITS);
            if utf8_valid(p.as_slice()) {
                return path_bytes_match(p.as_slice());
            }
        },
        None => {},
    }
    match &irp.open_name_w {
        Some(w) => {
            let p = truncate_units(w.as_slice(), MAX_PATH_UNITS);
            if !utf16_valid(p.as_slice()) {
                return false;
            }
            let narrow = narrow_units(p.as_slice());
            path_bytes_match(narrow.as_slice())
        },
        None => false,
    }
}

/// What the board does with a request.
pub enum Io4Outcome {
    /// Not for the board: the next handler takes the request.
    Next,
    /// The board is opened: the request gets the board's handle and succeeds.
    Opened,
    /// An overlapped read: the request is marked pending, and a report read
    /// with `read_report` is delivered to its buffer later.
    ReadPending,
    /// Completed here: the HRESULT, the byte count reported back and the bytes
    /// to copy into the caller's buffer.
    Done { hr: i32, out_nbytes: u32, data: Vec<u8> },
}

/// Whether `out` completed the request with `hr`, `n` and `data`.
pub open spec fn io4_done(out: Io4Outcome, hr: int, n: u32, data: Seq<u8>) -> bool {
    out matches Io4Outcome::Done { hr: h, out_nbytes: m, data: d } && h == hr && m == n && d@ == data
}

/// The outcome of a string request: the string's bytes when the output buffer
/// holds them all, else an insufficient-buffer error.
pub open spec fn string_reply(out: Io4Outcome, text: Seq<char>, capacity: u32) -> bool {
    let bytes = utf16_le_bytes(ascii_units(text));
    if capacity < bytes.len() {
        io4_done(out, spec_hresult_from_win32(ERROR_INSUFFICIENT_BUFFER), 0, Seq::empty())
    } else {
        io4_done(out, S_OK as int, bytes.len() as u32, bytes)
    }
}

/// The outcome of a report read into a buffer of `capacity` bytes.
pub open spec fn read_reply<O: Io4Ops>(
    d0: Io4DeviceView<O>,
    d1: Io4DeviceView<O>,
    has_buffer: bool,
    capacity: u32,
    overlapped: bool,
    is_foreground: bool,
    out: Io4Outcome,
) -> bool {
    if !has_buffer || capacity < REPORT_LEN {
        d1 == d0 && io4_done(out, spec_hresult_from_win32(ERROR_INSUFFICIENT_BUFFER), 0, Seq::empty())
    } else if overlapped {
        d1 == d0 && out is ReadPending
    } else {
        exists|report: Seq<u8>| read_post(d0, d1, is_foreground, report) && io4_done(out, S_OK as int, REPORT_LEN as u32, report)
    }
}

/// The outcome of a report write from a buffer holding `data`.
pub open spec fn write_reply<O: Io4Ops>(
    d0: Io4DeviceView<O>,
    d1: Io4DeviceView<O>,
    has_buffer: bool,
    capacity: u32,
    data: Seq<u8>,
    out: Io4Outcome,
) -> bool {
    if !has_buffer || capacity < REPORT_LEN || data.len() < REPORT_LEN {
        d1 == d0 && io4_done(out, spec_hresult_from_win32(ERROR_INSUFFICIENT_BUFFER), 0, Seq::empty())
    } else {
        exists|r: Result<(), i32>| {
            &&& write_post(d0, d1, data.take(REPORT_LEN as int), r)
            &&& if r is Ok {
                io4_done(out, S_OK as int, REPORT_LEN as u32, Seq::empty())
            } else {
                io4_done(out, E_FAIL as int, 0, Seq::empty())
            }
        }
    }
}

/// `n`, or the largest `u32` when `n` is larger.
pub open spec fn clamp_u32(n: nat) -> u32 {
    if n > 0xFFFF_FFFF { 0xFFFF_FFFFu32 } else { n as u32 }
}

/// What the board does with request `irp` when its open handle is `fd`.
pub open spec fn io4_irp_post<O: Io4Ops>(
    d0: Io4DeviceView<O>,
    d1: Io4DeviceView<O>,
    fd: usize,
    irp: UartIrp,
    overlapped: bool,
    is_foreground: bool,
    out: Io4Outcome,
) -> bool {
    if irp.op == IrpOp::Open {
        d1 == d0 && (if open_names_io4(irp) { out is Opened } else { out is Next })
    } else if irp.handle != fd {
        d1 == d0 && out is Next
    } else {
        match irp.op {
            IrpOp::Close => d1 == d0 && io4_done(out, S_OK as int, 0, Seq::empty()),
            IrpOp::Read => read_reply(d0, d1, irp.has_buffer, irp.nbytes, overlapped, is_foreground, out),
            IrpOp::Write => write_reply(d0, d1, irp.has_buffer, irp.nbytes, irp.write_data@, out),
            IrpOp::Ioctl => if irp.ioctl == IOCTL_HID_GET_MANUFACTURER_STRING {
                d1 == d0 && string_reply(out, manufacturer_text(), irp.ioctl_out_capacity)
            } else if irp.ioctl == IOCTL_HID_GET_PRODUCT_STRING {
                d1 == d0 && string_reply(out, product_text(), irp.ioctl_out_capacity)
            } else if irp.ioctl == IOCTL_HID_GET_INPUT_REPORT {
                read_reply(d0, d1, irp.ioctl_out_capacity > 0, irp.ioctl_out_capacity, overlapped, is_foreground, out)
            } else if irp.ioctl == IOCTL_HID_SET_OUTPUT_REPORT {
                write_reply(d0, d1, irp.ioctl_in@.len() > 0, clamp_u32(irp.ioctl_in@.len()), irp.ioctl_in@, out)
            } else {
                d1 == d0 && io4_done(out, spec_hresult_from_win32(ERROR_INVALID_FUNCTION), 0, Seq::empty())
            },
            _ => d1 == d0 && io4_done(out, spec_hresult_from_win32(ERROR_INVALID_FUNCTION), 0, Seq::empty()),
        }
    }
}

fn insufficient() -> (out: Io4Outcome)
    ensures
        io4_done(out, spec_hresult_from_win32(ERROR_INSUFFICIENT_BUFFER), 0, Seq::empty()),
{
    Io4Outcome::Done { hr: hresult_from_win32(ERROR_INSUFFICIENT_BUFFER), out_nbytes: 0, data: Vec::new() }
}

fn read_request<O: Io4Ops>(device: &mut Io4Device<O>, has_buffer: bool, capacity: u32, overlapped: bool, is_foreground: bool) -> (out: Io4Outcome)
    ensures
        read_reply(old(device)@, final(device)@, has_buffer, capacity, overlapped, is_foreground, out),
{
    if !has_buffer || capacity < 64 {
        return insufficient();
    }
    if overlapped {
        return Io4Outcome::ReadPending;
    }
    let report = device.read_report(is_foreground);
    let data = vstd::slice::slice_to_vec(report.as_slice());
    Io4Outcome::Done { hr: S_OK, out_nbytes: 64, data }
}

fn write_request<O: Io4Ops>(device: &mut Io4Device<O>, has_buffer: bool, capacity: u32, data: &[u8]) -> (out: Io4Outcome)
    ensures
        write_reply(old(device)@, final(device)@, has_buffer, capacity, data@, out),
{
    if !has_buffer || capacity < 64 || data.len() < 64 {
        return insufficient();
    }
    let report = &data[0..64];
    assert(report@ =~= data@.take(64));
    let r = device.write_report(report);
    match r {
        Ok(()) => Io4Outcome::Done { hr: S_OK, out_nbytes: 64, data: Vec::new() },
        Err(_) => Io4Outcome::Done { hr: E_FAIL, out_nbytes: 0, data: Vec::new() },
    }
}

fn string_request(units: Vec<u16>, capacity: u32) -> (out: Io4Outcome)
    requires
        units@.len() <= 0x1000,
    ensures
        capacity < 2 * units@.len() ==> io4_done(out, spec_hresult_from_win32(ERROR_INSUFFICIENT_BUFFER), 0, Seq::empty()),
        capacity >= 2 * units@.len() ==> io4_done(out, S_OK as int, (2 * units@.len()) as u32, utf16_le_bytes(units@)),
{
    let bytes = units_to_le_bytes(units.as_slice());
    if (capacity as usize) < bytes.len() {
        return insufficient();
    }
    let n = bytes.len() as u32;
    Io4Outcome::Done { hr: S_OK, out_nbytes: n, data: bytes }
}

/// Handles request `irp` for the board whose open handle is `fd`.
/// `overlapped` tells whether the caller asked for overlapped completion and
/// `is_foreground` whether the game window is in front.
pub fn io4_handle_irp<O: Io4Ops>(
    device: &mut Io4Device<O>,
    fd: usize,
    irp: &UartIrp,
    overlapped: bool,
    is_foreground: bool,
) -> (out: Io4Outcome)
    ensures
        io4_irp_post(old(device)@, final(device)@, fd, *irp, overlapped, is_foreground, out),
{
    if irp.op == IrpOp::Open {
        if open_matches(irp) {
            return Io4Outcome::Opened;
        }
        return Io4Outcome::Next;
    }
    if irp.handle != fd {
        return Io4Outcome::Next;
    }
    match irp.op {
        IrpOp::Close => Io4Outcome::Done { hr: S_OK, out_nbytes: 0, data: Vec::new() },
        IrpOp::Read => read_request(device, irp.has_buffer, irp.nbytes, overlapped, is_foreground),
        IrpOp::Write => write_request(device, irp.has_buffer, irp.nbytes, irp.write_data.as_slice()),
        IrpOp::Ioctl => {
            if irp.ioctl == IOCTL_HID_GET_MANUFACTURER_STRING {
                let units = manufacturer_string_utf16();
                proof { reveal_strlit("SEGA\0"); }
                string_request(units, irp.ioctl_out_capacity)
            } else if irp.ioctl == IOCTL_HID_GET_PRODUCT_STRING {
                let units = product_string_utf16();
                proof {
                    reveal_strlit("I/O CONTROL BD;15257;01;90;1831;6679A;00;GOUT=14_ADIN=8,E_ROTIN=4_COININ=2_SWIN=2,E_UQ1=41,6\0");
                }
                string_request(units, irp.ioctl_out_capacity)
            } else if irp.ioctl == IOCTL_HID_GET_INPUT_REPORT {
                read_request(device, irp.ioctl_out_capacity > 0, irp.ioctl_out_capacity, overlapped, is_foreground)
            } else if irp.ioctl == IOCTL_HID_SET_OUTPUT_REPORT {
                let n = irp.ioctl_in.len();
                let cap: u32 = if n > 0xFFFF_FFFF { 0xFFFF_FFFF } else { n as u32 };
                write_request(device, n > 0, cap, irp.ioctl_in.as_slice())
            } else {
                Io4Outcome::Done { hr: hresult_from_win32(ERROR_INVALID_FUNCTION), out_nbytes: 0, data: Vec::new() }
            }
        },
        _ => Io4Outcome::Done { hr: hresult_from_win32(ERROR_INVALID_FUNCTION), out_nbytes: 0, data: Vec::new() },
    }
}

/// Whether the game window counts as in front: when no foreground window or
/// title could be read (`None`) it does; otherwise its title (decoded from
/// UTF-16) must equal the expected one.
pub fn foreground_matches(title: Option<&str>, expected: &str) -> (b: bool)
    ensures
        b == match title {
            None => true,
            Some(t) => t@ == expected@,
        },
{
    match title {
        None => true,
        Some(t) => str_equal(t, expected),
    }
}

fn str_equal(a: &str, b: &str) -> (r: bool)
    ensures
        r == (a@ == b@),
{
    let same = crate::proc_addr::bytes_equal(a.as_bytes(), b.as_bytes());
    proof {
        vstd::utf8::encode_utf8_decode_utf8(a@);
        vstd::utf8::encode_utf8_decode_utf8(b@);
    }
    same
}

} // verus!
