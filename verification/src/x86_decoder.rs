use vstd::prelude::*;

verus! {

/// Longest run of whole instructions that a code span may cover.
pub const MAX_SPAN: usize = 16;

/// Whether `b` is a segment, operand-size, address-size, lock or repeat
/// prefix.
pub open spec fn is_prefix(b: u8) -> bool {
    b == 0x26 || b == 0x2E || b == 0x36 || b == 0x3E || b == 0x64 || b == 0x65 || b == 0x66 || b == 0x67 || b == 0xF0
        || b == 0xF2 || b == 0xF3
}

/// The index of the first byte at or after `i` that is not a prefix (the
/// length of `code` when only prefixes follow).
pub open spec fn skip_prefixes(code: Seq<u8>, i: int) -> int
    decreases code.len() - i,
{
    if 0 <= i < code.len() && is_prefix(code[i]) {
        skip_prefixes(code, i + 1)
    } else {
        i
    }
}

/// How a one-byte opcode is laid out.
pub enum OpLayout {
    /// A ModRM operand follows, then an immediate of this size.
    ModRm(nat),
    /// An immediate of this size follows, with no ModRM.
    Imm(nat),
    /// The `0x0F` escape to a two-byte opcode.
    Escape,
    /// Nothing the decoder knows: the opcode byte alone is counted.
    Unknown,
}

pub open spec fn in_range(b: u8, lo: u8, hi: u8) -> bool {
    lo <= b <= hi
}

/// The layout of a one-byte opcode.
pub open spec fn one_byte_layout(op: u8) -> OpLayout {
    if in_range(op, 0x00, 0x03) || in_range(op, 0x08, 0x0B) || in_range(op, 0x10, 0x13) || in_range(op, 0x18, 0x1B)
        || in_range(op, 0x20, 0x23) || in_range(op, 0x28, 0x2B) || in_range(op, 0x30, 0x33) || in_range(op, 0x38, 0x3B)
        || op == 0x62 || op == 0x63 || op == 0x69 || op == 0x6B || in_range(op, 0x84, 0x8F) || op == 0xC0 || op == 0xC1
        || op == 0xC4 || op == 0xC5 || in_range(op, 0xD0, 0xD3) || op == 0xF6 || op == 0xF7 || op == 0xFE || op == 0xFF {
        OpLayout::ModRm(if op == 0x69 { 4 } else if op == 0x6B || op == 0xC0 || op == 0xC1 { 1 } else { 0 })
    } else if op == 0x04 || op == 0x0C || op == 0x14 || op == 0x1C || op == 0x24 || op == 0x2C || op == 0x34 || op == 0x3C
        || op == 0x6A || op == 0xA8 || in_range(op, 0xB0, 0xB7) || op == 0xC2 || op == 0xCA || op == 0xCD || op == 0xD4
        || op == 0xD5 || in_range(op, 0xE0, 0xE3) || op == 0xEB {
        OpLayout::Imm(1)
    } else if op == 0xC7 {
        OpLayout::ModRm(4)
    } else if op == 0x05 || op == 0x0D || op == 0x15 || op == 0x1D || op == 0x25 || op == 0x2D || op == 0x35 || op == 0x3D
        || op == 0x68 || in_range(op, 0xA0, 0xA3) || op == 0xA9 || in_range(op, 0xB8, 0xBF) || op == 0xE8 || op == 0xE9 {
        OpLayout::Imm(4)
    } else if in_range(op, 0x70, 0x7F) {
        OpLayout::Imm(1)
    } else if in_range(op, 0x90, 0x9F) || in_range(op, 0x50, 0x5F) || in_range(op, 0x6C, 0x6F) || in_range(op, 0xA4, 0xA7)
        || in_range(op, 0xAA, 0xAF) || op == 0xC3 || op == 0xC9 || op == 0xCB || op == 0xCC || op == 0xCE || op == 0xCF
        || op == 0xF4 || op == 0xF5 || in_range(op, 0xF8, 0xFD) {
        OpLayout::Imm(0)
    } else if op == 0x0F {
        OpLayout::Escape
    } else {
        OpLayout::Unknown
    }
}

/// The layout of a two-byte opcode `0x0F op`: whether a ModRM operand
/// follows and the immediate size; `None` for one the decoder does not know.
pub open spec fn two_byte_layout(op: u8) -> Option<(bool, nat)> {
    if in_range(op, 0x80, 0x8F) {
        Some((false, 4))
    } else if in_range(op, 0x90, 0x9F) || in_range(op, 0xA3, 0xA5) || op == 0xAB || op == 0xAD || op == 0xAF
        || in_range(op, 0xB0, 0xB7) || in_range(op, 0xBA, 0xC1) {
        Some((true, if op == 0xA4 || op == 0xAC || op == 0xBA { 1 } else { 0 }))
    } else {
        None
    }
}

/// The size of the ModRM operand at `i`: the ModRM byte, a SIB byte when
/// addressing through one, and any displacement.
pub open spec fn modrm_len_spec(code: Seq<u8>, i: int) -> Option<nat> {
    if i < 0 || i >= code.len() {
        None
    } else {
        let modrm = code[i];
        let mode = modrm / 64;
        let rm = modrm % 8;
        if mode != 3 && rm == 4 && i + 1 >= code.len() {
            None
        } else {
            let sib_len: nat = if mode != 3 && rm == 4 {
                if mode == 0 && code[i + 1] % 8 == 5 { 5 } else { 1 }
            } else {
                0
            };
            let disp: nat = if mode == 0 && rm == 5 { 4 } else if mode == 1 { 1 } else if mode == 2 { 4 } else { 0 };
            Some(1 + sib_len + disp)
        }
    }
}

/// The length of the instruction at `start`: its prefixes, opcode, ModRM
/// operand and immediate. `None` when the bytes the decoder must look at run
/// out or a two-byte opcode is unknown.
pub open spec fn instruction_len_spec(code: Seq<u8>, start: int) -> Option<nat> {
    let op_at = skip_prefixes(code, start);
    if start < 0 || op_at >= code.len() {
        None
    } else {
        let p = op_at + 1;
        match one_byte_layout(code[op_at]) {
            OpLayout::Unknown => Some((p - start) as nat),
            OpLayout::Imm(n) => Some((p - start + n) as nat),
            OpLayout::ModRm(n) => match modrm_len_spec(code, p) {
                Some(m) => Some((p + m - start + n) as nat),
                None => None,
            },
            OpLayout::Escape => if p >= code.len() {
                None
            } else {
                match two_byte_layout(code[p]) {
                    None => None,
                    Some((false, n)) => Some((p + 1 - start + n) as nat),
                    Some((true, n)) => match modrm_len_spec(code, p + 1) {
                        Some(m) => Some((p + 1 + m - start + n) as nat),
                        None => None,
                    },
                }
            },
        }
    }
}

fn is_prefix_exec(b: u8) -> (r: bool)
    ensures
        r == is_prefix(b),
{
    b == 0x26 || b == 0x2E || b == 0x36 || b == 0x3E || b == 0x64 || b == 0x65 || b == 0x66 || b == 0x67 || b == 0xF0
        || b == 0xF2 || b == 0xF3
}

fn modrm_len(code: &[u8], i: usize) -> (r: Option<usize>)
    ensures
        match modrm_len_spec(code@, i as int) {
            Some(m) => r == Some(m as usize),
            None => r is None,
        },
{
    if i >= code.len() {
        return None;
    }
    let modrm = code[i];
    let mode = modrm / 64;
    let rm = modrm % 8;
    let mut len: usize = 1;
    if mode != 3 && rm == 4 {
        if i + 1 >= code.len() {
            return None;
        }
        let sib = code[i + 1];
        len = len + 1;
        if mode == 0 && sib % 8 == 5 {
            len = len + 4;
        }
    }
    if mode == 0 && rm == 5 {
        len = len + 4;
    } else if mode == 1 {
        len = len + 1;
    } else if mode == 2 {
        len = len + 4;
    }
    Some(len)
}

/// The length of the instruction at `start` (see `instruction_len_spec`).
pub fn instruction_len(code: &[u8], start: usize) -> (r: Option<usize>)
    requires
        code@.len() + 32 <= usize::MAX,
    ensures
        r matches Some(n) ==> instruction_len_spec(code@, start as int) == Some(n as nat),
        r is None ==> instruction_len_spec(code@, start as int) is None,
{
    let n = code.len();
    let mut i: usize = start;
    while i < n && is_prefix_exec(code[i])
        invariant
            n == code@.len(),
            start <= i,
            skip_prefixes(code@, i as int) == skip_prefixes(code@, start as int),
        decreases n - i,
    {
        i = i + 1;
    }
    if i >= n {
        return None;
    }
    let op = code[i];
    let p = i + 1;
    let layout = op_layout(op);
    match layout {
        Layout::Unknown => Some(p - start),
        Layout::Imm(k) => Some(p - start + k),
        Layout::ModRm(k) => match modrm_len(code, p) {
            Some(m) => Some(p + m - start + k),
            None => None,
        },
        Layout::Escape => {
            if p >= n {
                return None;
            }
            let second = code[p];
            if 0x80 <= second && second <= 0x8F {
                Some(p + 1 - start + 4)
            } else if (0x90 <= second && second <= 0x9F) || (0xA3 <= second && second <= 0xA5) || second == 0xAB
                || second == 0xAD || second == 0xAF || (0xB0 <= second && second <= 0xB7) || (0xBA <= second && second
                <= 0xC1) {
                let k: usize = if second == 0xA4 || second == 0xAC || second == 0xBA { 1 } else { 0 };
                match modrm_len(code, p + 1) {
                    Some(m) => Some(p + 1 + m - start + k),
                    None => None,
                }
            } else {
                None
            }
        },
    }
}

/// The executable form of `OpLayout`.
enum Layout {
    ModRm(usize),
    Imm(usize),
    Escape,
    Unknown,
}

fn op_layout(op: u8) -> (l: Layout)
    ensures
        match one_byte_layout(op) {
            OpLayout::ModRm(n) => l == Layout::ModRm(n as usize),
            OpLayout::Imm(n) => l == Layout::Imm(n as usize),
            OpLayout::Escape => l is Escape,
            OpLayout::Unknown => l is Unknown,
        },
{
    if (op <= 0x03) || (0x08 <= op && op <= 0x0B) || (0x10 <= op && op <= 0x13) || (0x18 <= op && op <= 0x1B)
        || (0x20 <= op && op <= 0x23) || (0x28 <= op && op <= 0x2B) || (0x30 <= op && op <= 0x33) || (0x38 <= op && op
        <= 0x3B) || op == 0x62 || op == 0x63 || op == 0x69 || op == 0x6B || (0x84 <= op && op <= 0x8F) || op == 0xC0
        || op == 0xC1 || op == 0xC4 || op == 0xC5 || (0xD0 <= op && op <= 0xD3) || op == 0xF6 || op == 0xF7 || op == 0xFE
        || op == 0xFF {
        Layout::ModRm(if op == 0x69 { 4 } else if op == 0x6B || op == 0xC0 || op == 0xC1 { 1 } else { 0 })
    } else if op == 0x04 || op == 0x0C || op == 0x14 || op == 0x1C || op == 0x24 || op == 0x2C || op == 0x34 || op == 0x3C
        || op == 0x6A || op == 0xA8 || (0xB0 <= op && op <= 0xB7) || op == 0xC2 || op == 0xCA || op == 0xCD || op == 0xD4
        || op == 0xD5 || (0xE0 <= op && op <= 0xE3) || op == 0xEB {
        Layout::Imm(1)
    } else if op == 0xC7 {
        Layout::ModRm(4)
    } else if op == 0x05 || op == 0x0D || op == 0x15 || op == 0x1D || op == 0x25 || op == 0x2D || op == 0x35 || op == 0x3D
        || op == 0x68 || (0xA0 <= op && op <= 0xA3) || op == 0xA9 || (0xB8 <= op && op <= 0xBF) || op == 0xE8 || op
        == 0xE9 {
        Layout::Imm(4)
    } else if 0x70 <= op && op <= 0x7F {
        Layout::Imm(1)
    } else if (0x90 <= op && op <= 0x9F) || (0x50 <= op && op <= 0x5F) || (0x6C <= op && op <= 0x6F) || (0xA4 <= op
        && op <= 0xA7) || (0xAA <= op && op <= 0xAF) || op == 0xC3 || op == 0xC9 || op == 0xCB || op == 0xCC || op == 0xCE
        || op == 0xCF || op == 0xF4 || op == 0xF5 || (0xF8 <= op && op <= 0xFD) {
        Layout::Imm(0)
    } else if op == 0x0F {
        Layout::Escape
    } else {
        Layout::Unknown
    }
}

/// The length of the whole instructions from the start of `code` that cover
/// at least `min_len` bytes, from `total` bytes already covered on; `None`
/// when an instruction cannot be decoded, has no length, or the span would
/// exceed `MAX_SPAN` bytes.
pub open spec fn span_from(code: Seq<u8>, total: nat, min_len: nat) -> Option<nat>
    decreases MAX_SPAN - total,
{
    if total >= min_len {
        Some(total)
    } else {
        match instruction_len_spec(code, total as int) {
            Some(n) => if n == 0 || total + n > MAX_SPAN {
                None
            } else {
                span_from(code, total + n, min_len)
            },
            None => None,
        }
    }
}

/// How many bytes of whole instructions at the start of `code` cover at
/// least `min_len` bytes (see `span_from`): what an inline hook relocates.
pub fn instruction_span(code: &[u8], min_len: usize) -> (r: Option<usize>)
    requires
        code@.len() + 32 <= usize::MAX,
    ensures
        match span_from(code@, 0, min_len as nat) {
            Some(n) => r == Some(n as usize),
            None => r is None,
        },
{
    let mut total: usize = 0;
    while total < min_len
        invariant
            code@.len() + 32 <= usize::MAX,
            total <= MAX_SPAN,
            span_from(code@, total as nat, min_len as nat) == span_from(code@, 0, min_len as nat),
        decreases MAX_SPAN - total,
    {
        let len = match instruction_len(code, total) {
            Some(len) => len,
            None => {
                return None;
            },
        };
        if len == 0 || len > MAX_SPAN - total {
            return None;
        }
        assert(span_from(code@, total as nat, min_len as nat) == span_from(code@, (total + len) as nat, min_len as nat));
        total = total + len;
    }
    Some(total)
}

} // verus!
