use vstd::prelude::*;
use vstd::string::StringSliceAdditionalSpecFns;
use crate::text::{hex_digits, dec_digits, push_all, push_dec_padded, push_hex, push_hex_padded, zero_pad};

verus! {

/// The exception code of a C++ `throw`.
pub const CPP_EXCEPTION: u32 = 0xE06D_7363;

/// The exception code MSVC raises to name a thread.
pub const MSVC_THREAD_NAME_EXCEPTION: u32 = 0x406D_1388;

/// Whether an exception the game raises is reported: C++ throws and thread
/// naming go through `RaiseException` too and are no exits.
pub fn exception_reported(code: u32) -> (b: bool)
    ensures
        b == (code != CPP_EXCEPTION && code != MSVC_THREAD_NAME_EXCEPTION),
{
    code != CPP_EXCEPTION && code != MSVC_THREAD_NAME_EXCEPTION
}

/// Whether an `exit` or `_exit` is treated as a crash: any code but 0.
pub fn exit_is_fatal(code: i32) -> (b: bool)
    ensures
        b == (code != 0),
{
    code != 0
}

/// The report shown when the game ends itself with a failure: a fixed
/// explanation, then `reason`, a blank line, and the call stack.
pub const EXIT_REPORT_HEAD: &'static str = "=== Chusan Exited Unexpectedly Nya... (>_<) ===\n\nThe game shut itself down instead of crashing, so there is no\nexception record. The call stack below is where the exit came from.\n\nreason: ";

/// The exit report (see `EXIT_REPORT_HEAD`).
pub fn exit_report(reason: &str, stack: &str) -> (r: Vec<u8>)
    ensures
        r@ == EXIT_REPORT_HEAD.spec_bytes() + reason.spec_bytes() + seq![10u8, 10u8] + stack.spec_bytes(),
{
    let mut out: Vec<u8> = Vec::new();
    push_all(&mut out, EXIT_REPORT_HEAD.as_bytes());
    push_all(&mut out, reason.as_bytes());
    out.push(10u8);
    out.push(10u8);
    push_all(&mut out, stack.as_bytes());
    assert(out@ =~= EXIT_REPORT_HEAD.spec_bytes() + reason.spec_bytes() + seq![10u8, 10u8] + stack.spec_bytes());
    out
}

/// `<unknown>`.
pub open spec fn unknown_location() -> Seq<u8> {
    seq![60u8, 117, 110, 107, 110, 111, 119, 110, 62]
}

/// `<module>`.
pub open spec fn unnamed_module() -> Seq<u8> {
    seq![60u8, 109, 111, 100, 117, 108, 101, 62]
}

/// Where a code address lies: `module+0xOFFSET` (offset in upper-case hex,
/// `<module>` when the module's name could not be read), or `<unknown>`
/// outside every module.
pub open spec fn location_spec(module: Option<(Seq<u8>, nat)>) -> Seq<u8> {
    match module {
        None => unknown_location(),
        Some((name, offset)) => (if name.len() == 0 { unnamed_module() } else { name }) + seq![43u8, 48, 120]
            + hex_digits(offset),
    }
}

/// The offset of an address in the module loaded at `base` (0 below it).
pub fn module_offset(addr: usize, base: usize) -> (off: usize)
    ensures
        off == (if addr >= base { addr - base } else { 0 }),
{
    if addr >= base { addr - base } else { 0 }
}

fn push_location(out: &mut Vec<u8>, module: Option<(&[u8], usize)>)
    ensures
        final(out)@ == old(out)@ + location_spec(
            match module {
                None => None,
                Some((name, offset)) => Some((name@, offset as nat)),
            },
        ),
{
    match module {
        None => {
            let unknown: [u8; 9] = [60, 117, 110, 107, 110, 111, 119, 110, 62];
            push_all(out, unknown.as_slice());
            assert(unknown@ =~= unknown_location());
        },
        Some((name, offset)) => {
            let ghost before = out@;
            if name.len() == 0 {
                let unnamed: [u8; 8] = [60, 109, 111, 100, 117, 108, 101, 62];
                push_all(out, unnamed.as_slice());
                assert(unnamed@ =~= unnamed_module());
            } else {
                push_all(out, name);
            }
            out.push(43u8);
            out.push(48u8);
            out.push(120u8);
            push_hex(out, offset as u64);
            assert(out@ =~= before + location_spec(Some((name@, offset as nat))));
        },
    }
}

/// One frame of a stack listing: two spaces, `#` and the frame's index (two
/// digits at least), `0x` and the address (eight hex digits at least), a space,
/// the text naming the frame, and a newline.
pub open spec fn frame_line_spec(index: nat, address: nat, what: Seq<u8>) -> Seq<u8> {
    seq![32u8, 32, 35] + zero_pad(dec_digits(index), 2) + seq![32u8, 48, 120] + zero_pad(hex_digits(address), 8)
        + seq![32u8] + what + seq![10u8]
}

/// A frame of the exit stack: the frame named by its module and offset
/// (see `location_spec`).
pub fn exit_frame_line(index: u64, address: u64, module: Option<(&[u8], usize)>) -> (line: Vec<u8>)
    ensures
        line@ == frame_line_spec(
            index as nat,
            address as nat,
            location_spec(
                match module {
                    None => None,
                    Some((name, offset)) => Some((name@, offset as nat)),
                },
            ),
        ),
{
    let mut out: Vec<u8> = vec![32u8, 32, 35];
    push_dec_padded(&mut out, index, 2);
    out.push(32u8);
    out.push(48u8);
    out.push(120u8);
    push_hex_padded(&mut out, address, 8);
    out.push(32u8);
    let ghost mid = out@;
    push_location(&mut out, module);
    out.push(10u8);
    assert(out@ =~= frame_line_spec(
        index as nat,
        address as nat,
        location_spec(
            match module {
                None => None,
                Some((name, offset)) => Some((name@, offset as nat)),
            },
        ),
    ));
    out
}

/// A symbol as the crash listing names it: `name+0xDISPLACEMENT`.
pub fn symbol_text(name: &[u8], displacement: u64) -> (t: Vec<u8>)
    ensures
        t@ == name@ + seq![43u8, 48, 120] + hex_digits(displacement as nat),
{
    let mut out: Vec<u8> = Vec::new();
    push_all(&mut out, name);
    out.push(43u8);
    out.push(48u8);
    out.push(120u8);
    push_hex(&mut out, displacement);
    assert(out@ =~= name@ + seq![43u8, 48, 120] + hex_digits(displacement as nat));
    out
}

/// A frame of the crash stack: named by `symbol` (from `symbol_text`) when
/// the symbol is known, else by its module and offset.
pub fn crash_frame_line(index: u64, address: u32, symbol: Option<&[u8]>, module: Option<(&[u8], usize)>) -> (line:
    Vec<u8>)
    ensures
        line@ == frame_line_spec(
            index as nat,
            address as nat,
            match symbol {
                Some(s) => s@,
                None => location_spec(
                    match module {
                        None => None,
                        Some((name, offset)) => Some((name@, offset as nat)),
                    },
                ),
            },
        ),
{
    let mut out: Vec<u8> = vec![32u8, 32, 35];
    push_dec_padded(&mut out, index, 2);
    out.push(32u8);
    out.push(48u8);
    out.push(120u8);
    push_hex_padded(&mut out, address as u64, 8);
    out.push(32u8);
    match symbol {
        Some(s) => push_all(&mut out, s),
        None => push_location(&mut out, module),
    }
    out.push(10u8);
    assert(out@ =~= frame_line_spec(
        index as nat,
        address as nat,
        match symbol {
            Some(s) => s@,
            None => location_spec(
                match module {
                    None => None,
                    Some((name, offset)) => Some((name@, offset as nat)),
                },
            ),
        },
    ));
    out
}

/// ` NAME=0xVALUE`: one register of the dump, eight hex digits at least.
pub open spec fn register_spec(name: Seq<u8>, value: u32) -> Seq<u8> {
    name + seq![61u8, 48, 120] + zero_pad(hex_digits(value as nat), 8)
}

fn push_register(out: &mut Vec<u8>, name: &[u8], value: u32)
    ensures
        final(out)@ == old(out)@ + register_spec(name@, value),
{
    let ghost before = out@;
    push_all(out, name);
    out.push(61u8);
    out.push(48u8);
    out.push(120u8);
    push_hex_padded(out, value as u64, 8);
    assert(out@ =~= before + register_spec(name@, value));
}

/// The register dump of a crash report: a blank line, `registers:`, and three
/// lines of registers, each indented by two spaces: EAX EBX ECX EDX; ESI EDI
/// EBP ESP; EIP EFLAGS. `regs` holds them in that order.
pub open spec fn registers_spec(regs: Seq<u32>) -> Seq<u8> {
    seq![10u8, 114, 101, 103, 105, 115, 116, 101, 114, 115, 58, 10, 32, 32] + register_spec(
        seq![69u8, 65, 88],
        regs[0],
    ) + seq![32u8] + register_spec(seq![69u8, 66, 88], regs[1]) + seq![32u8] + register_spec(
        seq![69u8, 67, 88],
        regs[2],
    ) + seq![32u8] + register_spec(seq![69u8, 68, 88], regs[3]) + seq![10u8, 32, 32] + register_spec(
        seq![69u8, 83, 73],
        regs[4],
    ) + seq![32u8] + register_spec(seq![69u8, 68, 73], regs[5]) + seq![32u8] + register_spec(
        seq![69u8, 66, 80],
        regs[6],
    ) + seq![32u8] + register_spec(seq![69u8, 83, 80], regs[7]) + seq![10u8, 32, 32] + register_spec(
        seq![69u8, 73, 80],
        regs[8],
    ) + seq![32u8] + register_spec(seq![69u8, 70, 76, 65, 71, 83], regs[9]) + seq![10u8]
}

/// The register dump of a crash report (see `registers_spec`).
pub fn registers_text(regs: [u32; 10]) -> (t: Vec<u8>)
    ensures
        t@ == registers_spec(regs@),
{
    let head: [u8; 14] = [10, 114, 101, 103, 105, 115, 116, 101, 114, 115, 58, 10, 32, 32];
    let eax: [u8; 3] = [69, 65, 88];
    let ebx: [u8; 3] = [69, 66, 88];
    let ecx: [u8; 3] = [69, 67, 88];
    let edx: [u8; 3] = [69, 68, 88];
    let esi: [u8; 3] = [69, 83, 73];
    let edi: [u8; 3] = [69, 68, 73];
    let ebp: [u8; 3] = [69, 66, 80];
    let esp: [u8; 3] = [69, 83, 80];
    let eip: [u8; 3] = [69, 73, 80];
    let eflags: [u8; 6] = [69, 70, 76, 65, 71, 83];
    let mut out: Vec<u8> = Vec::new();
    push_all(&mut out, head.as_slice());
    push_register(&mut out, eax.as_slice(), regs[0]);
    out.push(32u8);
    push_register(&mut out, ebx.as_slice(), regs[1]);
    out.push(32u8);
    push_register(&mut out, ecx.as_slice(), regs[2]);
    out.push(32u8);
    push_register(&mut out, edx.as_slice(), regs[3]);
    out.push(10u8);
    out.push(32u8);
    out.push(32u8);
    push_register(&mut out, esi.as_slice(), regs[4]);
    out.push(32u8);
    push_register(&mut out, edi.as_slice(), regs[5]);
    out.push(32u8);
    push_register(&mut out, ebp.as_slice(), regs[6]);
    out.push(32u8);
    push_register(&mut out, esp.as_slice(), regs[7]);
    out.push(10u8);
    out.push(32u8);
    out.push(32u8);
    push_register(&mut out, eip.as_slice(), regs[8]);
    out.push(32u8);
    push_register(&mut out, eflags.as_slice(), regs[9]);
    out.push(10u8);
    assert(eax@ =~= seq![69u8, 65, 88]);
    assert(ebx@ =~= seq![69u8, 66, 88]);
    assert(ecx@ =~= seq![69u8, 67, 88]);
    assert(edx@ =~= seq![69u8, 68, 88]);
    assert(esi@ =~= seq![69u8, 83, 73]);
    assert(edi@ =~= seq![69u8, 68, 73]);
    assert(ebp@ =~= seq![69u8, 66, 80]);
    assert(esp@ =~= seq![69u8, 83, 80]);
    assert(eip@ =~= seq![69u8, 73, 80]);
    assert(eflags@ =~= seq![69u8, 70, 76, 65, 71, 83]);
    assert(out@ =~= registers_spec(regs@));
    out
}

} // verus!
