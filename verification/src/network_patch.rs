use vstd::prelude::*;
use crate::hook_table::{hook_module, module_patches, IatPatch, SymbolsView};
use crate::proc_addr::HookSymbol;
use vstd::string::StringSliceAdditionalSpecFns;
use crate::patch_engine::{
    apply_patch, apply_patch_spec, log_lines, patch_line, variant_view, variant_views, PatchImage, PatchResult, PatchVariant, PeSection,
    VariantView, VersionedPatch,
};

verus! {

/// The signature of the instruction that sets the secure flag of game
/// requests.
pub const TLS_FLAG_PATTERN: &'static str = "85 C0 75 07 BE 00 00 ?? 00 EB 02 33 F6 8B 5B 34";
/// Offset of the flag byte from the start of the TLS signature.
pub const TLS_FLAG_PATTERN_OFFSET: isize = 7;
pub const ENCRYPTION_FIRST_PATTERN_OFFSET: isize = 0;
pub const ENCRYPTION_SECOND_PATTERN_OFFSET: isize = 4;
pub const ENCRYPTION_FIRST_F5_PATTERN: &'static str = "F5 00 00 00 ?? 00 00 00 ?? ?? ?? ?? ?? ?? ?? ?? ?? ?? ?? ?? ?? ?? ?? ?? 01 00 00 00 00 00 00 40 FF FF FF 3F";
pub const ENCRYPTION_SECOND_F5_PATTERN: &'static str = "?? 00 00 00 F5 00 00 00 ?? ?? ?? ?? ?? ?? ?? ?? ?? ?? ?? ?? ?? ?? ?? ?? 01 00 00 00 00 00 00 40 FF FF FF 3F";
pub const ENCRYPTION_FIRST_FA_PATTERN: &'static str = "FA 00 00 00 ?? 00 00 00 ?? ?? ?? ?? ?? ?? ?? ?? ?? ?? ?? ?? ?? ?? ?? ?? 01 00 00 00 00 00 00 40 FF FF FF 3F";
pub const ENCRYPTION_SECOND_FA_PATTERN: &'static str = "?? 00 00 00 FA 00 00 00 ?? ?? ?? ?? ?? ?? ?? ?? ?? ?? ?? ?? ?? ?? ?? ?? 01 00 00 00 00 00 00 40 FF FF FF 3F";

/// The secure-request flag of `WinHttpOpenRequest`.
pub const WINHTTP_FLAG_SECURE: u32 = 0x0080_0000;

/// Request flags with the secure flag cleared, so that requests go out
/// without TLS.
pub fn open_request_flags(flags: u32) -> (f: u32)
    ensures
        f == flags & !WINHTTP_FLAG_SECURE,
{
    flags & !WINHTTP_FLAG_SECURE
}

/// Bytes as pattern tokens that match exactly them.
pub open spec fn exact_tokens(bytes: Seq<u8>) -> Seq<Option<u8>> {
    bytes.map_values(|b: u8| Some(b))
}

fn push_bytes(t: &mut Vec<Option<u8>>, bytes: &[u8])
    ensures
        final(t)@ == old(t)@ + exact_tokens(bytes@),
{
    let mut i: usize = 0;
    while i < bytes.len()
        invariant
            i <= bytes@.len(),
            t@ == old(t)@ + exact_tokens(bytes@.take(i as int)),
        decreases bytes@.len() - i,
    {
        t.push(Some(bytes[i]));
        i = i + 1;
        assert(t@ =~= old(t)@ + exact_tokens(bytes@.take(i as int)));
    }
    assert(bytes@.take(i as int) =~= bytes@);
}

fn push_any(t: &mut Vec<Option<u8>>, n: usize)
    ensures
        final(t)@ == old(t)@ + Seq::new(n as nat, |k: int| None::<u8>),
{
    let mut i: usize = 0;
    while i < n
        invariant
            i <= n,
            t@ == old(t)@ + Seq::new(i as nat, |k: int| None::<u8>),
        decreases n - i,
    {
        t.push(None);
        i = i + 1;
        assert(t@ =~= old(t)@ + Seq::new(i as nat, |k: int| None::<u8>));
    }
}

/// The encryption data signature: the key byte `value` in the first or the
/// second slot (the other slot any byte), sixteen bytes of anything, and the
/// fixed tail `01 00 00 00 00 00 00 40 FF FF FF 3F`.
pub open spec fn encryption_tokens_spec(value: u8, first: bool) -> Seq<Option<u8>> {
    let head = if first {
        seq![Some(value), Some(0u8), Some(0u8), Some(0u8), None, Some(0u8), Some(0u8), Some(0u8)]
    } else {
        seq![None, Some(0u8), Some(0u8), Some(0u8), Some(value), Some(0u8), Some(0u8), Some(0u8)]
    };
    head + Seq::new(16, |k: int| None::<u8>) + exact_tokens(
        seq![0x01u8, 0, 0, 0, 0, 0, 0, 0x40, 0xFF, 0xFF, 0xFF, 0x3F],
    )
}

/// The signature tokens of `TLS_FLAG_PATTERN`.
pub open spec fn tls_tokens_spec() -> Seq<Option<u8>> {
    exact_tokens(seq![0x85u8, 0xC0, 0x75, 0x07, 0xBE, 0x00, 0x00]) + seq![None::<u8>] + exact_tokens(
        seq![0x00u8, 0xEB, 0x02, 0x33, 0xF6, 0x8B, 0x5B, 0x34],
    )
}

/// A one-byte variant that clears `expected` to 0.
pub open spec fn clear_variant(pattern: Seq<Option<u8>>, offset: isize, known: u32, expected: u8) -> VariantView {
    VariantView {
        pattern: Some(pattern),
        pattern_offset: offset,
        known_offsets: seq![known],
        expected: seq![expected],
        patch: seq![0u8],
    }
}

/// The variants that clear the first encryption key byte.
pub open spec fn encryption_first_spec() -> Seq<VariantView> {
    seq![
        clear_variant(encryption_tokens_spec(0xF5, true), 0, 0x17D200C, 0xF5),
        clear_variant(encryption_tokens_spec(0xFA, true), 0, 0x1812814, 0xFA),
    ]
}

/// The variants that clear the second encryption key byte.
pub open spec fn encryption_second_spec() -> Seq<VariantView> {
    seq![
        clear_variant(encryption_tokens_spec(0xF5, false), 4, 0x17D2010, 0xF5),
        clear_variant(encryption_tokens_spec(0xFA, false), 4, 0x1812818, 0xFA),
    ]
}

/// The variant that clears the secure flag.
pub open spec fn tls_flag_spec() -> Seq<VariantView> {
    seq![clear_variant(tls_tokens_spec(), 7, 0xE426CB, 0x80)]
}

/// The encryption data signature with `value` in the first (`first`) or the
/// second key slot.
fn encryption_tokens(value: u8, first: bool) -> (t: Vec<Option<u8>>)
    ensures
        t@ == encryption_tokens_spec(value, first),
{
    let mut t: Vec<Option<u8>> = Vec::new();
    let zeros: [u8; 3] = [0, 0, 0];
    assert(exact_tokens(zeros@) =~= seq![Some(0u8), Some(0u8), Some(0u8)]);
    if first {
        t.push(Some(value));
        push_bytes(&mut t, zeros.as_slice());
        t.push(None);
        push_bytes(&mut t, zeros.as_slice());
    } else {
        t.push(None);
        push_bytes(&mut t, zeros.as_slice());
        t.push(Some(value));
        push_bytes(&mut t, zeros.as_slice());
    }
    push_any(&mut t, 16);
    let tail: [u8; 12] = [0x01, 0, 0, 0, 0, 0, 0, 0x40, 0xFF, 0xFF, 0xFF, 0x3F];
    assert(tail@ =~= seq![0x01u8, 0, 0, 0, 0, 0, 0, 0x40, 0xFF, 0xFF, 0xFF, 0x3F]);
    push_bytes(&mut t, tail.as_slice());
    assert(t@ =~= encryption_tokens_spec(value, first));
    t
}

/// The signature tokens of `TLS_FLAG_PATTERN`.
fn tls_tokens() -> (t: Vec<Option<u8>>)
    ensures
        t@ == tls_tokens_spec(),
{
    let mut t: Vec<Option<u8>> = Vec::new();
    let a: [u8; 7] = [0x85, 0xC0, 0x75, 0x07, 0xBE, 0x00, 0x00];
    let b: [u8; 8] = [0x00, 0xEB, 0x02, 0x33, 0xF6, 0x8B, 0x5B, 0x34];
    assert(a@ =~= seq![0x85u8, 0xC0, 0x75, 0x07, 0xBE, 0x00, 0x00]);
    assert(b@ =~= seq![0x00u8, 0xEB, 0x02, 0x33, 0xF6, 0x8B, 0x5B, 0x34]);
    push_bytes(&mut t, a.as_slice());
    t.push(None);
    push_bytes(&mut t, b.as_slice());
    assert(t@ =~= tls_tokens_spec());
    t
}

fn variant(pattern: Vec<Option<u8>>, pattern_offset: isize, known: u32, expected: u8) -> (v: PatchVariant)
    ensures
        variant_view(v) == clear_variant(pattern@, pattern_offset, known, expected),
{
    let v = PatchVariant {
        pattern: Some(pattern),
        pattern_offset,
        known_offsets: vec![known],
        expected: vec![expected],
        patch: vec![0u8],
    };
    assert(v.known_offsets@ =~= seq![known]);
    assert(v.expected@ =~= seq![expected]);
    assert(v.patch@ =~= seq![0u8]);
    v
}

/// The patch clearing the first encryption key byte: the F5 revision, then
/// the FA one.
pub fn disable_encryption_first() -> (p: VersionedPatch)
    ensures
        variant_views(p.variants@) == encryption_first_spec(),
        p.name@ == "disable encryption 1"@,
{
    let mut variants: Vec<PatchVariant> = Vec::new();
    variants.push(variant(encryption_tokens(0xF5, true), ENCRYPTION_FIRST_PATTERN_OFFSET, 0x17D200C, 0xF5));
    variants.push(variant(encryption_tokens(0xFA, true), ENCRYPTION_FIRST_PATTERN_OFFSET, 0x1812814, 0xFA));
    assert(variant_views(variants@) =~= encryption_first_spec());
    VersionedPatch { name: String::from_str("disable encryption 1"), variants }
}

/// The patch clearing the second encryption key byte: the F5 revision, then
/// the FA one.
pub fn disable_encryption_second() -> (p: VersionedPatch)
    ensures
        variant_views(p.variants@) == encryption_second_spec(),
        p.name@ == "disable encryption 2"@,
{
    let mut variants: Vec<PatchVariant> = Vec::new();
    variants.push(variant(encryption_tokens(0xF5, false), ENCRYPTION_SECOND_PATTERN_OFFSET, 0x17D2010, 0xF5));
    variants.push(variant(encryption_tokens(0xFA, false), ENCRYPTION_SECOND_PATTERN_OFFSET, 0x1812818, 0xFA));
    assert(variant_views(variants@) =~= encryption_second_spec());
    VersionedPatch { name: String::from_str("disable encryption 2"), variants }
}

/// The patch clearing the secure flag of game requests.
pub fn disable_tls_flag() -> (p: VersionedPatch)
    ensures
        variant_views(p.variants@) == tls_flag_spec(),
        p.name@ == "disable TLS flag"@,
{
    let mut variants: Vec<PatchVariant> = Vec::new();
    variants.push(variant(tls_tokens(), TLS_FLAG_PATTERN_OFFSET, 0xE426CB, 0x80));
    assert(variant_views(variants@) =~= tls_flag_spec());
    VersionedPatch { name: String::from_str("disable TLS flag"), variants }
}

/// The image after the network patches applied before the game starts.
pub open spec fn network_early_spec(base: usize, secs: Seq<PeSection>, img: Seq<u8>, disable_encryption: bool, disable_tls: bool) -> Seq<u8> {
    let e1 = apply_patch_spec(base, secs, img, encryption_first_spec(), 0, PatchResult::Mismatch);
    let e2 = apply_patch_spec(base, secs, e1.0, encryption_second_spec(), 0, PatchResult::Mismatch);
    let i = if disable_encryption { e2.0 } else { img };
    if disable_tls { apply_patch_spec(base, secs, i, tls_flag_spec(), 0, PatchResult::Mismatch).0 } else { i }
}

/// The lines the network patches applied before the game starts log: one per
/// patch applied, under its name, in order.
pub open spec fn network_early_lines(
    base: usize,
    secs: Seq<PeSection>,
    img: Seq<u8>,
    disable_encryption: bool,
    disable_tls: bool,
) -> Seq<(bool, Seq<char>)> {
    let e1 = apply_patch_spec(base, secs, img, encryption_first_spec(), 0, PatchResult::Mismatch);
    let e2 = apply_patch_spec(base, secs, e1.0, encryption_second_spec(), 0, PatchResult::Mismatch);
    let i = if disable_encryption { e2.0 } else { img };
    let t = apply_patch_spec(base, secs, i, tls_flag_spec(), 0, PatchResult::Mismatch);
    let enc = if disable_encryption {
        seq![patch_line(e1.1, "disable encryption 1"@), patch_line(e2.1, "disable encryption 2"@)]
    } else {
        Seq::empty()
    };
    if disable_tls { enc.push(patch_line(t.1, "disable TLS flag"@)) } else { enc }
}

/// The network patches applied before the game starts: both encryption key
/// bytes when encryption is switched off, and the secure flag when TLS is;
/// gives the results in that order.
pub fn apply_early(image: &mut PatchImage, disable_encryption: bool, disable_tls: bool) -> (results: Vec<PatchResult>)
    ensures
        final(image).base == old(image).base,
        final(image).sections@ == old(image).sections@,
        final(image).bytes@ == network_early_spec(old(image).base, old(image).sections@, old(image).bytes@, disable_encryption, disable_tls),
        ({
            let base = old(image).base;
            let secs = old(image).sections@;
            let e1 = apply_patch_spec(base, secs, old(image).bytes@, encryption_first_spec(), 0, PatchResult::Mismatch);
            let e2 = apply_patch_spec(base, secs, e1.0, encryption_second_spec(), 0, PatchResult::Mismatch);
            let img = if disable_encryption { e2.0 } else { old(image).bytes@ };
            let t = apply_patch_spec(base, secs, img, tls_flag_spec(), 0, PatchResult::Mismatch);
            let enc = if disable_encryption { seq![e1.1, e2.1] } else { Seq::empty() };
            &&& results@ == (if disable_tls { enc.push(t.1) } else { enc })
            &&& final(image).bytes@ == (if disable_tls { t.0 } else { img })
        }),
        log_lines(final(image).log@) == log_lines(old(image).log@) + network_early_lines(
            old(image).base,
            old(image).sections@,
            old(image).bytes@,
            disable_encryption,
            disable_tls,
        ),
{
    let mut results: Vec<PatchResult> = Vec::new();
    assert(results@ =~= Seq::<PatchResult>::empty());
    let ghost lines0 = log_lines(image.log@);
    if disable_encryption {
        let first = disable_encryption_first();
        results.push(apply_patch(image, &first));
        let second = disable_encryption_second();
        results.push(apply_patch(image, &second));
        assert(results@ =~= seq![results@[0], results@[1]]);
        assert(log_lines(image.log@) =~= lines0 + seq![
            patch_line(results@[0], "disable encryption 1"@),
            patch_line(results@[1], "disable encryption 2"@),
        ]);
    } else {
        assert(log_lines(image.log@) =~= lines0 + Seq::<(bool, Seq<char>)>::empty());
    }
    if disable_tls {
        let tls = disable_tls_flag();
        let ghost mid = log_lines(image.log@);
        results.push(apply_patch(image, &tls));
        assert(log_lines(image.log@) =~= mid.push(patch_line(results@.last(), "disable TLS flag"@)));
    }
    results
}

/// The symbol that redirects `WinHttpOpenRequest` to `detour`.
pub open spec fn open_request_symbol(detour: usize) -> HookSymbol {
    HookSymbol { name: "WinHttpOpenRequest", patch: detour, original: 0 }
}

/// The import address table entries of the game image `img` to redirect
/// before its entry point runs: its `WinHttpOpenRequest` import, to `detour`
/// (which clears the secure flag of each request), when TLS is switched off.
pub fn install_pre_entry_hook(img: &[u8], disable_tls: bool, detour: usize) -> (out: Vec<IatPatch>)
    ensures
        !disable_tls ==> out@.len() == 0,
        disable_tls ==> out@ == module_patches(img@, "winhttp.dll".spec_bytes(), SymbolsView::Named(seq![open_request_symbol(detour)])),
{
    if !disable_tls {
        return Vec::new();
    }
    let symbols: Vec<HookSymbol> = vec![HookSymbol { name: "WinHttpOpenRequest", patch: detour, original: 0 }];
    assert(symbols@ =~= seq![open_request_symbol(detour)]);
    hook_module(img, "winhttp.dll", symbols.as_slice())
}

} // verus!
