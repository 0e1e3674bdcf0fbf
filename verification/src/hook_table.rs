use vstd::prelude::*;
use vstd::string::StringSliceAdditionalSpecFns;
use crate::proc_addr::{HookSymbol, OrdinalHookSymbol};
use crate::patch_engine::PeSection;
use crate::unlocker::{ascii_lower, bytes_eq_ignore_case, eq_ignore_case};

verus! {

/// Size of an import descriptor.
pub const IMPORT_DESCRIPTOR_SIZE: u64 = 20;

/// Little-endian 16-bit value at `off`.
pub open spec fn le16(s: Seq<u8>, off: int) -> nat {
    (s[off] + 256 * s[off + 1]) as nat
}

/// Little-endian 32-bit value at `off`.
pub open spec fn le32(s: Seq<u8>, off: int) -> nat {
    le16(s, off) + 65536 * le16(s, off + 2)
}

/// Little-endian 64-bit value at `off`.
pub open spec fn le64(s: Seq<u8>, off: int) -> nat {
    le32(s, off) + 4294967296 * le32(s, off + 4)
}

/// Size of a pointer-sized thunk.
pub open spec fn thunk_size() -> nat {
    if usize::BITS == 64 { 8 } else { 4 }
}

/// A pointer-sized little-endian value at `off`.
pub open spec fn read_thunk(s: Seq<u8>, off: int) -> nat {
    if usize::BITS == 64 { le64(s, off) } else { le32(s, off) }
}

/// The bit that marks an import by ordinal.
pub open spec fn ordinal_flag() -> nat {
    if usize::BITS == 64 { 0x8000_0000_0000_0000 } else { 0x8000_0000 }
}

/// Whether `n` bytes from `off` lie within an image of `len` bytes.
pub open spec fn in_image(len: nat, off: nat, n: nat) -> bool {
    off + n <= len
}

fn in_image_exec(len: usize, off: u64, n: u64) -> (b: bool)
    requires
        n <= 64,
    ensures
        b == in_image(len as nat, off as nat, n as nat),
{
    off <= len as u64 && n <= len as u64 - off
}

fn read16(img: &[u8], off: u64) -> (v: u64)
    requires
        off + 2 <= img@.len(),
    ensures
        v == le16(img@, off as int),
{
    let o = off as usize;
    img[o] as u64 + 256 * img[o + 1] as u64
}

fn read32(img: &[u8], off: u64) -> (v: u64)
    requires
        off + 4 <= img@.len(),
    ensures
        v == le32(img@, off as int),
{
    let _len = img.len();
    read16(img, off) + 65536 * read16(img, off + 2)
}

fn read_thunk_exec(img: &[u8], off: u64) -> (v: u64)
    requires
        off + thunk_size() <= img@.len(),
    ensures
        v == read_thunk(img@, off as int),
{
    let _len = img.len();
    if usize::BITS == 64 {
        let lo = read32(img, off);
        let hi = read32(img, off + 4);
        assert(hi < 4294967296);
        assert(lo + 4294967296 * hi <= u64::MAX) by (nonlinear_arith)
            requires lo < 4294967296, hi < 4294967296;
        lo + 4294967296 * hi
    } else {
        read32(img, off)
    }
}

/// Offsets, from the optional header, of the directory count and of the
/// directory table, by optional-header magic (PE32 or PE32+).
pub open spec fn optional_offsets(magic: nat) -> Option<(nat, nat)> {
    if magic == 0x010B {
        Some((92, 96))
    } else if magic == 0x020B {
        Some((108, 112))
    } else {
        None
    }
}

/// The import data directory (its RVA and size) of the module image `img`:
/// the DOS header must be there with its signature and a non-negative NT
/// header offset, the NT signature must follow, the optional header must be
/// PE32 or PE32+ and have more than one directory, and the directory entry
/// must lie within the image.
pub open spec fn import_directory_spec(img: Seq<u8>) -> Option<(nat, nat)> {
    let len = img.len();
    if len < 64 || le16(img, 0) != 0x5A4D || le32(img, 0x3C) >= 0x8000_0000 {
        None
    } else {
        let nt = le32(img, 0x3C);
        if !in_image(len, nt, 26) || le32(img, nt as int) != 0x4550 {
            None
        } else {
            match optional_offsets(le16(img, (nt + 24) as int)) {
                None => None,
                Some((count_off, dir_off)) => {
                    if !in_image(len, nt + 24 + count_off, 4) || le32(img, (nt + 24 + count_off) as int) <= 1 {
                        None
                    } else {
                        let entry = nt + 24 + dir_off + 8;
                        if !in_image(len, entry, 8) {
                            None
                        } else {
                            Some((le32(img, entry as int), le32(img, (entry + 4) as int)))
                        }
                    }
                },
            }
        }
    }
}

/// The import data directory of a module image.
pub fn import_directory(img: &[u8]) -> (r: Option<(u64, u64)>)
    ensures
        match import_directory_spec(img@) {
            Some((va, size)) => r == Some((va as u64, size as u64)),
            None => r is None,
        },
{
    let len = img.len();
    if len < 64 || read16(img, 0) != 0x5A4D || read32(img, 0x3C) >= 0x8000_0000 {
        return None;
    }
    let nt = read32(img, 0x3C);
    if !in_image_exec(len, nt, 26) || read32(img, nt) != 0x4550 {
        return None;
    }
    let magic = read16(img, nt + 24);
    let (count_off, dir_off): (u64, u64) = if magic == 0x010B {
        (92, 96)
    } else if magic == 0x020B {
        (108, 112)
    } else {
        return None;
    };
    if !in_image_exec(len, nt + 24 + count_off, 4) || read32(img, nt + 24 + count_off) <= 1 {
        return None;
    }
    let entry = nt + 24 + dir_off + 8;
    if !in_image_exec(len, entry, 8) {
        return None;
    }
    Some((read32(img, entry), read32(img, entry + 4)))
}

/// The bytes from `off` up to the first NUL after it, if `off` is inside the
/// image and a NUL follows.
pub open spec fn cstr_at(img: Seq<u8>, off: nat) -> Option<Seq<u8>> {
    if off >= img.len() {
        None
    } else if exists|j: int| off <= j < img.len() && img[j] == 0 {
        let end = choose|j: int| off <= j < img.len() && img[j] == 0 && forall|k: int| off <= k < j ==> img[k] != 0;
        Some(img.subrange(off as int, end))
    } else {
        None
    }
}

/// The NUL-terminated string at `off`.
pub fn module_cstr(img: &[u8], off: u64) -> (r: Option<Vec<u8>>)
    ensures
        match cstr_at(img@, off as nat) {
            Some(s) => r matches Some(v) && v@ == s,
            None => r is None,
        },
{
    let len = img.len();
    if off >= len as u64 {
        return None;
    }
    let start = off as usize;
    let mut j: usize = start;
    while j < len && img[j] != 0
        invariant
            len == img@.len(),
            start <= j <= len,
            forall|k: int| start <= k < j ==> img@[k] != 0,
        decreases len - j,
    {
        j = j + 1;
    }
    if j == len {
        proof {
            assert(!exists|k: int| start <= k < img@.len() && img@[k] == 0);
        }
        return None;
    }
    proof {
        let end = choose|k: int| start <= k < img@.len() && img@[k] == 0 && forall|m: int| start <= m < k ==> img@[m] != 0;
        assert(start <= j < img@.len() && img@[j as int] == 0 && forall|m: int| start <= m < j ==> img@[m] != 0);
        if end < j {
            assert(img@[end] != 0);
        } else if j < end {
            assert(img@[j as int] != 0);
        }
    }
    let mut out: Vec<u8> = Vec::new();
    let mut k: usize = start;
    while k < j
        invariant
            len == img@.len(),
            start <= k <= j < len,
            out@ == img@.subrange(start as int, k as int),
        decreases j - k,
    {
        proof {
            assert(img@.subrange(start as int, k + 1) =~= img@.subrange(start as int, k as int).push(img@[k as int]));
        }
        out.push(img[k]);
        k = k + 1;
    }
    Some(out)
}

/// The name of the function a by-name thunk value points at: its hint-name
/// entry's name, two bytes past the RVA.
pub open spec fn import_name_spec(img: Seq<u8>, value: nat) -> Option<Seq<u8>> {
    if value >= ordinal_flag() || value > 0xFFFF_FFFF || value + 2 > 0xFFFF_FFFF {
        None
    } else {
        cstr_at(img, value + 2)
    }
}

fn module_import_name(img: &[u8], value: u64) -> (r: Option<Vec<u8>>)
    ensures
        match import_name_spec(img@, value as nat) {
            Some(s) => r matches Some(v) && v@ == s,
            None => r is None,
        },
{
    let flag: u64 = if usize::BITS == 64 { 0x8000_0000_0000_0000 } else { 0x8000_0000 };
    if value >= flag || value > 0xFFFF_FFFF || value + 2 > 0xFFFF_FFFF {
        return None;
    }
    module_cstr(img, value + 2)
}

/// `api-ms-win-core-` and `ext-ms-win-` as bytes.
pub open spec fn core_apiset_prefix() -> Seq<u8> {
    seq![97u8, 112, 105, 45, 109, 115, 45, 119, 105, 110, 45, 99, 111, 114, 101, 45]
}

pub open spec fn ext_apiset_prefix() -> Seq<u8> {
    seq![101u8, 120, 116, 45, 109, 115, 45, 119, 105, 110, 45]
}

/// `kernel32.dll` as bytes.
pub open spec fn kernel32_name() -> Seq<u8> {
    seq![107u8, 101, 114, 110, 101, 108, 51, 50, 46, 100, 108, 108]
}

/// Whether `name` starts with `prefix`, ignoring ASCII case.
pub open spec fn starts_with_ignore_case(name: Seq<u8>, prefix: Seq<u8>) -> bool {
    name.len() >= prefix.len() && eq_ignore_case(name.take(prefix.len() as int), prefix)
}

/// Whether an imported DLL name is the requested one: equal ignoring ASCII
/// case, or, when kernel32 is requested, an API set that forwards to it.
pub open spec fn dll_matches_spec(imported: Seq<u8>, requested: Seq<u8>) -> bool {
    eq_ignore_case(imported, requested) || (eq_ignore_case(requested, kernel32_name()) && (starts_with_ignore_case(
        imported,
        core_apiset_prefix(),
    ) || starts_with_ignore_case(imported, ext_apiset_prefix())))
}

fn starts_with_ci(name: &[u8], prefix: &[u8]) -> (b: bool)
    ensures
        b == starts_with_ignore_case(name@, prefix@),
{
    if name.len() < prefix.len() {
        return false;
    }
    let (head, _) = name.split_at(prefix.len());
    bytes_eq_ignore_case(head, prefix)
}

/// Whether an imported DLL name is the requested one.
pub fn dll_matches(imported: &[u8], requested: &[u8]) -> (b: bool)
    ensures
        b == dll_matches_spec(imported@, requested@),
{
    if bytes_eq_ignore_case(imported, requested) {
        return true;
    }
    let kernel32: [u8; 12] = [107u8, 101, 114, 110, 101, 108, 51, 50, 46, 100, 108, 108];
    let core: [u8; 16] = [97u8, 112, 105, 45, 109, 115, 45, 119, 105, 110, 45, 99, 111, 114, 101, 45];
    let ext: [u8; 11] = [101u8, 120, 116, 45, 109, 115, 45, 119, 105, 110, 45];
    assert(kernel32@ =~= kernel32_name());
    assert(core@ =~= core_apiset_prefix());
    assert(ext@ =~= ext_apiset_prefix());
    bytes_eq_ignore_case(requested, &kernel32) && (starts_with_ci(imported, &core) || starts_with_ci(imported, &ext))
}

/// An import address table entry to redirect: its offset in the image and
/// the index of the symbol it is redirected to.
#[derive(Clone, Copy, PartialEq, Eq, Debug, Structural)]
pub struct IatPatch {
    pub iat_offset: u64,
    pub symbol: usize,
}

/// The index of the first symbol at or after `i` named exactly `name`.
pub open spec fn symbol_named_from(symbols: Seq<HookSymbol>, name: Seq<u8>, i: int) -> Option<int>
    decreases symbols.len() - i,
{
    if i < 0 || i >= symbols.len() {
        None
    } else if symbols[i].name.spec_bytes() == name {
        Some(i)
    } else {
        symbol_named_from(symbols, name, i + 1)
    }
}

/// The index of the first symbol named exactly `name`.
pub open spec fn symbol_named(symbols: Seq<HookSymbol>, name: Seq<u8>) -> Option<int> {
    symbol_named_from(symbols, name, 0)
}

/// The index of the first symbol at or after `i` with ordinal `ordinal`.
pub open spec fn symbol_with_ordinal_from(symbols: Seq<OrdinalHookSymbol>, ordinal: u16, i: int) -> Option<int>
    decreases symbols.len() - i,
{
    if i < 0 || i >= symbols.len() {
        None
    } else if symbols[i].ordinal == ordinal {
        Some(i)
    } else {
        symbol_with_ordinal_from(symbols, ordinal, i + 1)
    }
}

/// The index of the first symbol with ordinal `ordinal`.
pub open spec fn symbol_with_ordinal(symbols: Seq<OrdinalHookSymbol>, ordinal: u16) -> Option<int> {
    symbol_with_ordinal_from(symbols, ordinal, 0)
}

proof fn lemma_symbol_named_bound(symbols: Seq<HookSymbol>, name: Seq<u8>, i: int)
    requires
        0 <= i,
    ensures
        symbol_named_from(symbols, name, i) matches Some(k) ==> i <= k < symbols.len(),
    decreases symbols.len() - i,
{
    if i < symbols.len() {
        lemma_symbol_named_bound(symbols, name, i + 1);
    }
}

proof fn lemma_symbol_ordinal_bound(symbols: Seq<OrdinalHookSymbol>, ordinal: u16, i: int)
    requires
        0 <= i,
    ensures
        symbol_with_ordinal_from(symbols, ordinal, i) matches Some(k) ==> i <= k < symbols.len(),
    decreases symbols.len() - i,
{
    if i < symbols.len() {
        lemma_symbol_ordinal_bound(symbols, ordinal, i + 1);
    }
}

fn find_symbol(symbols: &[HookSymbol], name: &[u8]) -> (r: Option<usize>)
    ensures
        r matches Some(k) ==> symbol_named(symbols@, name@) == Some(k as int) && k < symbols@.len(),
        r is None ==> symbol_named(symbols@, name@) is None,
{
    proof {
        lemma_symbol_named_bound(symbols@, name@, 0);
    }
    let n = symbols.len();
    let mut i: usize = 0;
    while i < n
        invariant
            n == symbols@.len(),
            i <= n,
            symbol_named(symbols@, name@) == symbol_named_from(symbols@, name@, i as int),
        decreases n - i,
    {
        if crate::proc_addr::bytes_equal(symbols[i].name.as_bytes(), name) {
            return Some(i);
        }
        i = i + 1;
    }
    None
}

fn find_ordinal(symbols: &[OrdinalHookSymbol], ordinal: u16) -> (r: Option<usize>)
    ensures
        r matches Some(k) ==> symbol_with_ordinal(symbols@, ordinal) == Some(k as int) && k < symbols@.len(),
        r is None ==> symbol_with_ordinal(symbols@, ordinal) is None,
{
    proof {
        lemma_symbol_ordinal_bound(symbols@, ordinal, 0);
    }
    let n = symbols.len();
    let mut i: usize = 0;
    while i < n
        invariant
            n == symbols@.len(),
            i <= n,
            symbol_with_ordinal(symbols@, ordinal) == symbol_with_ordinal_from(symbols@, ordinal, i as int),
        decreases n - i,
    {
        if symbols[i].ordinal == ordinal {
            return Some(i);
        }
        i = i + 1;
    }
    None
}

/// The symbols an import table walk redirects to: by name or by ordinal.
pub enum SymbolSet<'a> {
    Named(&'a [HookSymbol]),
    Ordinals(&'a [OrdinalHookSymbol]),
}

/// What the contracts see of a symbol set.
pub enum SymbolsView {
    Named(Seq<HookSymbol>),
    Ordinals(Seq<OrdinalHookSymbol>),
}

/// The contents of a symbol set.
pub open spec fn symbols_view(set: SymbolSet) -> SymbolsView {
    match set {
        SymbolSet::Named(s) => SymbolsView::Named(s@),
        SymbolSet::Ordinals(s) => SymbolsView::Ordinals(s@),
    }
}

/// The symbol that an import whose thunk holds `value` is redirected to, if
/// any: a by-name import whose name equals a symbol's name exactly, or a
/// by-ordinal import whose ordinal is a symbol's. Symbols without a
/// replacement (patch 0) redirect nothing.
pub open spec fn thunk_match(img: Seq<u8>, set: SymbolsView, value: nat) -> Option<int> {
    match set {
        SymbolsView::Named(symbols) => if value < ordinal_flag() {
            match import_name_spec(img, value) {
                Some(name) => match symbol_named(symbols, name) {
                    Some(k) => if symbols[k].patch != 0 { Some(k) } else { None },
                    None => None,
                },
                None => None,
            }
        } else {
            None
        },
        SymbolsView::Ordinals(symbols) => if value >= ordinal_flag() {
            match symbol_with_ordinal(symbols, (value % 65536) as u16) {
                Some(k) => if symbols[k].patch != 0 { Some(k) } else { None },
                None => None,
            }
        } else {
            None
        },
    }
}

fn thunk_match_exec(img: &[u8], set: &SymbolSet, value: u64) -> (r: Option<usize>)
    ensures
        r matches Some(k) ==> thunk_match(img@, symbols_view(*set), value as nat) == Some(k as int),
        r is None ==> thunk_match(img@, symbols_view(*set), value as nat) is None,
{
    let flag: u64 = if usize::BITS == 64 { 0x8000_0000_0000_0000 } else { 0x8000_0000 };
    match set {
        SymbolSet::Named(symbols) => {
            if value >= flag {
                return None;
            }
            match module_import_name(img, value) {
                Some(name) => match find_symbol(symbols, name.as_slice()) {
                    Some(k) => if symbols[k].patch != 0 { Some(k) } else { None },
                    None => None,
                },
                None => None,
            }
        },
        SymbolSet::Ordinals(symbols) => {
            if value < flag {
                return None;
            }
            let ordinal = (value % 65536) as u16;
            match find_ordinal(symbols, ordinal) {
                Some(k) => if symbols[k].patch != 0 { Some(k) } else { None },
                None => None,
            }
        },
    }
}

/// The redirections of one import descriptor's thunks, from the lookup
/// thunk at `lo` and the address table entry at `io` on: the walk stops at
/// the first zero lookup thunk or where either table leaves the image.
pub open spec fn thunk_patches(img: Seq<u8>, lo: nat, io: nat, set: SymbolsView) -> Seq<IatPatch>
    decreases img.len() - lo,
{
    let w = thunk_size();
    if !(in_image(img.len(), lo, w) && in_image(img.len(), io, w)) {
        Seq::empty()
    } else {
        let value = read_thunk(img, lo as int);
        if value == 0 {
            Seq::empty()
        } else {
            let here = match thunk_match(img, set, value) {
                Some(k) => seq![IatPatch { iat_offset: io as u64, symbol: k as usize }],
                None => Seq::empty(),
            };
            here + thunk_patches(img, lo + w, io + w, set)
        }
    }
}

/// The redirections of the descriptor at `off`: none unless it has both an
/// import lookup table and an import address table.
pub open spec fn import_patches(img: Seq<u8>, off: nat, set: SymbolsView) -> Seq<IatPatch> {
    let lookup = le32(img, off as int);
    let iat = le32(img, (off + 16) as int);
    if lookup == 0 || iat == 0 {
        Seq::empty()
    } else {
        thunk_patches(img, lookup, iat, set)
    }
}

/// The redirections of the descriptors from `off` on, for DLL `dll`: the walk
/// stops at a descriptor without a name or one that leaves the image;
/// descriptors whose name cannot be read are skipped.
pub open spec fn descriptor_patches(img: Seq<u8>, off: nat, dll: Seq<u8>, set: SymbolsView) -> Seq<IatPatch>
    decreases img.len() - off,
{
    if !in_image(img.len(), off, 20) {
        Seq::empty()
    } else {
        let name = le32(img, (off + 12) as int);
        if name == 0 {
            Seq::empty()
        } else {
            let rest = descriptor_patches(img, off + 20, dll, set);
            match cstr_at(img, name) {
                Some(imported) => if dll_matches_spec(imported, dll) {
                    import_patches(img, off, set) + rest
                } else {
                    rest
                },
                None => rest,
            }
        }
    }
}

/// The import address table entries of module image `img` to redirect for
/// DLL `dll`, in descriptor and thunk order.
pub open spec fn module_patches(img: Seq<u8>, dll: Seq<u8>, set: SymbolsView) -> Seq<IatPatch> {
    match import_directory_spec(img) {
        Some((va, size)) => if va == 0 || !in_image(img.len(), va, size) {
            Seq::empty()
        } else {
            descriptor_patches(img, va, dll, set)
        },
        None => Seq::empty(),
    }
}

fn thunk_walk(img: &[u8], lookup: u64, iat: u64, set: &SymbolSet) -> (out: Vec<IatPatch>)
    requires
        lookup <= 0xFFFF_FFFF,
        iat <= 0xFFFF_FFFF,
    ensures
        out@ == thunk_patches(img@, lookup as nat, iat as nat, symbols_view(*set)),
{
    let len = img.len();
    let w: u64 = if usize::BITS == 64 { 8 } else { 4 };
    let mut lo = lookup;
    let mut io = iat;
    let mut out: Vec<IatPatch> = Vec::new();
    assert(out@ + thunk_patches(img@, lo as nat, io as nat, symbols_view(*set)) =~= thunk_patches(img@, lookup as nat, iat as nat, symbols_view(*set)));
    while in_image_exec(len, lo, w) && in_image_exec(len, io, w)
        invariant
            len == img@.len(),
            w == thunk_size(),
            out@ + thunk_patches(img@, lo as nat, io as nat, symbols_view(*set)) == thunk_patches(img@, lookup as nat, iat as nat, symbols_view(*set)),
        ensures
            out@ == thunk_patches(img@, lookup as nat, iat as nat, symbols_view(*set)),
        decreases len - lo,
    {
        let value = read_thunk_exec(img, lo);
        if value == 0 {
            assert(out@ + Seq::<IatPatch>::empty() =~= out@);
            break;
        }
        let here = thunk_match_exec(img, set, value);
        let ghost old_out = out@;
        let ghost rest = thunk_patches(img@, (lo + w) as nat, (io + w) as nat, symbols_view(*set));
        match here {
            Some(k) => {
                out.push(IatPatch { iat_offset: io, symbol: k });
            },
            None => {},
        }
        proof {
            let h = match thunk_match(img@, symbols_view(*set), value as nat) {
                Some(k) => seq![IatPatch { iat_offset: io as u64, symbol: k as usize }],
                None => Seq::<IatPatch>::empty(),
            };
            assert(thunk_patches(img@, lo as nat, io as nat, symbols_view(*set)) == h + rest);
            assert(out@ == old_out + h);
            assert(old_out + (h + rest) =~= (old_out + h) + rest);
        }
        lo = lo + w;
        io = io + w;
    }
    proof {
        if !(in_image(len as nat, lo as nat, w as nat) && in_image(len as nat, io as nat, w as nat)) {
            assert(out@ + Seq::<IatPatch>::empty() =~= out@);
        }
    }
    out
}

fn descriptor_walk(img: &[u8], va: u64, dll: &[u8], set: &SymbolSet) -> (out: Vec<IatPatch>)
    requires
        va <= 0xFFFF_FFFF,
    ensures
        out@ == descriptor_patches(img@, va as nat, dll@, symbols_view(*set)),
{
    let len = img.len();
    let mut off = va;
    let mut out: Vec<IatPatch> = Vec::new();
    assert(out@ + descriptor_patches(img@, off as nat, dll@, symbols_view(*set)) =~= descriptor_patches(img@, va as nat, dll@, symbols_view(*set)));
    while in_image_exec(len, off, 20)
        invariant
            len == img@.len(),
            out@ + descriptor_patches(img@, off as nat, dll@, symbols_view(*set)) == descriptor_patches(img@, va as nat, dll@, symbols_view(*set)),
        ensures
            out@ == descriptor_patches(img@, va as nat, dll@, symbols_view(*set)),
        decreases len - off,
    {
        let name = read32(img, off + 12);
        if name == 0 {
            assert(out@ + Seq::<IatPatch>::empty() =~= out@);
            break;
        }
        let ghost old_out = out@;
        let ghost rest = descriptor_patches(img@, (off + 20) as nat, dll@, symbols_view(*set));
        match module_cstr(img, name) {
            Some(imported) => {
                if dll_matches(imported.as_slice(), dll) {
                    let lookup = read32(img, off);
                    let iat = read32(img, off + 16);
                    if lookup != 0 && iat != 0 {
                        let mut patches = thunk_walk(img, lookup, iat, set);
                        out.append(&mut patches);
                    }
                    proof {
                        let h = import_patches(img@, off as nat, symbols_view(*set));
                        assert(out@ == old_out + h);
                        assert(old_out + (h + rest) =~= (old_out + h) + rest);
                    }
                }
            },
            None => {},
        }
        off = off + 20;
    }
    proof {
        if !in_image(len as nat, off as nat, 20) {
            assert(out@ + Seq::<IatPatch>::empty() =~= out@);
        }
    }
    out
}

fn module_walk(img: &[u8], dll: &[u8], set: &SymbolSet) -> (out: Vec<IatPatch>)
    ensures
        out@ == module_patches(img@, dll@, symbols_view(*set)),
{
    match import_directory(img) {
        Some((va, size)) => {
            if va == 0 || !in_image_exec(img.len(), va, 0) || size > img.len() as u64 - va {
                return Vec::new();
            }
            descriptor_walk(img, va, dll, set)
        },
        None => Vec::new(),
    }
}

/// The import address table entries of the module image `img` (its memory,
/// from its base, `SizeOfImage` bytes) to redirect to `symbols` for imports
/// from `dll_name`. Imported names are compared byte for byte.
pub fn hook_module(img: &[u8], dll_name: &str, symbols: &[HookSymbol]) -> (out: Vec<IatPatch>)
    ensures
        out@ == module_patches(img@, dll_name.spec_bytes(), SymbolsView::Named(symbols@)),
{
    let set = SymbolSet::Named(symbols);
    module_walk(img, dll_name.as_bytes(), &set)
}

/// The import address table entries of the module image `img` to redirect
/// to `symbols` for imports by ordinal from `dll_name`.
pub fn hook_module_ordinals(img: &[u8], dll_name: &str, symbols: &[OrdinalHookSymbol]) -> (out: Vec<IatPatch>)
    ensures
        out@ == module_patches(img@, dll_name.spec_bytes(), SymbolsView::Ordinals(symbols@)),
{
    let set = SymbolSet::Ordinals(symbols);
    module_walk(img, dll_name.as_bytes(), &set)
}

/// The modules an import hook is applied to, in order: the executable
/// (unless missing or kernel32 itself), then every other loaded module
/// except kernel32, the executable and the hooking module.
pub open spec fn modules_to_hook_spec(exe: usize, kernel32: usize, self_module: usize, modules: Seq<usize>) -> Seq<usize> {
    let first = if exe != 0 && exe != kernel32 { seq![exe] } else { Seq::empty() };
    first + modules.filter(hookable(exe, kernel32, self_module))
}

/// Whether a loaded module other than the executable gets hooked.
pub open spec fn hookable(exe: usize, kernel32: usize, self_module: usize) -> spec_fn(usize) -> bool {
    |m: usize| m != 0 && m != kernel32 && m != exe && m != self_module
}

/// The modules an import hook is applied to, in order.
pub fn modules_to_hook(exe: usize, kernel32: usize, self_module: usize, modules: &[usize]) -> (out: Vec<usize>)
    ensures
        out@ == modules_to_hook_spec(exe, kernel32, self_module, modules@),
{
    let mut out: Vec<usize> = Vec::new();
    if exe != 0 && exe != kernel32 {
        out.push(exe);
    }
    let ghost first = out@;
    let n = modules.len();
    let mut i: usize = 0;
    while i < n
        invariant
            n == modules@.len(),
            i <= n,
            out@ == first + modules@.take(i as int).filter(hookable(exe, kernel32, self_module)),
            first == (if exe != 0 && exe != kernel32 { seq![exe] } else { Seq::<usize>::empty() }),
        decreases n - i,
    {
        let m = modules[i];
        proof {
            reveal(Seq::filter);
            let f = hookable(exe, kernel32, self_module);
            assert(modules@.take(i + 1).drop_last() =~= modules@.take(i as int));
            assert(modules@.take(i + 1).last() == m);
            assert(modules@.take(i + 1).filter(f) == (if f(m) {
                modules@.take(i as int).filter(f).push(m)
            } else {
                modules@.take(i as int).filter(f)
            }));
        }
        if m != 0 && m != kernel32 && m != exe && m != self_module {
            out.push(m);
        }
        i = i + 1;
    }
    assert(modules@.take(n as int) =~= modules@);
    out
}

/// Where the section table of image `img` starts and how many entries it
/// has, when the image has DOS and NT headers.
pub open spec fn section_table_spec(img: Seq<u8>) -> Option<(nat, nat)> {
    let len = img.len();
    if len < 64 || le16(img, 0) != 0x5A4D || le32(img, 0x3C) >= 0x8000_0000 {
        None
    } else {
        let nt = le32(img, 0x3C);
        if !in_image(len, nt, 24) || le32(img, nt as int) != 0x4550 {
            None
        } else {
            Some((nt + 24 + le16(img, (nt + 20) as int), le16(img, (nt + 6) as int)))
        }
    }
}

/// Section header `i` of the table at `table`.
pub open spec fn section_at(img: Seq<u8>, table: nat, i: nat) -> PeSection {
    let h = table + 40 * i;
    PeSection {
        virtual_address: le32(img, (h + 12) as int) as u32,
        raw_size: le32(img, (h + 16) as int) as u32,
        raw_pointer: le32(img, (h + 20) as int) as u32,
    }
}

/// The first `count` section headers of the table at `table`, as far as
/// they lie within the image.
pub open spec fn sections_spec(img: Seq<u8>, table: nat, count: nat) -> Seq<PeSection>
    decreases count,
{
    if count == 0 {
        Seq::empty()
    } else {
        let prev = sections_spec(img, table, (count - 1) as nat);
        if prev.len() == count - 1 && in_image(img.len(), (table + 40 * (count - 1)) as nat, 40) {
            prev.push(section_at(img, table, (count - 1) as nat))
        } else {
            prev
        }
    }
}

/// The sections of a PE image in file order: none when the image has no PE
/// headers, and the table cut where it leaves the image.
pub open spec fn pe_sections_spec(img: Seq<u8>) -> Seq<PeSection> {
    match section_table_spec(img) {
        Some((table, count)) => sections_spec(img, table, count),
        None => Seq::empty(),
    }
}

proof fn lemma_sections_prefix(img: Seq<u8>, table: nat, count: nat, k: nat)
    requires
        k <= count,
        sections_spec(img, table, k).len() < k,
    ensures
        sections_spec(img, table, count) == sections_spec(img, table, k),
    decreases count - k,
{
    if k < count {
        assert(sections_spec(img, table, k + 1) == sections_spec(img, table, k));
        lemma_sections_prefix(img, table, count, k + 1);
    }
}

proof fn lemma_sections_len(img: Seq<u8>, table: nat, count: nat)
    ensures
        sections_spec(img, table, count).len() <= count,
    decreases count,
{
    if count > 0 {
        lemma_sections_len(img, table, (count - 1) as nat);
    }
}

/// The sections of a PE image (see `pe_sections_spec`).
pub fn pe_sections(img: &[u8]) -> (out: Vec<PeSection>)
    ensures
        out@ == pe_sections_spec(img@),
{
    let len = img.len();
    if len < 64 || read16(img, 0) != 0x5A4D || read32(img, 0x3C) >= 0x8000_0000 {
        return Vec::new();
    }
    let nt = read32(img, 0x3C);
    if !in_image_exec(len, nt, 24) || read32(img, nt) != 0x4550 {
        return Vec::new();
    }
    let table: u64 = nt + 24 + read16(img, nt + 20);
    let count: u64 = read16(img, nt + 6);
    let mut out: Vec<PeSection> = Vec::new();
    let mut i: u64 = 0;
    assert(section_table_spec(img@) == Some((table as nat, count as nat)));
    while i < count
        invariant
            section_table_spec(img@) == Some((table as nat, count as nat)),
            len == img@.len(),
            table <= 0x8000_0000 + 24 + 0x10000,
            count <= 0xFFFF,
            i <= count,
            out@ == sections_spec(img@, table as nat, i as nat),
            out@.len() == i,
        decreases count - i,
    {
        let h = table + 40 * i;
        if !in_image_exec(len, h, 40) {
            proof {
                assert(sections_spec(img@, table as nat, (i + 1) as nat) == sections_spec(img@, table as nat, i as nat));
                lemma_sections_prefix(img@, table as nat, count as nat, (i + 1) as nat);
                assert(section_table_spec(img@) == Some((table as nat, count as nat)));
                assert(out@ == sections_spec(img@, table as nat, count as nat));
            }
            return out;
        }
        let s = PeSection { virtual_address: read32(img, h + 12) as u32, raw_size: read32(img, h + 16) as u32, raw_pointer: read32(img, h + 20) as u32 };
        out.push(s);
        i = i + 1;
    }
    out
}

} // verus!
