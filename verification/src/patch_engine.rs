use vstd::prelude::*;
use vstd::string::StringSliceAdditionalSpecFns;

verus! {

/// The outcome of one patch attempt.
#[derive(Clone, Copy, PartialEq, Eq, Debug, Structural)]
pub enum PatchResult {
    /// The expected bytes were found and replaced.
    Applied,
    /// The patched bytes were already in place.
    AlreadyPatched,
    /// Neither was found.
    Mismatch,
}

/// Sorts out the result of patching at a known offset: `Applied` is final;
/// `AlreadyPatched` is remembered in `fallback` while later variants are still
/// tried; `Mismatch` changes nothing.
pub fn classify_known_offset_result(result: PatchResult, fallback: &mut PatchResult) -> (decisive: Option<PatchResult>)
    ensures
        result == PatchResult::Applied ==> decisive == Some(PatchResult::Applied) && *final(fallback) == *old(fallback),
        result == PatchResult::AlreadyPatched ==> decisive is None && *final(fallback) == PatchResult::AlreadyPatched,
        result == PatchResult::Mismatch ==> decisive is None && *final(fallback) == *old(fallback),
{
    match result {
        PatchResult::Applied => Some(PatchResult::Applied),
        PatchResult::AlreadyPatched => {
            *fallback = PatchResult::AlreadyPatched;
            None
        },
        PatchResult::Mismatch => None,
    }
}

/// Whether the window of `image` at `at` matches `pattern` under `mask`
/// (`?` marks a byte that may be anything).
pub open spec fn window_matches(image: Seq<u8>, pattern: Seq<u8>, mask: Seq<u8>, at: int) -> bool {
    forall|k: int| 0 <= k < pattern.len() ==> mask[k] == 63 || #[trigger] image[at + k] == pattern[k]
}

/// The first offset where `pattern` matches under `mask`.
pub open spec fn first_match(image: Seq<u8>, pattern: Seq<u8>, mask: Seq<u8>, at: int) -> Option<usize>
    decreases image.len() - at,
{
    if at < 0 || at + pattern.len() > image.len() {
        None
    } else if window_matches(image, pattern, mask, at) {
        Some(at as usize)
    } else {
        first_match(image, pattern, mask, at + 1)
    }
}

/// The first offset of `image` where `pattern` matches under `mask`; `None`
/// for an empty pattern, a mask of another length, or a pattern longer than
/// the image.
pub open spec fn find_pattern_spec(image: Seq<u8>, pattern: Seq<u8>, mask: Seq<u8>) -> Option<usize> {
    if pattern.len() == 0 || pattern.len() != mask.len() || pattern.len() > image.len() {
        None
    } else {
        first_match(image, pattern, mask, 0)
    }
}

fn window_matches_at(image: &[u8], pattern: &[u8], mask: &[u8], at: usize) -> (b: bool)
    requires
        at + pattern@.len() <= image@.len(),
        mask@.len() == pattern@.len(),
    ensures
        b == window_matches(image@, pattern@, mask@, at as int),
{
    let n = image.len();
    let mut k: usize = 0;
    while k < pattern.len()
        invariant
            at + pattern@.len() <= image@.len(),
            n == image@.len(),
            mask@.len() == pattern@.len(),
            k <= pattern@.len(),
            forall|j: int| 0 <= j < k ==> mask@[j] == 63 || #[trigger] image@[at + j] == pattern@[j],
        decreases pattern@.len() - k,
    {
        if mask[k] != 63 && image[at + k] != pattern[k] {
            return false;
        }
        k = k + 1;
    }
    true
}

/// Finds a byte pattern with a mask in an image (see `find_pattern_spec`).
pub fn find_pattern(image: &[u8], pattern: &[u8], mask: &str) -> (r: Option<usize>)
    ensures
        r == find_pattern_spec(image@, pattern@, mask.spec_bytes()),
{
    let m = mask.as_bytes();
    if pattern.len() == 0 || pattern.len() != m.len() || pattern.len() > image.len() {
        return None;
    }
    let mut at: usize = 0;
    let last = image.len() - pattern.len();
    while at <= last
        invariant
            pattern@.len() == m@.len(),
            m@ == mask.spec_bytes(),
            0 < pattern@.len() <= image@.len(),
            last == image@.len() - pattern@.len(),
            last < usize::MAX,
            at <= last + 1,
            find_pattern_spec(image@, pattern@, m@) == first_match(image@, pattern@, m@, at as int),
        decreases image@.len() - at,
    {
        if window_matches_at(image, pattern, m, at) {
            return Some(at);
        }
        at = at + 1;
    }
    None
}

/// One token of a pattern string: a byte, or `None` for a wildcard.
pub open spec fn hex_value(b: u8) -> Option<nat> {
    if 48 <= b <= 57 {
        Some((b - 48) as nat)
    } else if 65 <= b <= 70 {
        Some((b - 55) as nat)
    } else if 97 <= b <= 102 {
        Some((b - 87) as nat)
    } else {
        None
    }
}

/// The number that a run of hex digits denotes, or `None` when one is not a
/// hex digit.
pub open spec fn hex_number(s: Seq<u8>) -> Option<nat>
    decreases s.len(),
{
    if s.len() == 0 {
        Some(0)
    } else {
        match (hex_number(s.drop_last()), hex_value(s.last())) {
            (Some(a), Some(d)) => Some(a * 16 + d),
            _ => None,
        }
    }
}

/// What a token stands for: `?` and `??` for any byte, otherwise a hex byte
/// value (an optional `+` and at least one digit, at most 255); `None` when
/// the token is neither.
pub open spec fn token_spec(t: Seq<u8>) -> Option<Option<u8>> {
    if t == seq![63u8] || t == seq![63u8, 63] {
        Some(None)
    } else {
        let d = if t.len() > 0 && t[0] == 43 { t.skip(1) } else { t };
        match hex_number(d) {
            Some(v) => if d.len() > 0 && v <= 255 { Some(Some(v as u8)) } else { None },
            None => None,
        }
    }
}

/// Whether a byte separates tokens: ASCII white space.
pub open spec fn is_space(b: u8) -> bool {
    b == 32 || (9 <= b <= 13)
}

/// The tokens of a pattern string from position `i` on, with `cur` the part
/// of the current token read so far; `None` when a token is malformed.
pub open spec fn tokens_from(s: Seq<u8>, i: int, cur: Seq<u8>) -> Option<Seq<Option<u8>>>
    decreases s.len() - i,
{
    if i < 0 || i >= s.len() {
        if cur.len() == 0 {
            Some(Seq::empty())
        } else {
            match token_spec(cur) {
                Some(t) => Some(seq![t]),
                None => None,
            }
        }
    } else if is_space(s[i]) {
        if cur.len() == 0 {
            tokens_from(s, i + 1, cur)
        } else {
            match (token_spec(cur), tokens_from(s, i + 1, Seq::empty())) {
                (Some(t), Some(rest)) => Some(seq![t] + rest),
                _ => None,
            }
        }
    } else {
        tokens_from(s, i + 1, cur.push(s[i]))
    }
}

/// The tokens of a pattern string such as `85 C0 ?? 07`, separated by ASCII
/// white space.
pub open spec fn parse_pattern_spec(s: Seq<u8>) -> Option<Seq<Option<u8>>> {
    tokens_from(s, 0, Seq::empty())
}

fn parse_token(t: &[u8]) -> (r: Option<Option<u8>>)
    ensures
        r == token_spec(t@),
{
    if (t.len() == 1 && t[0] == 63) || (t.len() == 2 && t[0] == 63 && t[1] == 63) {
        proof {
            if t@.len() == 1 {
                assert(t@ =~= seq![63u8]);
            } else {
                assert(t@ =~= seq![63u8, 63]);
            }
        }
        return Some(None);
    }
    proof {
        if t@ == seq![63u8] {
            assert(t@.len() == 1 && t@[0] == 63);
        }
        if t@ == seq![63u8, 63] {
            assert(t@.len() == 2 && t@[0] == 63 && t@[1] == 63);
        }
    }
    let start: usize = if t.len() > 0 && t[0] == 43 { 1 } else { 0 };
    let ghost d = if t@.len() > 0 && t@[0] == 43 { t@.skip(1) } else { t@ };
    assert(d =~= t@.skip(start as int));
    if start >= t.len() {
        assert(d.len() == 0);
        return None;
    }
    let mut v: u32 = 0;
    let mut i = start;
    while i < t.len()
        invariant
            start <= i <= t@.len(),
            start < t@.len(),
            d == t@.skip(start as int),
            d == (if t@.len() > 0 && t@[0] == 43 { t@.skip(1) } else { t@ }),
            t@ != seq![63u8],
            t@ != seq![63u8, 63],
            hex_number(d.take(i - start)) == Some(v as nat),
            v <= 255,
        decreases t@.len() - i,
    {
        let b = t[i];
        let digit: u32 = if 48 <= b && b <= 57 {
            (b - 48) as u32
        } else if 65 <= b && b <= 70 {
            (b - 55) as u32
        } else if 97 <= b && b <= 102 {
            (b - 87) as u32
        } else {
            proof {
                assert(hex_value(b) is None);
                lemma_hex_number_invalid(d, i - start);
            }
            return None;
        };
        proof {
            assert(d.take(i - start + 1).drop_last() =~= d.take(i - start));
            assert(d.take(i - start + 1).last() == b);
        }
        let next = v * 16 + digit;
        if next > 255 {
            proof {
                lemma_hex_number_grows(d, i - start + 1);
            }
            return None;
        }
        v = next;
        i = i + 1;
    }
    assert(d.take(d.len() as int) =~= d);
    Some(Some(v as u8))
}

proof fn lemma_hex_number_invalid(d: Seq<u8>, k: int)
    requires
        0 <= k < d.len(),
        hex_value(d[k]) is None,
    ensures
        hex_number(d) is None,
    decreases d.len(),
{
    if k == d.len() - 1 {
    } else {
        lemma_hex_number_invalid(d.drop_last(), k);
    }
}

proof fn lemma_hex_number_grows(d: Seq<u8>, k: int)
    requires
        0 < k <= d.len(),
        hex_number(d.take(k)) matches Some(v) && v > 255,
    ensures
        !(hex_number(d) matches Some(v) && v <= 255),
    decreases d.len(),
{
    if k == d.len() {
        assert(d.take(k) =~= d);
    } else {
        let e = d.drop_last();
        assert(e.take(k) =~= d.take(k));
        lemma_hex_number_grows(e, k);
    }
}

/// Reads a pattern string (see `parse_pattern_spec`).
pub fn parse_pattern(text: &str) -> (r: Option<Vec<Option<u8>>>)
    ensures
        match parse_pattern_spec(text.spec_bytes()) {
            Some(t) => r matches Some(v) && v@ == t,
            None => r is None,
        },
{
    let s = text.as_bytes();
    let mut out: Vec<Option<u8>> = Vec::new();
    let mut cur: Vec<u8> = Vec::new();
    let mut i: usize = 0;
    while i < s.len()
        invariant
            s@ == text.spec_bytes(),
            i <= s@.len(),
            match tokens_from(s@, i as int, cur@) {
                Some(rest) => parse_pattern_spec(s@) == Some(out@ + rest),
                None => parse_pattern_spec(s@) is None,
            },
        decreases s@.len() - i,
    {
        let b = s[i];
        if b == 32 || (9 <= b && b <= 13) {
            if cur.len() > 0 {
                match parse_token(cur.as_slice()) {
                    None => {
                        return None;
                    },
                    Some(t) => {
                        proof {
                            match tokens_from(s@, i + 1, Seq::empty()) {
                                Some(rest) => {
                                    assert(out@.push(t) + rest =~= out@ + (seq![t] + rest));
                                },
                                None => {},
                            }
                        }
                        out.push(t);
                        cur = Vec::new();
                    },
                }
            }
        } else {
            cur.push(b);
        }
        i = i + 1;
    }
    if cur.len() > 0 {
        match parse_token(cur.as_slice()) {
            None => {
                return None;
            },
            Some(t) => {
                out.push(t);
            },
        }
    } else {
        assert(out@ + Seq::<Option<u8>>::empty() =~= out@);
    }
    Some(out)
}

/// Whether the window of `bytes` at `at` matches the tokens.
pub open spec fn tokens_match_at(bytes: Seq<u8>, tokens: Seq<Option<u8>>, at: int) -> bool {
    forall|k: int| 0 <= k < tokens.len() ==> (#[trigger] tokens[k] matches Some(v) ==> bytes[at + k] == v)
}

/// The first offset at or after `at` where the tokens match.
pub open spec fn first_token_match(bytes: Seq<u8>, tokens: Seq<Option<u8>>, at: int) -> Option<usize>
    decreases bytes.len() - at,
{
    if at < 0 || at + tokens.len() > bytes.len() {
        None
    } else if tokens_match_at(bytes, tokens, at) {
        Some(at as usize)
    } else {
        first_token_match(bytes, tokens, at + 1)
    }
}

/// A match found from `at` on lies at or after `at` and inside `bytes`.
pub proof fn lemma_first_token_match_bounds(bytes: Seq<u8>, tokens: Seq<Option<u8>>, at: int)
    requires
        bytes.len() <= usize::MAX,
    ensures
        first_token_match(bytes, tokens, at) matches Some(x) ==> at <= x && x + tokens.len() <= bytes.len(),
    decreases bytes.len() - at,
{
    if !(at < 0 || at + tokens.len() > bytes.len()) && !tokens_match_at(bytes, tokens, at) {
        lemma_first_token_match_bounds(bytes, tokens, at + 1);
    }
}

/// The first offset of `bytes` where the tokens match.
pub fn find_tokens(bytes: &[u8], tokens: &[Option<u8>]) -> (r: Option<usize>)
    requires
        tokens@.len() > 0,
    ensures
        r == first_token_match(bytes@, tokens@, 0),
{
    let n = bytes.len();
    let mut at: usize = 0;
    while at <= n && tokens.len() <= n - at
        invariant
            n == bytes@.len(),
            first_token_match(bytes@, tokens@, 0) == first_token_match(bytes@, tokens@, at as int),
        decreases n + 1 - at,
    {
        let mut k: usize = 0;
        let mut ok = true;
        while k < tokens.len()
            invariant
                at + tokens@.len() <= n,
                n == bytes@.len(),
                k <= tokens@.len(),
                ok ==> forall|j: int| 0 <= j < k ==> (#[trigger] tokens@[j] matches Some(v) ==> bytes@[at + j] == v),
                !ok ==> !tokens_match_at(bytes@, tokens@, at as int),
            decreases tokens@.len() - k,
        {
            match tokens[k] {
                Some(v) => {
                    if bytes[at + k] != v {
                        ok = false;
                    }
                },
                None => {},
            }
            k = k + 1;
        }
        if ok {
            return Some(at);
        }
        at = at + 1;
    }
    None
}

/// A section of the game's PE image: where it lies in the file and in memory.
#[derive(Clone, Copy)]
pub struct PeSection {
    pub virtual_address: u32,
    pub raw_pointer: u32,
    pub raw_size: u32,
}

/// A message logged while patching, for the logger to pass on.
pub enum EarlyLog {
    Info(String),
    Warn(String),
}

/// The game's image as patches see it: its load address, its bytes and its
/// sections, with the messages logged while patching it, oldest first.
pub struct PatchImage {
    pub base: usize,
    pub bytes: Vec<u8>,
    pub sections: Vec<PeSection>,
    pub log: Vec<EarlyLog>,
}

/// Whether `len` bytes at `addr` lie inside the image.
pub open spec fn contains_range_spec(base: usize, size: nat, addr: int, len: int) -> bool {
    addr >= base && addr - base + len <= size
}

impl PatchImage {
    /// Whether `len` bytes at `addr` lie inside the image.
    pub fn contains_range(&self, address: usize, len: usize) -> (b: bool)
        ensures
            b == contains_range_spec(self.base, self.bytes@.len(), address as int, len as int),
    {
        if address < self.base {
            return false;
        }
        let offset = address - self.base;
        offset <= self.bytes.len() && len <= self.bytes.len() - offset
    }
}

/// The address that a file offset is loaded at: inside the first section
/// whose file range holds it, or 0 when none does.
pub open spec fn offset_to_va_spec(base: usize, sections: Seq<PeSection>, offset: u32) -> int
    decreases sections.len(),
{
    if sections.len() == 0 {
        0
    } else {
        let s = sections[0];
        if s.raw_pointer <= offset && offset < s.raw_pointer + s.raw_size {
            base + s.virtual_address + (offset - s.raw_pointer)
        } else {
            offset_to_va_spec(base, sections.skip(1), offset)
        }
    }
}

/// The address that a file offset is loaded at (see `offset_to_va_spec`);
/// 0 also when that address would not fit in a `usize`.
pub fn file_offset_to_va(image: &PatchImage, offset: u32) -> (va: usize)
    ensures
        va == (if offset_to_va_spec(image.base, image.sections@, offset) <= usize::MAX {
            offset_to_va_spec(image.base, image.sections@, offset)
        } else {
            0
        }),
{
    let mut i: usize = 0;
    assert(image.sections@.skip(0) =~= image.sections@);
    while i < image.sections.len()
        invariant
            i <= image.sections@.len(),
            offset_to_va_spec(image.base, image.sections@, offset) == offset_to_va_spec(
                image.base,
                image.sections@.skip(i as int),
                offset,
            ),
        decreases image.sections@.len() - i,
    {
        let s = image.sections[i];
        assert(image.sections@.skip(i as int).skip(1) =~= image.sections@.skip(i + 1));
        if s.raw_pointer <= offset && (offset as u64) < s.raw_pointer as u64 + s.raw_size as u64 {
            let rva: u64 = s.virtual_address as u64 + (offset - s.raw_pointer) as u64;
            if rva > (usize::MAX - image.base) as u64 {
                return 0;
            }
            return image.base + rva as usize;
        }
        i = i + 1;
    }
    0
}

/// What patching `patch` over `expected` at `addr` does to the image bytes:
/// the expected bytes are replaced; bytes that already are the patch are
/// left; anything else, or a range outside the image, is a mismatch.
pub open spec fn patch_spec(base: usize, img: Seq<u8>, addr: int, expected: Seq<u8>, patch: Seq<u8>) -> (Seq<u8>, PatchResult) {
    let off = addr - base;
    if !contains_range_spec(base, img.len(), addr, patch.len() as int) {
        (img, PatchResult::Mismatch)
    } else if img.subrange(off, off + patch.len()) == expected {
        (img.subrange(0, off) + patch + img.skip(off + patch.len()), PatchResult::Applied)
    } else if img.subrange(off, off + patch.len()) == patch {
        (img, PatchResult::AlreadyPatched)
    } else {
        (img, PatchResult::Mismatch)
    }
}

/// Patching is idempotent: once a patch applied (or was found applied),
/// patching again leaves the bytes as they are and reports the patch as
/// already applied (or applied, where the patch equals the expected bytes).
pub proof fn lemma_patch_idempotent(base: usize, img: Seq<u8>, addr: int, expected: Seq<u8>, patch: Seq<u8>)
    requires
        expected.len() == patch.len(),
        patch_spec(base, img, addr, expected, patch).1 != PatchResult::Mismatch,
    ensures
        patch_spec(base, patch_spec(base, img, addr, expected, patch).0, addr, expected, patch).0 == patch_spec(
            base,
            img,
            addr,
            expected,
            patch,
        ).0,
        patch_spec(base, patch_spec(base, img, addr, expected, patch).0, addr, expected, patch).1 != PatchResult::Mismatch,
{
    let off = addr - base;
    let next = patch_spec(base, img, addr, expected, patch).0;
    assert(next.len() == img.len());
    assert(next.subrange(off, off + patch.len()) =~= patch);
    if expected == patch {
        assert(img.subrange(0, off) + patch + img.skip(off + patch.len()) =~= img) by {
            assert(img.subrange(off, off + patch.len()) == expected || img.subrange(off, off + patch.len()) == patch);
        }
    }
}

/// Patches `patch` over `expected` at `addr` (see `patch_spec`).
pub fn patch_bytes(image: &mut PatchImage, addr: usize, expected: &[u8], patch: &[u8]) -> (r: PatchResult)
    ensures
        (final(image).bytes@, r) == patch_spec(old(image).base, old(image).bytes@, addr as int, expected@, patch@),
        final(image).base == old(image).base,
        final(image).sections@ == old(image).sections@,
        final(image).log@ == old(image).log@,
{
    if !image.contains_range(addr, patch.len()) {
        return PatchResult::Mismatch;
    }
    let off = addr - image.base;
    let n = patch.len();
    let (_, tail) = image.bytes.as_slice().split_at(off);
    let (current, _) = tail.split_at(n);
    assert(current@ =~= image.bytes@.subrange(off as int, off + n));
    if crate::frame::bytes_eq(current, expected) {
        let mut i: usize = 0;
        let total = image.bytes.len();
        while i < n
            invariant
                off + n <= image.bytes@.len(),
                total == image.bytes@.len(),
                n == patch@.len(),
                i <= n,
                image.base == old(image).base,
                image.sections@ == old(image).sections@,
                image.log@ == old(image).log@,
                image.bytes@.len() == old(image).bytes@.len(),
                forall|k: int| 0 <= k < off ==> image.bytes@[k] == old(image).bytes@[k],
                forall|k: int| off + n <= k < image.bytes@.len() ==> image.bytes@[k] == old(image).bytes@[k],
                forall|k: int| off + i <= k < off + n ==> image.bytes@[k] == old(image).bytes@[k],
                forall|k: int| off <= k < off + i ==> #[trigger] image.bytes@[k] == patch@[k - off],
            decreases n - i,
        {
            image.bytes.set(off + i, patch[i]);
            i = i + 1;
        }
        assert(image.bytes@ =~= old(image).bytes@.subrange(0, off as int) + patch@ + old(image).bytes@.skip(off + n));
        PatchResult::Applied
    } else if crate::frame::bytes_eq(current, patch) {
        PatchResult::AlreadyPatched
    } else {
        PatchResult::Mismatch
    }
}

/// What writing `data` at `addr` does to the image bytes: the bytes are
/// replaced when `data` is not empty and lies inside the image; otherwise
/// nothing changes.
pub open spec fn write_spec(base: usize, img: Seq<u8>, addr: int, data: Seq<u8>) -> Seq<u8> {
    let off = addr - base;
    if data.len() > 0 && contains_range_spec(base, img.len(), addr, data.len() as int) {
        img.subrange(0, off) + data + img.skip(off + data.len())
    } else {
        img
    }
}

/// Writes `data` at `addr` (see `write_spec`); tells whether it did.
pub fn mem_write(image: &mut PatchImage, addr: usize, data: &[u8]) -> (ok: bool)
    ensures
        final(image).bytes@ == write_spec(old(image).base, old(image).bytes@, addr as int, data@),
        ok == (data@.len() > 0 && contains_range_spec(old(image).base, old(image).bytes@.len(), addr as int, data@.len() as int)),
        final(image).base == old(image).base,
        final(image).sections@ == old(image).sections@,
        final(image).log@ == old(image).log@,
{
    if data.len() == 0 || !image.contains_range(addr, data.len()) {
        return false;
    }
    let off = addr - image.base;
    let n = data.len();
    let mut i: usize = 0;
    let total = image.bytes.len();
    while i < n
        invariant
            off + n <= image.bytes@.len(),
            total == image.bytes@.len(),
            n == data@.len(),
            i <= n,
            image.base == old(image).base,
            image.sections@ == old(image).sections@,
            image.log@ == old(image).log@,
            image.bytes@.len() == old(image).bytes@.len(),
            forall|k: int| 0 <= k < off ==> image.bytes@[k] == old(image).bytes@[k],
            forall|k: int| off + n <= k < image.bytes@.len() ==> image.bytes@[k] == old(image).bytes@[k],
            forall|k: int| off <= k < off + i ==> #[trigger] image.bytes@[k] == data@[k - off],
        decreases n - i,
    {
        image.bytes.set(off + i, data[i]);
        i = i + 1;
    }
    assert(image.bytes@ =~= old(image).bytes@.subrange(0, off as int) + data@ + old(image).bytes@.skip(off + n));
    true
}

/// The address of the first match of `tokens` in the image, 0 when there is
/// none.
pub open spec fn scan_spec(base: usize, img: Seq<u8>, tokens: Seq<Option<u8>>) -> int {
    match first_token_match(img, tokens, 0) {
        Some(at) => if base + at <= usize::MAX { base + at } else { 0 },
        None => 0,
    }
}

/// Scans the image for a pattern (see `scan_spec`).
pub fn scan(image: &PatchImage, tokens: &[Option<u8>]) -> (addr: usize)
    requires
        tokens@.len() > 0,
    ensures
        addr == scan_spec(image.base, image.bytes@, tokens@),
{
    match find_tokens(image.bytes.as_slice(), tokens) {
        Some(at) => if at <= usize::MAX - image.base {
            image.base + at
        } else {
            0
        },
        None => 0,
    }
}

/// One way to find the bytes a patch changes in one revision of the game: a
/// pattern and the offset of the patched bytes from its start, and file
/// offsets where they sit in known revisions.
pub struct PatchVariant {
    pub pattern: Option<Vec<Option<u8>>>,
    pub pattern_offset: isize,
    pub known_offsets: Vec<u32>,
    pub expected: Vec<u8>,
    pub patch: Vec<u8>,
}

/// A variant as plain values.
pub struct VariantView {
    pub pattern: Option<Seq<Option<u8>>>,
    pub pattern_offset: isize,
    pub known_offsets: Seq<u32>,
    pub expected: Seq<u8>,
    pub patch: Seq<u8>,
}

pub open spec fn variant_view(v: PatchVariant) -> VariantView {
    VariantView {
        pattern: match v.pattern {
            Some(t) => Some(t@),
            None => None,
        },
        pattern_offset: v.pattern_offset,
        known_offsets: v.known_offsets@,
        expected: v.expected@,
        patch: v.patch@,
    }
}

pub open spec fn variant_views(vs: Seq<PatchVariant>) -> Seq<VariantView> {
    vs.map_values(|v: PatchVariant| variant_view(v))
}

/// A named patch with its variants, tried in order.
pub struct VersionedPatch {
    pub name: String,
    pub variants: Vec<PatchVariant>,
}

/// The address the pattern of a variant points at, if it is found (a match
/// at address 0 counts as none) and the offset keeps it in range.
pub open spec fn pattern_addr_spec(base: usize, img: Seq<u8>, v: VariantView) -> Option<int> {
    match v.pattern {
        None => None,
        Some(tokens) => {
            let found = scan_spec(base, img, tokens);
            if tokens.len() == 0 || found == 0 {
                None
            } else if 0 <= found + v.pattern_offset <= usize::MAX {
                Some(found + v.pattern_offset)
            } else {
                None
            }
        },
    }
}

/// Tries the known offsets of a variant from the `j`-th on: the image
/// afterwards, a final result if one came up, and the fallback result.
pub open spec fn known_offsets_spec(
    base: usize,
    secs: Seq<PeSection>,
    img: Seq<u8>,
    v: VariantView,
    j: int,
    fallback: PatchResult,
) -> (Seq<u8>, Option<PatchResult>, PatchResult)
    decreases v.known_offsets.len() - j,
{
    if j < 0 || j >= v.known_offsets.len() {
        (img, None, fallback)
    } else {
        let va = offset_to_va_spec(base, secs, v.known_offsets[j]);
        let addr = if va <= usize::MAX { va } else { 0 };
        if addr == 0 {
            known_offsets_spec(base, secs, img, v, j + 1, fallback)
        } else {
            let (img2, r) = patch_spec(base, img, addr, v.expected, v.patch);
            if r == PatchResult::Applied {
                (img2, Some(PatchResult::Applied), fallback)
            } else if r == PatchResult::AlreadyPatched {
                known_offsets_spec(base, secs, img2, v, j + 1, PatchResult::AlreadyPatched)
            } else {
                known_offsets_spec(base, secs, img2, v, j + 1, fallback)
            }
        }
    }
}

/// Tries the variants from the `i`-th on: at each, the pattern first (any
/// result but a mismatch is final), then the known offsets (only `Applied`
/// is final; `AlreadyPatched` becomes the fallback). Gives the image
/// afterwards and the result: the final one, or else the fallback.
pub open spec fn apply_patch_spec(
    base: usize,
    secs: Seq<PeSection>,
    img: Seq<u8>,
    variants: Seq<VariantView>,
    i: int,
    fallback: PatchResult,
) -> (Seq<u8>, PatchResult)
    decreases variants.len() - i,
{
    if i < 0 || i >= variants.len() {
        (img, fallback)
    } else {
        let v = variants[i];
        let (img1, pr) = match pattern_addr_spec(base, img, v) {
            Some(addr) => patch_spec(base, img, addr, v.expected, v.patch),
            None => (img, PatchResult::Mismatch),
        };
        if pr != PatchResult::Mismatch {
            (img1, pr)
        } else {
            let (img2, decisive, fb) = known_offsets_spec(base, secs, img1, v, 0, fallback);
            match decisive {
                Some(r) => (img2, r),
                None => apply_patch_spec(base, secs, img2, variants, i + 1, fb),
            }
        }
    }
}

fn find_by_pattern(image: &PatchImage, v: &PatchVariant) -> (r: Option<usize>)
    ensures
        match pattern_addr_spec(image.base, image.bytes@, variant_view(*v)) {
            Some(a) => r == Some(a as usize),
            None => r is None,
        },
{
    match &v.pattern {
        None => None,
        Some(tokens) => {
            if tokens.len() == 0 {
                return None;
            }
            let found = scan(image, tokens.as_slice());
            if found == 0 {
                return None;
            }
            found.checked_add_signed(v.pattern_offset)
        },
    }
}

/// Applies the variants of a versioned patch in turn (see `apply_patch_spec`,
/// starting from a mismatch as the fallback), logging nothing.
fn apply_variants(image: &mut PatchImage, def: &VersionedPatch) -> (r: PatchResult)
    ensures
        (final(image).bytes@, r) == apply_patch_spec(
            old(image).base,
            old(image).sections@,
            old(image).bytes@,
            variant_views(def.variants@),
            0,
            PatchResult::Mismatch,
        ),
        final(image).base == old(image).base,
        final(image).sections@ == old(image).sections@,
        final(image).log@ == old(image).log@,
{
    let mut fallback = PatchResult::Mismatch;
    let mut i: usize = 0;
    while i < def.variants.len()
        invariant
            i <= def.variants@.len(),
            image.base == old(image).base,
            image.sections@ == old(image).sections@,
            image.log@ == old(image).log@,
            apply_patch_spec(image.base, image.sections@, image.bytes@, variant_views(def.variants@), i as int, fallback)
                == apply_patch_spec(
                old(image).base,
                old(image).sections@,
                old(image).bytes@,
                variant_views(def.variants@),
                0,
                PatchResult::Mismatch,
            ),
        decreases def.variants@.len() - i,
    {
        let v = &def.variants[i];
        assert(variant_views(def.variants@)[i as int] == variant_view(*v));
        match find_by_pattern(image, v) {
            Some(addr) => {
                let result = patch_bytes(image, addr, v.expected.as_slice(), v.patch.as_slice());
                if result != PatchResult::Mismatch {
                    return result;
                }
            },
            None => {},
        }
        let mut j: usize = 0;
        while j < v.known_offsets.len()
            invariant
                j <= v.known_offsets@.len(),
                image.base == old(image).base,
                image.sections@ == old(image).sections@,
                image.log@ == old(image).log@,
                v == def.variants@[i as int],
                i < def.variants@.len(),
                ({
                    let (img2, decisive, fb) = known_offsets_spec(
                        image.base,
                        image.sections@,
                        image.bytes@,
                        variant_view(*v),
                        j as int,
                        fallback,
                    );
                    match decisive {
                        Some(r) => (img2, r),
                        None => apply_patch_spec(image.base, image.sections@, img2, variant_views(def.variants@), i + 1, fb),
                    }
                }) == apply_patch_spec(
                    old(image).base,
                    old(image).sections@,
                    old(image).bytes@,
                    variant_views(def.variants@),
                    0,
                    PatchResult::Mismatch,
                ),
            decreases v.known_offsets@.len() - j,
        {
            let addr = file_offset_to_va(image, v.known_offsets[j]);
            if addr != 0 {
                let result = patch_bytes(image, addr, v.expected.as_slice(), v.patch.as_slice());
                match classify_known_offset_result(result, &mut fallback) {
                    Some(decisive) => {
                        return decisive;
                    },
                    None => {},
                }
            }
            j = j + 1;
        }
        i = i + 1;
    }
    fallback
}

/// A log line as its level (information or warning) and its text.
pub open spec fn log_view(e: EarlyLog) -> (bool, Seq<char>) {
    match e {
        EarlyLog::Info(m) => (true, m@),
        EarlyLog::Warn(m) => (false, m@),
    }
}

/// The lines of a log, oldest first (see `log_view`).
pub open spec fn log_lines(log: Seq<EarlyLog>) -> Seq<(bool, Seq<char>)> {
    log.map_values(|e: EarlyLog| log_view(e))
}

/// An information line.
pub open spec fn info(text: Seq<char>) -> (bool, Seq<char>) {
    (true, text)
}

/// A warning line.
pub open spec fn warn(text: Seq<char>) -> (bool, Seq<char>) {
    (false, text)
}

/// The line logged for patch `name` with result `r`: an information when the
/// patch is applied or already was, a warning when its bytes were not found.
pub open spec fn patch_line(r: PatchResult, name: Seq<char>) -> (bool, Seq<char>) {
    match r {
        PatchResult::Applied => info("Patch applied: "@ + name),
        PatchResult::AlreadyPatched => info("Patch already applied: "@ + name),
        PatchResult::Mismatch => warn("Patch signature mismatch: "@ + name),
    }
}

/// Whether `e` is the line logged for patch `name` with result `r`.
pub open spec fn patch_log_spec(e: EarlyLog, r: PatchResult, name: Seq<char>) -> bool {
    log_view(e) == patch_line(r, name)
}

/// Appending a line to a log appends its view to the log's lines.
pub proof fn lemma_log_lines_push(log: Seq<EarlyLog>, e: EarlyLog)
    ensures
        log_lines(log.push(e)) == log_lines(log).push(log_view(e)),
{
    assert(log_lines(log.push(e)) =~= log_lines(log).push(log_view(e)));
}

/// The line logged for patch `name` with result `r` (see `patch_log_spec`).
pub fn patch_log(r: PatchResult, name: &str) -> (e: EarlyLog)
    ensures
        patch_log_spec(e, r, name@),
{
    match r {
        PatchResult::Applied => EarlyLog::Info(String::from_str("Patch applied: ").concat(name)),
        PatchResult::AlreadyPatched => EarlyLog::Info(String::from_str("Patch already applied: ").concat(name)),
        PatchResult::Mismatch => EarlyLog::Warn(String::from_str("Patch signature mismatch: ").concat(name)),
    }
}

/// Applies a versioned patch to the image (see `apply_patch_spec`, starting
/// from a mismatch as the fallback) and logs its result under its name.
pub fn apply_patch(image: &mut PatchImage, def: &VersionedPatch) -> (r: PatchResult)
    ensures
        (final(image).bytes@, r) == apply_patch_spec(
            old(image).base,
            old(image).sections@,
            old(image).bytes@,
            variant_views(def.variants@),
            0,
            PatchResult::Mismatch,
        ),
        final(image).base == old(image).base,
        final(image).sections@ == old(image).sections@,
        final(image).log@.len() == old(image).log@.len() + 1,
        final(image).log@.drop_last() == old(image).log@,
        patch_log_spec(final(image).log@.last(), r, def.name@),
        log_lines(final(image).log@) == log_lines(old(image).log@).push(patch_line(r, def.name@)),
{
    let r = apply_variants(image, def);
    let ghost before = image.log@;
    let e = patch_log(r, def.name.as_str());
    proof {
        lemma_log_lines_push(before, e);
    }
    image.log.push(e);
    r
}

} // verus!
