use vstd::prelude::*;
use crate::patch_engine::{
    contains_range_spec, first_token_match, mem_write, patch_bytes, patch_log, patch_log_spec, patch_spec, scan, scan_spec,
    write_spec, EarlyLog, PatchImage, PatchResult,
};

verus! {

/// The mapper from the active release tag to its table entry.
pub open spec fn active_release_tag_tokens_spec() -> Seq<Option<u8>> {
    seq![Some(0xE8u8), None::<u8>, None::<u8>, None::<u8>, None::<u8>, Some(0x8Bu8), Some(0x00u8), Some(0x83u8), Some(0xF8u8), Some(0x15u8), Some(0x77u8), Some(0x08u8), Some(0x8Bu8), Some(0x04u8), Some(0x85u8), None::<u8>, None::<u8>, None::<u8>, None::<u8>, Some(0xC3u8), Some(0xB8u8), Some(0x17u8), Some(0x00u8), Some(0x00u8), Some(0x00u8), Some(0xC3u8), Some(0xCCu8), Some(0xCCu8), Some(0xCCu8), Some(0xCCu8), Some(0xCCu8)]
}

/// The mapper from the active release tag to its table entry.
pub fn active_release_tag_tokens() -> (t: Vec<Option<u8>>)
    ensures
        t@ == active_release_tag_tokens_spec(),
{
    let t: Vec<Option<u8>> = vec![Some(0xE8u8), None::<u8>, None::<u8>, None::<u8>, None::<u8>, Some(0x8Bu8), Some(0x00u8), Some(0x83u8), Some(0xF8u8), Some(0x15u8), Some(0x77u8), Some(0x08u8), Some(0x8Bu8), Some(0x04u8), Some(0x85u8), None::<u8>, None::<u8>, None::<u8>, None::<u8>, Some(0xC3u8), Some(0xB8u8), Some(0x17u8), Some(0x00u8), Some(0x00u8), Some(0x00u8), Some(0xC3u8), Some(0xCCu8), Some(0xCCu8), Some(0xCCu8), Some(0xCCu8), Some(0xCCu8)];
    assert(t@ =~= active_release_tag_tokens_spec());
    t
}

/// The mapper from a release tag to its bucket.
pub open spec fn release_tag_bucket_tokens_spec() -> Seq<Option<u8>> {
    seq![Some(0x8Bu8), Some(0x44u8), Some(0x24u8), Some(0x04u8), Some(0x83u8), Some(0xF8u8), Some(0x15u8), Some(0x77u8), Some(0x08u8), Some(0x8Bu8), Some(0x04u8), Some(0x85u8), None::<u8>, None::<u8>, None::<u8>, None::<u8>, Some(0xC3u8), Some(0xB8u8), Some(0x17u8), Some(0x00u8), Some(0x00u8), Some(0x00u8), Some(0xC3u8), Some(0xCCu8), Some(0xCCu8), Some(0xCCu8), Some(0xCCu8), Some(0xCCu8)]
}

/// The mapper from a release tag to its bucket.
pub fn release_tag_bucket_tokens() -> (t: Vec<Option<u8>>)
    ensures
        t@ == release_tag_bucket_tokens_spec(),
{
    let t: Vec<Option<u8>> = vec![Some(0x8Bu8), Some(0x44u8), Some(0x24u8), Some(0x04u8), Some(0x83u8), Some(0xF8u8), Some(0x15u8), Some(0x77u8), Some(0x08u8), Some(0x8Bu8), Some(0x04u8), Some(0x85u8), None::<u8>, None::<u8>, None::<u8>, None::<u8>, Some(0xC3u8), Some(0xB8u8), Some(0x17u8), Some(0x00u8), Some(0x00u8), Some(0x00u8), Some(0xC3u8), Some(0xCCu8), Some(0xCCu8), Some(0xCCu8), Some(0xCCu8), Some(0xCCu8)];
    assert(t@ =~= release_tag_bucket_tokens_spec());
    t
}

/// The difficulty unlock check, current layout.
pub open spec fn difficulty_main_tokens_spec() -> Seq<Option<u8>> {
    seq![Some(0x38u8), Some(0x44u8), Some(0x24u8), Some(0x13u8), Some(0x74u8), Some(0x09u8), Some(0xE8u8), None::<u8>, None::<u8>, None::<u8>, None::<u8>, Some(0x3Cu8), Some(0x01u8), Some(0x75u8), Some(0x1Cu8), Some(0x6Au8), Some(0x01u8), Some(0x8Du8), Some(0x44u8), Some(0x24u8), Some(0x14u8), Some(0x8Bu8), Some(0xCFu8), Some(0x50u8), Some(0xE8u8), None::<u8>, None::<u8>, None::<u8>, None::<u8>, Some(0x6Au8), Some(0x01u8), Some(0x8Du8), Some(0x44u8), Some(0x24u8), Some(0x14u8), Some(0x8Bu8), Some(0xCFu8), Some(0x50u8), Some(0xE8u8)]
}

/// The difficulty unlock check, current layout.
pub fn difficulty_main_tokens() -> (t: Vec<Option<u8>>)
    ensures
        t@ == difficulty_main_tokens_spec(),
{
    let t: Vec<Option<u8>> = vec![Some(0x38u8), Some(0x44u8), Some(0x24u8), Some(0x13u8), Some(0x74u8), Some(0x09u8), Some(0xE8u8), None::<u8>, None::<u8>, None::<u8>, None::<u8>, Some(0x3Cu8), Some(0x01u8), Some(0x75u8), Some(0x1Cu8), Some(0x6Au8), Some(0x01u8), Some(0x8Du8), Some(0x44u8), Some(0x24u8), Some(0x14u8), Some(0x8Bu8), Some(0xCFu8), Some(0x50u8), Some(0xE8u8), None::<u8>, None::<u8>, None::<u8>, None::<u8>, Some(0x6Au8), Some(0x01u8), Some(0x8Du8), Some(0x44u8), Some(0x24u8), Some(0x14u8), Some(0x8Bu8), Some(0xCFu8), Some(0x50u8), Some(0xE8u8)];
    assert(t@ =~= difficulty_main_tokens_spec());
    t
}

/// The difficulty unlock check, older layout.
pub open spec fn difficulty_legacy_tokens_spec() -> Seq<Option<u8>> {
    seq![Some(0x38u8), Some(0x44u8), Some(0x24u8), Some(0x13u8), Some(0x74u8), Some(0x09u8), Some(0xE8u8), None::<u8>, None::<u8>, None::<u8>, None::<u8>, Some(0x3Cu8), Some(0x01u8), Some(0x75u8), Some(0x1Cu8), Some(0x6Au8), Some(0x01u8), Some(0x8Du8), Some(0x44u8), Some(0x24u8), Some(0x14u8), Some(0x50u8), Some(0x8Bu8), Some(0xCFu8), Some(0xE8u8), None::<u8>, None::<u8>, None::<u8>, None::<u8>, Some(0x6Au8), Some(0x01u8), Some(0x8Du8), Some(0x44u8), Some(0x24u8), Some(0x14u8), Some(0x50u8), Some(0x8Bu8), Some(0xCFu8), Some(0xE8u8)]
}

/// The difficulty unlock check, older layout.
pub fn difficulty_legacy_tokens() -> (t: Vec<Option<u8>>)
    ensures
        t@ == difficulty_legacy_tokens_spec(),
{
    let t: Vec<Option<u8>> = vec![Some(0x38u8), Some(0x44u8), Some(0x24u8), Some(0x13u8), Some(0x74u8), Some(0x09u8), Some(0xE8u8), None::<u8>, None::<u8>, None::<u8>, None::<u8>, Some(0x3Cu8), Some(0x01u8), Some(0x75u8), Some(0x1Cu8), Some(0x6Au8), Some(0x01u8), Some(0x8Du8), Some(0x44u8), Some(0x24u8), Some(0x14u8), Some(0x50u8), Some(0x8Bu8), Some(0xCFu8), Some(0xE8u8), None::<u8>, None::<u8>, None::<u8>, None::<u8>, Some(0x6Au8), Some(0x01u8), Some(0x8Du8), Some(0x44u8), Some(0x24u8), Some(0x14u8), Some(0x50u8), Some(0x8Bu8), Some(0xCFu8), Some(0xE8u8)];
    assert(t@ =~= difficulty_legacy_tokens_spec());
    t
}

/// The bytes `n` bytes at `addr` hold, when they lie inside the image.
pub open spec fn read_spec(base: usize, img: Seq<u8>, addr: int, n: int) -> Option<Seq<u8>> {
    if contains_range_spec(base, img.len(), addr, n) {
        Some(img.subrange(addr - base, addr - base + n))
    } else {
        None
    }
}

fn mem_read(image: &PatchImage, addr: usize, n: usize) -> (r: Option<Vec<u8>>)
    ensures
        match read_spec(image.base, image.bytes@, addr as int, n as int) {
            Some(b) => r matches Some(v) && v@ == b,
            None => r is None,
        },
{
    if !image.contains_range(addr, n) {
        return None;
    }
    let off = addr - image.base;
    let (_, tail) = image.bytes.as_slice().split_at(off);
    let (window, _) = tail.split_at(n);
    assert(window@ =~= image.bytes@.subrange(off as int, off + n));
    Some(vstd::slice::slice_to_vec(window))
}

/// The mapper code written over a release tag mapper whose first bytes are
/// `orig`: its first `prefix` bytes kept, then a bounds check that maps any
/// tag up to 0x15 through the original table (whose address is taken from
/// `orig` at `table`) and every other tag to the fallback.
pub open spec fn mapper_bytes(orig: Seq<u8>, prefix: int, table: int) -> Seq<u8> {
    orig.take(prefix) + seq![0x85u8, 0xC0, 0x78, 0x10, 0x83, 0xF8, 0x16, 0x72, 0x03, 0x33, 0xC0, 0xC3, 0x8B, 0x04, 0x85]
        + orig.subrange(table, table + 4) + seq![0xC3u8, 0x6A, 0x17, 0x58, 0xC3]
}

/// The image after rewriting the mapper at `sig` (see `mapper_bytes`);
/// unchanged when its bytes cannot be read.
pub open spec fn mapper_spec(base: usize, img: Seq<u8>, sig: int, prefix: int, table: int) -> Seq<u8> {
    match read_spec(base, img, sig, prefix + 24) {
        Some(orig) => write_spec(base, img, sig, mapper_bytes(orig, prefix, table)),
        None => img,
    }
}

fn patch_mapper(image: &mut PatchImage, signature: usize, prefix_len: usize, table_offset: usize) -> (ok: bool)
    requires
        prefix_len <= 8,
        table_offset + 4 <= prefix_len + 24,
    ensures
        final(image).bytes@ == mapper_spec(old(image).base, old(image).bytes@, signature as int, prefix_len as int, table_offset as int),
        final(image).base == old(image).base,
        final(image).sections@ == old(image).sections@,
        final(image).log@ == old(image).log@,
{
    let patch_len = prefix_len + 24;
    let original = match mem_read(image, signature, patch_len) {
        Some(o) => o,
        None => {
            return false;
        },
    };
    let (head, _) = original.as_slice().split_at(prefix_len);
    let mut patch = vstd::slice::slice_to_vec(head);
    let mid: Vec<u8> = vec![0x85u8, 0xC0, 0x78, 0x10, 0x83, 0xF8, 0x16, 0x72, 0x03, 0x33, 0xC0, 0xC3, 0x8B, 0x04, 0x85];
    crate::frame::extend_bytes(&mut patch, mid.as_slice());
    let (_, rest) = original.as_slice().split_at(table_offset);
    let (table, _) = rest.split_at(4);
    crate::frame::extend_bytes(&mut patch, table);
    let tail: Vec<u8> = vec![0xC3u8, 0x6A, 0x17, 0x58, 0xC3];
    crate::frame::extend_bytes(&mut patch, tail.as_slice());
    assert(patch@ =~= mapper_bytes(original@, prefix_len as int, table_offset as int));
    patch.len() == patch_len && mem_write(image, signature, patch.as_slice())
}

/// The image after the release tag compatibility patch: when both mappers
/// are found (both are looked for first), the active tag mapper and then the
/// bucket mapper are rewritten.
pub open spec fn release_tag_spec(base: usize, img: Seq<u8>) -> Seq<u8> {
    let active = scan_spec(base, img, active_release_tag_tokens_spec());
    let bucket = scan_spec(base, img, release_tag_bucket_tokens_spec());
    if active == 0 || bucket == 0 {
        img
    } else {
        mapper_spec(base, mapper_spec(base, img, active, 7, 15), bucket, 4, 12)
    }
}

/// Whether both mappers of the release tag patch are found in `img`.
pub open spec fn release_tag_found(base: usize, img: Seq<u8>) -> bool {
    scan_spec(base, img, active_release_tag_tokens_spec()) != 0 && scan_spec(base, img, release_tag_bucket_tokens_spec()) != 0
}

/// Whether `e` is the line logged by the release tag patch: a warning when
/// its code is not found, an information when both mappers were rewritten
/// (`ok`), a warning otherwise.
pub open spec fn release_tag_log_spec(e: EarlyLog, found: bool, ok: bool) -> bool {
    if !found {
        e matches EarlyLog::Warn(m) && m@ == "custom release tag compatibility: target code not found"@
    } else if ok {
        e matches EarlyLog::Info(m) && m@ == "Patch applied: custom release tag compatibility"@
    } else {
        e matches EarlyLog::Warn(m) && m@ == "custom release tag compatibility: target code mismatch"@
    }
}

/// Applies the release tag compatibility patch (see `release_tag_spec`) and
/// logs how it went; tells whether both mappers were rewritten.
pub fn apply_release_tag(image: &mut PatchImage) -> (ok: bool)
    ensures
        final(image).bytes@ == release_tag_spec(old(image).base, old(image).bytes@),
        final(image).base == old(image).base,
        final(image).sections@ == old(image).sections@,
        !release_tag_found(old(image).base, old(image).bytes@) ==> !ok,
        final(image).log@.len() == old(image).log@.len() + 1,
        final(image).log@.drop_last() == old(image).log@,
        release_tag_log_spec(final(image).log@.last(), release_tag_found(old(image).base, old(image).bytes@), ok),
{
    let active = scan(image, active_release_tag_tokens().as_slice());
    let bucket = scan(image, release_tag_bucket_tokens().as_slice());
    if active == 0 || bucket == 0 {
        image.log.push(EarlyLog::Warn(String::from_str("custom release tag compatibility: target code not found")));
        return false;
    }
    let a = patch_mapper(image, active, 7, 15);
    let b = patch_mapper(image, bucket, 4, 12);
    if a && b {
        image.log.push(EarlyLog::Info(String::from_str("Patch applied: custom release tag compatibility")));
    } else {
        image.log.push(EarlyLog::Warn(String::from_str("custom release tag compatibility: target code mismatch")));
    }
    a && b
}

/// The first match of a signature, when there is exactly one in the image.
pub open spec fn unique_match_spec(base: usize, img: Seq<u8>, tokens: Seq<Option<u8>>) -> Option<int> {
    let first = scan_spec(base, img, tokens);
    if first == 0 {
        None
    } else if first_token_match(img, tokens, first - base + 1) is Some {
        None
    } else {
        Some(first)
    }
}

fn find_unique(image: &PatchImage, tokens: &[Option<u8>]) -> (r: Option<usize>)
    requires
        tokens@.len() > 0,
    ensures
        match unique_match_spec(image.base, image.bytes@, tokens@) {
            Some(a) => r == Some(a as usize),
            None => r is None,
        },
{
    let first = scan(image, tokens);
    if first == 0 {
        return None;
    }
    let _len = image.bytes.len();
    proof {
        crate::patch_engine::lemma_first_token_match_bounds(image.bytes@, tokens@, 0);
    }
    let off = first - image.base;
    let (_, rest) = image.bytes.as_slice().split_at(off + 1);
    match crate::patch_engine::find_tokens(rest, tokens) {
        Some(_) => {
            proof {
                lemma_match_shift(image.bytes@, tokens@, off + 1);
            }
            None
        },
        None => {
            proof {
                lemma_match_shift(image.bytes@, tokens@, off + 1);
            }
            Some(first)
        },
    }
}

/// Searching from `k` finds a match exactly when searching the bytes from
/// `k` on does.
proof fn lemma_match_shift(img: Seq<u8>, tokens: Seq<Option<u8>>, k: int)
    requires
        0 <= k <= img.len(),
    ensures
        (first_token_match(img, tokens, k) is Some) == (first_token_match(img.skip(k), tokens, 0) is Some),
{
    lemma_match_shift_from(img, tokens, k, 0);
}

proof fn lemma_match_shift_from(img: Seq<u8>, tokens: Seq<Option<u8>>, k: int, j: int)
    requires
        0 <= k <= img.len(),
        0 <= j,
    ensures
        (first_token_match(img, tokens, k + j) is Some) == (first_token_match(img.skip(k), tokens, j) is Some),
    decreases img.len() - k - j,
{
    if k + j + tokens.len() <= img.len() {
        let s = img.skip(k);
        assert(crate::patch_engine::tokens_match_at(img, tokens, k + j) == crate::patch_engine::tokens_match_at(s, tokens, j)) by {
            assert forall|t: int| 0 <= t < tokens.len() implies img[k + j + t] == #[trigger] s[j + t] by {}
        }
        if !crate::patch_engine::tokens_match_at(img, tokens, k + j) {
            lemma_match_shift_from(img, tokens, k, j + 1);
        }
    }
}

/// The address a relative `CALL`/`JMP` (`opcode`) at `at` goes to, when its
/// five bytes are in the image and the sum fits a machine word.
pub open spec fn relative_target_spec(base: usize, img: Seq<u8>, at: int, opcode: u8) -> Option<int> {
    match read_spec(base, img, at, 5) {
        Some(b) => if b[0] != opcode {
            None
        } else {
            let d = crate::national_match::le_i32(b, 1);
            if at + 5 > usize::MAX || at + 5 + d < 0 || at + 5 + d > usize::MAX { None } else { Some(at + 5 + d) }
        },
        None => None,
    }
}

fn resolve_relative(image: &PatchImage, at: usize, opcode: u8) -> (r: Option<usize>)
    ensures
        match relative_target_spec(image.base, image.bytes@, at as int, opcode) {
            Some(t) => r == Some(t as usize),
            None => r is None,
        },
{
    let bytes = match mem_read(image, at, 5) {
        Some(b) => b,
        None => {
            return None;
        },
    };
    if bytes[0] != opcode {
        return None;
    }
    let u: i64 = bytes[1] as i64 + 256 * bytes[2] as i64 + 65536 * bytes[3] as i64 + 16777216 * bytes[4] as i64;
    let d: i64 = if u >= 0x8000_0000 { u - 0x1_0000_0000 } else { u };
    if at > usize::MAX - 5 {
        return None;
    }
    let next = at + 5;
    if d < 0 {
        let back = (0 - d) as u64;
        if back as usize > next {
            return None;
        }
        Some(next - back as usize)
    } else {
        if d as u64 > (usize::MAX - next) as u64 {
            return None;
        }
        Some(next + d as usize)
    }
}

/// The function a `CALL` at `call` leads to, through one `JMP` thunk, when
/// every step stays in the image and the target has room for the patch.
pub open spec fn call_target_spec(base: usize, img: Seq<u8>, call: int) -> Option<int> {
    match relative_target_spec(base, img, call, 0xE8) {
        Some(t) => if !contains_range_spec(base, img.len(), t, 1) {
            None
        } else {
            let t2 = if img[t - base] == 0xE9 { relative_target_spec(base, img, t, 0xE9) } else { Some(t) };
            match t2 {
                Some(f) => if contains_range_spec(base, img.len(), f, 3) { Some(f) } else { None },
                None => None,
            }
        },
        None => None,
    }
}

fn resolve_call_target(image: &PatchImage, call: usize) -> (r: Option<usize>)
    ensures
        match call_target_spec(image.base, image.bytes@, call as int) {
            Some(t) => r == Some(t as usize),
            None => r is None,
        },
{
    let target = match resolve_relative(image, call, 0xE8) {
        Some(t) => t,
        None => {
            return None;
        },
    };
    if !image.contains_range(target, 1) {
        return None;
    }
    let target2 = if image.bytes[target - image.base] == 0xE9 {
        match resolve_relative(image, target, 0xE9) {
            Some(t) => t,
            None => {
                return None;
            },
        }
    } else {
        target
    };
    if image.contains_range(target2, 3) { Some(target2) } else { None }
}

/// What one signature of the difficulty unlock does: the patch result at its
/// target, or `None` when the signature is not unique or its call target is
/// unusable.
pub open spec fn difficulty_attempt(base: usize, img: Seq<u8>, tokens: Seq<Option<u8>>) -> Option<(Seq<u8>, PatchResult)> {
    match unique_match_spec(base, img, tokens) {
        Some(hit) => if hit + 6 > usize::MAX {
            None
        } else {
            match call_target_spec(base, img, hit + 6) {
                Some(t) => Some(patch_spec(base, img, t, seq![0x32u8, 0xC0, 0xC3], seq![0xB0u8, 0x01, 0xC3])),
                None => None,
            }
        },
        None => None,
    }
}

/// The image after the difficulty unlock: the current layout's signature
/// first, then the older one, until one patches (or finds patched) the check
/// it calls so that it always succeeds.
pub open spec fn unlock_all_difficulty_spec(base: usize, img: Seq<u8>) -> Seq<u8> {
    let first = difficulty_attempt(base, img, difficulty_main_tokens_spec());
    match first {
        Some((i, r)) if r != PatchResult::Mismatch => i,
        _ => match difficulty_attempt(base, img, difficulty_legacy_tokens_spec()) {
            Some((i, _)) => i,
            None => img,
        },
    }
}

/// Whether a difficulty signature occurs more than once in `img`.
pub open spec fn difficulty_ambiguous(base: usize, img: Seq<u8>, tokens: Seq<Option<u8>>) -> bool {
    scan_spec(base, img, tokens) != 0 && unique_match_spec(base, img, tokens) is None
}

/// Whether `e` is the warning that a difficulty signature is ambiguous.
pub open spec fn is_ambiguity_warning(e: EarlyLog) -> bool {
    e matches EarlyLog::Warn(m) && m@ == "Unlock all difficulties signature is ambiguous"@
}

/// How many ambiguity warnings the difficulty unlock logs on `img`: one for
/// the current signature when it is ambiguous, and one for the older
/// signature when it is tried and ambiguous.
pub open spec fn difficulty_ambiguities(base: usize, img: Seq<u8>) -> nat {
    let main = difficulty_attempt(base, img, difficulty_main_tokens_spec());
    let decisive = main matches Some((_, r)) && r != PatchResult::Mismatch;
    (if difficulty_ambiguous(base, img, difficulty_main_tokens_spec()) { 1nat } else { 0nat }) + (if !decisive
        && difficulty_ambiguous(base, img, difficulty_legacy_tokens_spec()) { 1nat } else { 0nat })
}

fn try_difficulty(image: &mut PatchImage, tokens: Vec<Option<u8>>) -> (r: Option<PatchResult>)
    requires
        tokens@.len() > 0,
    ensures
        final(image).base == old(image).base,
        final(image).sections@ == old(image).sections@,
        difficulty_ambiguous(old(image).base, old(image).bytes@, tokens@) ==> final(image).log@.len() == old(image).log@.len() + 1
            && final(image).log@.drop_last() == old(image).log@ && is_ambiguity_warning(final(image).log@.last()),
        !difficulty_ambiguous(old(image).base, old(image).bytes@, tokens@) ==> final(image).log@ == old(image).log@,
        match difficulty_attempt(old(image).base, old(image).bytes@, tokens@) {
            Some((i, res)) => r == Some(res) && final(image).bytes@ == i,
            None => r is None && final(image).bytes@ == old(image).bytes@,
        },
{
    let hit = match find_unique(image, tokens.as_slice()) {
        Some(h) => h,
        None => {
            if scan(image, tokens.as_slice()) != 0 {
                image.log.push(EarlyLog::Warn(String::from_str("Unlock all difficulties signature is ambiguous")));
            }
            return None;
        },
    };
    if hit > usize::MAX - 6 {
        return None;
    }
    let target = match resolve_call_target(image, hit + 6) {
        Some(t) => t,
        None => {
            return None;
        },
    };
    let expected: Vec<u8> = vec![0x32u8, 0xC0, 0xC3];
    let patch: Vec<u8> = vec![0xB0u8, 0x01, 0xC3];
    assert(expected@ =~= seq![0x32u8, 0xC0, 0xC3]);
    assert(patch@ =~= seq![0xB0u8, 0x01, 0xC3]);
    Some(patch_bytes(image, target, expected.as_slice(), patch.as_slice()))
}

/// Unlocks every difficulty when `enabled` (see `unlock_all_difficulty_spec`);
/// gives the patch result, `Mismatch` when no signature led to the check.
fn unlock_all_difficulty(image: &mut PatchImage) -> (r: PatchResult)
    ensures
        final(image).base == old(image).base,
        final(image).sections@ == old(image).sections@,
        final(image).log@.len() == old(image).log@.len() + difficulty_ambiguities(old(image).base, old(image).bytes@),
        final(image).log@.subrange(0, old(image).log@.len() as int) == old(image).log@,
        forall|k: int| old(image).log@.len() <= k < final(image).log@.len() ==> is_ambiguity_warning(#[trigger] final(image).log@[k]),
        final(image).bytes@ == unlock_all_difficulty_spec(old(image).base, old(image).bytes@),
{
    match try_difficulty(image, difficulty_main_tokens()) {
        Some(PatchResult::Applied) => {
            return PatchResult::Applied;
        },
        Some(PatchResult::AlreadyPatched) => {
            return PatchResult::AlreadyPatched;
        },
        _ => {},
    }
    match try_difficulty(image, difficulty_legacy_tokens()) {
        Some(r) => r,
        None => PatchResult::Mismatch,
    }
}

/// Unlocks every difficulty when `enabled` (see `unlock_all_difficulty_spec`)
/// and logs the result under the patch's name; gives the patch result,
/// `Mismatch` when no signature led to the check. When not `enabled`,
/// nothing changes and nothing is logged.
pub fn apply_unlock_all_difficulty(image: &mut PatchImage, enabled: bool) -> (r: PatchResult)
    ensures
        final(image).base == old(image).base,
        final(image).sections@ == old(image).sections@,
        final(image).bytes@ == (if enabled { unlock_all_difficulty_spec(old(image).base, old(image).bytes@) } else { old(image).bytes@ }),
        !enabled ==> r == PatchResult::Mismatch && final(image).log@ == old(image).log@,
        enabled ==> final(image).log@.len() == old(image).log@.len() + difficulty_ambiguities(old(image).base, old(image).bytes@) + 1,
        enabled ==> final(image).log@.subrange(0, old(image).log@.len() as int) == old(image).log@,
        enabled ==> forall|k: int|
            old(image).log@.len() <= k < final(image).log@.len() - 1 ==> is_ambiguity_warning(#[trigger] final(image).log@[k]),
        enabled ==> patch_log_spec(final(image).log@.last(), r, "unlock all difficulties"@),
{
    if !enabled {
        return PatchResult::Mismatch;
    }
    let r = unlock_all_difficulty(image);
    image.log.push(patch_log(r, "unlock all difficulties"));
    r
}

} // verus!
