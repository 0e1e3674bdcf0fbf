use applechu::network_patch::{
    apply_early, open_request_flags, ENCRYPTION_FIRST_F5_PATTERN, ENCRYPTION_FIRST_FA_PATTERN,
    ENCRYPTION_FIRST_PATTERN_OFFSET, ENCRYPTION_SECOND_F5_PATTERN, ENCRYPTION_SECOND_FA_PATTERN,
    ENCRYPTION_SECOND_PATTERN_OFFSET, TLS_FLAG_PATTERN, TLS_FLAG_PATTERN_OFFSET,
};
use applechu::patch_engine::{
    apply_patch, classify_known_offset_result, file_offset_to_va, find_pattern, find_tokens, parse_pattern, patch_bytes,
    patch_log, EarlyLog, PatchImage, PatchResult, PatchVariant, PeSection, VersionedPatch,
};

fn find_str(bytes: &[u8], pattern: &str) -> Option<usize> {
    let tokens = parse_pattern(pattern)?;
    find_tokens(bytes, &tokens)
}

fn encryption_fixture(value: u8) -> [u8; 36] {
    [
        value, 0x00, 0x00, 0x00, value, 0x00, 0x00, 0x00, 0xC8, 0xFD, 0x8E, 0x01, 0xC8, 0xFD, 0x8E, 0x01, 0xD8, 0xFD,
        0x8E, 0x01, 0xD8, 0xFD, 0x8E, 0x01, 0x01, 0x00, 0x00, 0x00, 0x00, 0x00, 0x00, 0x40, 0xFF, 0xFF, 0xFF, 0x3F,
    ]
}

#[test]
fn early_scanner_matches_wildcards_before_tls() {
    let image = [0x85, 0xC0, 0x75, 0x07, 0xBE, 0x00, 0x12, 0x80];
    let pattern = [0x85, 0xC0, 0x75, 0x07, 0xBE, 0x00, 0x00, 0x80];

    let found = find_pattern(&image, &pattern, "xxxxxx?x");

    assert_eq!(found, Some(0));
}

#[test]
fn find_pattern_refuses_bad_shapes() {
    assert_eq!(find_pattern(&[1, 2, 3], &[], ""), None);
    assert_eq!(find_pattern(&[1, 2, 3], &[2], "xx"), None);
    assert_eq!(find_pattern(&[1], &[1, 2], "xx"), None);
    assert_eq!(find_pattern(&[9, 1, 2, 1, 3], &[1, 3], "xx"), Some(3));
}

#[test]
fn known_offset_already_patched_is_deferred_for_later_variant() {
    let mut fallback = PatchResult::Mismatch;

    let decisive = classify_known_offset_result(PatchResult::AlreadyPatched, &mut fallback);

    assert_eq!(decisive, None);
    assert_eq!(fallback, PatchResult::AlreadyPatched);
}

#[test]
fn tls_signature_matches_working_patch_when_revision_moves() {
    let bytes = [0x85, 0xC0, 0x75, 0x07, 0xBE, 0x00, 0x00, 0x80, 0x00, 0xEB, 0x02, 0x33, 0xF6, 0x8B, 0x5B, 0x34];

    let found = find_str(&bytes, TLS_FLAG_PATTERN);

    assert_eq!(found.and_then(|offset| offset.checked_add_signed(TLS_FLAG_PATTERN_OFFSET)), Some(7));
    assert_eq!(bytes[7], 0x80);
}

#[test]
fn encryption_signatures_match_fa_revision_when_offsets_move() {
    let bytes = encryption_fixture(0xFA);

    let first = find_str(&bytes, ENCRYPTION_FIRST_FA_PATTERN);
    let second = find_str(&bytes, ENCRYPTION_SECOND_FA_PATTERN);

    assert_eq!(first.and_then(|offset| offset.checked_add_signed(ENCRYPTION_FIRST_PATTERN_OFFSET)), Some(0));
    assert_eq!(second.and_then(|offset| offset.checked_add_signed(ENCRYPTION_SECOND_PATTERN_OFFSET)), Some(4));
}

#[test]
fn encryption_signatures_keep_f5_revision_compatible() {
    let bytes = encryption_fixture(0xF5);

    let first = find_str(&bytes, ENCRYPTION_FIRST_F5_PATTERN);
    let second = find_str(&bytes, ENCRYPTION_SECOND_F5_PATTERN);

    assert_eq!(first.and_then(|offset| offset.checked_add_signed(ENCRYPTION_FIRST_PATTERN_OFFSET)), Some(0));
    assert_eq!(second.and_then(|offset| offset.checked_add_signed(ENCRYPTION_SECOND_PATTERN_OFFSET)), Some(4));
}

#[test]
fn pattern_strings_parse_to_tokens() {
    assert_eq!(parse_pattern("85 ?? ? +0F  ff"), Some(vec![Some(0x85), None, None, Some(0x0F), Some(0xFF)]));
    assert_eq!(parse_pattern("100"), None);
    assert_eq!(parse_pattern("GG"), None);
    assert_eq!(parse_pattern(""), Some(vec![]));
}

fn image(bytes: Vec<u8>) -> PatchImage {
    PatchImage {
        base: 0x1000,
        sections: vec![PeSection { virtual_address: 0, raw_pointer: 0, raw_size: bytes.len() as u32 }],
        bytes,
        log: Vec::new(),
    }
}

#[test]
fn patch_bytes_distinguishes_applied_done_and_foreign() {
    let mut img = image(vec![1, 2, 3, 4]);
    assert_eq!(patch_bytes(&mut img, 0x1001, &[2, 3], &[9, 9]), PatchResult::Applied);
    assert_eq!(img.bytes, vec![1, 9, 9, 4]);
    assert_eq!(patch_bytes(&mut img, 0x1001, &[2, 3], &[9, 9]), PatchResult::AlreadyPatched);
    assert_eq!(patch_bytes(&mut img, 0x1000, &[2, 3], &[9, 9]), PatchResult::Mismatch);
    assert_eq!(patch_bytes(&mut img, 0x1003, &[2, 3], &[9, 9]), PatchResult::Mismatch);
    assert_eq!(file_offset_to_va(&img, 2), 0x1002);
    assert_eq!(file_offset_to_va(&img, 8), 0);
}

#[test]
fn apply_patch_prefers_pattern_then_known_offsets() {
    let mut img = image(vec![0xAA, 0x80, 0xBB, 0x80, 0xCC]);
    let def = VersionedPatch {
        name: String::from("test"),
        variants: vec![PatchVariant {
            pattern: Some(vec![Some(0xBB), None]),
            pattern_offset: 1,
            known_offsets: vec![1],
            expected: vec![0x80],
            patch: vec![0x00],
        }],
    };
    assert_eq!(apply_patch(&mut img, &def), PatchResult::Applied);
    assert_eq!(img.bytes, vec![0xAA, 0x80, 0xBB, 0x00, 0xCC]);
    let def2 = VersionedPatch {
        name: String::from("offset"),
        variants: vec![PatchVariant {
            pattern: Some(vec![Some(0x77)]),
            pattern_offset: 0,
            known_offsets: vec![3, 1],
            expected: vec![0x80],
            patch: vec![0x00],
        }],
    };
    assert_eq!(apply_patch(&mut img, &def2), PatchResult::Applied);
    assert_eq!(img.bytes, vec![0xAA, 0x00, 0xBB, 0x00, 0xCC]);
    assert_eq!(apply_patch(&mut img, &def2), PatchResult::AlreadyPatched);
}

fn log_line(entry: &EarlyLog) -> (bool, &str) {
    match entry {
        EarlyLog::Info(m) => (true, m.as_str()),
        EarlyLog::Warn(m) => (false, m.as_str()),
    }
}

#[test]
fn apply_patch_logs_each_result_under_the_patch_name() {
    let mut img = image(vec![0xAA, 0x80, 0xBB]);
    let def = VersionedPatch {
        name: String::from("demo"),
        variants: vec![PatchVariant {
            pattern: None,
            pattern_offset: 0,
            known_offsets: vec![1],
            expected: vec![0x80],
            patch: vec![0x00],
        }],
    };
    let foreign = VersionedPatch {
        name: String::from("absent"),
        variants: vec![PatchVariant {
            pattern: None,
            pattern_offset: 0,
            known_offsets: vec![2],
            expected: vec![0x11],
            patch: vec![0x22],
        }],
    };
    assert_eq!(apply_patch(&mut img, &def), PatchResult::Applied);
    assert_eq!(apply_patch(&mut img, &def), PatchResult::AlreadyPatched);
    assert_eq!(apply_patch(&mut img, &foreign), PatchResult::Mismatch);
    let lines: Vec<(bool, &str)> = img.log.iter().map(log_line).collect();
    assert_eq!(
        lines,
        vec![
            (true, "Patch applied: demo"),
            (true, "Patch already applied: demo"),
            (false, "Patch signature mismatch: absent"),
        ]
    );
    assert_eq!(log_line(&patch_log(PatchResult::Mismatch, "x")), (false, "Patch signature mismatch: x"));
}

#[test]
fn early_network_patches_clear_tls_flag() {
    let mut bytes = vec![0x90; 40];
    bytes[8..24].copy_from_slice(&[0x85, 0xC0, 0x75, 0x07, 0xBE, 0x00, 0x00, 0x80, 0x00, 0xEB, 0x02, 0x33, 0xF6, 0x8B, 0x5B, 0x34]);
    let mut img = image(bytes);
    let results = apply_early(&mut img, false, true);
    assert_eq!(results, vec![PatchResult::Applied]);
    assert_eq!(img.bytes[15], 0x00);
    assert_eq!(open_request_flags(0x0080_0100), 0x100);
}
