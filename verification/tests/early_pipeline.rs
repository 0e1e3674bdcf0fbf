use applechu::early_patch::{apply_pre_tls_if_valid, flush_logs, EarlyLog, EarlyLogs};
use applechu::hook_table::pe_sections;
use applechu::patch_engine::PatchImage;
use applechu::patches::{apply_pre_tls, CustomTimers, PatchConfig};

const BASE: usize = 0x1000;

fn memory(image: Vec<u8>) -> PatchImage {
    let sections = pe_sections(&image);
    PatchImage { base: BASE, bytes: image, sections, log: Vec::new() }
}

fn pe_image(size: usize) -> Vec<u8> {
    let mut image = vec![0x90; size];
    image[0..2].copy_from_slice(&0x5A4D_u16.to_le_bytes());
    image[0x3C..0x40].copy_from_slice(&0x80_i32.to_le_bytes());
    image[0x80..0x84].copy_from_slice(&0x0000_4550_u32.to_le_bytes());
    image[0x86..0x88].copy_from_slice(&1_u16.to_le_bytes());
    image[0x94..0x96].copy_from_slice(&0_u16.to_le_bytes());
    image[0xA0..0xA4].copy_from_slice(&(size as u32).to_le_bytes());
    image[0xA4..0xA8].copy_from_slice(&0_u32.to_le_bytes());
    image[0xA8..0xAC].copy_from_slice(&(size as u32).to_le_bytes());
    image[0xAC..0xB0].copy_from_slice(&0_u32.to_le_bytes());
    image
}

#[test]
fn shared_audio_is_patched_by_early_pipeline() {
    let mut image = vec![0x90; 96];
    image[8..18].copy_from_slice(&[0xC7, 0x86, 0xA0, 0x00, 0x00, 0x00, 0x01, 0x00, 0x00, 0x00]);
    image[40..64].copy_from_slice(&[
        0x6A, 0x01, 0xE8, 0, 0, 0, 0, 0x8D, 0xBE, 0xD0, 0x00, 0x00, 0x00, 0x0F, 0x57, 0xC0, 0x0F,
        0x11, 0x07, 0xB8, 0xFE, 0xFF, 0x00, 0x00,
    ]);
    let mut memory = memory(image);

    apply_pre_tls(&mut memory, &PatchConfig { force_shared_audio: true, ..PatchConfig::default() });

    assert_eq!(memory.bytes[14], 0x01);
    assert_eq!(memory.bytes[41], 0x00);
}

#[test]
fn custom_timers_are_patched_by_early_pipeline() {
    let mut image = vec![0x90; 192];
    image[16..37].copy_from_slice(&[
        0x6A, 0x01, 0x8B, 0xCE, 0xE8, 0, 0, 0, 0, 0x68, 0x84, 0x03, 0, 0, 0x6A, 0x0A, 0x6A, 60,
        0x8B, 0xCE, 0xE8,
    ]);
    image[64..85].copy_from_slice(&[
        0x6A, 0x01, 0x8B, 0xCF, 0xE8, 0, 0, 0, 0, 0x68, 0x84, 0x03, 0, 0, 0x6A, 0x0A, 0x6A, 60,
        0x8B, 0xCF, 0xE8,
    ]);
    image[112..135].copy_from_slice(&[
        0xE8, 0, 0, 0, 0, 0x6A, 60, 0xE8, 0, 0, 0, 0, 0x83, 0xC4, 0x04, 0x8D, 0x4E, 0x08, 0x05,
        0x84, 0x03, 0, 0,
    ]);
    let mut memory = memory(image);

    let timers = CustomTimers { map_select: 61, ticket_select: 62, course_select: 63 };
    apply_pre_tls(&mut memory, &PatchConfig { custom_timers: Some(timers), ..PatchConfig::default() });

    assert_eq!([memory.bytes[81], memory.bytes[33], memory.bytes[118]], [61, 62, 63]);
}

#[test]
fn disable_timer_uses_unique_context_in_pre_tls_pipeline() {
    let mut image = vec![0x90; 160];
    image[8..11].copy_from_slice(&[0x32, 0xC0, 0xC3]);
    image[48..107].copy_from_slice(&[
        0x85, 0xC0, 0x74, 0x6F, 0x83, 0xF8, 0x08, 0x74, 0x6A, 0xE8, 0, 0, 0, 0, 0x3C, 0x01, 0x74,
        0x55, 0x8B, 0x0D, 0, 0, 0, 0, 0xE8, 0, 0, 0, 0, 0x8B, 0xC8, 0xE8, 0, 0, 0, 0, 0x8D, 0x48,
        0x78, 0xE8, 0, 0, 0, 0, 0x3C, 0x01, 0x74, 0x37, 0x56, 0x8D, 0x8F, 0xA8, 0, 0, 0, 0xE8, 0,
        0, 0,
    ]);
    let mut memory = memory(image);

    apply_pre_tls(&mut memory, &PatchConfig { disable_timer: true, ..PatchConfig::default() });

    assert_eq!(&memory.bytes[8..11], &[0x32, 0xC0, 0xC3]);
    assert_eq!(memory.bytes[94], 0xEB);
}

#[test]
fn max_tracks_is_patched_by_early_pipeline() {
    let mut image = vec![0x90; 96];
    image[8..14].copy_from_slice(&[0xB8, 0x03, 0, 0, 0, 0xC3]);
    image[40..72].copy_from_slice(&[
        0xB8, 0x0B, 0, 0, 0, 0xC3, 0xCC, 0xCC, 0xCC, 0xCC, 0xCC, 0xCC, 0xCC, 0xCC, 0xCC, 0xCC,
        0x8B, 0x44, 0x24, 0x04, 0x53, 0xB3, 0x14, 0x8B, 0x10, 0x85, 0xD2, 0x78, 0x1E, 0x83, 0xFA,
        0x10,
    ]);
    let mut memory = memory(image);

    apply_pre_tls(&mut memory, &PatchConfig { unlock_tracks: Some(7), ..PatchConfig::default() });

    assert_eq!(&memory.bytes[9..13], &3_i32.to_le_bytes());
    assert_eq!(&memory.bytes[41..45], &7_i32.to_le_bytes());
}

#[test]
fn unlock_track_clamp_is_patched_for_247() {
    let offset = 0x6F8F92;
    let mut image = pe_image(offset + 3);
    image[offset..offset + 3].copy_from_slice(&[0xF0, 0x8B, 0xC6]);
    let mut memory = memory(image);

    apply_pre_tls(&mut memory, &PatchConfig { unlock_tracks: Some(7), ..PatchConfig::default() });

    assert_eq!(memory.bytes[offset], 0xC0);
}

#[test]
fn unlock_track_clamp_is_patched_for_250() {
    let offset = 0x3DF06D;
    let mut image = pe_image(offset + 11);
    image[offset..offset + 11].copy_from_slice(&[0xB8, 0x07, 0, 0, 0, 0x3B, 0xC1, 0x0F, 0x47, 0xC1, 0xC3]);
    let mut memory = memory(image);

    apply_pre_tls(&mut memory, &PatchConfig { unlock_tracks: Some(7), ..PatchConfig::default() });

    assert_eq!(&memory.bytes[offset + 1..offset + 5], &99_i32.to_le_bytes());
    assert_eq!(&memory.bytes[offset + 7..offset + 10], &[0x90, 0x90, 0x90]);
}

#[test]
fn tls_and_appuser_are_patched_in_single_pre_tls_pass() {
    let mut image = vec![0x90; 64];
    image[8..14].copy_from_slice(&[0x83, 0x7C, 0x24, 0x04, 0x00, 0x75]);
    image[24..40].copy_from_slice(&[
        0x85, 0xC0, 0x75, 0x07, 0xBE, 0x00, 0x00, 0x80, 0x00, 0xEB, 0x02, 0x33, 0xF6, 0x8B, 0x5B,
        0x34,
    ]);
    let mut memory = memory(image);

    let config = PatchConfig { bypass_appuser: true, disable_tls: true, ..PatchConfig::default() };

    apply_pre_tls(&mut memory, &config);

    assert_eq!(memory.bytes[13], 0xEB);
    assert_eq!(memory.bytes[31], 0x00);
}

#[test]
fn invalid_config_skips_pre_tls_memory_changes() {
    let mut image = vec![0x90; 48];
    image[16..32].copy_from_slice(&[
        0x85, 0xC0, 0x75, 0x07, 0xBE, 0x00, 0x00, 0x80, 0x00, 0xEB, 0x02, 0x33, 0xF6, 0x8B, 0x5B,
        0x34,
    ]);
    let mut memory = memory(image);
    let config = PatchConfig { disable_tls: true, ..PatchConfig::default() };
    let mut logs = EarlyLogs::new();

    let applied = apply_pre_tls_if_valid(&mut memory, false, &config, &mut logs);

    assert!(!applied);
    assert_eq!(memory.bytes[23], 0x80);
    let flushed = flush_logs(&mut logs);
    assert_eq!(flushed.len(), 1);
    assert!(matches!(flushed[0], EarlyLog::Warn(_)));
    assert!(flush_logs(&mut logs).is_empty());

    assert!(apply_pre_tls_if_valid(&mut memory, true, &config, &mut logs));
    assert_eq!(memory.bytes[23], 0x00);
}

#[test]
fn appuser_uses_current_revision_site_in_single_pre_tls_pass() {
    let mut image = pe_image(0x8B400);
    image[0x8A0C0..0x8A0E2].copy_from_slice(&[
        0x83, 0x7C, 0x24, 0x04, 0x00, 0x75, 0x1A, 0x56, 0xE8, 0x13, 0xF4, 0xFF, 0xFF, 0x8B, 0x70,
        0x04, 0xE8, 0x9B, 0xFF, 0xFF, 0xFF, 0x56, 0x8B, 0xC8, 0xE8, 0x13, 0xFF, 0xFF, 0xFF, 0x83,
        0xC4, 0x04, 0x5E, 0xC3,
    ]);
    image[0x8B3A0..0x8B3C2].copy_from_slice(&[
        0x83, 0x7C, 0x24, 0x04, 0x00, 0x75, 0x1A, 0x56, 0xE8, 0x33, 0xE1, 0xFF, 0xFF, 0x8B, 0x70,
        0x04, 0xE8, 0x9B, 0xFF, 0xFF, 0xFF, 0x56, 0x8B, 0xC8, 0xE8, 0x13, 0xFF, 0xFF, 0xFF, 0x83,
        0xC4, 0x04, 0x5E, 0xC3,
    ]);
    let mut memory = memory(image);

    apply_pre_tls(&mut memory, &PatchConfig { bypass_appuser: true, ..PatchConfig::default() });

    assert_eq!(memory.bytes[0x8A0C5], 0x75);
    assert_eq!(memory.bytes[0x8B3A5], 0xEB);
}

#[test]
fn pe_sections_read_the_section_table() {
    let image = pe_image(0x400);
    let sections = pe_sections(&image);
    assert_eq!(sections.len(), 1);
    assert_eq!(sections[0].virtual_address, 0);
    assert_eq!(sections[0].raw_pointer, 0);
    assert_eq!(sections[0].raw_size, 0x400);
    assert!(pe_sections(&[0x90; 128]).is_empty());
}

#[test]
fn disabled_patches_leave_the_image_alone() {
    let mut image = vec![0x90; 64];
    image[8..14].copy_from_slice(&[0x83, 0x7C, 0x24, 0x04, 0x00, 0x75]);
    let before = image.clone();
    let mut memory = memory(image);
    apply_pre_tls(&mut memory, &PatchConfig::default());
    assert_eq!(memory.bytes, before);
}

use applechu::late_patches::{apply_release_tag, apply_unlock_all_difficulty};
use applechu::patch_engine::PatchResult;

#[test]
fn unlock_all_difficulty_patches_the_called_check() {
    let mut image = vec![0x90; 128];
    let sig: [u8; 39] = [
        0x38, 0x44, 0x24, 0x13, 0x74, 0x09, 0xE8, 0, 0, 0, 0, 0x3C, 0x01, 0x75, 0x1C, 0x6A, 0x01, 0x8D, 0x44, 0x24,
        0x14, 0x8B, 0xCF, 0x50, 0xE8, 0, 0, 0, 0, 0x6A, 0x01, 0x8D, 0x44, 0x24, 0x14, 0x8B, 0xCF, 0x50, 0xE8,
    ];
    image[8..47].copy_from_slice(&sig);
    // the CALL at 14 leads to 19 + 0x50 = 99
    image[15..19].copy_from_slice(&0x50_i32.to_le_bytes());
    image[99..102].copy_from_slice(&[0x32, 0xC0, 0xC3]);
    let mut memory = memory(image);
    assert_eq!(apply_unlock_all_difficulty(&mut memory, true), PatchResult::Applied);
    assert_eq!(&memory.bytes[99..102], &[0xB0, 0x01, 0xC3]);
    assert_eq!(apply_unlock_all_difficulty(&mut memory, true), PatchResult::AlreadyPatched);
    assert_eq!(apply_unlock_all_difficulty(&mut memory, false), PatchResult::Mismatch);
    assert_eq!(
        log_lines(&memory),
        vec![
            (true, "Patch applied: unlock all difficulties".to_owned()),
            (true, "Patch already applied: unlock all difficulties".to_owned()),
        ]
    );
}

fn log_lines(memory: &PatchImage) -> Vec<(bool, String)> {
    memory
        .log
        .iter()
        .map(|entry| match entry {
            EarlyLog::Info(m) => (true, m.clone()),
            EarlyLog::Warn(m) => (false, m.clone()),
        })
        .collect()
}

#[test]
fn ambiguous_difficulty_signature_is_left_alone() {
    let sig: [u8; 39] = [
        0x38, 0x44, 0x24, 0x13, 0x74, 0x09, 0xE8, 0, 0, 0, 0, 0x3C, 0x01, 0x75, 0x1C, 0x6A, 0x01, 0x8D, 0x44, 0x24,
        0x14, 0x8B, 0xCF, 0x50, 0xE8, 0, 0, 0, 0, 0x6A, 0x01, 0x8D, 0x44, 0x24, 0x14, 0x8B, 0xCF, 0x50, 0xE8,
    ];
    let mut image = vec![0x90; 160];
    image[0..39].copy_from_slice(&sig);
    image[60..99].copy_from_slice(&sig);
    let before = image.clone();
    let mut memory = memory(image);
    assert_eq!(apply_unlock_all_difficulty(&mut memory, true), PatchResult::Mismatch);
    assert_eq!(memory.bytes, before);
    assert_eq!(
        log_lines(&memory),
        vec![
            (false, "Unlock all difficulties signature is ambiguous".to_owned()),
            (false, "Patch signature mismatch: unlock all difficulties".to_owned()),
        ]
    );
}

#[test]
fn release_tag_mappers_are_bounded() {
    let mut image = vec![0x90; 160];
    let active: [u8; 32] = [
        0xE8, 1, 2, 3, 4, 0x8B, 0x00, 0x83, 0xF8, 0x15, 0x77, 0x08, 0x8B, 0x04, 0x85, 0xAA, 0xBB, 0xCC, 0xDD, 0xC3,
        0xB8, 0x17, 0, 0, 0, 0xC3, 0xCC, 0xCC, 0xCC, 0xCC, 0xCC, 0xCC,
    ];
    let bucket: [u8; 29] = [
        0x8B, 0x44, 0x24, 0x04, 0x83, 0xF8, 0x15, 0x77, 0x08, 0x8B, 0x04, 0x85, 0x11, 0x22, 0x33, 0x44, 0xC3, 0xB8,
        0x17, 0, 0, 0, 0xC3, 0xCC, 0xCC, 0xCC, 0xCC, 0xCC, 0xCC,
    ];
    image[0..32].copy_from_slice(&active);
    image[64..93].copy_from_slice(&bucket);
    let mut memory = memory(image);
    assert!(apply_release_tag(&mut memory));
    assert_eq!(&memory.bytes[0..7], &[0xE8, 1, 2, 3, 4, 0x8B, 0x00]);
    assert_eq!(&memory.bytes[7..22], &[0x85, 0xC0, 0x78, 0x10, 0x83, 0xF8, 0x16, 0x72, 0x03, 0x33, 0xC0, 0xC3, 0x8B, 0x04, 0x85]);
    assert_eq!(&memory.bytes[22..26], &[0xAA, 0xBB, 0xCC, 0xDD]);
    assert_eq!(&memory.bytes[26..31], &[0xC3, 0x6A, 0x17, 0x58, 0xC3]);
    assert_eq!(&memory.bytes[64..68], &[0x8B, 0x44, 0x24, 0x04]);
    assert_eq!(&memory.bytes[83..87], &[0x11, 0x22, 0x33, 0x44]);
    assert_eq!(log_lines(&memory), vec![(true, "Patch applied: custom release tag compatibility".to_owned())]);
    let mut missing = self::memory(vec![0x90; 64]);
    assert!(!apply_release_tag(&mut missing));
    assert_eq!(log_lines(&missing), vec![(false, "custom release tag compatibility: target code not found".to_owned())]);
}

#[test]
fn early_pipeline_logs_each_timer_and_track_count() {
    let mut image = vec![0x90; 192];
    image[64..85].copy_from_slice(&[
        0x6A, 0x01, 0x8B, 0xCF, 0xE8, 0, 0, 0, 0, 0x68, 0x84, 0x03, 0, 0, 0x6A, 0x0A, 0x6A, 60,
        0x8B, 0xCF, 0xE8,
    ]);
    let mut memory = memory(image);
    let timers = CustomTimers { map_select: -5, ticket_select: 62, course_select: 63 };
    apply_pre_tls(&mut memory, &PatchConfig { custom_timers: Some(timers), ..PatchConfig::default() });
    assert_eq!(memory.bytes[81], 0xFB);
    assert_eq!(
        log_lines(&memory),
        vec![
            (true, "patch applied: map select timer = -5".to_owned()),
            (false, "ticket select timer: not found".to_owned()),
            (false, "course select timer: not found".to_owned()),
        ]
    );

    let mut image = vec![0x90; 96];
    image[40..72].copy_from_slice(&[
        0xB8, 0x0B, 0, 0, 0, 0xC3, 0xCC, 0xCC, 0xCC, 0xCC, 0xCC, 0xCC, 0xCC, 0xCC, 0xCC, 0xCC,
        0x8B, 0x44, 0x24, 0x04, 0x53, 0xB3, 0x14, 0x8B, 0x10, 0x85, 0xD2, 0x78, 0x1E, 0x83, 0xFA,
        0x10,
    ]);
    let mut tracks = self::memory(image);
    apply_pre_tls(&mut tracks, &PatchConfig { unlock_tracks: Some(120), ..PatchConfig::default() });
    assert_eq!(
        log_lines(&tracks),
        vec![
            (false, "Patch signature mismatch: unlock track limit".to_owned()),
            (true, "patch applied: max tracks = 120".to_owned()),
        ]
    );
}
