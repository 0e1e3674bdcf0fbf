use vstd::prelude::*;
use crate::hook_table::{hook_module, module_patches, IatPatch, SymbolsView};
use crate::network_patch::{apply_early as apply_network_early, install_pre_entry_hook, network_early_spec, open_request_symbol};
use crate::proc_addr::HookSymbol;
use vstd::string::StringSliceAdditionalSpecFns;
use crate::network_patch::network_early_lines;
use crate::patch_engine::{
    apply_patch, apply_patch_spec, contains_range_spec, info, lemma_log_lines_push, log_lines, log_view, mem_write, patch_line,
    scan, scan_spec, variant_view, variant_views, warn, write_spec, EarlyLog, PatchImage, PatchResult, PatchVariant, PeSection,
    VariantView, VersionedPatch,
};
use crate::text::{signed_dec_chars, signed_decimal_string};
use vstd::seq_lib::lemma_concat_associative;

verus! {

/// Forces the shared WASAPI mode.
pub open spec fn force_shared_audio_spec() -> Seq<VariantView> {
    seq![
        VariantView {
            pattern: Some(seq![Some(0x6Au8), Some(0x01u8), Some(0xE8u8), None::<u8>, None::<u8>, None::<u8>, None::<u8>, Some(0x8Du8), Some(0xBEu8), Some(0xD0u8), Some(0x00u8), Some(0x00u8), Some(0x00u8), Some(0x0Fu8), Some(0x57u8), Some(0xC0u8), Some(0x0Fu8), Some(0x11u8), Some(0x07u8), Some(0xB8u8), Some(0xFEu8), Some(0xFFu8), Some(0x00u8), Some(0x00u8)]),
            pattern_offset: 1isize,
            known_offsets: seq![0xE29393u32, 0xE29EC3u32, 0xE5E663u32],
            expected: seq![0x01u8],
            patch: seq![0x00u8],
        },
    ]
}

/// Forces the shared WASAPI mode.
pub fn force_shared_audio() -> (p: VersionedPatch)
    ensures
        variant_views(p.variants@) == force_shared_audio_spec(),
        p.name@ == "force shared audio"@,
{
    let variants: Vec<PatchVariant> = vec![
        PatchVariant {
            pattern: Some(vec![Some(0x6Au8), Some(0x01u8), Some(0xE8u8), None::<u8>, None::<u8>, None::<u8>, None::<u8>, Some(0x8Du8), Some(0xBEu8), Some(0xD0u8), Some(0x00u8), Some(0x00u8), Some(0x00u8), Some(0x0Fu8), Some(0x57u8), Some(0xC0u8), Some(0x0Fu8), Some(0x11u8), Some(0x07u8), Some(0xB8u8), Some(0xFEu8), Some(0xFFu8), Some(0x00u8), Some(0x00u8)]),
            pattern_offset: 1isize,
            known_offsets: vec![0xE29393u32, 0xE29EC3u32, 0xE5E663u32],
            expected: vec![0x01u8],
            patch: vec![0x00u8],
        },
    ];
    assert(variants@[0].pattern.unwrap()@ =~= seq![Some(0x6Au8), Some(0x01u8), Some(0xE8u8), None::<u8>, None::<u8>, None::<u8>, None::<u8>, Some(0x8Du8), Some(0xBEu8), Some(0xD0u8), Some(0x00u8), Some(0x00u8), Some(0x00u8), Some(0x0Fu8), Some(0x57u8), Some(0xC0u8), Some(0x0Fu8), Some(0x11u8), Some(0x07u8), Some(0xB8u8), Some(0xFEu8), Some(0xFFu8), Some(0x00u8), Some(0x00u8)]);
    assert(variants@[0].known_offsets@ =~= seq![0xE29393u32, 0xE29EC3u32, 0xE5E663u32]);
    assert(variants@[0].expected@ =~= seq![0x01u8]);
    assert(variants@[0].patch@ =~= seq![0x00u8]);
    assert(variant_view(variants@[0]) == force_shared_audio_spec()[0]);
    assert(variant_views(variants@) =~= force_shared_audio_spec());
    VersionedPatch { name: String::from_str("force shared audio"), variants }
}

/// Forces two-channel audio.
pub open spec fn force_2ch_audio_spec() -> Seq<VariantView> {
    seq![
        VariantView {
            pattern: Some(seq![Some(0x83u8), Some(0xC4u8), Some(0x04u8), Some(0x85u8), Some(0xC0u8), None::<u8>, None::<u8>, Some(0x68u8), None::<u8>, None::<u8>, None::<u8>, None::<u8>, Some(0xE8u8), None::<u8>, None::<u8>, None::<u8>, None::<u8>, Some(0xB8u8), Some(0x02u8), Some(0x00u8), Some(0x00u8), Some(0x00u8)]),
            pattern_offset: 5isize,
            known_offsets: seq![0xE2944Bu32, 0xE29F7Bu32, 0xE5E71Bu32],
            expected: seq![0x75u8, 0x3Fu8],
            patch: seq![0x90u8, 0x90u8],
        },
    ]
}

/// Forces two-channel audio.
pub fn force_2ch_audio() -> (p: VersionedPatch)
    ensures
        variant_views(p.variants@) == force_2ch_audio_spec(),
        p.name@ == "force 2ch audio"@,
{
    let variants: Vec<PatchVariant> = vec![
        PatchVariant {
            pattern: Some(vec![Some(0x83u8), Some(0xC4u8), Some(0x04u8), Some(0x85u8), Some(0xC0u8), None::<u8>, None::<u8>, Some(0x68u8), None::<u8>, None::<u8>, None::<u8>, None::<u8>, Some(0xE8u8), None::<u8>, None::<u8>, None::<u8>, None::<u8>, Some(0xB8u8), Some(0x02u8), Some(0x00u8), Some(0x00u8), Some(0x00u8)]),
            pattern_offset: 5isize,
            known_offsets: vec![0xE2944Bu32, 0xE29F7Bu32, 0xE5E71Bu32],
            expected: vec![0x75u8, 0x3Fu8],
            patch: vec![0x90u8, 0x90u8],
        },
    ];
    assert(variants@[0].pattern.unwrap()@ =~= seq![Some(0x83u8), Some(0xC4u8), Some(0x04u8), Some(0x85u8), Some(0xC0u8), None::<u8>, None::<u8>, Some(0x68u8), None::<u8>, None::<u8>, None::<u8>, None::<u8>, Some(0xE8u8), None::<u8>, None::<u8>, None::<u8>, None::<u8>, Some(0xB8u8), Some(0x02u8), Some(0x00u8), Some(0x00u8), Some(0x00u8)]);
    assert(variants@[0].known_offsets@ =~= seq![0xE2944Bu32, 0xE29F7Bu32, 0xE5E71Bu32]);
    assert(variants@[0].expected@ =~= seq![0x75u8, 0x3Fu8]);
    assert(variants@[0].patch@ =~= seq![0x90u8, 0x90u8]);
    assert(variant_view(variants@[0]) == force_2ch_audio_spec()[0]);
    assert(variant_views(variants@) =~= force_2ch_audio_spec());
    VersionedPatch { name: String::from_str("force 2ch audio"), variants }
}

/// Stops the song selection timer: the branch taken when the timer runs out is made unconditional, found by its surrounding calls.
pub open spec fn disable_timer_spec() -> Seq<VariantView> {
    seq![
        VariantView {
            pattern: Some(seq![Some(0x85u8), Some(0xC0u8), Some(0x74u8), Some(0x6Fu8), Some(0x83u8), Some(0xF8u8), Some(0x08u8), Some(0x74u8), Some(0x6Au8), Some(0xE8u8), None::<u8>, None::<u8>, None::<u8>, None::<u8>, Some(0x3Cu8), Some(0x01u8), Some(0x74u8), Some(0x55u8), Some(0x8Bu8), Some(0x0Du8), None::<u8>, None::<u8>, None::<u8>, None::<u8>, Some(0xE8u8), None::<u8>, None::<u8>, None::<u8>, None::<u8>, Some(0x8Bu8), Some(0xC8u8), Some(0xE8u8), None::<u8>, None::<u8>, None::<u8>, None::<u8>, Some(0x8Du8), Some(0x48u8), Some(0x78u8), Some(0xE8u8), None::<u8>, None::<u8>, None::<u8>, None::<u8>, Some(0x3Cu8), Some(0x01u8), Some(0x74u8), Some(0x37u8), Some(0x56u8), Some(0x8Du8), Some(0x8Fu8), Some(0xA8u8), Some(0x00u8), Some(0x00u8), Some(0x00u8)]),
            pattern_offset: 46isize,
            known_offsets: Seq::<u32>::empty(),
            expected: seq![0x74u8],
            patch: seq![0xEBu8],
        },
    ]
}

/// Stops the song selection timer: the branch taken when the timer runs out is made unconditional, found by its surrounding calls.
pub fn disable_timer() -> (p: VersionedPatch)
    ensures
        variant_views(p.variants@) == disable_timer_spec(),
        p.name@ == "disable song timer"@,
{
    let variants: Vec<PatchVariant> = vec![
        PatchVariant {
            pattern: Some(vec![Some(0x85u8), Some(0xC0u8), Some(0x74u8), Some(0x6Fu8), Some(0x83u8), Some(0xF8u8), Some(0x08u8), Some(0x74u8), Some(0x6Au8), Some(0xE8u8), None::<u8>, None::<u8>, None::<u8>, None::<u8>, Some(0x3Cu8), Some(0x01u8), Some(0x74u8), Some(0x55u8), Some(0x8Bu8), Some(0x0Du8), None::<u8>, None::<u8>, None::<u8>, None::<u8>, Some(0xE8u8), None::<u8>, None::<u8>, None::<u8>, None::<u8>, Some(0x8Bu8), Some(0xC8u8), Some(0xE8u8), None::<u8>, None::<u8>, None::<u8>, None::<u8>, Some(0x8Du8), Some(0x48u8), Some(0x78u8), Some(0xE8u8), None::<u8>, None::<u8>, None::<u8>, None::<u8>, Some(0x3Cu8), Some(0x01u8), Some(0x74u8), Some(0x37u8), Some(0x56u8), Some(0x8Du8), Some(0x8Fu8), Some(0xA8u8), Some(0x00u8), Some(0x00u8), Some(0x00u8)]),
            pattern_offset: 46isize,
            known_offsets: Vec::<u32>::new(),
            expected: vec![0x74u8],
            patch: vec![0xEBu8],
        },
    ];
    assert(variants@[0].pattern.unwrap()@ =~= seq![Some(0x85u8), Some(0xC0u8), Some(0x74u8), Some(0x6Fu8), Some(0x83u8), Some(0xF8u8), Some(0x08u8), Some(0x74u8), Some(0x6Au8), Some(0xE8u8), None::<u8>, None::<u8>, None::<u8>, None::<u8>, Some(0x3Cu8), Some(0x01u8), Some(0x74u8), Some(0x55u8), Some(0x8Bu8), Some(0x0Du8), None::<u8>, None::<u8>, None::<u8>, None::<u8>, Some(0xE8u8), None::<u8>, None::<u8>, None::<u8>, None::<u8>, Some(0x8Bu8), Some(0xC8u8), Some(0xE8u8), None::<u8>, None::<u8>, None::<u8>, None::<u8>, Some(0x8Du8), Some(0x48u8), Some(0x78u8), Some(0xE8u8), None::<u8>, None::<u8>, None::<u8>, None::<u8>, Some(0x3Cu8), Some(0x01u8), Some(0x74u8), Some(0x37u8), Some(0x56u8), Some(0x8Du8), Some(0x8Fu8), Some(0xA8u8), Some(0x00u8), Some(0x00u8), Some(0x00u8)]);
    assert(variants@[0].known_offsets@ =~= Seq::<u32>::empty());
    assert(variants@[0].expected@ =~= seq![0x74u8]);
    assert(variants@[0].patch@ =~= seq![0xEBu8]);
    assert(variant_view(variants@[0]) == disable_timer_spec()[0]);
    assert(variant_views(variants@) =~= disable_timer_spec());
    VersionedPatch { name: String::from_str("disable song timer"), variants }
}

/// Sets every timer to 999 seconds.
pub open spec fn all_timers_999_spec() -> Seq<VariantView> {
    seq![
        VariantView {
            pattern: Some(seq![Some(0x69u8), Some(0x44u8), Some(0x24u8), Some(0x04u8), Some(0xE8u8), Some(0x03u8), Some(0x00u8), Some(0x00u8)]),
            pattern_offset: 0isize,
            known_offsets: Seq::<u32>::empty(),
            expected: seq![0x69u8, 0x44u8, 0x24u8, 0x04u8, 0xE8u8, 0x03u8, 0x00u8, 0x00u8],
            patch: seq![0xB8u8, 0x58u8, 0x3Eu8, 0x0Fu8, 0x00u8, 0x90u8, 0x90u8, 0x90u8],
        },
    ]
}

/// Sets every timer to 999 seconds.
pub fn all_timers_999() -> (p: VersionedPatch)
    ensures
        variant_views(p.variants@) == all_timers_999_spec(),
        p.name@ == "all timers 999"@,
{
    let variants: Vec<PatchVariant> = vec![
        PatchVariant {
            pattern: Some(vec![Some(0x69u8), Some(0x44u8), Some(0x24u8), Some(0x04u8), Some(0xE8u8), Some(0x03u8), Some(0x00u8), Some(0x00u8)]),
            pattern_offset: 0isize,
            known_offsets: Vec::<u32>::new(),
            expected: vec![0x69u8, 0x44u8, 0x24u8, 0x04u8, 0xE8u8, 0x03u8, 0x00u8, 0x00u8],
            patch: vec![0xB8u8, 0x58u8, 0x3Eu8, 0x0Fu8, 0x00u8, 0x90u8, 0x90u8, 0x90u8],
        },
    ];
    assert(variants@[0].pattern.unwrap()@ =~= seq![Some(0x69u8), Some(0x44u8), Some(0x24u8), Some(0x04u8), Some(0xE8u8), Some(0x03u8), Some(0x00u8), Some(0x00u8)]);
    assert(variants@[0].known_offsets@ =~= Seq::<u32>::empty());
    assert(variants@[0].expected@ =~= seq![0x69u8, 0x44u8, 0x24u8, 0x04u8, 0xE8u8, 0x03u8, 0x00u8, 0x00u8]);
    assert(variants@[0].patch@ =~= seq![0xB8u8, 0x58u8, 0x3Eu8, 0x0Fu8, 0x00u8, 0x90u8, 0x90u8, 0x90u8]);
    assert(variant_view(variants@[0]) == all_timers_999_spec()[0]);
    assert(variant_views(variants@) =~= all_timers_999_spec());
    VersionedPatch { name: String::from_str("all timers 999"), variants }
}

/// Skips the map animation.
pub open spec fn skip_map_animation_spec() -> Seq<VariantView> {
    seq![
        VariantView {
            pattern: None,
            pattern_offset: 0isize,
            known_offsets: seq![0x8D63DAu32],
            expected: seq![0x01u8],
            patch: seq![0x00u8],
        },
    ]
}

/// Skips the map animation.
pub fn skip_map_animation() -> (p: VersionedPatch)
    ensures
        variant_views(p.variants@) == skip_map_animation_spec(),
        p.name@ == "skip map animation"@,
{
    let variants: Vec<PatchVariant> = vec![
        PatchVariant {
            pattern: None,
            pattern_offset: 0isize,
            known_offsets: vec![0x8D63DAu32],
            expected: vec![0x01u8],
            patch: vec![0x00u8],
        },
    ];
    assert(variants@[0].known_offsets@ =~= seq![0x8D63DAu32]);
    assert(variants@[0].expected@ =~= seq![0x01u8]);
    assert(variants@[0].patch@ =~= seq![0x00u8]);
    assert(variant_view(variants@[0]) == skip_map_animation_spec()[0]);
    assert(variant_views(variants@) =~= skip_map_animation_spec());
    VersionedPatch { name: String::from_str("skip map animation"), variants }
}

/// Lifts the track count clamp: the 2.50 clamp returns 99 unconditionally, the 2.47 one moves its register onto itself.
pub open spec fn unlock_track_limit_spec() -> Seq<VariantView> {
    seq![
        VariantView {
            pattern: None,
            pattern_offset: 0isize,
            known_offsets: seq![0x3DF06Du32],
            expected: seq![0xB8u8, 0x07u8, 0x00u8, 0x00u8, 0x00u8, 0x3Bu8, 0xC1u8, 0x0Fu8, 0x47u8, 0xC1u8, 0xC3u8],
            patch: seq![0xB8u8, 0x63u8, 0x00u8, 0x00u8, 0x00u8, 0x3Bu8, 0xC1u8, 0x90u8, 0x90u8, 0x90u8, 0xC3u8],
        },
        VariantView {
            pattern: None,
            pattern_offset: 0isize,
            known_offsets: seq![0x6F8F92u32],
            expected: seq![0xF0u8],
            patch: seq![0xC0u8],
        },
    ]
}

/// Lifts the track count clamp: the 2.50 clamp returns 99 unconditionally, the 2.47 one moves its register onto itself.
pub fn unlock_track_limit() -> (p: VersionedPatch)
    ensures
        variant_views(p.variants@) == unlock_track_limit_spec(),
        p.name@ == "unlock track limit"@,
{
    let variants: Vec<PatchVariant> = vec![
        PatchVariant {
            pattern: None,
            pattern_offset: 0isize,
            known_offsets: vec![0x3DF06Du32],
            expected: vec![0xB8u8, 0x07u8, 0x00u8, 0x00u8, 0x00u8, 0x3Bu8, 0xC1u8, 0x0Fu8, 0x47u8, 0xC1u8, 0xC3u8],
            patch: vec![0xB8u8, 0x63u8, 0x00u8, 0x00u8, 0x00u8, 0x3Bu8, 0xC1u8, 0x90u8, 0x90u8, 0x90u8, 0xC3u8],
        },
        PatchVariant {
            pattern: None,
            pattern_offset: 0isize,
            known_offsets: vec![0x6F8F92u32],
            expected: vec![0xF0u8],
            patch: vec![0xC0u8],
        },
    ];
    assert(variants@[0].known_offsets@ =~= seq![0x3DF06Du32]);
    assert(variants@[0].expected@ =~= seq![0xB8u8, 0x07u8, 0x00u8, 0x00u8, 0x00u8, 0x3Bu8, 0xC1u8, 0x0Fu8, 0x47u8, 0xC1u8, 0xC3u8]);
    assert(variants@[0].patch@ =~= seq![0xB8u8, 0x63u8, 0x00u8, 0x00u8, 0x00u8, 0x3Bu8, 0xC1u8, 0x90u8, 0x90u8, 0x90u8, 0xC3u8]);
    assert(variant_view(variants@[0]) == unlock_track_limit_spec()[0]);
    assert(variants@[1].known_offsets@ =~= seq![0x6F8F92u32]);
    assert(variants@[1].expected@ =~= seq![0xF0u8]);
    assert(variants@[1].patch@ =~= seq![0xC0u8]);
    assert(variant_view(variants@[1]) == unlock_track_limit_spec()[1]);
    assert(variant_views(variants@) =~= unlock_track_limit_spec());
    VersionedPatch { name: String::from_str("unlock track limit"), variants }
}

/// Forces 120 fps: the 60 fps constant becomes 120.
pub open spec fn unlock_120fps_spec() -> Seq<VariantView> {
    seq![
        VariantView {
            pattern: Some(seq![Some(0xB9u8), Some(0x78u8), Some(0x00u8), Some(0x00u8), Some(0x00u8), Some(0xB8u8), Some(0x3Cu8), Some(0x00u8), Some(0x00u8), Some(0x00u8), Some(0x0Fu8), Some(0x45u8), Some(0xC1u8)]),
            pattern_offset: 5isize,
            known_offsets: Seq::<u32>::empty(),
            expected: seq![0xB8u8, 0x3Cu8, 0x00u8, 0x00u8, 0x00u8],
            patch: seq![0xB8u8, 0x78u8, 0x00u8, 0x00u8, 0x00u8],
        },
    ]
}

/// Forces 120 fps: the 60 fps constant becomes 120.
pub fn unlock_120fps() -> (p: VersionedPatch)
    ensures
        variant_views(p.variants@) == unlock_120fps_spec(),
        p.name@ == "unlock 120fps"@,
{
    let variants: Vec<PatchVariant> = vec![
        PatchVariant {
            pattern: Some(vec![Some(0xB9u8), Some(0x78u8), Some(0x00u8), Some(0x00u8), Some(0x00u8), Some(0xB8u8), Some(0x3Cu8), Some(0x00u8), Some(0x00u8), Some(0x00u8), Some(0x0Fu8), Some(0x45u8), Some(0xC1u8)]),
            pattern_offset: 5isize,
            known_offsets: Vec::<u32>::new(),
            expected: vec![0xB8u8, 0x3Cu8, 0x00u8, 0x00u8, 0x00u8],
            patch: vec![0xB8u8, 0x78u8, 0x00u8, 0x00u8, 0x00u8],
        },
    ];
    assert(variants@[0].pattern.unwrap()@ =~= seq![Some(0xB9u8), Some(0x78u8), Some(0x00u8), Some(0x00u8), Some(0x00u8), Some(0xB8u8), Some(0x3Cu8), Some(0x00u8), Some(0x00u8), Some(0x00u8), Some(0x0Fu8), Some(0x45u8), Some(0xC1u8)]);
    assert(variants@[0].known_offsets@ =~= Seq::<u32>::empty());
    assert(variants@[0].expected@ =~= seq![0xB8u8, 0x3Cu8, 0x00u8, 0x00u8, 0x00u8]);
    assert(variants@[0].patch@ =~= seq![0xB8u8, 0x78u8, 0x00u8, 0x00u8, 0x00u8]);
    assert(variant_view(variants@[0]) == unlock_120fps_spec()[0]);
    assert(variant_views(variants@) =~= unlock_120fps_spec());
    VersionedPatch { name: String::from_str("unlock 120fps"), variants }
}

/// Removes the 1920x1080 resolution check.
pub open spec fn bypass_1080p_spec() -> Seq<VariantView> {
    seq![
        VariantView {
            pattern: Some(seq![Some(0x81u8), Some(0xBCu8), Some(0x24u8), Some(0x34u8), Some(0x02u8), Some(0x00u8), Some(0x00u8), Some(0x80u8), Some(0x07u8), Some(0x00u8), Some(0x00u8), Some(0x75u8), Some(0x1Fu8), Some(0x81u8), Some(0xBCu8), Some(0x24u8), Some(0x38u8), Some(0x02u8), Some(0x00u8), Some(0x00u8), Some(0x38u8), Some(0x04u8), Some(0x00u8), Some(0x00u8), Some(0x75u8), Some(0x12u8)]),
            pattern_offset: 0isize,
            known_offsets: Seq::<u32>::empty(),
            expected: seq![0x81u8, 0xBCu8, 0x24u8, 0x34u8, 0x02u8, 0x00u8, 0x00u8, 0x80u8, 0x07u8, 0x00u8, 0x00u8, 0x75u8, 0x1Fu8, 0x81u8, 0xBCu8, 0x24u8, 0x38u8, 0x02u8, 0x00u8, 0x00u8, 0x38u8, 0x04u8, 0x00u8, 0x00u8, 0x75u8, 0x12u8],
            patch: seq![0x90u8, 0x90u8, 0x90u8, 0x90u8, 0x90u8, 0x90u8, 0x90u8, 0x90u8, 0x90u8, 0x90u8, 0x90u8, 0x90u8, 0x90u8, 0x90u8, 0x90u8, 0x90u8, 0x90u8, 0x90u8, 0x90u8, 0x90u8, 0x90u8, 0x90u8, 0x90u8, 0x90u8, 0x90u8, 0x90u8],
        },
    ]
}

/// Removes the 1920x1080 resolution check.
pub fn bypass_1080p() -> (p: VersionedPatch)
    ensures
        variant_views(p.variants@) == bypass_1080p_spec(),
        p.name@ == "bypass 1080p check"@,
{
    let variants: Vec<PatchVariant> = vec![
        PatchVariant {
            pattern: Some(vec![Some(0x81u8), Some(0xBCu8), Some(0x24u8), Some(0x34u8), Some(0x02u8), Some(0x00u8), Some(0x00u8), Some(0x80u8), Some(0x07u8), Some(0x00u8), Some(0x00u8), Some(0x75u8), Some(0x1Fu8), Some(0x81u8), Some(0xBCu8), Some(0x24u8), Some(0x38u8), Some(0x02u8), Some(0x00u8), Some(0x00u8), Some(0x38u8), Some(0x04u8), Some(0x00u8), Some(0x00u8), Some(0x75u8), Some(0x12u8)]),
            pattern_offset: 0isize,
            known_offsets: Vec::<u32>::new(),
            expected: vec![0x81u8, 0xBCu8, 0x24u8, 0x34u8, 0x02u8, 0x00u8, 0x00u8, 0x80u8, 0x07u8, 0x00u8, 0x00u8, 0x75u8, 0x1Fu8, 0x81u8, 0xBCu8, 0x24u8, 0x38u8, 0x02u8, 0x00u8, 0x00u8, 0x38u8, 0x04u8, 0x00u8, 0x00u8, 0x75u8, 0x12u8],
            patch: vec![0x90u8, 0x90u8, 0x90u8, 0x90u8, 0x90u8, 0x90u8, 0x90u8, 0x90u8, 0x90u8, 0x90u8, 0x90u8, 0x90u8, 0x90u8, 0x90u8, 0x90u8, 0x90u8, 0x90u8, 0x90u8, 0x90u8, 0x90u8, 0x90u8, 0x90u8, 0x90u8, 0x90u8, 0x90u8, 0x90u8],
        },
    ];
    assert(variants@[0].pattern.unwrap()@ =~= seq![Some(0x81u8), Some(0xBCu8), Some(0x24u8), Some(0x34u8), Some(0x02u8), Some(0x00u8), Some(0x00u8), Some(0x80u8), Some(0x07u8), Some(0x00u8), Some(0x00u8), Some(0x75u8), Some(0x1Fu8), Some(0x81u8), Some(0xBCu8), Some(0x24u8), Some(0x38u8), Some(0x02u8), Some(0x00u8), Some(0x00u8), Some(0x38u8), Some(0x04u8), Some(0x00u8), Some(0x00u8), Some(0x75u8), Some(0x12u8)]);
    assert(variants@[0].known_offsets@ =~= Seq::<u32>::empty());
    assert(variants@[0].expected@ =~= seq![0x81u8, 0xBCu8, 0x24u8, 0x34u8, 0x02u8, 0x00u8, 0x00u8, 0x80u8, 0x07u8, 0x00u8, 0x00u8, 0x75u8, 0x1Fu8, 0x81u8, 0xBCu8, 0x24u8, 0x38u8, 0x02u8, 0x00u8, 0x00u8, 0x38u8, 0x04u8, 0x00u8, 0x00u8, 0x75u8, 0x12u8]);
    assert(variants@[0].patch@ =~= seq![0x90u8, 0x90u8, 0x90u8, 0x90u8, 0x90u8, 0x90u8, 0x90u8, 0x90u8, 0x90u8, 0x90u8, 0x90u8, 0x90u8, 0x90u8, 0x90u8, 0x90u8, 0x90u8, 0x90u8, 0x90u8, 0x90u8, 0x90u8, 0x90u8, 0x90u8, 0x90u8, 0x90u8, 0x90u8, 0x90u8]);
    assert(variant_view(variants@[0]) == bypass_1080p_spec()[0]);
    assert(variant_views(variants@) =~= bypass_1080p_spec());
    VersionedPatch { name: String::from_str("bypass 1080p check"), variants }
}

/// Removes the 120 Hz refresh check.
pub open spec fn bypass_120hz_spec() -> Seq<VariantView> {
    seq![
        VariantView {
            pattern: Some(seq![Some(0x85u8), Some(0xC0u8), Some(0x74u8), Some(0x3Fu8), None::<u8>, None::<u8>, None::<u8>, None::<u8>, None::<u8>, None::<u8>, None::<u8>, None::<u8>, None::<u8>, None::<u8>, Some(0x81u8), Some(0xBCu8), Some(0x24u8), Some(0x34u8), Some(0x02u8), Some(0x00u8), Some(0x00u8), Some(0x80u8), Some(0x07u8), Some(0x00u8), Some(0x00u8)]),
            pattern_offset: 0isize,
            known_offsets: Seq::<u32>::empty(),
            expected: seq![0x85u8, 0xC0u8, 0x74u8, 0x3Fu8],
            patch: seq![0xEBu8, 0x30u8, 0xEBu8, 0x2Eu8],
        },
    ]
}

/// Removes the 120 Hz refresh check.
pub fn bypass_120hz() -> (p: VersionedPatch)
    ensures
        variant_views(p.variants@) == bypass_120hz_spec(),
        p.name@ == "bypass 120Hz check"@,
{
    let variants: Vec<PatchVariant> = vec![
        PatchVariant {
            pattern: Some(vec![Some(0x85u8), Some(0xC0u8), Some(0x74u8), Some(0x3Fu8), None::<u8>, None::<u8>, None::<u8>, None::<u8>, None::<u8>, None::<u8>, None::<u8>, None::<u8>, None::<u8>, None::<u8>, Some(0x81u8), Some(0xBCu8), Some(0x24u8), Some(0x34u8), Some(0x02u8), Some(0x00u8), Some(0x00u8), Some(0x80u8), Some(0x07u8), Some(0x00u8), Some(0x00u8)]),
            pattern_offset: 0isize,
            known_offsets: Vec::<u32>::new(),
            expected: vec![0x85u8, 0xC0u8, 0x74u8, 0x3Fu8],
            patch: vec![0xEBu8, 0x30u8, 0xEBu8, 0x2Eu8],
        },
    ];
    assert(variants@[0].pattern.unwrap()@ =~= seq![Some(0x85u8), Some(0xC0u8), Some(0x74u8), Some(0x3Fu8), None::<u8>, None::<u8>, None::<u8>, None::<u8>, None::<u8>, None::<u8>, None::<u8>, None::<u8>, None::<u8>, None::<u8>, Some(0x81u8), Some(0xBCu8), Some(0x24u8), Some(0x34u8), Some(0x02u8), Some(0x00u8), Some(0x00u8), Some(0x80u8), Some(0x07u8), Some(0x00u8), Some(0x00u8)]);
    assert(variants@[0].known_offsets@ =~= Seq::<u32>::empty());
    assert(variants@[0].expected@ =~= seq![0x85u8, 0xC0u8, 0x74u8, 0x3Fu8]);
    assert(variants@[0].patch@ =~= seq![0xEBu8, 0x30u8, 0xEBu8, 0x2Eu8]);
    assert(variant_view(variants@[0]) == bypass_120hz_spec()[0]);
    assert(variant_views(variants@) =~= bypass_120hz_spec());
    VersionedPatch { name: String::from_str("bypass 120Hz check"), variants }
}

/// Skips the AppUser check: the 2.50 site, the 2.47 site, an older known branch, then any site found by the check's prologue.
pub open spec fn bypass_appuser_spec() -> Seq<VariantView> {
    seq![
        VariantView {
            pattern: None,
            pattern_offset: 0isize,
            known_offsets: seq![0x8B3A0u32],
            expected: seq![0x83u8, 0x7Cu8, 0x24u8, 0x04u8, 0x00u8, 0x75u8, 0x1Au8, 0x56u8, 0xE8u8, 0x33u8, 0xE1u8, 0xFFu8, 0xFFu8, 0x8Bu8, 0x70u8, 0x04u8, 0xE8u8, 0x9Bu8, 0xFFu8, 0xFFu8, 0xFFu8, 0x56u8, 0x8Bu8, 0xC8u8, 0xE8u8, 0x13u8, 0xFFu8, 0xFFu8, 0xFFu8, 0x83u8, 0xC4u8, 0x04u8, 0x5Eu8, 0xC3u8],
            patch: seq![0x83u8, 0x7Cu8, 0x24u8, 0x04u8, 0x00u8, 0xEBu8, 0x1Au8, 0x56u8, 0xE8u8, 0x33u8, 0xE1u8, 0xFFu8, 0xFFu8, 0x8Bu8, 0x70u8, 0x04u8, 0xE8u8, 0x9Bu8, 0xFFu8, 0xFFu8, 0xFFu8, 0x56u8, 0x8Bu8, 0xC8u8, 0xE8u8, 0x13u8, 0xFFu8, 0xFFu8, 0xFFu8, 0x83u8, 0xC4u8, 0x04u8, 0x5Eu8, 0xC3u8],
        },
        VariantView {
            pattern: None,
            pattern_offset: 0isize,
            known_offsets: seq![0x890C0u32],
            expected: seq![0x83u8, 0x7Cu8, 0x24u8, 0x04u8, 0x00u8, 0x75u8, 0x1Au8, 0x56u8, 0xE8u8, 0x13u8, 0xF4u8, 0xFFu8, 0xFFu8, 0x8Bu8, 0x70u8, 0x04u8, 0xE8u8, 0x9Bu8, 0xFFu8, 0xFFu8, 0xFFu8, 0x56u8, 0x8Bu8, 0xC8u8, 0xE8u8, 0x13u8, 0xFFu8, 0xFFu8, 0xFFu8, 0x83u8, 0xC4u8, 0x04u8, 0x5Eu8, 0xC3u8],
            patch: seq![0x83u8, 0x7Cu8, 0x24u8, 0x04u8, 0x00u8, 0xEBu8, 0x1Au8, 0x56u8, 0xE8u8, 0x13u8, 0xF4u8, 0xFFu8, 0xFFu8, 0x8Bu8, 0x70u8, 0x04u8, 0xE8u8, 0x9Bu8, 0xFFu8, 0xFFu8, 0xFFu8, 0x56u8, 0x8Bu8, 0xC8u8, 0xE8u8, 0x13u8, 0xFFu8, 0xFFu8, 0xFFu8, 0x83u8, 0xC4u8, 0x04u8, 0x5Eu8, 0xC3u8],
        },
        VariantView {
            pattern: None,
            pattern_offset: 0isize,
            known_offsets: seq![0x89075u32],
            expected: seq![0x75u8],
            patch: seq![0xEBu8],
        },
        VariantView {
            pattern: Some(seq![Some(0x83u8), Some(0x7Cu8), Some(0x24u8), Some(0x04u8), Some(0x00u8), Some(0x75u8)]),
            pattern_offset: 5isize,
            known_offsets: Seq::<u32>::empty(),
            expected: seq![0x75u8],
            patch: seq![0xEBu8],
        },
    ]
}

/// Skips the AppUser check: the 2.50 site, the 2.47 site, an older known branch, then any site found by the check's prologue.
pub fn bypass_appuser() -> (p: VersionedPatch)
    ensures
        variant_views(p.variants@) == bypass_appuser_spec(),
        p.name@ == "bypass AppUser check"@,
{
    let variants: Vec<PatchVariant> = vec![
        PatchVariant {
            pattern: None,
            pattern_offset: 0isize,
            known_offsets: vec![0x8B3A0u32],
            expected: vec![0x83u8, 0x7Cu8, 0x24u8, 0x04u8, 0x00u8, 0x75u8, 0x1Au8, 0x56u8, 0xE8u8, 0x33u8, 0xE1u8, 0xFFu8, 0xFFu8, 0x8Bu8, 0x70u8, 0x04u8, 0xE8u8, 0x9Bu8, 0xFFu8, 0xFFu8, 0xFFu8, 0x56u8, 0x8Bu8, 0xC8u8, 0xE8u8, 0x13u8, 0xFFu8, 0xFFu8, 0xFFu8, 0x83u8, 0xC4u8, 0x04u8, 0x5Eu8, 0xC3u8],
            patch: vec![0x83u8, 0x7Cu8, 0x24u8, 0x04u8, 0x00u8, 0xEBu8, 0x1Au8, 0x56u8, 0xE8u8, 0x33u8, 0xE1u8, 0xFFu8, 0xFFu8, 0x8Bu8, 0x70u8, 0x04u8, 0xE8u8, 0x9Bu8, 0xFFu8, 0xFFu8, 0xFFu8, 0x56u8, 0x8Bu8, 0xC8u8, 0xE8u8, 0x13u8, 0xFFu8, 0xFFu8, 0xFFu8, 0x83u8, 0xC4u8, 0x04u8, 0x5Eu8, 0xC3u8],
        },
        PatchVariant {
            pattern: None,
            pattern_offset: 0isize,
            known_offsets: vec![0x890C0u32],
            expected: vec![0x83u8, 0x7Cu8, 0x24u8, 0x04u8, 0x00u8, 0x75u8, 0x1Au8, 0x56u8, 0xE8u8, 0x13u8, 0xF4u8, 0xFFu8, 0xFFu8, 0x8Bu8, 0x70u8, 0x04u8, 0xE8u8, 0x9Bu8, 0xFFu8, 0xFFu8, 0xFFu8, 0x56u8, 0x8Bu8, 0xC8u8, 0xE8u8, 0x13u8, 0xFFu8, 0xFFu8, 0xFFu8, 0x83u8, 0xC4u8, 0x04u8, 0x5Eu8, 0xC3u8],
            patch: vec![0x83u8, 0x7Cu8, 0x24u8, 0x04u8, 0x00u8, 0xEBu8, 0x1Au8, 0x56u8, 0xE8u8, 0x13u8, 0xF4u8, 0xFFu8, 0xFFu8, 0x8Bu8, 0x70u8, 0x04u8, 0xE8u8, 0x9Bu8, 0xFFu8, 0xFFu8, 0xFFu8, 0x56u8, 0x8Bu8, 0xC8u8, 0xE8u8, 0x13u8, 0xFFu8, 0xFFu8, 0xFFu8, 0x83u8, 0xC4u8, 0x04u8, 0x5Eu8, 0xC3u8],
        },
        PatchVariant {
            pattern: None,
            pattern_offset: 0isize,
            known_offsets: vec![0x89075u32],
            expected: vec![0x75u8],
            patch: vec![0xEBu8],
        },
        PatchVariant {
            pattern: Some(vec![Some(0x83u8), Some(0x7Cu8), Some(0x24u8), Some(0x04u8), Some(0x00u8), Some(0x75u8)]),
            pattern_offset: 5isize,
            known_offsets: Vec::<u32>::new(),
            expected: vec![0x75u8],
            patch: vec![0xEBu8],
        },
    ];
    assert(variants@[0].known_offsets@ =~= seq![0x8B3A0u32]);
    assert(variants@[0].expected@ =~= seq![0x83u8, 0x7Cu8, 0x24u8, 0x04u8, 0x00u8, 0x75u8, 0x1Au8, 0x56u8, 0xE8u8, 0x33u8, 0xE1u8, 0xFFu8, 0xFFu8, 0x8Bu8, 0x70u8, 0x04u8, 0xE8u8, 0x9Bu8, 0xFFu8, 0xFFu8, 0xFFu8, 0x56u8, 0x8Bu8, 0xC8u8, 0xE8u8, 0x13u8, 0xFFu8, 0xFFu8, 0xFFu8, 0x83u8, 0xC4u8, 0x04u8, 0x5Eu8, 0xC3u8]);
    assert(variants@[0].patch@ =~= seq![0x83u8, 0x7Cu8, 0x24u8, 0x04u8, 0x00u8, 0xEBu8, 0x1Au8, 0x56u8, 0xE8u8, 0x33u8, 0xE1u8, 0xFFu8, 0xFFu8, 0x8Bu8, 0x70u8, 0x04u8, 0xE8u8, 0x9Bu8, 0xFFu8, 0xFFu8, 0xFFu8, 0x56u8, 0x8Bu8, 0xC8u8, 0xE8u8, 0x13u8, 0xFFu8, 0xFFu8, 0xFFu8, 0x83u8, 0xC4u8, 0x04u8, 0x5Eu8, 0xC3u8]);
    assert(variant_view(variants@[0]) == bypass_appuser_spec()[0]);
    assert(variants@[1].known_offsets@ =~= seq![0x890C0u32]);
    assert(variants@[1].expected@ =~= seq![0x83u8, 0x7Cu8, 0x24u8, 0x04u8, 0x00u8, 0x75u8, 0x1Au8, 0x56u8, 0xE8u8, 0x13u8, 0xF4u8, 0xFFu8, 0xFFu8, 0x8Bu8, 0x70u8, 0x04u8, 0xE8u8, 0x9Bu8, 0xFFu8, 0xFFu8, 0xFFu8, 0x56u8, 0x8Bu8, 0xC8u8, 0xE8u8, 0x13u8, 0xFFu8, 0xFFu8, 0xFFu8, 0x83u8, 0xC4u8, 0x04u8, 0x5Eu8, 0xC3u8]);
    assert(variants@[1].patch@ =~= seq![0x83u8, 0x7Cu8, 0x24u8, 0x04u8, 0x00u8, 0xEBu8, 0x1Au8, 0x56u8, 0xE8u8, 0x13u8, 0xF4u8, 0xFFu8, 0xFFu8, 0x8Bu8, 0x70u8, 0x04u8, 0xE8u8, 0x9Bu8, 0xFFu8, 0xFFu8, 0xFFu8, 0x56u8, 0x8Bu8, 0xC8u8, 0xE8u8, 0x13u8, 0xFFu8, 0xFFu8, 0xFFu8, 0x83u8, 0xC4u8, 0x04u8, 0x5Eu8, 0xC3u8]);
    assert(variant_view(variants@[1]) == bypass_appuser_spec()[1]);
    assert(variants@[2].known_offsets@ =~= seq![0x89075u32]);
    assert(variants@[2].expected@ =~= seq![0x75u8]);
    assert(variants@[2].patch@ =~= seq![0xEBu8]);
    assert(variant_view(variants@[2]) == bypass_appuser_spec()[2]);
    assert(variants@[3].pattern.unwrap()@ =~= seq![Some(0x83u8), Some(0x7Cu8), Some(0x24u8), Some(0x04u8), Some(0x00u8), Some(0x75u8)]);
    assert(variants@[3].known_offsets@ =~= Seq::<u32>::empty());
    assert(variants@[3].expected@ =~= seq![0x75u8]);
    assert(variants@[3].patch@ =~= seq![0xEBu8]);
    assert(variant_view(variants@[3]) == bypass_appuser_spec()[3]);
    assert(variant_views(variants@) =~= bypass_appuser_spec());
    VersionedPatch { name: String::from_str("bypass AppUser check"), variants }
}

/// The function returning the maximum track count, found with the function after it.
pub open spec fn max_tracks_tokens_spec() -> Seq<Option<u8>> {
    seq![Some(0xB8u8), None::<u8>, None::<u8>, None::<u8>, None::<u8>, Some(0xC3u8), Some(0xCCu8), Some(0xCCu8), Some(0xCCu8), Some(0xCCu8), Some(0xCCu8), Some(0xCCu8), Some(0xCCu8), Some(0xCCu8), Some(0xCCu8), Some(0xCCu8), Some(0x8Bu8), Some(0x44u8), Some(0x24u8), Some(0x04u8), Some(0x53u8), Some(0xB3u8), Some(0x14u8), Some(0x8Bu8), Some(0x10u8), Some(0x85u8), Some(0xD2u8), Some(0x78u8), Some(0x1Eu8), Some(0x83u8), Some(0xFAu8), Some(0x10u8)]
}

/// The function returning the maximum track count, found with the function after it.
pub fn max_tracks_tokens() -> (t: Vec<Option<u8>>)
    ensures
        t@ == max_tracks_tokens_spec(),
{
    let t: Vec<Option<u8>> = vec![Some(0xB8u8), None::<u8>, None::<u8>, None::<u8>, None::<u8>, Some(0xC3u8), Some(0xCCu8), Some(0xCCu8), Some(0xCCu8), Some(0xCCu8), Some(0xCCu8), Some(0xCCu8), Some(0xCCu8), Some(0xCCu8), Some(0xCCu8), Some(0xCCu8), Some(0x8Bu8), Some(0x44u8), Some(0x24u8), Some(0x04u8), Some(0x53u8), Some(0xB3u8), Some(0x14u8), Some(0x8Bu8), Some(0x10u8), Some(0x85u8), Some(0xD2u8), Some(0x78u8), Some(0x1Eu8), Some(0x83u8), Some(0xFAu8), Some(0x10u8)];
    assert(t@ =~= max_tracks_tokens_spec());
    t
}

/// The map selection timer's push of its seconds.
pub open spec fn map_timer_tokens_spec() -> Seq<Option<u8>> {
    seq![Some(0x6Au8), Some(0x01u8), Some(0x8Bu8), Some(0xCFu8), Some(0xE8u8), None::<u8>, None::<u8>, None::<u8>, None::<u8>, Some(0x68u8), Some(0x84u8), Some(0x03u8), Some(0x00u8), Some(0x00u8), Some(0x6Au8), Some(0x0Au8), Some(0x6Au8), None::<u8>, Some(0x8Bu8), Some(0xCFu8), Some(0xE8u8)]
}

/// The map selection timer's push of its seconds.
pub fn map_timer_tokens() -> (t: Vec<Option<u8>>)
    ensures
        t@ == map_timer_tokens_spec(),
{
    let t: Vec<Option<u8>> = vec![Some(0x6Au8), Some(0x01u8), Some(0x8Bu8), Some(0xCFu8), Some(0xE8u8), None::<u8>, None::<u8>, None::<u8>, None::<u8>, Some(0x68u8), Some(0x84u8), Some(0x03u8), Some(0x00u8), Some(0x00u8), Some(0x6Au8), Some(0x0Au8), Some(0x6Au8), None::<u8>, Some(0x8Bu8), Some(0xCFu8), Some(0xE8u8)];
    assert(t@ =~= map_timer_tokens_spec());
    t
}

/// The ticket selection timer's push of its seconds.
pub open spec fn ticket_timer_tokens_spec() -> Seq<Option<u8>> {
    seq![Some(0x6Au8), Some(0x01u8), Some(0x8Bu8), Some(0xCEu8), Some(0xE8u8), None::<u8>, None::<u8>, None::<u8>, None::<u8>, Some(0x68u8), Some(0x84u8), Some(0x03u8), Some(0x00u8), Some(0x00u8), Some(0x6Au8), Some(0x0Au8), Some(0x6Au8), None::<u8>, Some(0x8Bu8), Some(0xCEu8), Some(0xE8u8)]
}

/// The ticket selection timer's push of its seconds.
pub fn ticket_timer_tokens() -> (t: Vec<Option<u8>>)
    ensures
        t@ == ticket_timer_tokens_spec(),
{
    let t: Vec<Option<u8>> = vec![Some(0x6Au8), Some(0x01u8), Some(0x8Bu8), Some(0xCEu8), Some(0xE8u8), None::<u8>, None::<u8>, None::<u8>, None::<u8>, Some(0x68u8), Some(0x84u8), Some(0x03u8), Some(0x00u8), Some(0x00u8), Some(0x6Au8), Some(0x0Au8), Some(0x6Au8), None::<u8>, Some(0x8Bu8), Some(0xCEu8), Some(0xE8u8)];
    assert(t@ =~= ticket_timer_tokens_spec());
    t
}

/// The course selection timer's push of its seconds.
pub open spec fn course_timer_tokens_spec() -> Seq<Option<u8>> {
    seq![Some(0xE8u8), None::<u8>, None::<u8>, None::<u8>, None::<u8>, Some(0x6Au8), None::<u8>, Some(0xE8u8), None::<u8>, None::<u8>, None::<u8>, None::<u8>, Some(0x83u8), Some(0xC4u8), Some(0x04u8), Some(0x8Du8), Some(0x4Eu8), Some(0x08u8), Some(0x05u8), Some(0x84u8), Some(0x03u8), Some(0x00u8), Some(0x00u8)]
}

/// The course selection timer's push of its seconds.
pub fn course_timer_tokens() -> (t: Vec<Option<u8>>)
    ensures
        t@ == course_timer_tokens_spec(),
{
    let t: Vec<Option<u8>> = vec![Some(0xE8u8), None::<u8>, None::<u8>, None::<u8>, None::<u8>, Some(0x6Au8), None::<u8>, Some(0xE8u8), None::<u8>, None::<u8>, None::<u8>, None::<u8>, Some(0x83u8), Some(0xC4u8), Some(0x04u8), Some(0x8Du8), Some(0x4Eu8), Some(0x08u8), Some(0x05u8), Some(0x84u8), Some(0x03u8), Some(0x00u8), Some(0x00u8)];
    assert(t@ =~= course_timer_tokens_spec());
    t
}

/// The three configurable selection timers, in seconds.
#[derive(Clone, Copy)]
pub struct CustomTimers {
    pub map_select: i8,
    pub ticket_select: i8,
    pub course_select: i8,
}

/// Which patches are switched on before the game starts, with their values.
#[derive(Clone, Copy)]
pub struct PatchConfig {
    pub disable_encryption: bool,
    pub disable_tls: bool,
    pub disable_timer: bool,
    pub custom_timers: Option<CustomTimers>,
    pub all_timers_999: bool,
    pub skip_map_animation: bool,
    /// The maximum track count, when the track limit is lifted.
    pub unlock_tracks: Option<i32>,
    pub unlock_120fps: bool,
    pub bypass_1080p: bool,
    pub bypass_120hz: bool,
    pub bypass_appuser: bool,
    pub force_shared_audio: bool,
    pub force_2ch_audio: bool,
}

impl Default for PatchConfig {
    fn default() -> (c: Self)
        ensures
            !c.disable_encryption && !c.disable_tls && !c.disable_timer && c.custom_timers is None && !c.all_timers_999,
            !c.skip_map_animation && c.unlock_tracks is None && !c.unlock_120fps,
            !c.bypass_1080p && !c.bypass_120hz && !c.bypass_appuser && !c.force_shared_audio && !c.force_2ch_audio,
    {
        PatchConfig {
            disable_encryption: false,
            disable_tls: false,
            disable_timer: false,
            custom_timers: None,
            all_timers_999: false,
            skip_map_animation: false,
            unlock_tracks: None,
            unlock_120fps: false,
            bypass_1080p: false,
            bypass_120hz: false,
            bypass_appuser: false,
            force_shared_audio: false,
            force_2ch_audio: false,
        }
    }
}

/// The image after patch `def`, when `on`.
pub open spec fn patched_if(on: bool, base: usize, secs: Seq<PeSection>, img: Seq<u8>, def: Seq<VariantView>) -> Seq<u8> {
    if on { apply_patch_spec(base, secs, img, def, 0, PatchResult::Mismatch).0 } else { img }
}

/// The line patch `def`, named `name`, logs when `on`.
pub open spec fn patched_if_lines(
    on: bool,
    base: usize,
    secs: Seq<PeSection>,
    img: Seq<u8>,
    def: Seq<VariantView>,
    name: Seq<char>,
) -> Seq<(bool, Seq<char>)> {
    if on {
        seq![patch_line(apply_patch_spec(base, secs, img, def, 0, PatchResult::Mismatch).1, name)]
    } else {
        Seq::empty()
    }
}

fn apply_if(on: bool, image: &mut PatchImage, def: VersionedPatch)
    ensures
        final(image).bytes@ == patched_if(on, old(image).base, old(image).sections@, old(image).bytes@, variant_views(def.variants@)),
        final(image).base == old(image).base,
        final(image).sections@ == old(image).sections@,
        log_lines(final(image).log@) == log_lines(old(image).log@) + patched_if_lines(
            on,
            old(image).base,
            old(image).sections@,
            old(image).bytes@,
            variant_views(def.variants@),
            def.name@,
        ),
{
    if on {
        let _ = apply_patch(image, &def);
    } else {
        assert(log_lines(image.log@) =~= log_lines(image.log@) + Seq::<(bool, Seq<char>)>::empty());
    }
}

/// The image after writing the byte `value` at `offset` from the first match
/// of a timer's `tokens`; unchanged when the timer is not found or the
/// address leaves the image.
pub open spec fn timer_spec(base: usize, img: Seq<u8>, tokens: Seq<Option<u8>>, offset: int, value: i8) -> Seq<u8> {
    let found = scan_spec(base, img, tokens);
    if found == 0 || found + offset > usize::MAX {
        img
    } else {
        write_spec(base, img, found + offset, seq![value as u8])
    }
}

/// The line a timer named `name` logs: a warning when it is not found, an
/// information with the value written, or a warning when the write fails.
pub open spec fn timer_line(base: usize, img: Seq<u8>, tokens: Seq<Option<u8>>, offset: int, value: i8, name: Seq<char>) -> (
    bool,
    Seq<char>,
) {
    let found = scan_spec(base, img, tokens);
    if found == 0 || found + offset > usize::MAX {
        warn(name + ": not found"@)
    } else if contains_range_spec(base, img.len(), found + offset, 1) {
        info("patch applied: "@ + name + " = "@ + signed_dec_chars(value as int))
    } else {
        warn("patch write failed: "@ + name)
    }
}

/// Appends `e` to the image's log.
fn log_push(image: &mut PatchImage, e: EarlyLog)
    ensures
        final(image).bytes@ == old(image).bytes@,
        final(image).base == old(image).base,
        final(image).sections@ == old(image).sections@,
        log_lines(final(image).log@) == log_lines(old(image).log@).push(log_view(e)),
{
    proof {
        lemma_log_lines_push(image.log@, e);
    }
    image.log.push(e);
}

fn apply_timer(image: &mut PatchImage, name: &str, tokens: Vec<Option<u8>>, offset: usize, value: i8)
    requires
        tokens@.len() > 0,
    ensures
        final(image).bytes@ == timer_spec(old(image).base, old(image).bytes@, tokens@, offset as int, value),
        final(image).base == old(image).base,
        final(image).sections@ == old(image).sections@,
        log_lines(final(image).log@) == log_lines(old(image).log@).push(
            timer_line(old(image).base, old(image).bytes@, tokens@, offset as int, value, name@),
        ),
{
    let found = scan(image, tokens.as_slice());
    if found == 0 || found > usize::MAX - offset {
        log_push(image, EarlyLog::Warn(String::from_str(name).concat(": not found")));
        return;
    }
    let data: Vec<u8> = vec![value as u8];
    assert(data@ =~= seq![value as u8]);
    if mem_write(image, found + offset, data.as_slice()) {
        let text = String::from_str("patch applied: ").concat(name).concat(" = ");
        let number = signed_decimal_string(value as i32);
        log_push(image, EarlyLog::Info(text.concat(number.as_str())));
    } else {
        log_push(image, EarlyLog::Warn(String::from_str("patch write failed: ").concat(name)));
    }
}

/// `v` as four little-endian bytes.
pub open spec fn i32_le(v: i32) -> Seq<u8> {
    let u = v as u32;
    seq![(u % 256) as u8, ((u / 256) % 256) as u8, ((u / 65536) % 256) as u8, (u / 16777216) as u8]
}

/// The image after the track limit is lifted and the maximum track count set
/// to `max`: the clamp patch, then the count written into the `MOV EAX`
/// immediate of the count function, when it is found.
pub open spec fn unlock_tracks_spec(base: usize, secs: Seq<PeSection>, img: Seq<u8>, max: i32) -> Seq<u8> {
    let i1 = apply_patch_spec(base, secs, img, unlock_track_limit_spec(), 0, PatchResult::Mismatch).0;
    let found = scan_spec(base, i1, max_tracks_tokens_spec());
    if found == 0 || found + 1 > usize::MAX { i1 } else { write_spec(base, i1, found + 1, i32_le(max)) }
}

/// The line writing the maximum track count logs: a warning when the count
/// function is not found, an information with the count written, or a
/// warning when the write fails.
pub open spec fn max_tracks_line(base: usize, img: Seq<u8>, max: i32) -> (bool, Seq<char>) {
    let found = scan_spec(base, img, max_tracks_tokens_spec());
    if found == 0 {
        warn("max tracks: target function not found"@)
    } else if found + 1 <= usize::MAX && contains_range_spec(base, img.len(), found + 1, 4) {
        info("patch applied: max tracks = "@ + signed_dec_chars(max as int))
    } else {
        warn("patch write failed: max tracks"@)
    }
}

/// The lines lifting the track limit logs: the clamp patch's, then the count
/// write's.
pub open spec fn unlock_tracks_lines(base: usize, secs: Seq<PeSection>, img: Seq<u8>, max: i32) -> Seq<(bool, Seq<char>)> {
    let r1 = apply_patch_spec(base, secs, img, unlock_track_limit_spec(), 0, PatchResult::Mismatch);
    seq![patch_line(r1.1, "unlock track limit"@), max_tracks_line(base, r1.0, max)]
}

fn apply_unlock_tracks(image: &mut PatchImage, max: i32)
    ensures
        final(image).bytes@ == unlock_tracks_spec(old(image).base, old(image).sections@, old(image).bytes@, max),
        final(image).base == old(image).base,
        final(image).sections@ == old(image).sections@,
        log_lines(final(image).log@) == log_lines(old(image).log@) + unlock_tracks_lines(
            old(image).base,
            old(image).sections@,
            old(image).bytes@,
            max,
        ),
{
    let ghost lines0 = log_lines(image.log@);
    let limit = unlock_track_limit();
    let _ = apply_patch(image, &limit);
    let tokens = max_tracks_tokens();
    let found = scan(image, tokens.as_slice());
    if found == 0 {
        log_push(image, EarlyLog::Warn(String::from_str("max tracks: target function not found")));
        assert(log_lines(image.log@) =~= lines0 + unlock_tracks_lines(
            old(image).base,
            old(image).sections@,
            old(image).bytes@,
            max,
        ));
        return;
    }
    let u: u32 = #[verifier::truncate] (max as u32);
    let data: Vec<u8> = vec![(u % 256) as u8, ((u / 256) % 256) as u8, ((u / 65536) % 256) as u8, (u / 16777216) as u8];
    assert(data@ =~= i32_le(max));
    if found == usize::MAX {
        log_push(image, EarlyLog::Warn(String::from_str("patch write failed: max tracks")));
        assert(log_lines(image.log@) =~= lines0 + unlock_tracks_lines(
            old(image).base,
            old(image).sections@,
            old(image).bytes@,
            max,
        ));
        return;
    }
    if mem_write(image, found + 1, data.as_slice()) {
        let number = signed_decimal_string(max);
        log_push(image, EarlyLog::Info(String::from_str("patch applied: max tracks = ").concat(number.as_str())));
    } else {
        log_push(image, EarlyLog::Warn(String::from_str("patch write failed: max tracks")));
    }
    assert(log_lines(image.log@) =~= lines0 + unlock_tracks_lines(old(image).base, old(image).sections@, old(image).bytes@, max));
}

/// The image after the timer patches: the song timer switched off, the three
/// selection timers set, and every timer at 999 seconds, each when enabled.
pub open spec fn timers_spec(base: usize, secs: Seq<PeSection>, img: Seq<u8>, c: PatchConfig) -> Seq<u8> {
    let i1 = patched_if(c.disable_timer, base, secs, img, disable_timer_spec());
    let i2 = match c.custom_timers {
        Some(t) => {
            let a = timer_spec(base, i1, map_timer_tokens_spec(), 17, t.map_select);
            let b = timer_spec(base, a, ticket_timer_tokens_spec(), 17, t.ticket_select);
            timer_spec(base, b, course_timer_tokens_spec(), 6, t.course_select)
        },
        None => i1,
    };
    patched_if(c.all_timers_999, base, secs, i2, all_timers_999_spec())
}

/// The lines the timer patches log, in their order.
pub open spec fn timers_lines(base: usize, secs: Seq<PeSection>, img: Seq<u8>, c: PatchConfig) -> Seq<(bool, Seq<char>)> {
    let l1 = patched_if_lines(c.disable_timer, base, secs, img, disable_timer_spec(), "disable song timer"@);
    let i1 = patched_if(c.disable_timer, base, secs, img, disable_timer_spec());
    let (l2, i2) = match c.custom_timers {
        Some(t) => {
            let a = timer_spec(base, i1, map_timer_tokens_spec(), 17, t.map_select);
            let b = timer_spec(base, a, ticket_timer_tokens_spec(), 17, t.ticket_select);
            (
                seq![
                    timer_line(base, i1, map_timer_tokens_spec(), 17, t.map_select, "map select timer"@),
                    timer_line(base, a, ticket_timer_tokens_spec(), 17, t.ticket_select, "ticket select timer"@),
                    timer_line(base, b, course_timer_tokens_spec(), 6, t.course_select, "course select timer"@),
                ],
                timer_spec(base, b, course_timer_tokens_spec(), 6, t.course_select),
            )
        },
        None => (Seq::empty(), i1),
    };
    l1 + l2 + patched_if_lines(c.all_timers_999, base, secs, i2, all_timers_999_spec(), "all timers 999"@)
}

/// The lines the patches applied before the game starts log, in their order
/// (see `pre_tls_spec`): one per patch switched on, under its name, and one
/// per value written.
pub open spec fn pre_tls_lines(base: usize, secs: Seq<PeSection>, img: Seq<u8>, c: PatchConfig) -> Seq<(bool, Seq<char>)> {
    let l1 = network_early_lines(base, secs, img, c.disable_encryption, c.disable_tls);
    let i1 = network_early_spec(base, secs, img, c.disable_encryption, c.disable_tls);
    let l2 = timers_lines(base, secs, i1, c);
    let i2 = timers_spec(base, secs, i1, c);
    let l3 = patched_if_lines(c.skip_map_animation, base, secs, i2, skip_map_animation_spec(), "skip map animation"@);
    let i3 = patched_if(c.skip_map_animation, base, secs, i2, skip_map_animation_spec());
    let l4 = match c.unlock_tracks {
        Some(max) => unlock_tracks_lines(base, secs, i3, max),
        None => Seq::empty(),
    };
    let i4 = match c.unlock_tracks {
        Some(max) => unlock_tracks_spec(base, secs, i3, max),
        None => i3,
    };
    let l5 = patched_if_lines(c.unlock_120fps, base, secs, i4, unlock_120fps_spec(), "unlock 120fps"@);
    let i5 = patched_if(c.unlock_120fps, base, secs, i4, unlock_120fps_spec());
    let l6 = patched_if_lines(c.bypass_1080p, base, secs, i5, bypass_1080p_spec(), "bypass 1080p check"@);
    let i6 = patched_if(c.bypass_1080p, base, secs, i5, bypass_1080p_spec());
    let l7 = patched_if_lines(c.bypass_120hz, base, secs, i6, bypass_120hz_spec(), "bypass 120Hz check"@);
    let i7 = patched_if(c.bypass_120hz, base, secs, i6, bypass_120hz_spec());
    let l8 = patched_if_lines(c.bypass_appuser, base, secs, i7, bypass_appuser_spec(), "bypass AppUser check"@);
    let i8 = patched_if(c.bypass_appuser, base, secs, i7, bypass_appuser_spec());
    let l9 = patched_if_lines(c.force_shared_audio, base, secs, i8, force_shared_audio_spec(), "force shared audio"@);
    let i9 = patched_if(c.force_shared_audio, base, secs, i8, force_shared_audio_spec());
    let l10 = patched_if_lines(c.force_2ch_audio, base, secs, i9, force_2ch_audio_spec(), "force 2ch audio"@);
    l1 + l2 + l3 + l4 + l5 + l6 + l7 + l8 + l9 + l10
}

/// The image after every patch that is applied before the game starts, in
/// their order: network, timers, map animation, track limit, 120 fps,
/// display and AppUser checks, then audio.
pub open spec fn pre_tls_spec(base: usize, secs: Seq<PeSection>, img: Seq<u8>, c: PatchConfig) -> Seq<u8> {
    let i1 = network_early_spec(base, secs, img, c.disable_encryption, c.disable_tls);
    let i2 = timers_spec(base, secs, i1, c);
    let i3 = patched_if(c.skip_map_animation, base, secs, i2, skip_map_animation_spec());
    let i4 = match c.unlock_tracks {
        Some(max) => unlock_tracks_spec(base, secs, i3, max),
        None => i3,
    };
    let i5 = patched_if(c.unlock_120fps, base, secs, i4, unlock_120fps_spec());
    let i6 = patched_if(c.bypass_1080p, base, secs, i5, bypass_1080p_spec());
    let i7 = patched_if(c.bypass_120hz, base, secs, i6, bypass_120hz_spec());
    let i8 = patched_if(c.bypass_appuser, base, secs, i7, bypass_appuser_spec());
    let i9 = patched_if(c.force_shared_audio, base, secs, i8, force_shared_audio_spec());
    patched_if(c.force_2ch_audio, base, secs, i9, force_2ch_audio_spec())
}

fn apply_timers(image: &mut PatchImage, config: &PatchConfig)
    ensures
        final(image).bytes@ == timers_spec(old(image).base, old(image).sections@, old(image).bytes@, *config),
        final(image).base == old(image).base,
        final(image).sections@ == old(image).sections@,
        log_lines(final(image).log@) == log_lines(old(image).log@) + timers_lines(
            old(image).base,
            old(image).sections@,
            old(image).bytes@,
            *config,
        ),
{
    let ghost lines0 = log_lines(image.log@);
    apply_if(config.disable_timer, image, disable_timer());
    let ghost lines1 = log_lines(image.log@);
    match config.custom_timers {
        Some(t) => {
            apply_timer(image, "map select timer", map_timer_tokens(), 17, t.map_select);
            apply_timer(image, "ticket select timer", ticket_timer_tokens(), 17, t.ticket_select);
            apply_timer(image, "course select timer", course_timer_tokens(), 6, t.course_select);
        },
        None => {
            assert(log_lines(image.log@) =~= lines1 + Seq::<(bool, Seq<char>)>::empty());
        },
    }
    apply_if(config.all_timers_999, image, all_timers_999());
    assert(log_lines(image.log@) =~= lines0 + timers_lines(old(image).base, old(image).sections@, old(image).bytes@, *config));
}

/// Applies every patch that is switched on, before the game starts (see
/// `pre_tls_spec`).
pub fn apply_pre_tls(image: &mut PatchImage, config: &PatchConfig)
    ensures
        final(image).bytes@ == pre_tls_spec(old(image).base, old(image).sections@, old(image).bytes@, *config),
        final(image).base == old(image).base,
        final(image).sections@ == old(image).sections@,
        log_lines(final(image).log@) == log_lines(old(image).log@) + pre_tls_lines(
            old(image).base,
            old(image).sections@,
            old(image).bytes@,
            *config,
        ),
{
    let ghost base = image.base;
    let ghost secs = image.sections@;
    let ghost c = *config;
    let ghost l0 = log_lines(image.log@);
    let ghost i0 = image.bytes@;
    let _ = apply_network_early(image, config.disable_encryption, config.disable_tls);
    let ghost i1 = image.bytes@;
    let ghost mut acc = network_early_lines(base, secs, i0, c.disable_encryption, c.disable_tls);
    apply_timers(image, config);
    let ghost i2 = image.bytes@;
    proof {
        lemma_concat_associative(l0, acc, timers_lines(base, secs, i1, c));
        acc = acc + timers_lines(base, secs, i1, c);
    }
    apply_if(config.skip_map_animation, image, skip_map_animation());
    let ghost i3 = image.bytes@;
    proof {
        let l = patched_if_lines(c.skip_map_animation, base, secs, i2, skip_map_animation_spec(), "skip map animation"@);
        lemma_concat_associative(l0, acc, l);
        acc = acc + l;
    }
    match config.unlock_tracks {
        Some(max) => apply_unlock_tracks(image, max),
        None => {
            assert(log_lines(image.log@) =~= log_lines(image.log@) + Seq::<(bool, Seq<char>)>::empty());
        },
    }
    let ghost i4 = image.bytes@;
    proof {
        let l = match c.unlock_tracks {
            Some(max) => unlock_tracks_lines(base, secs, i3, max),
            None => Seq::empty(),
        };
        lemma_concat_associative(l0, acc, l);
        acc = acc + l;
    }
    apply_if(config.unlock_120fps, image, unlock_120fps());
    let ghost i5 = image.bytes@;
    proof {
        let l = patched_if_lines(c.unlock_120fps, base, secs, i4, unlock_120fps_spec(), "unlock 120fps"@);
        lemma_concat_associative(l0, acc, l);
        acc = acc + l;
    }
    apply_if(config.bypass_1080p, image, bypass_1080p());
    let ghost i6 = image.bytes@;
    proof {
        let l = patched_if_lines(c.bypass_1080p, base, secs, i5, bypass_1080p_spec(), "bypass 1080p check"@);
        lemma_concat_associative(l0, acc, l);
        acc = acc + l;
    }
    apply_if(config.bypass_120hz, image, bypass_120hz());
    let ghost i7 = image.bytes@;
    proof {
        let l = patched_if_lines(c.bypass_120hz, base, secs, i6, bypass_120hz_spec(), "bypass 120Hz check"@);
        lemma_concat_associative(l0, acc, l);
        acc = acc + l;
    }
    apply_if(config.bypass_appuser, image, bypass_appuser());
    let ghost i8 = image.bytes@;
    proof {
        let l = patched_if_lines(c.bypass_appuser, base, secs, i7, bypass_appuser_spec(), "bypass AppUser check"@);
        lemma_concat_associative(l0, acc, l);
        acc = acc + l;
    }
    apply_if(config.force_shared_audio, image, force_shared_audio());
    let ghost i9 = image.bytes@;
    proof {
        let l = patched_if_lines(c.force_shared_audio, base, secs, i8, force_shared_audio_spec(), "force shared audio"@);
        lemma_concat_associative(l0, acc, l);
        acc = acc + l;
    }
    apply_if(config.force_2ch_audio, image, force_2ch_audio());
    proof {
        let l = patched_if_lines(c.force_2ch_audio, base, secs, i9, force_2ch_audio_spec(), "force 2ch audio"@);
        lemma_concat_associative(l0, acc, l);
        acc = acc + l;
        assert(acc == pre_tls_lines(base, secs, i0, c));
    }
}

/// The WinHTTP functions whose requests are logged, with their detours.
pub open spec fn net_log_symbols(detours: [usize; 5]) -> Seq<HookSymbol> {
    seq![
        HookSymbol { name: "WinHttpConnect", patch: detours@[0], original: 0 },
        HookSymbol { name: "WinHttpOpenRequest", patch: detours@[1], original: 0 },
        HookSymbol { name: "WinHttpSendRequest", patch: detours@[2], original: 0 },
        HookSymbol { name: "WinHttpReceiveResponse", patch: detours@[3], original: 0 },
        HookSymbol { name: "WinHttpQueryHeaders", patch: detours@[4], original: 0 },
    ]
}

/// The import address table entries of the game image `img` to redirect
/// before its entry point runs, in the order they are to be applied: first
/// the TLS hook when TLS is switched off (symbol indices into
/// `open_request_symbol`), then, when requests are logged, the logging hooks
/// (symbol indices into `net_log_symbols`).
pub fn install_pre_entry_hooks(img: &[u8], config: &PatchConfig, net_log: bool, tls_detour: usize, log_detours: [usize; 5]) -> (r: (Vec<IatPatch>, Vec<IatPatch>))
    ensures
        !config.disable_tls ==> r.0@.len() == 0,
        config.disable_tls ==> r.0@ == module_patches(img@, "winhttp.dll".spec_bytes(), SymbolsView::Named(seq![open_request_symbol(tls_detour)])),
        !net_log ==> r.1@.len() == 0,
        net_log ==> r.1@ == module_patches(img@, "winhttp.dll".spec_bytes(), SymbolsView::Named(net_log_symbols(log_detours))),
{
    let tls = install_pre_entry_hook(img, config.disable_tls, tls_detour);
    if !net_log {
        return (tls, Vec::new());
    }
    let symbols: Vec<HookSymbol> = vec![
        HookSymbol { name: "WinHttpConnect", patch: log_detours[0], original: 0 },
        HookSymbol { name: "WinHttpOpenRequest", patch: log_detours[1], original: 0 },
        HookSymbol { name: "WinHttpSendRequest", patch: log_detours[2], original: 0 },
        HookSymbol { name: "WinHttpReceiveResponse", patch: log_detours[3], original: 0 },
        HookSymbol { name: "WinHttpQueryHeaders", patch: log_detours[4], original: 0 },
    ];
    assert(symbols@ =~= net_log_symbols(log_detours));
    (tls, hook_module(img, "winhttp.dll", symbols.as_slice()))
}

} // verus!
