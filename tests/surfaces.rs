use morrobroom::surfaces::{classify_face, NiBroomSurface};
use morrobroom::text::{contains_ignore_case, equals_ignore_case};

#[test]
fn surface_bits() {
    assert_eq!(NiBroomSurface::NoClip.bit(), 1);
    assert_eq!(NiBroomSurface::Phong.bit(), 2);
    assert_eq!(NiBroomSurface::Invert.bit(), 4);
}

#[test]
fn skip_excludes_everything() {
    let e = classify_face("common/SKIP", 0, 0);
    assert!(e.skipped && e.exclude_visual && e.exclude_collision);
}

#[test]
fn liquid_names_force_noclip() {
    for name in ["Water_01", "LAVA", "slime3", "mwat_pool"] {
        let e = classify_face(name, 0, 0);
        assert!(e.append_inverted, "{name}");
        assert!(e.exclude_collision, "{name}");
        assert!(!e.exclude_visual, "{name}");
    }
}

#[test]
fn plain_texture_has_no_effect() {
    let e = classify_face("wood01", 0, 0);
    assert!(!e.skipped && !e.exclude_visual && !e.exclude_collision);
    assert!(!e.invert_winding && !e.append_inverted && !e.use_emissive && !e.use_smooth_normals);
}

#[test]
fn clip_is_matched_whole() {
    assert!(classify_face("CLIP", 0, 0).exclude_visual);
    assert!(!classify_face("clipper", 0, 0).exclude_visual);
}

#[test]
fn case_folding_helpers() {
    assert!(contains_ignore_case("Big_WATER_tile", "water"));
    assert!(!contains_ignore_case("wat", "water"));
    assert!(contains_ignore_case("x", ""));
    assert!(equals_ignore_case("Sky5_Blu", "sky5_blu"));
    assert!(!equals_ignore_case("sky5_blue", "sky5_blu"));
}
