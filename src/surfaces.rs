use vstd::prelude::*;

use crate::text::{contains_ignore_case, contains_lower, equals_ignore_case, equals_lower};

verus! {

/// Surface bits of a face's extension record that change how it is built.
#[derive(Clone, Copy, Debug, PartialEq, Eq, Structural)]
pub enum NiBroomSurface {
    NoClip,
    Phong,
    Invert,
}

impl NiBroomSurface {
    pub open spec fn spec_bit(self) -> u32 {
        match self {
            NiBroomSurface::NoClip => 1,
            NiBroomSurface::Phong => 2,
            NiBroomSurface::Invert => 4,
        }
    }

    /// The bit that stands for this surface in a face's surface flags.
    pub fn bit(self) -> (r: u32)
        ensures
            r == self.spec_bit(),
    {
        match self {
            NiBroomSurface::NoClip => 1,
            NiBroomSurface::Phong => 2,
            NiBroomSurface::Invert => 4,
        }
    }
}

/// Content bit of a face's extension record that turns the face inside out.
pub const INVERT_FACES: u32 = 1;

/// What the classifier decides for one face.
#[derive(Clone, Copy, Debug, PartialEq, Eq, Structural)]
pub struct FaceEffects {
    /// The face takes part in nothing (a "skip" texture).
    pub skipped: bool,
    pub exclude_visual: bool,
    pub exclude_collision: bool,
    /// The face is built from its inward winding.
    pub invert_winding: bool,
    /// The inward winding is appended to the face's triangles (liquids).
    pub append_inverted: bool,
    pub use_emissive: bool,
    pub use_smooth_normals: bool,
}

pub open spec fn is_skip_name(name: Seq<char>) -> bool {
    contains_lower(name, "skip"@)
}

pub open spec fn is_clip_name(name: Seq<char>) -> bool {
    equals_lower(name, "clip"@)
}

/// The reserved sky texture.
pub open spec fn is_sky_name(name: Seq<char>) -> bool {
    equals_lower(name, "sky5_blu"@)
}

pub open spec fn is_liquid_name(name: Seq<char>) -> bool {
    ||| contains_lower(name, "slime"@)
    ||| contains_lower(name, "water"@)
    ||| contains_lower(name, "lava"@)
    ||| contains_lower(name, "mwat"@)
}

/// The effects of a face with texture `name` and the given extension flags.
pub open spec fn face_effects(name: Seq<char>, content_flags: u32, surface_flags: u32) -> FaceEffects {
    let skip = is_skip_name(name);
    let liquid = is_liquid_name(name);
    let invert = content_flags & INVERT_FACES != 0 || is_sky_name(name);
    FaceEffects {
        skipped: skip,
        exclude_visual: skip || is_clip_name(name),
        exclude_collision: skip || liquid || surface_flags & 1 != 0,
        invert_winding: invert,
        append_inverted: liquid,
        use_emissive: invert,
        use_smooth_normals: surface_flags & 2 != 0,
    }
}

/// Classifies one face by its texture name (ASCII case ignored) and its
/// extension flags (all zero where the face has no extension record).
pub fn classify_face(name: &str, content_flags: u32, surface_flags: u32) -> (r: FaceEffects)
    ensures
        r == face_effects(name@, content_flags, surface_flags),
{
    let skip = contains_ignore_case(name, "skip");
    let clip = equals_ignore_case(name, "clip");
    let sky = equals_ignore_case(name, "sky5_blu");
    let liquid = contains_ignore_case(name, "slime") || contains_ignore_case(name, "water")
        || contains_ignore_case(name, "lava") || contains_ignore_case(name, "mwat");
    let invert = content_flags & INVERT_FACES != 0 || sky;
    FaceEffects {
        skipped: skip,
        exclude_visual: skip || clip,
        exclude_collision: skip || liquid || surface_flags & NiBroomSurface::NoClip.bit() != 0,
        invert_winding: invert,
        append_inverted: liquid,
        use_emissive: invert,
        use_smooth_normals: surface_flags & NiBroomSurface::Phong.bit() != 0,
    }
}

} // verus!
