use vstd::prelude::*;

use crate::game_object::{get_prop, prop_value};
use crate::number::{chars_of, parse_i32, parse_u8, read_i32, read_u8};

verus! {

/// How the source colour enters a blend.
#[derive(Clone, Copy, Debug, PartialEq, Eq, Structural)]
pub enum BrushSourceBlendMode {
    One,
    Zero,
    SourceColor,
    OneMinusSourceColor,
    DestinationColor,
    OneMinusDestinationColor,
    SourceAlpha,
    OneMinusSourceAlpha,
    DestinationAlpha,
    OneMinusDestinationALpha,
    SourceAlphaSaturate,
}
impl BrushSourceBlendMode {
    pub open spec fn spec_code(self) -> u16 {
        match self {
            BrushSourceBlendMode::One => 0,
            BrushSourceBlendMode::Zero => 2,
            BrushSourceBlendMode::SourceColor => 4,
            BrushSourceBlendMode::OneMinusSourceColor => 6,
            BrushSourceBlendMode::DestinationColor => 8,
            BrushSourceBlendMode::OneMinusDestinationColor => 10,
            BrushSourceBlendMode::SourceAlpha => 12,
            BrushSourceBlendMode::OneMinusSourceAlpha => 14,
            BrushSourceBlendMode::DestinationAlpha => 16,
            BrushSourceBlendMode::OneMinusDestinationALpha => 18,
            BrushSourceBlendMode::SourceAlphaSaturate => 20,
        }
    }

    /// The variant that a code stands for; the default for any other code.
    pub open spec fn spec_from_code(v: int) -> BrushSourceBlendMode {
        if v == 0 {
            BrushSourceBlendMode::One
        } else if v == 2 {
            BrushSourceBlendMode::Zero
        } else if v == 4 {
            BrushSourceBlendMode::SourceColor
        } else if v == 6 {
            BrushSourceBlendMode::OneMinusSourceColor
        } else if v == 8 {
            BrushSourceBlendMode::DestinationColor
        } else if v == 10 {
            BrushSourceBlendMode::OneMinusDestinationColor
        } else if v == 12 {
            BrushSourceBlendMode::SourceAlpha
        } else if v == 14 {
            BrushSourceBlendMode::OneMinusSourceAlpha
        } else if v == 16 {
            BrushSourceBlendMode::DestinationAlpha
        } else if v == 18 {
            BrushSourceBlendMode::OneMinusDestinationALpha
        } else if v == 20 {
            BrushSourceBlendMode::SourceAlphaSaturate
        } else {
            BrushSourceBlendMode::SourceAlpha
        }
    }

    /// The bits this setting puts into a property's flags.
    pub fn code(self) -> (r: u16)
        ensures
            r == self.spec_code(),
    {
        match self {
            BrushSourceBlendMode::One => 0,
            BrushSourceBlendMode::Zero => 2,
            BrushSourceBlendMode::SourceColor => 4,
            BrushSourceBlendMode::OneMinusSourceColor => 6,
            BrushSourceBlendMode::DestinationColor => 8,
            BrushSourceBlendMode::OneMinusDestinationColor => 10,
            BrushSourceBlendMode::SourceAlpha => 12,
            BrushSourceBlendMode::OneMinusSourceAlpha => 14,
            BrushSourceBlendMode::DestinationAlpha => 16,
            BrushSourceBlendMode::OneMinusDestinationALpha => 18,
            BrushSourceBlendMode::SourceAlphaSaturate => 20,
        }
    }

    pub fn default() -> (r: BrushSourceBlendMode)
        ensures
            r == BrushSourceBlendMode::SourceAlpha,
    {
        BrushSourceBlendMode::SourceAlpha
    }

    /// The variant for a code; the default for a code that names none.
    pub fn from_code(v: i32) -> (r: BrushSourceBlendMode)
        ensures
            r == BrushSourceBlendMode::spec_from_code(v as int),
    {
        match v {
            0 => BrushSourceBlendMode::One,
            2 => BrushSourceBlendMode::Zero,
            4 => BrushSourceBlendMode::SourceColor,
            6 => BrushSourceBlendMode::OneMinusSourceColor,
            8 => BrushSourceBlendMode::DestinationColor,
            10 => BrushSourceBlendMode::OneMinusDestinationColor,
            12 => BrushSourceBlendMode::SourceAlpha,
            14 => BrushSourceBlendMode::OneMinusSourceAlpha,
            16 => BrushSourceBlendMode::DestinationAlpha,
            18 => BrushSourceBlendMode::OneMinusDestinationALpha,
            20 => BrushSourceBlendMode::SourceAlphaSaturate,
            _ => BrushSourceBlendMode::SourceAlpha,
        }
    }

    /// Reads a setting written as a decimal code: `None` where the text is
    /// no `i32`, the default where the code names no variant.
    pub fn parse(s: &str) -> (r: Option<BrushSourceBlendMode>)
        ensures
            r == (match parse_i32(s@) {
                Some(v) => Some(BrushSourceBlendMode::spec_from_code(v as int)),
                None => None,
            }),
    {
        match read_i32(s) {
            Some(v) => Some(BrushSourceBlendMode::from_code(v)),
            None => None,
        }
    }
}

/// How the destination colour enters a blend.
#[derive(Clone, Copy, Debug, PartialEq, Eq, Structural)]
pub enum BrushDestinationBlendMode {
    One,
    Zero,
    SourceColor,
    OneMinusSourceColor,
    DestinationColor,
    OneMinusDestinationColor,
    SourceAlpha,
    OneMinusSourceAlpha,
    DestinationAlpha,
    OneMinusDestinationALpha,
    SourceAlphaSaturate,
}
impl BrushDestinationBlendMode {
    pub open spec fn spec_code(self) -> u16 {
        match self {
            BrushDestinationBlendMode::One => 0,
            BrushDestinationBlendMode::Zero => 32,
            BrushDestinationBlendMode::SourceColor => 64,
            BrushDestinationBlendMode::OneMinusSourceColor => 96,
            BrushDestinationBlendMode::DestinationColor => 128,
            BrushDestinationBlendMode::OneMinusDestinationColor => 160,
            BrushDestinationBlendMode::SourceAlpha => 192,
            BrushDestinationBlendMode::OneMinusSourceAlpha => 224,
            BrushDestinationBlendMode::DestinationAlpha => 256,
            BrushDestinationBlendMode::OneMinusDestinationALpha => 288,
            BrushDestinationBlendMode::SourceAlphaSaturate => 320,
        }
    }

    /// The variant that a code stands for; the default for any other code.
    pub open spec fn spec_from_code(v: int) -> BrushDestinationBlendMode {
        if v == 0 {
            BrushDestinationBlendMode::One
        } else if v == 32 {
            BrushDestinationBlendMode::Zero
        } else if v == 64 {
            BrushDestinationBlendMode::SourceColor
        } else if v == 96 {
            BrushDestinationBlendMode::OneMinusSourceColor
        } else if v == 128 {
            BrushDestinationBlendMode::DestinationColor
        } else if v == 160 {
            BrushDestinationBlendMode::OneMinusDestinationColor
        } else if v == 192 {
            BrushDestinationBlendMode::SourceAlpha
        } else if v == 224 {
            BrushDestinationBlendMode::OneMinusSourceAlpha
        } else if v == 256 {
            BrushDestinationBlendMode::DestinationAlpha
        } else if v == 288 {
            BrushDestinationBlendMode::OneMinusDestinationALpha
        } else if v == 320 {
            BrushDestinationBlendMode::SourceAlphaSaturate
        } else {
            BrushDestinationBlendMode::OneMinusSourceAlpha
        }
    }

    /// The bits this setting puts into a property's flags.
    pub fn code(self) -> (r: u16)
        ensures
            r == self.spec_code(),
    {
        match self {
            BrushDestinationBlendMode::One => 0,
            BrushDestinationBlendMode::Zero => 32,
            BrushDestinationBlendMode::SourceColor => 64,
            BrushDestinationBlendMode::OneMinusSourceColor => 96,
            BrushDestinationBlendMode::DestinationColor => 128,
            BrushDestinationBlendMode::OneMinusDestinationColor => 160,
            BrushDestinationBlendMode::SourceAlpha => 192,
            BrushDestinationBlendMode::OneMinusSourceAlpha => 224,
            BrushDestinationBlendMode::DestinationAlpha => 256,
            BrushDestinationBlendMode::OneMinusDestinationALpha => 288,
            BrushDestinationBlendMode::SourceAlphaSaturate => 320,
        }
    }

    pub fn default() -> (r: BrushDestinationBlendMode)
        ensures
            r == BrushDestinationBlendMode::OneMinusSourceAlpha,
    {
        BrushDestinationBlendMode::OneMinusSourceAlpha
    }

    /// The variant for a code; the default for a code that names none.
    pub fn from_code(v: i32) -> (r: BrushDestinationBlendMode)
        ensures
            r == BrushDestinationBlendMode::spec_from_code(v as int),
    {
        match v {
            0 => BrushDestinationBlendMode::One,
            32 => BrushDestinationBlendMode::Zero,
            64 => BrushDestinationBlendMode::SourceColor,
            96 => BrushDestinationBlendMode::OneMinusSourceColor,
            128 => BrushDestinationBlendMode::DestinationColor,
            160 => BrushDestinationBlendMode::OneMinusDestinationColor,
            192 => BrushDestinationBlendMode::SourceAlpha,
            224 => BrushDestinationBlendMode::OneMinusSourceAlpha,
            256 => BrushDestinationBlendMode::DestinationAlpha,
            288 => BrushDestinationBlendMode::OneMinusDestinationALpha,
            320 => BrushDestinationBlendMode::SourceAlphaSaturate,
            _ => BrushDestinationBlendMode::OneMinusSourceAlpha,
        }
    }

    /// Reads a setting written as a decimal code: `None` where the text is
    /// no `i32`, the default where the code names no variant.
    pub fn parse(s: &str) -> (r: Option<BrushDestinationBlendMode>)
        ensures
            r == (match parse_i32(s@) {
                Some(v) => Some(BrushDestinationBlendMode::spec_from_code(v as int)),
                None => None,
            }),
    {
        match read_i32(s) {
            Some(v) => Some(BrushDestinationBlendMode::from_code(v)),
            None => None,
        }
    }
}

/// The comparison of the alpha test.
#[derive(Clone, Copy, Debug, PartialEq, Eq, Structural)]
pub enum BrushAlphaTestFunction {
    Always,
    Less,
    Equal,
    LessThanOrEqual,
    GreaterThan,
    NotEqual,
    GreaterThanOrEqual,
    Never,
}
impl BrushAlphaTestFunction {
    pub open spec fn spec_code(self) -> u16 {
        match self {
            BrushAlphaTestFunction::Always => 0,
            BrushAlphaTestFunction::Less => 1024,
            BrushAlphaTestFunction::Equal => 2048,
            BrushAlphaTestFunction::LessThanOrEqual => 3072,
            BrushAlphaTestFunction::GreaterThan => 4096,
            BrushAlphaTestFunction::NotEqual => 5120,
            BrushAlphaTestFunction::GreaterThanOrEqual => 6144,
            BrushAlphaTestFunction::Never => 7168,
        }
    }

    /// The variant that a code stands for; the default for any other code.
    pub open spec fn spec_from_code(v: int) -> BrushAlphaTestFunction {
        if v == 0 {
            BrushAlphaTestFunction::Always
        } else if v == 1024 {
            BrushAlphaTestFunction::Less
        } else if v == 2048 {
            BrushAlphaTestFunction::Equal
        } else if v == 3072 {
            BrushAlphaTestFunction::LessThanOrEqual
        } else if v == 4096 {
            BrushAlphaTestFunction::GreaterThan
        } else if v == 5120 {
            BrushAlphaTestFunction::NotEqual
        } else if v == 6144 {
            BrushAlphaTestFunction::GreaterThanOrEqual
        } else if v == 7168 {
            BrushAlphaTestFunction::Never
        } else {
            BrushAlphaTestFunction::GreaterThan
        }
    }

    /// The bits this setting puts into a property's flags.
    pub fn code(self) -> (r: u16)
        ensures
            r == self.spec_code(),
    {
        match self {
            BrushAlphaTestFunction::Always => 0,
            BrushAlphaTestFunction::Less => 1024,
            BrushAlphaTestFunction::Equal => 2048,
            BrushAlphaTestFunction::LessThanOrEqual => 3072,
            BrushAlphaTestFunction::GreaterThan => 4096,
            BrushAlphaTestFunction::NotEqual => 5120,
            BrushAlphaTestFunction::GreaterThanOrEqual => 6144,
            BrushAlphaTestFunction::Never => 7168,
        }
    }

    pub fn default() -> (r: BrushAlphaTestFunction)
        ensures
            r == BrushAlphaTestFunction::GreaterThan,
    {
        BrushAlphaTestFunction::GreaterThan
    }

    /// The variant for a code; the default for a code that names none.
    pub fn from_code(v: i32) -> (r: BrushAlphaTestFunction)
        ensures
            r == BrushAlphaTestFunction::spec_from_code(v as int),
    {
        match v {
            0 => BrushAlphaTestFunction::Always,
            1024 => BrushAlphaTestFunction::Less,
            2048 => BrushAlphaTestFunction::Equal,
            3072 => BrushAlphaTestFunction::LessThanOrEqual,
            4096 => BrushAlphaTestFunction::GreaterThan,
            5120 => BrushAlphaTestFunction::NotEqual,
            6144 => BrushAlphaTestFunction::GreaterThanOrEqual,
            7168 => BrushAlphaTestFunction::Never,
            _ => BrushAlphaTestFunction::GreaterThan,
        }
    }

    /// Reads a setting written as a decimal code: `None` where the text is
    /// no `i32`, the default where the code names no variant.
    pub fn parse(s: &str) -> (r: Option<BrushAlphaTestFunction>)
        ensures
            r == (match parse_i32(s@) {
                Some(v) => Some(BrushAlphaTestFunction::spec_from_code(v as int)),
                None => None,
            }),
    {
        match read_i32(s) {
            Some(v) => Some(BrushAlphaTestFunction::from_code(v)),
            None => None,
        }
    }
}

/// Whether blending or the alpha test is on.
#[derive(Clone, Copy, Debug, PartialEq, Eq, Structural)]
pub enum BrushUseAlpha {
    OFF,
    BlendEnable,
    TestEnable,
}
impl BrushUseAlpha {
    pub open spec fn spec_code(self) -> u16 {
        match self {
            BrushUseAlpha::OFF => 0,
            BrushUseAlpha::BlendEnable => 1,
            BrushUseAlpha::TestEnable => 512,
        }
    }

    /// The variant that a code stands for; the default for any other code.
    pub open spec fn spec_from_code(v: int) -> BrushUseAlpha {
        if v == 0 {
            BrushUseAlpha::OFF
        } else if v == 1 {
            BrushUseAlpha::BlendEnable
        } else if v == 512 {
            BrushUseAlpha::TestEnable
        } else {
            BrushUseAlpha::TestEnable
        }
    }

    /// The bits this setting puts into a property's flags.
    pub fn code(self) -> (r: u16)
        ensures
            r == self.spec_code(),
    {
        match self {
            BrushUseAlpha::OFF => 0,
            BrushUseAlpha::BlendEnable => 1,
            BrushUseAlpha::TestEnable => 512,
        }
    }

    pub fn default() -> (r: BrushUseAlpha)
        ensures
            r == BrushUseAlpha::TestEnable,
    {
        BrushUseAlpha::TestEnable
    }

    /// The variant for a code; the default for a code that names none.
    pub fn from_code(v: i32) -> (r: BrushUseAlpha)
        ensures
            r == BrushUseAlpha::spec_from_code(v as int),
    {
        match v {
            0 => BrushUseAlpha::OFF,
            1 => BrushUseAlpha::BlendEnable,
            512 => BrushUseAlpha::TestEnable,
            _ => BrushUseAlpha::TestEnable,
        }
    }

    /// Reads a setting written as a decimal code: `None` where the text is
    /// no `i32`, the default where the code names no variant.
    pub fn parse(s: &str) -> (r: Option<BrushUseAlpha>)
        ensures
            r == (match parse_i32(s@) {
                Some(v) => Some(BrushUseAlpha::spec_from_code(v as int)),
                None => None,
            }),
    {
        match read_i32(s) {
            Some(v) => Some(BrushUseAlpha::from_code(v)),
            None => None,
        }
    }
}

/// Whether the renderer skips depth sorting.
#[derive(Clone, Copy, Debug, PartialEq, Eq, Structural)]
pub enum BrushNoSort {
    OFF,
    ON,
}
impl BrushNoSort {
    pub open spec fn spec_code(self) -> u16 {
        match self {
            BrushNoSort::OFF => 0,
            BrushNoSort::ON => 8196,
        }
    }

    /// The variant that a code stands for; the default for any other code.
    pub open spec fn spec_from_code(v: int) -> BrushNoSort {
        if v == 0 {
            BrushNoSort::OFF
        } else if v == 8196 {
            BrushNoSort::ON
        } else {
            BrushNoSort::OFF
        }
    }

    /// The bits this setting puts into a property's flags.
    pub fn code(self) -> (r: u16)
        ensures
            r == self.spec_code(),
    {
        match self {
            BrushNoSort::OFF => 0,
            BrushNoSort::ON => 8196,
        }
    }

    pub fn default() -> (r: BrushNoSort)
        ensures
            r == BrushNoSort::OFF,
    {
        BrushNoSort::OFF
    }

    /// The variant for a code; the default for a code that names none.
    pub fn from_code(v: i32) -> (r: BrushNoSort)
        ensures
            r == BrushNoSort::spec_from_code(v as int),
    {
        match v {
            0 => BrushNoSort::OFF,
            8196 => BrushNoSort::ON,
            _ => BrushNoSort::OFF,
        }
    }

    /// Reads a setting written as a decimal code: `None` where the text is
    /// no `i32`, the default where the code names no variant.
    pub fn parse(s: &str) -> (r: Option<BrushNoSort>)
        ensures
            r == (match parse_i32(s@) {
                Some(v) => Some(BrushNoSort::spec_from_code(v as int)),
                None => None,
            }),
    {
        match read_i32(s) {
            Some(v) => Some(BrushNoSort::from_code(v)),
            None => None,
        }
    }
}

/// The alpha settings of a sub-mesh's material; `None` where the entity
/// leaves a setting unset.
#[derive(Clone, Copy, Debug, PartialEq, Eq, Structural)]
pub struct BrushNiAlphaProps {
    pub use_blend: Option<BrushUseAlpha>,
    pub blend_source_mode: Option<BrushSourceBlendMode>,
    pub blend_destination_mode: Option<BrushDestinationBlendMode>,
    pub use_test: Option<BrushUseAlpha>,
    pub test_function: Option<BrushAlphaTestFunction>,
    pub test_threshold: Option<u8>,
    pub no_sort: Option<BrushNoSort>,
}

pub open spec fn use_alpha_code(v: Option<BrushUseAlpha>) -> u16 {
    match v {
        Some(x) => x.spec_code(),
        None => BrushUseAlpha::TestEnable.spec_code(),
    }
}

/// The flags of an alpha property: the bits of every setting, each unset one
/// taken at its default.
pub open spec fn alpha_flags(p: BrushNiAlphaProps) -> u16 {
    use_alpha_code(p.use_blend) | (match p.blend_source_mode {
        Some(x) => x,
        None => BrushSourceBlendMode::SourceAlpha,
    }).spec_code() | (match p.blend_destination_mode {
        Some(x) => x,
        None => BrushDestinationBlendMode::OneMinusSourceAlpha,
    }).spec_code() | use_alpha_code(p.use_test) | (match p.test_function {
        Some(x) => x,
        None => BrushAlphaTestFunction::GreaterThan,
    }).spec_code() | (match p.no_sort {
        Some(x) => x,
        None => BrushNoSort::OFF,
    }).spec_code()
}

impl BrushNiAlphaProps {
    /// No setting given.
    pub fn unset() -> (r: BrushNiAlphaProps)
        ensures
            r.use_blend is None,
            r.blend_source_mode is None,
            r.blend_destination_mode is None,
            r.use_test is None,
            r.test_function is None,
            r.test_threshold is None,
            r.no_sort is None,
    {
        BrushNiAlphaProps {
            use_blend: None,
            blend_source_mode: None,
            blend_destination_mode: None,
            use_test: None,
            test_function: None,
            test_threshold: None,
            no_sort: None,
        }
    }

    /// The flags word of the alpha property.
    pub fn to_flags(&self) -> (r: u16)
        ensures
            r == alpha_flags(*self),
    {
        let use_blend = match self.use_blend {
            Some(x) => x,
            None => BrushUseAlpha::default(),
        };
        let source = match self.blend_source_mode {
            Some(x) => x,
            None => BrushSourceBlendMode::default(),
        };
        let destination = match self.blend_destination_mode {
            Some(x) => x,
            None => BrushDestinationBlendMode::default(),
        };
        let use_test = match self.use_test {
            Some(x) => x,
            None => BrushUseAlpha::default(),
        };
        let function = match self.test_function {
            Some(x) => x,
            None => BrushAlphaTestFunction::default(),
        };
        let no_sort = match self.no_sort {
            Some(x) => x,
            None => BrushNoSort::default(),
        };
        use_blend.code() | source.code() | destination.code() | use_test.code() | function.code()
            | no_sort.code()
    }
}

/// A sub-mesh's material settings that the entity gives.
#[derive(Clone, Copy, Debug, PartialEq, Eq, Structural)]
pub struct BrushNiMatProps {
    pub alpha: BrushNiAlphaProps,
}

impl BrushNiMatProps {
    /// No setting given.
    pub fn default() -> (r: BrushNiMatProps)
        ensures
            r.alpha.use_blend is None,
            r.alpha.blend_source_mode is None,
            r.alpha.blend_destination_mode is None,
            r.alpha.use_test is None,
            r.alpha.test_function is None,
            r.alpha.test_threshold is None,
            r.alpha.no_sort is None,
    {
        BrushNiMatProps { alpha: BrushNiAlphaProps::unset() }
    }
}

pub open spec fn code_of(props: Seq<(String, String)>, key: Seq<char>) -> Option<i32> {
    parse_i32(prop_value(props, key))
}

/// The alpha settings that an entity's properties give: each one read from its
/// `Material_Alpha_*` property, unset where that is missing or unreadable.
pub open spec fn alpha_from(props: Seq<(String, String)>) -> BrushNiAlphaProps {
    BrushNiAlphaProps {
        use_blend: match code_of(props, "Material_Alpha_UseBlend"@) {
            Some(v) => Some(BrushUseAlpha::spec_from_code(v as int)),
            None => None,
        },
        blend_source_mode: match code_of(props, "Material_Alpha_BlendSourceMode"@) {
            Some(v) => Some(BrushSourceBlendMode::spec_from_code(v as int)),
            None => None,
        },
        blend_destination_mode: match code_of(props, "Material_Alpha_BlendDestinationMode"@) {
            Some(v) => Some(BrushDestinationBlendMode::spec_from_code(v as int)),
            None => None,
        },
        use_test: match code_of(props, "Material_Alpha_TestEnable"@) {
            Some(v) => Some(BrushUseAlpha::spec_from_code(v as int)),
            None => None,
        },
        test_function: match code_of(props, "Material_Alpha_TestFunction"@) {
            Some(v) => Some(BrushAlphaTestFunction::spec_from_code(v as int)),
            None => None,
        },
        test_threshold: parse_u8(prop_value(props, "Material_Alpha_TestThreshold"@)),
        no_sort: match code_of(props, "Material_Alpha_NoSort"@) {
            Some(v) => Some(BrushNoSort::spec_from_code(v as int)),
            None => None,
        },
    }
}

/// Reads the material settings of a sub-mesh from its entity's properties.
pub fn mat_props_from(props: &Vec<(String, String)>) -> (r: BrushNiMatProps)
    ensures
        r.alpha == alpha_from(props@),
{
    let use_blend = BrushUseAlpha::parse(get_prop("Material_Alpha_UseBlend", props).as_str());
    let source = BrushSourceBlendMode::parse(
        get_prop("Material_Alpha_BlendSourceMode", props).as_str(),
    );
    let destination = BrushDestinationBlendMode::parse(
        get_prop("Material_Alpha_BlendDestinationMode", props).as_str(),
    );
    let use_test = BrushUseAlpha::parse(get_prop("Material_Alpha_TestEnable", props).as_str());
    let function = BrushAlphaTestFunction::parse(
        get_prop("Material_Alpha_TestFunction", props).as_str(),
    );
    let threshold = read_u8(&chars_of(get_prop("Material_Alpha_TestThreshold", props).as_str()));
    let no_sort = BrushNoSort::parse(get_prop("Material_Alpha_NoSort", props).as_str());
    BrushNiMatProps {
        alpha: BrushNiAlphaProps {
            use_blend,
            blend_source_mode: source,
            blend_destination_mode: destination,
            use_test,
            test_function: function,
            test_threshold: threshold,
            no_sort,
        },
    }
}

} // verus!
