//! The kinds of visual effect: the effect identifiers of the XML format,
//! the names under which effects are switched off, and the filter that
//! switches them off.

use vstd::prelude::*;
use crate::text::str_eq;

verus! {

/// The kind of a visual effect, without its parameters. Unknown effects keep
/// the identifier they were written with.
#[derive(Debug, Clone, PartialEq, Eq)]
pub enum EffectKind {
    /// Periodic oscillation of position/scale/rotation.
    Oscillate,
    /// Pendulum-style rotation swing.
    Swing,
    /// Randomized displacement per frame.
    RandomDisplace,
    /// Simulated motion blur based on layer velocity.
    MotionBlur,
    /// Periodic on/off blinking.
    Blink,
    /// Fade in/out at layer boundaries.
    Fade,
    /// Tiled repetition of the layer content.
    Tile,
    /// Exposure and gamma adjustment.
    Exposure,
    /// Brightness and contrast adjustment.
    BrightnessContrast,
    /// Saturation and vibrance adjustment.
    SaturationVibrance,
    /// Solid color tint overlay.
    ColorTint,
    /// Highlight and shadow recovery.
    HighlightShadow,
    /// Vignette darkening around edges.
    Vignette,
    /// Unsharp mask sharpening.
    Sharpen,
    /// Gaussian (box-approximated) blur.
    GaussianBlur,
    /// Lens/bokeh blur simulation.
    LensBlur,
    /// Linear/radial gradient overlay.
    GradientOverlay,
    /// Lift adjustment (shadows color shift / copy background).
    Lift,
    /// Colorize effect (shift hue preserving luminance).
    Colorize,
    /// Luminance-based alpha keying.
    LumaKey,
    /// Horizontal/vertical shift (offset).
    Offset,
    /// Stylized edge outlines detection.
    FindEdges,
    /// Segment stretching distortion.
    StretchSegment,
    /// Spin auto-rotation effect.
    Spin,
    /// Swirl warp effect.
    Swirl,
    /// Wipe transition/mask effect.
    Wipe,
    /// Unknown or unsupported effect, with its raw identifier.
    Unknown(String),
}

/// The name of an effect kind, as effects are switched off by.
pub open spec fn kind_name(k: EffectKind) -> Seq<char> {
    match k {
        EffectKind::Oscillate => "Oscillate"@,
        EffectKind::Swing => "Swing"@,
        EffectKind::RandomDisplace => "RandomDisplace"@,
        EffectKind::MotionBlur => "MotionBlur"@,
        EffectKind::Blink => "Blink"@,
        EffectKind::Fade => "Fade"@,
        EffectKind::Tile => "Tile"@,
        EffectKind::Exposure => "Exposure"@,
        EffectKind::BrightnessContrast => "BrightnessContrast"@,
        EffectKind::SaturationVibrance => "SaturationVibrance"@,
        EffectKind::ColorTint => "ColorTint"@,
        EffectKind::HighlightShadow => "HighlightShadow"@,
        EffectKind::Vignette => "Vignette"@,
        EffectKind::Sharpen => "Sharpen"@,
        EffectKind::GaussianBlur => "GaussianBlur"@,
        EffectKind::LensBlur => "LensBlur"@,
        EffectKind::GradientOverlay => "GradientOverlay"@,
        EffectKind::Lift => "Lift"@,
        EffectKind::Colorize => "Colorize"@,
        EffectKind::LumaKey => "LumaKey"@,
        EffectKind::Offset => "Offset"@,
        EffectKind::FindEdges => "FindEdges"@,
        EffectKind::StretchSegment => "StretchSegment"@,
        EffectKind::Spin => "Spin"@,
        EffectKind::Swirl => "Swirl"@,
        EffectKind::Wipe => "Wipe"@,
        EffectKind::Unknown(_) => "Unknown"@,
    }
}

impl EffectKind {
    /// The variant name as a static string, for use with config-based
    /// effect filtering.
    pub fn variant_name(&self) -> (s: &'static str)
        ensures
            s@ == kind_name(*self),
    {
        match self {
            EffectKind::Oscillate => "Oscillate",
            EffectKind::Swing => "Swing",
            EffectKind::RandomDisplace => "RandomDisplace",
            EffectKind::MotionBlur => "MotionBlur",
            EffectKind::Blink => "Blink",
            EffectKind::Fade => "Fade",
            EffectKind::Tile => "Tile",
            EffectKind::Exposure => "Exposure",
            EffectKind::BrightnessContrast => "BrightnessContrast",
            EffectKind::SaturationVibrance => "SaturationVibrance",
            EffectKind::ColorTint => "ColorTint",
            EffectKind::HighlightShadow => "HighlightShadow",
            EffectKind::Vignette => "Vignette",
            EffectKind::Sharpen => "Sharpen",
            EffectKind::GaussianBlur => "GaussianBlur",
            EffectKind::LensBlur => "LensBlur",
            EffectKind::GradientOverlay => "GradientOverlay",
            EffectKind::Lift => "Lift",
            EffectKind::Colorize => "Colorize",
            EffectKind::LumaKey => "LumaKey",
            EffectKind::Offset => "Offset",
            EffectKind::FindEdges => "FindEdges",
            EffectKind::StretchSegment => "StretchSegment",
            EffectKind::Spin => "Spin",
            EffectKind::Swirl => "Swirl",
            EffectKind::Wipe => "Wipe",
            EffectKind::Unknown(_) => "Unknown",
        }
    }
}

/// The kind of effect an XML effect identifier stands for, `None` for an
/// identifier of no known effect.
pub open spec fn known_kind_of_id(id: Seq<char>) -> Option<EffectKind> {
    if id == "com.alightcreative.effects.oscillate3"@ {
        Some(EffectKind::Oscillate)
    } else if id == "com.alightcreative.effects.swing2"@ {
        Some(EffectKind::Swing)
    } else if id == "com.alightcreative.effects.randomdisplace"@ {
        Some(EffectKind::RandomDisplace)
    } else if id == "com.alightcreative.effects.motionblur3"@ {
        Some(EffectKind::MotionBlur)
    } else if id == "com.alightcreative.effects.blink"@ {
        Some(EffectKind::Blink)
    } else if id == "com.alightcreative.effects.fade"@ {
        Some(EffectKind::Fade)
    } else if id == "com.alightcreative.effects.tile"@ {
        Some(EffectKind::Tile)
    } else if id == "com.alightcreative.effects.exposure"@ {
        Some(EffectKind::Exposure)
    } else if id == "com.alightcreative.effects.brightnesscontrast"@ {
        Some(EffectKind::BrightnessContrast)
    } else if id == "com.alightcreative.effects.saturationvibrance"@ {
        Some(EffectKind::SaturationVibrance)
    } else if id == "com.alightcreative.effects.satvib"@ {
        Some(EffectKind::SaturationVibrance)
    } else if id == "com.alightcreative.effects.colortint"@ {
        Some(EffectKind::ColorTint)
    } else if id == "com.alightcreative.effects.colorize"@ {
        Some(EffectKind::Colorize)
    } else if id == "com.alightcreative.effects.highlightshadow"@ {
        Some(EffectKind::HighlightShadow)
    } else if id == "com.alightcreative.effects.vignette"@ {
        Some(EffectKind::Vignette)
    } else if id == "com.alightcreative.effects.sharpen"@ {
        Some(EffectKind::Sharpen)
    } else if id == "com.alightcreative.effects.gaussianblur"@ {
        Some(EffectKind::GaussianBlur)
    } else if id == "com.alightcreative.effects.lensblur"@ {
        Some(EffectKind::LensBlur)
    } else if id == "com.alightcreative.effects.gradientoverlay"@ {
        Some(EffectKind::GradientOverlay)
    } else if id == "com.alightcreative.effects.lift"@ {
        Some(EffectKind::Lift)
    } else if id == "com.alightcreative.effects.lumakey"@ {
        Some(EffectKind::LumaKey)
    } else if id == "com.alightcreative.effects.offset"@ {
        Some(EffectKind::Offset)
    } else if id == "com.alightcreative.effects.findedges"@ {
        Some(EffectKind::FindEdges)
    } else if id == "com.alightcreative.effects.stretchsegment"@ {
        Some(EffectKind::StretchSegment)
    } else if id == "com.alightcreative.effects.swirl4"@ {
        Some(EffectKind::Swirl)
    } else if id == "com.alightcreative.effects.swirl3"@ {
        Some(EffectKind::Swirl)
    } else if id == "com.alightcreative.effects.swirl2"@ {
        Some(EffectKind::Swirl)
    } else if id == "com.alightcreative.effects.swirl"@ {
        Some(EffectKind::Swirl)
    } else if id == "com.alightcreative.effects.spin"@ {
        Some(EffectKind::Spin)
    } else if id == "com.alightcreative.effects.wipe2"@ {
        Some(EffectKind::Wipe)
    } else if id == "com.alightcreative.effects.wipe"@ {
        Some(EffectKind::Wipe)
    } else {
        None
    }
}

/// Map an XML effect identifier to its kind; an identifier that is not one
/// of the known effects gives `Unknown` with the identifier.
pub fn effect_kind_from_id(id: &str) -> (k: EffectKind)
    ensures
        match known_kind_of_id(id@) {
            Some(known) => k == known,
            None => k matches EffectKind::Unknown(s) && s@ == id@,
        },
{
    if str_eq(id, "com.alightcreative.effects.oscillate3") {
        EffectKind::Oscillate
    } else if str_eq(id, "com.alightcreative.effects.swing2") {
        EffectKind::Swing
    } else if str_eq(id, "com.alightcreative.effects.randomdisplace") {
        EffectKind::RandomDisplace
    } else if str_eq(id, "com.alightcreative.effects.motionblur3") {
        EffectKind::MotionBlur
    } else if str_eq(id, "com.alightcreative.effects.blink") {
        EffectKind::Blink
    } else if str_eq(id, "com.alightcreative.effects.fade") {
        EffectKind::Fade
    } else if str_eq(id, "com.alightcreative.effects.tile") {
        EffectKind::Tile
    } else if str_eq(id, "com.alightcreative.effects.exposure") {
        EffectKind::Exposure
    } else if str_eq(id, "com.alightcreative.effects.brightnesscontrast") {
        EffectKind::BrightnessContrast
    } else if str_eq(id, "com.alightcreative.effects.saturationvibrance") {
        EffectKind::SaturationVibrance
    } else if str_eq(id, "com.alightcreative.effects.satvib") {
        EffectKind::SaturationVibrance
    } else if str_eq(id, "com.alightcreative.effects.colortint") {
        EffectKind::ColorTint
    } else if str_eq(id, "com.alightcreative.effects.colorize") {
        EffectKind::Colorize
    } else if str_eq(id, "com.alightcreative.effects.highlightshadow") {
        EffectKind::HighlightShadow
    } else if str_eq(id, "com.alightcreative.effects.vignette") {
        EffectKind::Vignette
    } else if str_eq(id, "com.alightcreative.effects.sharpen") {
        EffectKind::Sharpen
    } else if str_eq(id, "com.alightcreative.effects.gaussianblur") {
        EffectKind::GaussianBlur
    } else if str_eq(id, "com.alightcreative.effects.lensblur") {
        EffectKind::LensBlur
    } else if str_eq(id, "com.alightcreative.effects.gradientoverlay") {
        EffectKind::GradientOverlay
    } else if str_eq(id, "com.alightcreative.effects.lift") {
        EffectKind::Lift
    } else if str_eq(id, "com.alightcreative.effects.lumakey") {
        EffectKind::LumaKey
    } else if str_eq(id, "com.alightcreative.effects.offset") {
        EffectKind::Offset
    } else if str_eq(id, "com.alightcreative.effects.findedges") {
        EffectKind::FindEdges
    } else if str_eq(id, "com.alightcreative.effects.stretchsegment") {
        EffectKind::StretchSegment
    } else if str_eq(id, "com.alightcreative.effects.swirl4") {
        EffectKind::Swirl
    } else if str_eq(id, "com.alightcreative.effects.swirl3") {
        EffectKind::Swirl
    } else if str_eq(id, "com.alightcreative.effects.swirl2") {
        EffectKind::Swirl
    } else if str_eq(id, "com.alightcreative.effects.swirl") {
        EffectKind::Swirl
    } else if str_eq(id, "com.alightcreative.effects.spin") {
        EffectKind::Spin
    } else if str_eq(id, "com.alightcreative.effects.wipe2") {
        EffectKind::Wipe
    } else if str_eq(id, "com.alightcreative.effects.wipe") {
        EffectKind::Wipe
    } else {
        EffectKind::Unknown(id.to_owned())
    }
}

/// The falloff exponent of a swirl effect, given by the version in its
/// identifier.
pub open spec fn swirl_exponent_of(id: Seq<char>) -> i32 {
    if id == "com.alightcreative.effects.swirl2"@ {
        2
    } else if id == "com.alightcreative.effects.swirl3"@ {
        3
    } else if id == "com.alightcreative.effects.swirl4"@ {
        4
    } else {
        1
    }
}

/// An identifier of a version of the swirl effect is recognised as a swirl.
proof fn lemma_swirl_id_known(id: Seq<char>)
    requires
        id == "com.alightcreative.effects.swirl4"@ || id == "com.alightcreative.effects.swirl3"@ || id == "com.alightcreative.effects.swirl2"@ || id == "com.alightcreative.effects.swirl"@,
    ensures
        known_kind_of_id(id) == Some(EffectKind::Swirl),
{
    reveal_strlit("com.alightcreative.effects.oscillate3");
    reveal_strlit("com.alightcreative.effects.swing2");
    reveal_strlit("com.alightcreative.effects.randomdisplace");
    reveal_strlit("com.alightcreative.effects.motionblur3");
    reveal_strlit("com.alightcreative.effects.blink");
    reveal_strlit("com.alightcreative.effects.fade");
    reveal_strlit("com.alightcreative.effects.tile");
    reveal_strlit("com.alightcreative.effects.exposure");
    reveal_strlit("com.alightcreative.effects.brightnesscontrast");
    reveal_strlit("com.alightcreative.effects.saturationvibrance");
    reveal_strlit("com.alightcreative.effects.satvib");
    reveal_strlit("com.alightcreative.effects.colortint");
    reveal_strlit("com.alightcreative.effects.colorize");
    reveal_strlit("com.alightcreative.effects.highlightshadow");
    reveal_strlit("com.alightcreative.effects.vignette");
    reveal_strlit("com.alightcreative.effects.sharpen");
    reveal_strlit("com.alightcreative.effects.gaussianblur");
    reveal_strlit("com.alightcreative.effects.lensblur");
    reveal_strlit("com.alightcreative.effects.gradientoverlay");
    reveal_strlit("com.alightcreative.effects.lift");
    reveal_strlit("com.alightcreative.effects.lumakey");
    reveal_strlit("com.alightcreative.effects.offset");
    reveal_strlit("com.alightcreative.effects.findedges");
    reveal_strlit("com.alightcreative.effects.stretchsegment");
    reveal_strlit("com.alightcreative.effects.swirl4");
    reveal_strlit("com.alightcreative.effects.swirl3");
    reveal_strlit("com.alightcreative.effects.swirl2");
    reveal_strlit("com.alightcreative.effects.swirl");
    if id == "com.alightcreative.effects.swirl4"@ {
        assert("com.alightcreative.effects.oscillate3"@.len() == 37 && "com.alightcreative.effects.swirl4"@.len() == 33);
        assert("com.alightcreative.effects.swing2"@[30] == 'n' && "com.alightcreative.effects.swirl4"@[30] == 'r');
        assert("com.alightcreative.effects.randomdisplace"@.len() == 41 && "com.alightcreative.effects.swirl4"@.len() == 33);
        assert("com.alightcreative.effects.motionblur3"@.len() == 38 && "com.alightcreative.effects.swirl4"@.len() == 33);
        assert("com.alightcreative.effects.blink"@.len() == 32 && "com.alightcreative.effects.swirl4"@.len() == 33);
        assert("com.alightcreative.effects.fade"@.len() == 31 && "com.alightcreative.effects.swirl4"@.len() == 33);
        assert("com.alightcreative.effects.tile"@.len() == 31 && "com.alightcreative.effects.swirl4"@.len() == 33);
        assert("com.alightcreative.effects.exposure"@.len() == 35 && "com.alightcreative.effects.swirl4"@.len() == 33);
        assert("com.alightcreative.effects.brightnesscontrast"@.len() == 45 && "com.alightcreative.effects.swirl4"@.len() == 33);
        assert("com.alightcreative.effects.saturationvibrance"@.len() == 45 && "com.alightcreative.effects.swirl4"@.len() == 33);
        assert("com.alightcreative.effects.satvib"@[28] == 'a' && "com.alightcreative.effects.swirl4"@[28] == 'w');
        assert("com.alightcreative.effects.colortint"@.len() == 36 && "com.alightcreative.effects.swirl4"@.len() == 33);
        assert("com.alightcreative.effects.colorize"@.len() == 35 && "com.alightcreative.effects.swirl4"@.len() == 33);
        assert("com.alightcreative.effects.highlightshadow"@.len() == 42 && "com.alightcreative.effects.swirl4"@.len() == 33);
        assert("com.alightcreative.effects.vignette"@.len() == 35 && "com.alightcreative.effects.swirl4"@.len() == 33);
        assert("com.alightcreative.effects.sharpen"@.len() == 34 && "com.alightcreative.effects.swirl4"@.len() == 33);
        assert("com.alightcreative.effects.gaussianblur"@.len() == 39 && "com.alightcreative.effects.swirl4"@.len() == 33);
        assert("com.alightcreative.effects.lensblur"@.len() == 35 && "com.alightcreative.effects.swirl4"@.len() == 33);
        assert("com.alightcreative.effects.gradientoverlay"@.len() == 42 && "com.alightcreative.effects.swirl4"@.len() == 33);
        assert("com.alightcreative.effects.lift"@.len() == 31 && "com.alightcreative.effects.swirl4"@.len() == 33);
        assert("com.alightcreative.effects.lumakey"@.len() == 34 && "com.alightcreative.effects.swirl4"@.len() == 33);
        assert("com.alightcreative.effects.offset"@[27] == 'o' && "com.alightcreative.effects.swirl4"@[27] == 's');
        assert("com.alightcreative.effects.findedges"@.len() == 36 && "com.alightcreative.effects.swirl4"@.len() == 33);
        assert("com.alightcreative.effects.stretchsegment"@.len() == 41 && "com.alightcreative.effects.swirl4"@.len() == 33);
    } else if id == "com.alightcreative.effects.swirl3"@ {
        assert("com.alightcreative.effects.oscillate3"@.len() == 37 && "com.alightcreative.effects.swirl3"@.len() == 33);
        assert("com.alightcreative.effects.swing2"@[30] == 'n' && "com.alightcreative.effects.swirl3"@[30] == 'r');
        assert("com.alightcreative.effects.randomdisplace"@.len() == 41 && "com.alightcreative.effects.swirl3"@.len() == 33);
        assert("com.alightcreative.effects.motionblur3"@.len() == 38 && "com.alightcreative.effects.swirl3"@.len() == 33);
        assert("com.alightcreative.effects.blink"@.len() == 32 && "com.alightcreative.effects.swirl3"@.len() == 33);
        assert("com.alightcreative.effects.fade"@.len() == 31 && "com.alightcreative.effects.swirl3"@.len() == 33);
        assert("com.alightcreative.effects.tile"@.len() == 31 && "com.alightcreative.effects.swirl3"@.len() == 33);
        assert("com.alightcreative.effects.exposure"@.len() == 35 && "com.alightcreative.effects.swirl3"@.len() == 33);
        assert("com.alightcreative.effects.brightnesscontrast"@.len() == 45 && "com.alightcreative.effects.swirl3"@.len() == 33);
        assert("com.alightcreative.effects.saturationvibrance"@.len() == 45 && "com.alightcreative.effects.swirl3"@.len() == 33);
        assert("com.alightcreative.effects.satvib"@[28] == 'a' && "com.alightcreative.effects.swirl3"@[28] == 'w');
        assert("com.alightcreative.effects.colortint"@.len() == 36 && "com.alightcreative.effects.swirl3"@.len() == 33);
        assert("com.alightcreative.effects.colorize"@.len() == 35 && "com.alightcreative.effects.swirl3"@.len() == 33);
        assert("com.alightcreative.effects.highlightshadow"@.len() == 42 && "com.alightcreative.effects.swirl3"@.len() == 33);
        assert("com.alightcreative.effects.vignette"@.len() == 35 && "com.alightcreative.effects.swirl3"@.len() == 33);
        assert("com.alightcreative.effects.sharpen"@.len() == 34 && "com.alightcreative.effects.swirl3"@.len() == 33);
        assert("com.alightcreative.effects.gaussianblur"@.len() == 39 && "com.alightcreative.effects.swirl3"@.len() == 33);
        assert("com.alightcreative.effects.lensblur"@.len() == 35 && "com.alightcreative.effects.swirl3"@.len() == 33);
        assert("com.alightcreative.effects.gradientoverlay"@.len() == 42 && "com.alightcreative.effects.swirl3"@.len() == 33);
        assert("com.alightcreative.effects.lift"@.len() == 31 && "com.alightcreative.effects.swirl3"@.len() == 33);
        assert("com.alightcreative.effects.lumakey"@.len() == 34 && "com.alightcreative.effects.swirl3"@.len() == 33);
        assert("com.alightcreative.effects.offset"@[27] == 'o' && "com.alightcreative.effects.swirl3"@[27] == 's');
        assert("com.alightcreative.effects.findedges"@.len() == 36 && "com.alightcreative.effects.swirl3"@.len() == 33);
        assert("com.alightcreative.effects.stretchsegment"@.len() == 41 && "com.alightcreative.effects.swirl3"@.len() == 33);
        assert("com.alightcreative.effects.swirl4"@[32] == '4' && "com.alightcreative.effects.swirl3"@[32] == '3');
    } else if id == "com.alightcreative.effects.swirl2"@ {
        assert("com.alightcreative.effects.oscillate3"@.len() == 37 && "com.alightcreative.effects.swirl2"@.len() == 33);
        assert("com.alightcreative.effects.swing2"@[30] == 'n' && "com.alightcreative.effects.swirl2"@[30] == 'r');
        assert("com.alightcreative.effects.randomdisplace"@.len() == 41 && "com.alightcreative.effects.swirl2"@.len() == 33);
        assert("com.alightcreative.effects.motionblur3"@.len() == 38 && "com.alightcreative.effects.swirl2"@.len() == 33);
        assert("com.alightcreative.effects.blink"@.len() == 32 && "com.alightcreative.effects.swirl2"@.len() == 33);
        assert("com.alightcreative.effects.fade"@.len() == 31 && "com.alightcreative.effects.swirl2"@.len() == 33);
        assert("com.alightcreative.effects.tile"@.len() == 31 && "com.alightcreative.effects.swirl2"@.len() == 33);
        assert("com.alightcreative.effects.exposure"@.len() == 35 && "com.alightcreative.effects.swirl2"@.len() == 33);
        assert("com.alightcreative.effects.brightnesscontrast"@.len() == 45 && "com.alightcreative.effects.swirl2"@.len() == 33);
        assert("com.alightcreative.effects.saturationvibrance"@.len() == 45 && "com.alightcreative.effects.swirl2"@.len() == 33);
        assert("com.alightcreative.effects.satvib"@[28] == 'a' && "com.alightcreative.effects.swirl2"@[28] == 'w');
        assert("com.alightcreative.effects.colortint"@.len() == 36 && "com.alightcreative.effects.swirl2"@.len() == 33);
        assert("com.alightcreative.effects.colorize"@.len() == 35 && "com.alightcreative.effects.swirl2"@.len() == 33);
        assert("com.alightcreative.effects.highlightshadow"@.len() == 42 && "com.alightcreative.effects.swirl2"@.len() == 33);
        assert("com.alightcreative.effects.vignette"@.len() == 35 && "com.alightcreative.effects.swirl2"@.len() == 33);
        assert("com.alightcreative.effects.sharpen"@.len() == 34 && "com.alightcreative.effects.swirl2"@.len() == 33);
        assert("com.alightcreative.effects.gaussianblur"@.len() == 39 && "com.alightcreative.effects.swirl2"@.len() == 33);
        assert("com.alightcreative.effects.lensblur"@.len() == 35 && "com.alightcreative.effects.swirl2"@.len() == 33);
        assert("com.alightcreative.effects.gradientoverlay"@.len() == 42 && "com.alightcreative.effects.swirl2"@.len() == 33);
        assert("com.alightcreative.effects.lift"@.len() == 31 && "com.alightcreative.effects.swirl2"@.len() == 33);
        assert("com.alightcreative.effects.lumakey"@.len() == 34 && "com.alightcreative.effects.swirl2"@.len() == 33);
        assert("com.alightcreative.effects.offset"@[27] == 'o' && "com.alightcreative.effects.swirl2"@[27] == 's');
        assert("com.alightcreative.effects.findedges"@.len() == 36 && "com.alightcreative.effects.swirl2"@.len() == 33);
        assert("com.alightcreative.effects.stretchsegment"@.len() == 41 && "com.alightcreative.effects.swirl2"@.len() == 33);
        assert("com.alightcreative.effects.swirl4"@[32] == '4' && "com.alightcreative.effects.swirl2"@[32] == '2');
        assert("com.alightcreative.effects.swirl3"@[32] == '3' && "com.alightcreative.effects.swirl2"@[32] == '2');
    } else if id == "com.alightcreative.effects.swirl"@ {
        assert("com.alightcreative.effects.oscillate3"@.len() == 37 && "com.alightcreative.effects.swirl"@.len() == 32);
        assert("com.alightcreative.effects.swing2"@.len() == 33 && "com.alightcreative.effects.swirl"@.len() == 32);
        assert("com.alightcreative.effects.randomdisplace"@.len() == 41 && "com.alightcreative.effects.swirl"@.len() == 32);
        assert("com.alightcreative.effects.motionblur3"@.len() == 38 && "com.alightcreative.effects.swirl"@.len() == 32);
        assert("com.alightcreative.effects.blink"@[27] == 'b' && "com.alightcreative.effects.swirl"@[27] == 's');
        assert("com.alightcreative.effects.fade"@.len() == 31 && "com.alightcreative.effects.swirl"@.len() == 32);
        assert("com.alightcreative.effects.tile"@.len() == 31 && "com.alightcreative.effects.swirl"@.len() == 32);
        assert("com.alightcreative.effects.exposure"@.len() == 35 && "com.alightcreative.effects.swirl"@.len() == 32);
        assert("com.alightcreative.effects.brightnesscontrast"@.len() == 45 && "com.alightcreative.effects.swirl"@.len() == 32);
        assert("com.alightcreative.effects.saturationvibrance"@.len() == 45 && "com.alightcreative.effects.swirl"@.len() == 32);
        assert("com.alightcreative.effects.satvib"@.len() == 33 && "com.alightcreative.effects.swirl"@.len() == 32);
        assert("com.alightcreative.effects.colortint"@.len() == 36 && "com.alightcreative.effects.swirl"@.len() == 32);
        assert("com.alightcreative.effects.colorize"@.len() == 35 && "com.alightcreative.effects.swirl"@.len() == 32);
        assert("com.alightcreative.effects.highlightshadow"@.len() == 42 && "com.alightcreative.effects.swirl"@.len() == 32);
        assert("com.alightcreative.effects.vignette"@.len() == 35 && "com.alightcreative.effects.swirl"@.len() == 32);
        assert("com.alightcreative.effects.sharpen"@.len() == 34 && "com.alightcreative.effects.swirl"@.len() == 32);
        assert("com.alightcreative.effects.gaussianblur"@.len() == 39 && "com.alightcreative.effects.swirl"@.len() == 32);
        assert("com.alightcreative.effects.lensblur"@.len() == 35 && "com.alightcreative.effects.swirl"@.len() == 32);
        assert("com.alightcreative.effects.gradientoverlay"@.len() == 42 && "com.alightcreative.effects.swirl"@.len() == 32);
        assert("com.alightcreative.effects.lift"@.len() == 31 && "com.alightcreative.effects.swirl"@.len() == 32);
        assert("com.alightcreative.effects.lumakey"@.len() == 34 && "com.alightcreative.effects.swirl"@.len() == 32);
        assert("com.alightcreative.effects.offset"@.len() == 33 && "com.alightcreative.effects.swirl"@.len() == 32);
        assert("com.alightcreative.effects.findedges"@.len() == 36 && "com.alightcreative.effects.swirl"@.len() == 32);
        assert("com.alightcreative.effects.stretchsegment"@.len() == 41 && "com.alightcreative.effects.swirl"@.len() == 32);
        assert("com.alightcreative.effects.swirl4"@.len() == 33 && "com.alightcreative.effects.swirl"@.len() == 32);
        assert("com.alightcreative.effects.swirl3"@.len() == 33 && "com.alightcreative.effects.swirl"@.len() == 32);
        assert("com.alightcreative.effects.swirl2"@.len() == 33 && "com.alightcreative.effects.swirl"@.len() == 32);
    }
}

/// Every version of the swirl effect is recognised as a swirl: the plain
/// identifier, and each identifier that carries its own falloff exponent.
pub proof fn lemma_swirl_versions_are_swirls(id: Seq<char>)
    requires
        swirl_exponent_of(id) != 1 || id == "com.alightcreative.effects.swirl"@,
    ensures
        known_kind_of_id(id) == Some(EffectKind::Swirl),
{
    lemma_swirl_id_known(id);
}

/// Read the falloff exponent of a swirl effect from its identifier.
pub fn swirl_exponent(id: &str) -> (e: i32)
    ensures
        e == swirl_exponent_of(id@),
{
    if str_eq(id, "com.alightcreative.effects.swirl2") {
        2
    } else if str_eq(id, "com.alightcreative.effects.swirl3") {
        3
    } else if str_eq(id, "com.alightcreative.effects.swirl4") {
        4
    } else {
        1
    }
}

/// Whether the list of switched-off effect names holds `name`.
pub fn is_effect_disabled(disabled: &[String], name: &str) -> (b: bool)
    ensures
        b == exists|i: int| 0 <= i < disabled@.len() && (#[trigger] disabled@[i])@ == name@,
{
    let mut i: usize = 0;
    while i < disabled.len()
        invariant
            i <= disabled@.len(),
            forall|j: int| 0 <= j < i ==> (#[trigger] disabled@[j])@ != name@,
        decreases disabled@.len() - i,
    {
        if str_eq(disabled[i].as_str(), name) {
            return true;
        }
        i = i + 1;
    }
    false
}

} // verus!
