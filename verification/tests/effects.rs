use am_renderer::effects::{effect_kind_from_id, is_effect_disabled, swirl_exponent, EffectKind};

#[test]
fn effect_ids() {
    let p = "com.alightcreative.effects.";
    let cases = [
        ("oscillate3", EffectKind::Oscillate, "Oscillate"),
        ("swing2", EffectKind::Swing, "Swing"),
        ("randomdisplace", EffectKind::RandomDisplace, "RandomDisplace"),
        ("motionblur3", EffectKind::MotionBlur, "MotionBlur"),
        ("blink", EffectKind::Blink, "Blink"),
        ("fade", EffectKind::Fade, "Fade"),
        ("tile", EffectKind::Tile, "Tile"),
        ("exposure", EffectKind::Exposure, "Exposure"),
        ("brightnesscontrast", EffectKind::BrightnessContrast, "BrightnessContrast"),
        ("saturationvibrance", EffectKind::SaturationVibrance, "SaturationVibrance"),
        ("satvib", EffectKind::SaturationVibrance, "SaturationVibrance"),
        ("colortint", EffectKind::ColorTint, "ColorTint"),
        ("colorize", EffectKind::Colorize, "Colorize"),
        ("highlightshadow", EffectKind::HighlightShadow, "HighlightShadow"),
        ("vignette", EffectKind::Vignette, "Vignette"),
        ("sharpen", EffectKind::Sharpen, "Sharpen"),
        ("gaussianblur", EffectKind::GaussianBlur, "GaussianBlur"),
        ("lensblur", EffectKind::LensBlur, "LensBlur"),
        ("gradientoverlay", EffectKind::GradientOverlay, "GradientOverlay"),
        ("lift", EffectKind::Lift, "Lift"),
        ("lumakey", EffectKind::LumaKey, "LumaKey"),
        ("offset", EffectKind::Offset, "Offset"),
        ("findedges", EffectKind::FindEdges, "FindEdges"),
        ("stretchsegment", EffectKind::StretchSegment, "StretchSegment"),
        ("swirl4", EffectKind::Swirl, "Swirl"),
        ("swirl", EffectKind::Swirl, "Swirl"),
        ("spin", EffectKind::Spin, "Spin"),
        ("wipe2", EffectKind::Wipe, "Wipe"),
        ("wipe", EffectKind::Wipe, "Wipe"),
    ];
    for (id, kind, name) in cases {
        let k = effect_kind_from_id(&format!("{}{}", p, id));
        assert_eq!(k, kind, "{}", id);
        assert_eq!(k.variant_name(), name);
    }
    let u = effect_kind_from_id("com.example.glow");
    assert_eq!(u, EffectKind::Unknown("com.example.glow".to_string()));
    assert_eq!(u.variant_name(), "Unknown");
    assert_eq!(effect_kind_from_id("oscillate3"), EffectKind::Unknown("oscillate3".to_string()));
}

#[test]
fn swirl_exponents() {
    assert_eq!(swirl_exponent("com.alightcreative.effects.swirl2"), 2);
    assert_eq!(swirl_exponent("com.alightcreative.effects.swirl3"), 3);
    assert_eq!(swirl_exponent("com.alightcreative.effects.swirl4"), 4);
    assert_eq!(swirl_exponent("com.alightcreative.effects.swirl"), 1);
}

#[test]
fn disabled_effects() {
    let d = vec!["Tile".to_string(), "Swirl".to_string()];
    assert!(is_effect_disabled(&d, "Swirl"));
    assert!(!is_effect_disabled(&d, "swirl"));
    assert!(!is_effect_disabled(&[], "Tile"));
}
