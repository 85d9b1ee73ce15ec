use am_renderer::model::{
    blend_mode_to_str, fill_type_to_str, str_to_blend_mode, str_to_fill_type, BlendMode,
    FillType,
};

#[test]
fn blend_mode_names_round_trip() {
    let all = [
        BlendMode::Normal,
        BlendMode::Multiply,
        BlendMode::Screen,
        BlendMode::Overlay,
        BlendMode::Darken,
        BlendMode::Lighten,
        BlendMode::Subtract,
        BlendMode::Add,
    ];
    for m in all {
        assert_eq!(str_to_blend_mode(blend_mode_to_str(m)), m);
    }
    assert_eq!(blend_mode_to_str(BlendMode::Add), "Add");
    assert_eq!(str_to_blend_mode("multiply"), BlendMode::Normal);
    assert_eq!(str_to_blend_mode(""), BlendMode::Normal);
}

#[test]
fn fill_type_names_round_trip() {
    for t in [FillType::NoFill, FillType::Media, FillType::Color, FillType::Gradient] {
        assert_eq!(str_to_fill_type(fill_type_to_str(t)), t);
    }
    assert_eq!(fill_type_to_str(FillType::NoFill), "None");
    assert_eq!(str_to_fill_type("Bogus"), FillType::NoFill);
    assert_eq!(BlendMode::default(), BlendMode::Normal);
    assert_eq!(FillType::default(), FillType::NoFill);
}
