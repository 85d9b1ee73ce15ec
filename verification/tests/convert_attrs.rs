use am_renderer::convert::{
    blend_mode_from_attr, convert_media, easing_bezier_words, fill_type_from_shape, find_property,
    flag_value, get_prop_bool, parse_id, prop_value, vec_parts,
};
use am_renderer::model::{BlendMode, FillType};
use am_renderer::xml::{XmlFillColor, XmlGradient, XmlMedia, XmlProperty, XmlShape};

fn s(v: &str) -> Option<String> {
    Some(v.to_string())
}

fn prop(name: &str, value: Option<&str>) -> XmlProperty {
    XmlProperty { name: name.to_string(), kind: None, value: value.map(|v| v.to_string()), keyframes: vec![] }
}

fn shape() -> XmlShape {
    XmlShape {
        id: "1".to_string(),
        label: None,
        start_time: "0".to_string(),
        end_time: "1000".to_string(),
        fill_type: None,
        fill_image: None,
        media_fill_mode: None,
        s: None,
        blending: None,
        hidden: None,
        transform: None,
        effects: vec![],
        fill_color: None,
        gradient: None,
        properties: vec![],
    }
}

#[test]
fn blending_attribute() {
    assert_eq!(blend_mode_from_attr(&s("multiply")), BlendMode::Multiply);
    assert_eq!(blend_mode_from_attr(&s("screen")), BlendMode::Screen);
    assert_eq!(blend_mode_from_attr(&s("overlay")), BlendMode::Overlay);
    assert_eq!(blend_mode_from_attr(&s("darken")), BlendMode::Darken);
    assert_eq!(blend_mode_from_attr(&s("lighten")), BlendMode::Lighten);
    assert_eq!(blend_mode_from_attr(&s("subtract")), BlendMode::Subtract);
    assert_eq!(blend_mode_from_attr(&s("add")), BlendMode::Add);
    assert_eq!(blend_mode_from_attr(&s("linear-dodge")), BlendMode::Add);
    assert_eq!(blend_mode_from_attr(&s("Multiply")), BlendMode::Normal);
    assert_eq!(blend_mode_from_attr(&None), BlendMode::Normal);
}

#[test]
fn fill_type_inference() {
    let mut sh = shape();
    assert_eq!(fill_type_from_shape(&sh), FillType::NoFill);
    sh.gradient = Some(XmlGradient { kind: s("linear"), start_color: None, end_color: None, start: None, end: None });
    assert_eq!(fill_type_from_shape(&sh), FillType::Gradient);
    sh.fill_color = Some(XmlFillColor { value: "#FF000000".to_string() });
    assert_eq!(fill_type_from_shape(&sh), FillType::Color);
    sh.fill_image = s("am-internal:///def.PNG");
    assert_eq!(fill_type_from_shape(&sh), FillType::Media);
    sh.fill_type = s("gradient");
    assert_eq!(fill_type_from_shape(&sh), FillType::Gradient);
    sh.fill_type = s("color");
    assert_eq!(fill_type_from_shape(&sh), FillType::Color);
    sh.fill_type = s("unknown");
    assert_eq!(fill_type_from_shape(&sh), FillType::Media);
}

#[test]
fn flags() {
    assert!(flag_value(&s("true"), false));
    assert!(!flag_value(&s("TRUE"), true));
    assert!(!flag_value(&s("1"), true));
    assert!(flag_value(&None, true));
    assert!(!flag_value(&None, false));
}

#[test]
fn property_lookup_takes_first_match() {
    let props = vec![prop("mirror", Some("true")), prop("size", Some("1,2")), prop("mirror", Some("false")), prop("empty", None)];
    assert_eq!(find_property(&props, "mirror"), Some(0));
    assert_eq!(find_property(&props, "size"), Some(1));
    assert_eq!(find_property(&props, "nope"), None);
    assert_eq!(prop_value(&props, "size"), s("1,2"));
    assert_eq!(prop_value(&props, "empty"), None);
    assert!(get_prop_bool(&props, "mirror", false));
    assert!(get_prop_bool(&props, "empty", true));
    assert!(!get_prop_bool(&props, "nope", false));
    assert!(!get_prop_bool(&props, "size", true));
}

#[test]
fn media_conversion() {
    let m = XmlMedia {
        uri: "am-internal:///def.PNG".to_string(),
        filename: None,
        title: s("Pic"),
        kind: s("image/png"),
        duration: None,
        size: s("939837"),
        sig: None,
        width: s("540"),
        height: s("9x"),
    };
    let r = convert_media(&m);
    assert_eq!(r.uri, "am-internal:///def.PNG");
    assert_eq!(r.title, s("Pic"));
    assert_eq!(r.mime_type, s("image/png"));
    assert_eq!(r.filename, None);
    assert_eq!(r.width, Some(540));
    assert_eq!(r.height, None);
}

#[test]
fn identifiers() {
    assert_eq!(parse_id("410976"), 410976);
    assert_eq!(parse_id("abc"), 0);
    assert_eq!(parse_id("18446744073709551616"), 0);
    assert_eq!(parse_id(""), 0);
}

#[test]
fn easing_words() {
    let w = easing_bezier_words(&s("local cubicBezier 0.0 0.80374336 0.58 1.0")).unwrap();
    assert_eq!(w, vec!["0.0", "0.80374336", "0.58", "1.0"]);
    let w = easing_bezier_words(&s("cubicBezier 1 2 3 4 5")).unwrap();
    assert_eq!(w, vec!["1", "2", "3", "4"]);
    assert_eq!(easing_bezier_words(&s("local cubicBezier 0.0 0.0 0.58")), None);
    assert_eq!(easing_bezier_words(&s("linear")), None);
    assert_eq!(easing_bezier_words(&s("   ")), None);
    assert_eq!(easing_bezier_words(&None), None);
}

#[test]
fn vector_components() {
    assert_eq!(vec_parts("540.000000,960.000000,0.000000", 3).unwrap(), vec!["540.000000", "960.000000", "0.000000"]);
    assert_eq!(vec_parts(" 1.5 , 2 ", 2).unwrap(), vec!["1.5", "2"]);
    assert_eq!(vec_parts("1,2", 3).unwrap(), vec!["1", "2"]);
    assert_eq!(vec_parts("1,2,3", 2).unwrap(), vec!["1", "2"]);
    assert_eq!(vec_parts("7", 2), None);
    assert_eq!(vec_parts("7", 3), None);
}
