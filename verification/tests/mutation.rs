use am_renderer::mutation::{classify_property, easing_call_args, PropertyTarget};

#[test]
fn property_names() {
    assert_eq!(classify_property("start_time"), PropertyTarget::StartTime);
    assert_eq!(classify_property("end_time"), PropertyTarget::EndTime);
    assert_eq!(classify_property("location"), PropertyTarget::Location);
    assert_eq!(classify_property("scale"), PropertyTarget::Scale);
    assert_eq!(classify_property("rotation"), PropertyTarget::Rotation);
    assert_eq!(classify_property("opacity"), PropertyTarget::Opacity);
    assert_eq!(classify_property("Opacity"), PropertyTarget::Unknown);
    assert_eq!(classify_property(""), PropertyTarget::Unknown);
}

#[test]
fn property_component_counts() {
    assert_eq!(PropertyTarget::Location.components(), 3);
    assert_eq!(PropertyTarget::Scale.components(), 2);
    assert_eq!(PropertyTarget::Rotation.components(), 1);
    assert_eq!(PropertyTarget::Opacity.components(), 1);
    assert_eq!(PropertyTarget::StartTime.components(), 0);
    assert_eq!(PropertyTarget::Unknown.components(), 0);
}

#[test]
fn easing_text() {
    assert_eq!(
        easing_call_args("CubicBezier(0.25, 0.1,0.25 , 1.0)"),
        Some(vec!["0.25".to_string(), "0.1".to_string(), "0.25".to_string(), "1.0".to_string()])
    );
    assert_eq!(
        easing_call_args("  CubicBezier(1,2,3,4)  "),
        Some(vec!["1".to_string(), "2".to_string(), "3".to_string(), "4".to_string()])
    );
    assert_eq!(easing_call_args("Linear"), None);
    assert_eq!(easing_call_args("  Linear "), None);
    assert_eq!(easing_call_args("CubicBezier(1,2,3)"), None);
    assert_eq!(easing_call_args("CubicBezier(1,2,3,4,5)"), None);
    assert_eq!(easing_call_args("CubicBezier(1,2,3,4"), None);
    assert_eq!(easing_call_args("EaseIn"), None);
    assert_eq!(easing_call_args(""), None);
    assert_eq!(
        easing_call_args("CubicBezier(,,,)"),
        Some(vec![String::new(), String::new(), String::new(), String::new()])
    );
}
