use am_renderer::xml::{XmlAudio, XmlBookmark, XmlMedia, XmlNode, XmlScene, XmlShape};

fn media(uri: &str) -> XmlNode {
    XmlNode::Media(XmlMedia {
        uri: uri.to_string(),
        filename: None,
        title: None,
        kind: Some("image".to_string()),
        duration: None,
        size: None,
        sig: None,
        width: None,
        height: None,
    })
}

fn shape(id: &str) -> XmlNode {
    XmlNode::Shape(XmlShape {
        id: id.to_string(),
        label: None,
        start_time: "0".to_string(),
        end_time: "1000".to_string(),
        fill_type: None,
        fill_image: None,
        media_fill_mode: None,
        s: None,
        blending: None,
        hidden: None,
        transform: None,
        effects: vec![],
        fill_color: None,
        gradient: None,
        properties: vec![],
    })
}

fn audio(id: &str) -> XmlNode {
    XmlNode::Audio(XmlAudio {
        id: id.to_string(),
        label: None,
        start_time: "0".to_string(),
        end_time: "10".to_string(),
        src: None,
        in_time: None,
        out_time: None,
        gain: None,
    })
}

fn scene(children: Vec<XmlNode>) -> XmlScene {
    XmlScene {
        title: None,
        width: "1920".to_string(),
        height: "1080".to_string(),
        export_width: None,
        export_height: None,
        bgcolor: None,
        total_time: "1000".to_string(),
        fps: "30".to_string(),
        amver: None,
        ffver: None,
        am: None,
        amplatform: None,
        precompose: None,
        retime: None,
        children,
    }
}

#[test]
fn children_are_sorted_by_kind_in_document_order() {
    let sc = scene(vec![
        shape("1"),
        media("a"),
        XmlNode::Bookmark(XmlBookmark { t: "5".to_string() }),
        audio("7"),
        shape("2"),
        media("b"),
        shape("3"),
    ]);
    let m: Vec<&str> = sc.media().iter().map(|m| m.uri.as_str()).collect();
    assert_eq!(m, vec!["a", "b"]);
    let s: Vec<&str> = sc.shapes().iter().map(|s| s.id.as_str()).collect();
    assert_eq!(s, vec!["1", "2", "3"]);
    let a: Vec<&str> = sc.audio().iter().map(|a| a.id.as_str()).collect();
    assert_eq!(a, vec!["7"]);
    let b: Vec<&str> = sc.bookmarks().iter().map(|b| b.t.as_str()).collect();
    assert_eq!(b, vec!["5"]);
}

#[test]
fn empty_scene_has_no_children_of_any_kind() {
    let sc = scene(vec![]);
    assert!(sc.media().is_empty());
    assert!(sc.shapes().is_empty());
    assert!(sc.audio().is_empty());
    assert!(sc.bookmarks().is_empty());
}
