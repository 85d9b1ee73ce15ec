use am_renderer::assets::{classify_extension, media_is_audio, pair_assets, AssetError, AssetKind, LayerFill};
use am_renderer::convert::MediaRef;
use am_renderer::model::FillType;
use am_renderer::order::{lex_le_str, sort_strings, sorted_distinct_strings};

fn media(uri: &str, mime: Option<&str>) -> MediaRef {
    MediaRef { uri: uri.to_string(), filename: None, title: None, mime_type: mime.map(|m| m.to_string()), width: None, height: None }
}

fn fill(t: FillType, img: Option<&str>) -> LayerFill {
    LayerFill { fill_type: t, fill_image: img.map(|s| s.to_string()) }
}

fn strs(v: &[&str]) -> Vec<String> {
    v.iter().map(|s| s.to_string()).collect()
}

#[test]
fn audio_detection() {
    assert!(media_is_audio(&media("x", Some("audio/mpeg"))));
    assert!(media_is_audio(&media("am-internal:///a.mp3", None)));
    assert!(media_is_audio(&media("a.wav", Some("image/png"))));
    assert!(media_is_audio(&media("a.m4a", None)));
    assert!(!media_is_audio(&media("a.MP3", None)));
    assert!(!media_is_audio(&media("a.png", Some("image/png"))));
}

#[test]
fn pairs_images_and_audio_round_robin() {
    let fills = vec![
        fill(FillType::Media, Some("am-internal:///c.png")),
        fill(FillType::Color, Some("am-internal:///ignored.png")),
        fill(FillType::Media, Some("am-internal:///a.png")),
    ];
    let med = vec![media("am-internal:///b.png", Some("image/png")), media("am-internal:///song.mp3", Some("audio/mpeg")), media("am-internal:///a.png", None)];
    let srcs = vec![Some("am-internal:///song.mp3".to_string()), None];
    let images = strs(&["assets/z.png", "assets/m.jpg"]);
    let audio = strs(&["assets/t.mp3"]);
    let pairs = pair_assets(&fills, &med, &srcs, images, audio).unwrap();
    let expected = vec![
        ("am-internal:///a.png".to_string(), "assets/m.jpg".to_string()),
        ("am-internal:///b.png".to_string(), "assets/z.png".to_string()),
        ("am-internal:///c.png".to_string(), "assets/m.jpg".to_string()),
        ("am-internal:///song.mp3".to_string(), "assets/t.mp3".to_string()),
    ];
    assert_eq!(pairs, expected);
}

#[test]
fn missing_assets_are_errors() {
    let fills = vec![fill(FillType::Media, Some("u.png"))];
    let srcs = vec![Some("s.mp3".to_string())];
    assert_eq!(pair_assets(&fills, &[], &srcs, vec![], vec![]), Err(AssetError::NoImages));
    assert_eq!(pair_assets(&fills, &[], &srcs, strs(&["i.png"]), vec![]), Err(AssetError::NoAudio));
    assert_eq!(pair_assets(&[], &[], &[], vec![], vec![]), Ok(vec![]));
}

#[test]
fn sorting_matches_std() {
    let v = strs(&["b", "a", "ab", "", "é", "Z", "b", "aa"]);
    let mut std = v.clone();
    std.sort();
    assert_eq!(sort_strings(v.clone()), std);
    let mut d = std.clone();
    d.dedup();
    assert_eq!(sorted_distinct_strings(v), d);
    assert!(lex_le_str("a", "ab"));
    assert!(!lex_le_str("b", "ab"));
    assert!(lex_le_str("", ""));
}

#[test]
fn extensions() {
    for e in ["png", "jpg", "jpeg", "webp", "bmp", "gif"] {
        assert_eq!(classify_extension(e), AssetKind::Image);
    }
    for e in ["mp3", "wav", "m4a", "ogg", "aac", "flac", "mp4"] {
        assert_eq!(classify_extension(e), AssetKind::Audio);
    }
    assert_eq!(classify_extension("PNG"), AssetKind::Other);
    assert_eq!(classify_extension("txt"), AssetKind::Other);
}
