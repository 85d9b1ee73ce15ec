//! Pairing the media a project refers to with the files found in an assets
//! directory: the distinct image URIs in order are given the image files in
//! order, round robin, and likewise the audio URIs the audio files. Listing
//! the directory is the caller's; it hands over the paths it found, as text.

use vstd::prelude::*;
use crate::model::FillType;
use crate::convert::{MediaRef, opt_view};
use crate::text::{starts_with, ends_with, has_prefix, has_suffix, views_of, str_eq};
use crate::order::{sort_strings, sorted_distinct_strings, sorted_distinct, lex_order};

verus! {

/// How a layer is filled, as far as asset pairing is concerned.
#[derive(Debug, Clone, PartialEq, Eq)]
pub struct LayerFill {
    pub fill_type: FillType,
    pub fill_image: Option<String>,
}

/// A project refers to media of a kind of which the assets hold no file.
#[derive(Debug, Clone, Copy, PartialEq, Eq, Structural)]
pub enum AssetError {
    /// Images are needed and the assets hold none.
    NoImages,
    /// Audio is needed and the assets hold none.
    NoAudio,
}

/// A media reference is audio: its MIME type starts with `audio/`, or its
/// URI ends with `.mp3`, `.wav` or `.m4a`.
pub open spec fn is_audio_media(m: MediaRef) -> bool {
    (match opt_view(m.mime_type) {
        Some(t) => has_prefix(t, "audio/"@),
        None => false,
    }) || has_suffix(m.uri@, ".mp3"@) || has_suffix(m.uri@, ".wav"@) || has_suffix(
        m.uri@,
        ".m4a"@,
    )
}

/// Decide `is_audio_media`.
pub fn media_is_audio(m: &MediaRef) -> (b: bool)
    ensures
        b == is_audio_media(*m),
{
    let by_type = match &m.mime_type {
        Some(t) => starts_with(t.as_str(), "audio/"),
        None => false,
    };
    by_type || ends_with(m.uri.as_str(), ".mp3") || ends_with(m.uri.as_str(), ".wav")
        || ends_with(m.uri.as_str(), ".m4a")
}

/// The fill images of media-filled layers, in layer order.
pub open spec fn layer_images(fills: Seq<LayerFill>) -> Seq<Seq<char>>
    decreases fills.len(),
{
    if fills.len() == 0 {
        Seq::empty()
    } else {
        let rest = layer_images(fills.drop_last());
        let f = fills.last();
        if f.fill_type == FillType::Media && f.fill_image is Some {
            rest.push(f.fill_image->0@)
        } else {
            rest
        }
    }
}

/// The URIs of the media that are not audio, in order.
pub open spec fn image_media(media: Seq<MediaRef>) -> Seq<Seq<char>>
    decreases media.len(),
{
    if media.len() == 0 {
        Seq::empty()
    } else {
        let rest = image_media(media.drop_last());
        if is_audio_media(media.last()) {
            rest
        } else {
            rest.push(media.last().uri@)
        }
    }
}

/// The sources of the audio tracks that have one, in order.
pub open spec fn audio_sources(srcs: Seq<Option<String>>) -> Seq<Seq<char>>
    decreases srcs.len(),
{
    if srcs.len() == 0 {
        Seq::empty()
    } else {
        let rest = audio_sources(srcs.drop_last());
        match srcs.last() {
            Some(s) => rest.push(s@),
            None => rest,
        }
    }
}

/// Each key with the value at its position, counted round robin.
pub open spec fn pair_round_robin(keys: Seq<Seq<char>>, vals: Seq<Seq<char>>) -> Seq<
    (Seq<char>, Seq<char>),
> {
    Seq::new(keys.len(), |i: int| (keys[i], vals[i % (vals.len() as int)]))
}

/// The views of a list of pairs of strings.
pub open spec fn pair_views(v: Seq<(String, String)>) -> Seq<(Seq<char>, Seq<char>)> {
    v.map_values(|p: (String, String)| (p.0@, p.1@))
}

/// The outcome of pairing: the error where a needed kind has no file, else
/// the image pairs followed by the audio pairs.
pub open spec fn pairing_spec(
    fills: Seq<LayerFill>,
    media: Seq<MediaRef>,
    srcs: Seq<Option<String>>,
    images: Seq<Seq<char>>,
    audio: Seq<Seq<char>>,
) -> Result<Seq<(Seq<char>, Seq<char>)>, AssetError> {
    let img_keys = sorted_distinct(layer_images(fills) + image_media(media));
    let aud_keys = sorted_distinct(audio_sources(srcs));
    if img_keys.len() > 0 && images.len() == 0 {
        Err(AssetError::NoImages)
    } else if aud_keys.len() > 0 && audio.len() == 0 {
        Err(AssetError::NoAudio)
    } else {
        Ok(
            pair_round_robin(img_keys, images.sort_by(lex_order())) + pair_round_robin(
                aud_keys,
                audio.sort_by(lex_order()),
            ),
        )
    }
}

fn push_layer_images(fills: &[LayerFill], out: &mut Vec<String>)
    ensures
        views_of(final(out)@) == views_of(old(out)@) + layer_images(fills@),
{
    let mut i: usize = 0;
    while i < fills.len()
        invariant
            i <= fills@.len(),
            views_of(out@) == views_of(old(out)@) + layer_images(fills@.take(i as int)),
        decreases fills@.len() - i,
    {
        assert(fills@.take(i + 1).drop_last() =~= fills@.take(i as int));
        let ghost prev = out@;
        if fills[i].fill_type == FillType::Media {
            if let Some(u) = &fills[i].fill_image {
                out.push(u.clone());
                assert(views_of(out@) =~= views_of(prev).push(u@));
            }
        }
        i = i + 1;
    }
    assert(fills@.take(fills@.len() as int) =~= fills@);
}

fn push_image_media(media: &[MediaRef], out: &mut Vec<String>)
    ensures
        views_of(final(out)@) == views_of(old(out)@) + image_media(media@),
{
    let mut i: usize = 0;
    while i < media.len()
        invariant
            i <= media@.len(),
            views_of(out@) == views_of(old(out)@) + image_media(media@.take(i as int)),
        decreases media@.len() - i,
    {
        assert(media@.take(i + 1).drop_last() =~= media@.take(i as int));
        let ghost prev = out@;
        if !media_is_audio(&media[i]) {
            out.push(media[i].uri.clone());
            assert(views_of(out@) =~= views_of(prev).push(media@[i as int].uri@));
        }
        i = i + 1;
    }
    assert(media@.take(media@.len() as int) =~= media@);
}

fn collect_audio_sources(srcs: &[Option<String>]) -> (out: Vec<String>)
    ensures
        views_of(out@) == audio_sources(srcs@),
{
    let mut out: Vec<String> = Vec::new();
    let mut i: usize = 0;
    while i < srcs.len()
        invariant
            i <= srcs@.len(),
            views_of(out@) == audio_sources(srcs@.take(i as int)),
        decreases srcs@.len() - i,
    {
        assert(srcs@.take(i + 1).drop_last() =~= srcs@.take(i as int));
        let ghost prev = out@;
        if let Some(s) = &srcs[i] {
            out.push(s.clone());
            assert(views_of(out@) =~= views_of(prev).push(s@));
        }
        i = i + 1;
    }
    assert(srcs@.take(srcs@.len() as int) =~= srcs@);
    out
}

fn append_round_robin(keys: &Vec<String>, vals: &Vec<String>, out: &mut Vec<(String, String)>)
    requires
        keys@.len() > 0 ==> vals@.len() > 0,
    ensures
        pair_views(final(out)@) == pair_views(old(out)@) + pair_round_robin(
            views_of(keys@),
            views_of(vals@),
        ),
{
    let mut i: usize = 0;
    while i < keys.len()
        invariant
            i <= keys@.len(),
            keys@.len() > 0 ==> vals@.len() > 0,
            pair_views(out@) == pair_views(old(out)@) + pair_round_robin(
                views_of(keys@),
                views_of(vals@),
            ).take(i as int),
        decreases keys@.len() - i,
    {
        let ghost prev = out@;
        let v = vals[i % vals.len()].clone();
        out.push((keys[i].clone(), v));
        assert(pair_views(out@) =~= pair_views(prev).push((keys@[i as int]@, v@)));
        assert(pair_round_robin(views_of(keys@), views_of(vals@)).take(i + 1) =~= pair_round_robin(
            views_of(keys@),
            views_of(vals@),
        ).take(i as int).push((keys@[i as int]@, v@)));
        i = i + 1;
    }
    assert(pair_round_robin(views_of(keys@), views_of(vals@)).take(keys@.len() as int)
        =~= pair_round_robin(views_of(keys@), views_of(vals@)));
}

/// Pair the media of a project with asset files. `fills` describes its
/// layers, `media` its media references and `audio_srcs` the sources of its
/// audio tracks; `images` and `audio_files` are the image and audio files
/// found among the assets. Each distinct image URI in order gets the image
/// file at its position in the sorted files, counted round robin, and
/// likewise each audio URI; the image pairs come first.
pub fn pair_assets(
    fills: &[LayerFill],
    media: &[MediaRef],
    audio_srcs: &[Option<String>],
    images: Vec<String>,
    audio_files: Vec<String>,
) -> (r: Result<Vec<(String, String)>, AssetError>)
    ensures
        match r {
            Ok(pairs) => pairing_spec(
                fills@,
                media@,
                audio_srcs@,
                views_of(images@),
                views_of(audio_files@),
            ) == Ok::<Seq<(Seq<char>, Seq<char>)>, AssetError>(pair_views(pairs@)),
            Err(e) => pairing_spec(
                fills@,
                media@,
                audio_srcs@,
                views_of(images@),
                views_of(audio_files@),
            ) == Err::<Seq<(Seq<char>, Seq<char>)>, AssetError>(e),
        },
{
    let mut wanted: Vec<String> = Vec::new();
    push_layer_images(fills, &mut wanted);
    push_image_media(media, &mut wanted);
    assert(views_of(wanted@) =~= layer_images(fills@) + image_media(media@));
    let img_keys = sorted_distinct_strings(wanted);
    let aud_keys = sorted_distinct_strings(collect_audio_sources(audio_srcs));
    if img_keys.len() > 0 && images.len() == 0 {
        return Err(AssetError::NoImages);
    }
    if aud_keys.len() > 0 && audio_files.len() == 0 {
        return Err(AssetError::NoAudio);
    }
    let sorted_images = sort_strings(images);
    let sorted_audio = sort_strings(audio_files);
    proof {
        crate::order::lemma_lex_total_ordering();
        views_of(images@).lemma_sort_by_ensures(lex_order());
        views_of(audio_files@).lemma_sort_by_ensures(lex_order());
        vstd::seq_lib::to_multiset_len(views_of(images@));
        vstd::seq_lib::to_multiset_len(views_of(images@).sort_by(lex_order()));
        vstd::seq_lib::to_multiset_len(views_of(audio_files@));
        vstd::seq_lib::to_multiset_len(views_of(audio_files@).sort_by(lex_order()));
    }
    let mut pairs: Vec<(String, String)> = Vec::new();
    append_round_robin(&img_keys, &sorted_images, &mut pairs);
    append_round_robin(&aud_keys, &sorted_audio, &mut pairs);
    assert(pair_views(pairs@) =~= pair_round_robin(views_of(img_keys@), views_of(sorted_images@))
        + pair_round_robin(views_of(aud_keys@), views_of(sorted_audio@)));
    Ok(pairs)
}

proof fn lemma_sorted_same_elements(q: Seq<Seq<char>>, x: Seq<char>)
    ensures
        q.sort_by(lex_order()).contains(x) <==> q.contains(x),
{
    broadcast use vstd::seq_lib::group_to_multiset_ensures;

    crate::order::lemma_lex_total_ordering();
    q.lemma_sort_by_ensures(lex_order());
    if q.contains(x) {
        assert(q.to_multiset().count(x) > 0);
    }
}

proof fn lemma_sorted_distinct_empty(q: Seq<Seq<char>>)
    ensures
        (sorted_distinct(q).len() > 0) == (q.len() > 0),
{
    crate::order::lemma_sorted_distinct(q);
    if q.len() > 0 {
        assert(q.contains(q[0]));
        assert(sorted_distinct(q).contains(q[0]));
    }
    if sorted_distinct(q).len() > 0 {
        assert(sorted_distinct(q).contains(sorted_distinct(q)[0]));
    }
}

/// Pairing fails only for a kind of media that is needed and has no file:
/// for lack of images only when some image URI is needed and no image file
/// was found, for lack of audio only when some audio source is needed and no
/// audio file was found; otherwise it succeeds.
pub proof fn lemma_pairing_fails_only_for_missing_files(
    fills: Seq<LayerFill>,
    media: Seq<MediaRef>,
    srcs: Seq<Option<String>>,
    images: Seq<Seq<char>>,
    audio: Seq<Seq<char>>,
)
    ensures
        pairing_spec(fills, media, srcs, images, audio) == Err::<Seq<(Seq<char>, Seq<char>)>, AssetError>(AssetError::NoImages)
            ==> (layer_images(fills) + image_media(media)).len() > 0 && images.len() == 0,
        pairing_spec(fills, media, srcs, images, audio) == Err::<Seq<(Seq<char>, Seq<char>)>, AssetError>(AssetError::NoAudio)
            ==> audio_sources(srcs).len() > 0 && audio.len() == 0,
        ((layer_images(fills) + image_media(media)).len() == 0 || images.len() > 0)
            && (audio_sources(srcs).len() == 0 || audio.len() > 0)
            ==> pairing_spec(fills, media, srcs, images, audio) is Ok,
{
    lemma_sorted_distinct_empty(layer_images(fills) + image_media(media));
    lemma_sorted_distinct_empty(audio_sources(srcs));
}

/// When pairing succeeds, every image URI the project needs is paired with
/// one of the image files found, and every audio source with one of the
/// audio files found.
pub proof fn lemma_pairing_covers_needed_media(
    fills: Seq<LayerFill>,
    media: Seq<MediaRef>,
    srcs: Seq<Option<String>>,
    images: Seq<Seq<char>>,
    audio: Seq<Seq<char>>,
)
    requires
        pairing_spec(fills, media, srcs, images, audio) is Ok,
    ensures
        forall|u: Seq<char>|
            #[trigger] (layer_images(fills) + image_media(media)).contains(u) ==> exists|i: int|
                0 <= i < pairing_spec(fills, media, srcs, images, audio)->Ok_0.len()
                    && pairing_spec(fills, media, srcs, images, audio)->Ok_0[i].0 == u
                    && images.contains(pairing_spec(fills, media, srcs, images, audio)->Ok_0[i].1),
        forall|u: Seq<char>|
            #[trigger] audio_sources(srcs).contains(u) ==> exists|i: int|
                0 <= i < pairing_spec(fills, media, srcs, images, audio)->Ok_0.len()
                    && pairing_spec(fills, media, srcs, images, audio)->Ok_0[i].0 == u
                    && audio.contains(pairing_spec(fills, media, srcs, images, audio)->Ok_0[i].1),
{
    let wanted = layer_images(fills) + image_media(media);
    let img_keys = sorted_distinct(wanted);
    let aud_keys = sorted_distinct(audio_sources(srcs));
    let si = images.sort_by(lex_order());
    let sa = audio.sort_by(lex_order());
    let p = pairing_spec(fills, media, srcs, images, audio)->Ok_0;
    crate::order::lemma_sorted_distinct(wanted);
    crate::order::lemma_sorted_distinct(audio_sources(srcs));
    crate::order::lemma_lex_total_ordering();
    images.lemma_sort_by_ensures(lex_order());
    audio.lemma_sort_by_ensures(lex_order());
    vstd::seq_lib::to_multiset_len(images);
    vstd::seq_lib::to_multiset_len(si);
    vstd::seq_lib::to_multiset_len(audio);
    vstd::seq_lib::to_multiset_len(sa);
    assert forall|u: Seq<char>| #[trigger] wanted.contains(u) implies exists|i: int|
        0 <= i < p.len() && p[i].0 == u && images.contains(p[i].1) by {
        assert(img_keys.contains(u));
        let k = choose|k: int| 0 <= k < img_keys.len() && img_keys[k] == u;
        let v = si[k % (si.len() as int)];
        assert(si.contains(v));
        lemma_sorted_same_elements(images, v);
        assert(p[k].0 == u);
    }
    assert forall|u: Seq<char>| #[trigger] audio_sources(srcs).contains(u) implies exists|i: int|
        0 <= i < p.len() && p[i].0 == u && audio.contains(p[i].1) by {
        assert(aud_keys.contains(u));
        let k = choose|k: int| 0 <= k < aud_keys.len() && aud_keys[k] == u;
        let v = sa[k % (sa.len() as int)];
        assert(sa.contains(v));
        lemma_sorted_same_elements(audio, v);
        let i = img_keys.len() + k;
        assert(p[i].0 == u);
    }
}

/// What an asset file holds, by its lower-cased extension.
#[derive(Debug, Clone, Copy, PartialEq, Eq, Structural)]
pub enum AssetKind {
    Image,
    Audio,
    Other,
}

/// The kind of asset a lower-cased file extension stands for: `png`, `jpg`,
/// `jpeg`, `webp`, `bmp` and `gif` are images; `mp3`, `wav`, `m4a`, `ogg`,
/// `aac`, `flac` and `mp4` are audio.
pub open spec fn asset_kind_of(ext: Seq<char>) -> AssetKind {
    if ext == "png"@ || ext == "jpg"@ || ext == "jpeg"@ || ext == "webp"@ || ext == "bmp"@ || ext
        == "gif"@ {
        AssetKind::Image
    } else if ext == "mp3"@ || ext == "wav"@ || ext == "m4a"@ || ext == "ogg"@ || ext == "aac"@
        || ext == "flac"@ || ext == "mp4"@ {
        AssetKind::Audio
    } else {
        AssetKind::Other
    }
}

/// Classify an asset file by its lower-cased extension.
pub fn classify_extension(ext: &str) -> (k: AssetKind)
    ensures
        k == asset_kind_of(ext@),
{
    if str_eq(ext, "png") || str_eq(ext, "jpg") || str_eq(ext, "jpeg") || str_eq(ext, "webp")
        || str_eq(ext, "bmp") || str_eq(ext, "gif") {
        AssetKind::Image
    } else if str_eq(ext, "mp3") || str_eq(ext, "wav") || str_eq(ext, "m4a") || str_eq(ext, "ogg")
        || str_eq(ext, "aac") || str_eq(ext, "flac") || str_eq(ext, "mp4") {
        AssetKind::Audio
    } else {
        AssetKind::Other
    }
}

} // verus!
