//! The text-level decisions of converting an XML scene to the project model:
//! blend modes, fill types, flags, media references, named properties and
//! keyframe easings. Reading numbers with fractions is the caller's.

use vstd::prelude::*;
use crate::model::{BlendMode, FillType};
use crate::text::{
    str_eq, parse_unsigned, parse_unsigned_spec, split_whitespace, ws_tokens, views_of, split_on,
    split_spec, trim, trim_spec,
};
use crate::xml::{XmlMedia, XmlProperty, XmlShape};

verus! {

/// The view of an optional string.
pub open spec fn opt_view(o: Option<String>) -> Option<Seq<char>> {
    match o {
        Some(s) => Some(s@),
        None => None,
    }
}

/// Copy an optional string.
pub fn clone_opt(o: &Option<String>) -> (r: Option<String>)
    ensures
        opt_view(r) == opt_view(*o),
{
    match o {
        Some(s) => Some(s.clone()),
        None => None,
    }
}

/// Whether an optional attribute holds exactly `lit`.
pub fn opt_is(o: &Option<String>, lit: &str) -> (b: bool)
    ensures
        b == (opt_view(*o) == Some(lit@)),
{
    match o {
        Some(s) => str_eq(s.as_str(), lit),
        None => false,
    }
}

/// The blend mode named by a shape's `blending` attribute.
pub open spec fn blend_mode_of_attr(b: Option<Seq<char>>) -> BlendMode {
    match b {
        Some(s) => if s == "multiply"@ {
            BlendMode::Multiply
        } else if s == "screen"@ {
            BlendMode::Screen
        } else if s == "overlay"@ {
            BlendMode::Overlay
        } else if s == "darken"@ {
            BlendMode::Darken
        } else if s == "lighten"@ {
            BlendMode::Lighten
        } else if s == "subtract"@ {
            BlendMode::Subtract
        } else if s == "add"@ || s == "linear-dodge"@ {
            BlendMode::Add
        } else {
            BlendMode::Normal
        },
        None => BlendMode::Normal,
    }
}

/// Read a shape's `blending` attribute.
pub fn blend_mode_from_attr(blending: &Option<String>) -> (m: BlendMode)
    ensures
        m == blend_mode_of_attr(opt_view(*blending)),
{
    if opt_is(blending, "multiply") {
        BlendMode::Multiply
    } else if opt_is(blending, "screen") {
        BlendMode::Screen
    } else if opt_is(blending, "overlay") {
        BlendMode::Overlay
    } else if opt_is(blending, "darken") {
        BlendMode::Darken
    } else if opt_is(blending, "lighten") {
        BlendMode::Lighten
    } else if opt_is(blending, "subtract") {
        BlendMode::Subtract
    } else if opt_is(blending, "add") || opt_is(blending, "linear-dodge") {
        BlendMode::Add
    } else {
        BlendMode::Normal
    }
}

/// The fill type of a shape: the one its `fillType` attribute names, or
/// else the first of media, colour and gradient that it carries.
pub open spec fn fill_type_of_shape(
    fill_type: Option<Seq<char>>,
    has_image: bool,
    has_color: bool,
    has_gradient: bool,
) -> FillType {
    if fill_type == Some("media"@) {
        FillType::Media
    } else if fill_type == Some("color"@) {
        FillType::Color
    } else if fill_type == Some("gradient"@) {
        FillType::Gradient
    } else if has_image {
        FillType::Media
    } else if has_color {
        FillType::Color
    } else if has_gradient {
        FillType::Gradient
    } else {
        FillType::NoFill
    }
}

/// A `fillType` attribute naming a type decides it, whatever fills the
/// shape carries; without the attribute an image makes a media fill and a
/// shape carrying nothing has no fill.
pub proof fn lemma_fill_type_attribute_decides(has_image: bool, has_color: bool, has_gradient: bool)
    ensures
        fill_type_of_shape(Some("media"@), has_image, has_color, has_gradient) == FillType::Media,
        fill_type_of_shape(Some("color"@), has_image, has_color, has_gradient) == FillType::Color,
        fill_type_of_shape(Some("gradient"@), has_image, has_color, has_gradient)
            == FillType::Gradient,
        fill_type_of_shape(None, true, has_color, has_gradient) == FillType::Media,
        fill_type_of_shape(None, false, false, false) == FillType::NoFill,
{
    reveal_strlit("media");
    reveal_strlit("color");
    reveal_strlit("gradient");
    assert("media"@[0] != "color"@[0]);
    assert("media"@.len() != "gradient"@.len() && "color"@.len() != "gradient"@.len());
}

/// Decide the fill type of a shape.
pub fn fill_type_from_shape(shape: &XmlShape) -> (t: FillType)
    ensures
        t == fill_type_of_shape(
            opt_view(shape.fill_type),
            shape.fill_image is Some,
            shape.fill_color is Some,
            shape.gradient is Some,
        ),
{
    if opt_is(&shape.fill_type, "media") {
        FillType::Media
    } else if opt_is(&shape.fill_type, "color") {
        FillType::Color
    } else if opt_is(&shape.fill_type, "gradient") {
        FillType::Gradient
    } else if shape.fill_image.is_some() {
        FillType::Media
    } else if shape.fill_color.is_some() {
        FillType::Color
    } else if shape.gradient.is_some() {
        FillType::Gradient
    } else {
        FillType::NoFill
    }
}

/// A flag attribute: `true` when it reads `true`, `default` when absent,
/// `false` for any other text.
pub open spec fn flag_of(v: Option<Seq<char>>, default: bool) -> bool {
    match v {
        Some(s) => s == "true"@,
        None => default,
    }
}

/// Read a flag attribute such as `hidden` or `locallyApplied`.
pub fn flag_value(v: &Option<String>, default: bool) -> (b: bool)
    ensures
        b == flag_of(opt_view(*v), default),
{
    match v {
        Some(s) => str_eq(s.as_str(), "true"),
        None => default,
    }
}

/// `i` is the first property in `props` called `name`.
pub open spec fn is_first_named(props: Seq<XmlProperty>, name: Seq<char>, i: int) -> bool {
    &&& 0 <= i < props.len()
    &&& props[i].name@ == name
    &&& forall|j: int| 0 <= j < i ==> (#[trigger] props[j]).name@ != name
}

/// No property in `props` is called `name`.
pub open spec fn none_named(props: Seq<XmlProperty>, name: Seq<char>) -> bool {
    forall|j: int| 0 <= j < props.len() ==> (#[trigger] props[j]).name@ != name
}

/// The `value` attribute of the first property called `name`, if it has one.
pub open spec fn prop_text(props: Seq<XmlProperty>, name: Seq<char>) -> Option<Seq<char>> {
    if exists|i: int| is_first_named(props, name, i) {
        let i = choose|i: int| is_first_named(props, name, i);
        opt_view(props[i].value)
    } else {
        None
    }
}

/// The position of the first property called `name`.
pub fn find_property(props: &[XmlProperty], name: &str) -> (r: Option<usize>)
    ensures
        match r {
            Some(i) => is_first_named(props@, name@, i as int),
            None => none_named(props@, name@),
        },
{
    let mut i: usize = 0;
    while i < props.len()
        invariant
            i <= props@.len(),
            forall|j: int| 0 <= j < i ==> (#[trigger] props@[j]).name@ != name@,
        decreases props@.len() - i,
    {
        if str_eq(props[i].name.as_str(), name) {
            return Some(i);
        }
        i = i + 1;
    }
    None
}

proof fn lemma_first_named_unique(props: Seq<XmlProperty>, name: Seq<char>, i: int, k: int)
    requires
        is_first_named(props, name, i),
        is_first_named(props, name, k),
    ensures
        i == k,
{
    if i < k {
        assert(props[i].name@ != name);
    } else if k < i {
        assert(props[k].name@ != name);
    }
}

/// The text of the `value` attribute of the first property called `name`.
pub fn prop_value(props: &[XmlProperty], name: &str) -> (r: Option<String>)
    ensures
        opt_view(r) == prop_text(props@, name@),
{
    match find_property(props, name) {
        Some(i) => {
            proof {
                let k = choose|k: int| is_first_named(props@, name@, k);
                lemma_first_named_unique(props@, name@, i as int, k);
            }
            clone_opt(&props[i].value)
        },
        None => {
            assert(!exists|k: int| is_first_named(props@, name@, k)) by {
                if exists|k: int| is_first_named(props@, name@, k) {
                    let k = choose|k: int| is_first_named(props@, name@, k);
                    assert(props@[k].name@ != name@);
                }
            }
            None
        },
    }
}

/// A boolean property: whether the first property called `name` has the
/// value `true`, and `default` where there is no such property or it has no
/// value.
pub fn get_prop_bool(props: &[XmlProperty], name: &str, default: bool) -> (b: bool)
    ensures
        b == flag_of(prop_text(props@, name@), default),
{
    let v = prop_value(props, name);
    flag_value(&v, default)
}

/// A media file the project refers to.
#[derive(Debug, Clone, PartialEq, Eq)]
pub struct MediaRef {
    pub uri: String,
    pub filename: Option<String>,
    pub title: Option<String>,
    pub mime_type: Option<String>,
    pub width: Option<u32>,
    pub height: Option<u32>,
}

/// A dimension attribute read as a `u32`, absent where it is missing or is
/// not such a number.
pub open spec fn dimension_of(v: Option<Seq<char>>) -> Option<u32> {
    match v {
        Some(s) => match parse_unsigned_spec(s, u32::MAX as int) {
            Some(n) => Some(n as u32),
            None => None,
        },
        None => None,
    }
}

fn dimension(v: &Option<String>) -> (r: Option<u32>)
    ensures
        r == dimension_of(opt_view(*v)),
{
    match v {
        Some(s) => match parse_unsigned(s.as_str(), 4294967295u64) {
            Some(n) => Some(n as u32),
            None => None,
        },
        None => None,
    }
}

/// Convert a `<media>` element to a media reference: the text attributes are
/// kept, the width and height are read as numbers.
pub fn convert_media(xml: &XmlMedia) -> (m: MediaRef)
    ensures
        m.uri@ == xml.uri@,
        opt_view(m.filename) == opt_view(xml.filename),
        opt_view(m.title) == opt_view(xml.title),
        opt_view(m.mime_type) == opt_view(xml.kind),
        m.width == dimension_of(opt_view(xml.width)),
        m.height == dimension_of(opt_view(xml.height)),
{
    MediaRef {
        uri: xml.uri.clone(),
        filename: clone_opt(&xml.filename),
        title: clone_opt(&xml.title),
        mime_type: clone_opt(&xml.kind),
        width: dimension(&xml.width),
        height: dimension(&xml.height),
    }
}

/// An identifier attribute read as a `u64`, 0 where it is not such a
/// number.
pub open spec fn id_of(s: Seq<char>) -> u64 {
    match parse_unsigned_spec(s, u64::MAX as int) {
        Some(n) => n as u64,
        None => 0,
    }
}

/// Read the `id` attribute of a shape or audio layer.
pub fn parse_id(s: &str) -> (id: u64)
    ensures
        id == id_of(s@),
{
    match parse_unsigned(s, 18446744073709551615u64) {
        Some(n) => n,
        None => 0,
    }
}

/// The four control-point numbers of a keyframe easing, as text: present
/// when the easing's words are `cubicBezier` followed by at least four more,
/// optionally after a leading `local`.
pub open spec fn bezier_words(e: Option<Seq<char>>) -> Option<Seq<Seq<char>>> {
    match e {
        Some(s) => {
            let w = ws_tokens(s);
            let k = if w.len() > 0 && w[0] == "local"@ {
                1int
            } else {
                0int
            };
            if w.len() > k && w[k] == "cubicBezier"@ && w.len() >= k + 5 {
                Some(w.subrange(k + 1, k + 5))
            } else {
                None
            }
        },
        None => None,
    }
}

/// Read the easing attribute `e` of a keyframe: the four control-point
/// numbers of a cubic Bézier easing, still as text, or `None` for linear
/// easing.
pub fn easing_bezier_words(e: &Option<String>) -> (r: Option<Vec<String>>)
    ensures
        match r {
            Some(v) => bezier_words(opt_view(*e)) == Some(views_of(v@)),
            None => bezier_words(opt_view(*e)) is None,
        },
{
    match e {
        None => None,
        Some(s) => {
            let w = split_whitespace(s.as_str());
            let k: usize = if w.len() > 0 && str_eq(w[0].as_str(), "local") {
                1
            } else {
                0
            };
            proof {
                if w@.len() > 0 {
                    assert(views_of(w@)[0] == w@[0]@);
                }
            }
            if w.len() > k && str_eq(w[k].as_str(), "cubicBezier") && w.len() >= k + 5 {
                let mut out: Vec<String> = Vec::new();
                let mut i = k + 1;
                while i < k + 5
                    invariant
                        k <= 1,
                        k + 5 <= w@.len(),
                        k + 1 <= i <= k + 5,
                        views_of(out@) == views_of(w@).subrange(k + 1, i as int),
                    decreases k + 5 - i,
                {
                    let ghost prev = out@;
                    out.push(w[i].clone());
                    assert(views_of(out@) =~= views_of(prev).push(w@[i as int]@));
                    assert(views_of(w@).subrange(k + 1, i + 1) =~= views_of(w@).subrange(
                        k + 1,
                        i as int,
                    ).push(w@[i as int]@));
                    i = i + 1;
                }
                Some(out)
            } else {
                None
            }
        },
    }
}

/// The components of a comma-separated vector attribute with `dims`
/// components, each without surrounding white space: the first `dims` pieces
/// when there are that many, the first two of a 3-vector when there are only
/// two (its third component then takes its default), and none otherwise.
pub open spec fn vec_parts_spec(s: Seq<char>, dims: nat) -> Option<Seq<Seq<char>>> {
    let parts = split_spec(s, ',');
    if parts.len() >= dims {
        Some(parts.take(dims as int).map_values(|p: Seq<char>| trim_spec(p)))
    } else if dims == 3 && parts.len() == 2 {
        Some(parts.map_values(|p: Seq<char>| trim_spec(p)))
    } else {
        None
    }
}

/// Split a vector attribute such as `540.0,960.0,0.0` into its trimmed
/// components.
pub fn vec_parts(s: &str, dims: usize) -> (r: Option<Vec<String>>)
    ensures
        match r {
            Some(v) => vec_parts_spec(s@, dims as nat) == Some(views_of(v@)),
            None => vec_parts_spec(s@, dims as nat) is None,
        },
{
    let parts = split_on(s, ',');
    let n: usize = if parts.len() >= dims {
        dims
    } else if dims == 3 && parts.len() == 2 {
        2
    } else {
        return None;
    };
    let mut out: Vec<String> = Vec::new();
    let mut i: usize = 0;
    while i < n
        invariant
            n <= parts@.len(),
            i <= n,
            views_of(out@) == views_of(parts@).take(i as int).map_values(
                |p: Seq<char>| trim_spec(p),
            ),
        decreases n - i,
    {
        let t = trim(parts[i].as_str());
        let ghost prev = out@;
        out.push(t);
        assert(views_of(out@) =~= views_of(prev).push(t@));
        assert(views_of(parts@).take(i + 1).map_values(|p: Seq<char>| trim_spec(p)) =~= views_of(
            parts@,
        ).take(i as int).map_values(|p: Seq<char>| trim_spec(p)).push(trim_spec(parts@[i as int]@)));
        i = i + 1;
    }
    assert(views_of(parts@).take(2) =~= views_of(parts@) || parts@.len() != 2);
    Some(out)
}

} // verus!
