//! The text-level decisions of applying an edit to a stored project: which
//! layer property an edit names, and how a keyframe's easing is written in
//! an edit request.

use vstd::prelude::*;
use crate::text::{
    str_eq, trim, trim_spec, starts_with, ends_with, has_prefix, has_suffix, chars_of,
    string_from_chars, split_on, split_spec, views_of,
};

verus! {

/// The layer property an edit names.
#[derive(Debug, Clone, Copy, PartialEq, Eq, Structural)]
pub enum PropertyTarget {
    /// The layer's start time, a column of the layer itself.
    StartTime,
    /// The layer's end time, a column of the layer itself.
    EndTime,
    /// The animated location, three numbers.
    Location,
    /// The animated scale, two numbers.
    Scale,
    /// The animated rotation, one number.
    Rotation,
    /// The animated opacity, one number.
    Opacity,
    /// Any other name, which an edit rejects.
    Unknown,
}

/// The property a name stands for.
pub open spec fn target_of(name: Seq<char>) -> PropertyTarget {
    if name == "start_time"@ {
        PropertyTarget::StartTime
    } else if name == "end_time"@ {
        PropertyTarget::EndTime
    } else if name == "location"@ {
        PropertyTarget::Location
    } else if name == "scale"@ {
        PropertyTarget::Scale
    } else if name == "rotation"@ {
        PropertyTarget::Rotation
    } else if name == "opacity"@ {
        PropertyTarget::Opacity
    } else {
        PropertyTarget::Unknown
    }
}

/// Decide which property an edit names.
pub fn classify_property(name: &str) -> (t: PropertyTarget)
    ensures
        t == target_of(name@),
{
    if str_eq(name, "start_time") {
        PropertyTarget::StartTime
    } else if str_eq(name, "end_time") {
        PropertyTarget::EndTime
    } else if str_eq(name, "location") {
        PropertyTarget::Location
    } else if str_eq(name, "scale") {
        PropertyTarget::Scale
    } else if str_eq(name, "rotation") {
        PropertyTarget::Rotation
    } else if str_eq(name, "opacity") {
        PropertyTarget::Opacity
    } else {
        PropertyTarget::Unknown
    }
}

impl PropertyTarget {
    /// How many numbers a value of an animated property holds; none for the
    /// layer's times and unknown names.
    pub fn components(&self) -> (n: usize)
        ensures
            n == match *self {
                PropertyTarget::Location => 3usize,
                PropertyTarget::Scale => 2usize,
                PropertyTarget::Rotation | PropertyTarget::Opacity => 1usize,
                _ => 0usize,
            },
    {
        match self {
            PropertyTarget::Location => 3,
            PropertyTarget::Scale => 2,
            PropertyTarget::Rotation | PropertyTarget::Opacity => 1,
            _ => 0,
        }
    }
}

/// The four arguments of an easing written `CubicBezier(x1, y1, x2, y2)`,
/// each trimmed, when the trimmed text has that form with exactly four
/// comma-separated arguments; `None` for `Linear` and for any other text,
/// which all mean linear easing.
pub open spec fn bezier_call_args(s: Seq<char>) -> Option<Seq<Seq<char>>> {
    let t = trim_spec(s);
    if t == "Linear"@ {
        None
    } else if has_prefix(t, "CubicBezier("@) && has_suffix(t, ")"@) {
        let parts = split_spec(t.subrange(12, t.len() - 1), ',');
        if parts.len() == 4 {
            Some(parts.map_values(|p: Seq<char>| trim_spec(p)))
        } else {
            None
        }
    } else {
        None
    }
}

/// Read the easing of a keyframe in an edit request: the four control-point
/// numbers of a cubic Bézier easing, still as text, or `None` for linear
/// easing.
pub fn easing_call_args(s: &str) -> (r: Option<Vec<String>>)
    ensures
        match r {
            Some(v) => bezier_call_args(s@) == Some(views_of(v@)),
            None => bezier_call_args(s@) is None,
        },
{
    let t = trim(s);
    if str_eq(t.as_str(), "Linear") {
        return None;
    }
    if !(starts_with(t.as_str(), "CubicBezier(") && ends_with(t.as_str(), ")")) {
        return None;
    }
    proof {
        reveal_strlit("CubicBezier(");
        reveal_strlit(")");
        assert("CubicBezier("@.len() == 12);
        assert(")"@.len() == 1);
        assert(t@.len() >= 13) by {
            if t@.len() == 12 {
                assert(t@.subrange(0, 12) == "CubicBezier("@);
                assert(t@.subrange(11, 12) == ")"@);
                assert(t@[11] == "CubicBezier("@[11]);
                assert(t@[11] == ")"@[0]);
            }
        }
    }
    let cs = chars_of(t.as_str());
    let inner = string_from_chars(cs.as_slice(), 12, cs.len() - 1);
    let parts = split_on(inner.as_str(), ',');
    if parts.len() != 4 {
        return None;
    }
    let mut out: Vec<String> = Vec::new();
    let mut i: usize = 0;
    while i < 4
        invariant
            parts@.len() == 4,
            i <= 4,
            views_of(out@) == views_of(parts@).take(i as int).map_values(
                |p: Seq<char>| trim_spec(p),
            ),
        decreases 4 - i,
    {
        let p = trim(parts[i].as_str());
        let ghost prev = out@;
        out.push(p);
        assert(views_of(out@) =~= views_of(prev).push(p@));
        assert(views_of(parts@).take(i + 1).map_values(|q: Seq<char>| trim_spec(q)) =~= views_of(
            parts@,
        ).take(i as int).map_values(|q: Seq<char>| trim_spec(q)).push(trim_spec(parts@[i as int]@)));
        i = i + 1;
    }
    assert(views_of(parts@).take(4) =~= views_of(parts@));
    Some(out)
}

} // verus!
