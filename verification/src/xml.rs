//! The raw model of an Alight Motion XML project: every attribute as the
//! text the file holds, every child element in document order.

use vstd::prelude::*;

verus! {

/// One animation keyframe: normalised time `t`, value `v` and the easing
/// `e` towards the next keyframe, all as written.
#[derive(Debug, Clone, PartialEq, Eq)]
pub struct XmlKeyframe {
    pub t: String,
    pub v: String,
    pub e: Option<String>,
}

/// An animatable attribute: a static `value` or a list of keyframes.
#[derive(Debug, Clone, PartialEq, Eq)]
pub struct XmlAnimated {
    pub value: Option<String>,
    pub keyframes: Vec<XmlKeyframe>,
}

/// An animatable scalar.
pub type XmlAnimatedFloat = XmlAnimated;

/// An animatable 2-vector.
pub type XmlAnimatedVec2 = XmlAnimated;

/// An animatable 3-vector.
pub type XmlAnimatedVec3 = XmlAnimated;

/// A named property of a shape or an effect.
#[derive(Debug, Clone, PartialEq, Eq)]
pub struct XmlProperty {
    pub name: String,
    /// The `type` attribute.
    pub kind: Option<String>,
    pub value: Option<String>,
    pub keyframes: Vec<XmlKeyframe>,
}

/// An effect applied to a shape.
#[derive(Debug, Clone, PartialEq, Eq)]
pub struct XmlEffect {
    pub id: String,
    pub locally_applied: Option<String>,
    pub properties: Vec<XmlProperty>,
}

/// The transform of a shape.
#[derive(Debug, Clone, PartialEq, Eq)]
pub struct XmlTransform {
    pub location: Option<XmlAnimatedVec3>,
    pub scale: Option<XmlAnimatedVec2>,
    pub rotation: Option<XmlAnimatedFloat>,
    pub opacity: Option<XmlAnimatedFloat>,
}

/// A solid fill colour, `#AARRGGBB`.
#[derive(Debug, Clone, PartialEq, Eq)]
pub struct XmlFillColor {
    pub value: String,
}

/// A gradient fill.
#[derive(Debug, Clone, PartialEq, Eq)]
pub struct XmlGradient {
    /// The `type` attribute (`linear`, `radial`, ...).
    pub kind: Option<String>,
    pub start_color: Option<String>,
    pub end_color: Option<String>,
    pub start: Option<String>,
    pub end: Option<String>,
}

/// A media file the project refers to.
#[derive(Debug, Clone, PartialEq, Eq)]
pub struct XmlMedia {
    pub uri: String,
    pub filename: Option<String>,
    pub title: Option<String>,
    /// The `type` attribute, a MIME type.
    pub kind: Option<String>,
    pub duration: Option<String>,
    pub size: Option<String>,
    pub sig: Option<String>,
    pub width: Option<String>,
    pub height: Option<String>,
}

/// A bookmark on the timeline.
#[derive(Debug, Clone, PartialEq, Eq)]
pub struct XmlBookmark {
    pub t: String,
}

/// An audio layer.
#[derive(Debug, Clone, PartialEq, Eq)]
pub struct XmlAudio {
    pub id: String,
    pub label: Option<String>,
    pub start_time: String,
    pub end_time: String,
    pub src: Option<String>,
    pub in_time: Option<String>,
    pub out_time: Option<String>,
    pub gain: Option<XmlAnimatedFloat>,
}

/// A visual layer.
#[derive(Debug, Clone, PartialEq, Eq)]
pub struct XmlShape {
    pub id: String,
    pub label: Option<String>,
    pub start_time: String,
    pub end_time: String,
    pub fill_type: Option<String>,
    pub fill_image: Option<String>,
    pub media_fill_mode: Option<String>,
    pub s: Option<String>,
    pub blending: Option<String>,
    pub hidden: Option<String>,
    pub transform: Option<XmlTransform>,
    pub effects: Vec<XmlEffect>,
    pub fill_color: Option<XmlFillColor>,
    pub gradient: Option<XmlGradient>,
    pub properties: Vec<XmlProperty>,
}

/// A child element of the scene.
#[derive(Debug, Clone, PartialEq, Eq)]
pub enum XmlNode {
    Media(XmlMedia),
    Bookmark(XmlBookmark),
    Audio(XmlAudio),
    Shape(XmlShape),
}

/// The `<scene>` root element.
#[derive(Debug, Clone, PartialEq, Eq)]
pub struct XmlScene {
    pub title: Option<String>,
    pub width: String,
    pub height: String,
    pub export_width: Option<String>,
    pub export_height: Option<String>,
    pub bgcolor: Option<String>,
    pub total_time: String,
    pub fps: String,
    pub amver: Option<String>,
    pub ffver: Option<String>,
    pub am: Option<String>,
    pub amplatform: Option<String>,
    pub precompose: Option<String>,
    pub retime: Option<String>,
    pub children: Vec<XmlNode>,
}

/// The media elements among `nodes`, in order.
pub open spec fn media_of(nodes: Seq<XmlNode>) -> Seq<XmlMedia>
    decreases nodes.len(),
{
    if nodes.len() == 0 {
        Seq::empty()
    } else {
        let rest = media_of(nodes.drop_last());
        match nodes.last() {
            XmlNode::Media(m) => rest.push(m),
            _ => rest,
        }
    }
}

/// The bookmark elements among `nodes`, in order.
pub open spec fn bookmarks_of(nodes: Seq<XmlNode>) -> Seq<XmlBookmark>
    decreases nodes.len(),
{
    if nodes.len() == 0 {
        Seq::empty()
    } else {
        let rest = bookmarks_of(nodes.drop_last());
        match nodes.last() {
            XmlNode::Bookmark(b) => rest.push(b),
            _ => rest,
        }
    }
}

/// The audio elements among `nodes`, in order.
pub open spec fn audio_of(nodes: Seq<XmlNode>) -> Seq<XmlAudio>
    decreases nodes.len(),
{
    if nodes.len() == 0 {
        Seq::empty()
    } else {
        let rest = audio_of(nodes.drop_last());
        match nodes.last() {
            XmlNode::Audio(a) => rest.push(a),
            _ => rest,
        }
    }
}

/// The shape elements among `nodes`, in order.
pub open spec fn shapes_of(nodes: Seq<XmlNode>) -> Seq<XmlShape>
    decreases nodes.len(),
{
    if nodes.len() == 0 {
        Seq::empty()
    } else {
        let rest = shapes_of(nodes.drop_last());
        match nodes.last() {
            XmlNode::Shape(s) => rest.push(s),
            _ => rest,
        }
    }
}

impl XmlScene {
    /// The `<media>` children, in document order.
    pub fn media(&self) -> (res: Vec<&XmlMedia>)
        ensures
            res@.map_values(|r: &XmlMedia| *r) == media_of(self.children@),
    {
        let mut res: Vec<&XmlMedia> = Vec::new();
        let mut i: usize = 0;
        while i < self.children.len()
            invariant
                i <= self.children@.len(),
                res@.map_values(|r: &XmlMedia| *r) == media_of(self.children@.take(i as int)),
            decreases self.children@.len() - i,
        {
            assert(self.children@.take(i + 1).drop_last() == self.children@.take(i as int));
            match &self.children[i] {
                XmlNode::Media(m) => {
                    res.push(m);
                },
                _ => {},
            }
            assert(res@.map_values(|r: &XmlMedia| *r) =~= media_of(self.children@.take(i + 1)));
            i = i + 1;
        }
        assert(self.children@.take(self.children@.len() as int) == self.children@);
        res
    }

    /// The `<bookmark>` children, in document order.
    pub fn bookmarks(&self) -> (res: Vec<&XmlBookmark>)
        ensures
            res@.map_values(|r: &XmlBookmark| *r) == bookmarks_of(self.children@),
    {
        let mut res: Vec<&XmlBookmark> = Vec::new();
        let mut i: usize = 0;
        while i < self.children.len()
            invariant
                i <= self.children@.len(),
                res@.map_values(|r: &XmlBookmark| *r) == bookmarks_of(
                    self.children@.take(i as int),
                ),
            decreases self.children@.len() - i,
        {
            assert(self.children@.take(i + 1).drop_last() == self.children@.take(i as int));
            match &self.children[i] {
                XmlNode::Bookmark(b) => {
                    res.push(b);
                },
                _ => {},
            }
            assert(res@.map_values(|r: &XmlBookmark| *r) =~= bookmarks_of(
                self.children@.take(i + 1),
            ));
            i = i + 1;
        }
        assert(self.children@.take(self.children@.len() as int) == self.children@);
        res
    }

    /// The `<audio>` children, in document order.
    pub fn audio(&self) -> (res: Vec<&XmlAudio>)
        ensures
            res@.map_values(|r: &XmlAudio| *r) == audio_of(self.children@),
    {
        let mut res: Vec<&XmlAudio> = Vec::new();
        let mut i: usize = 0;
        while i < self.children.len()
            invariant
                i <= self.children@.len(),
                res@.map_values(|r: &XmlAudio| *r) == audio_of(self.children@.take(i as int)),
            decreases self.children@.len() - i,
        {
            assert(self.children@.take(i + 1).drop_last() == self.children@.take(i as int));
            match &self.children[i] {
                XmlNode::Audio(a) => {
                    res.push(a);
                },
                _ => {},
            }
            assert(res@.map_values(|r: &XmlAudio| *r) =~= audio_of(self.children@.take(i + 1)));
            i = i + 1;
        }
        assert(self.children@.take(self.children@.len() as int) == self.children@);
        res
    }

    /// The `<shape>` children, in document order.
    pub fn shapes(&self) -> (res: Vec<&XmlShape>)
        ensures
            res@.map_values(|r: &XmlShape| *r) == shapes_of(self.children@),
    {
        let mut res: Vec<&XmlShape> = Vec::new();
        let mut i: usize = 0;
        while i < self.children.len()
            invariant
                i <= self.children@.len(),
                res@.map_values(|r: &XmlShape| *r) == shapes_of(self.children@.take(i as int)),
            decreases self.children@.len() - i,
        {
            assert(self.children@.take(i + 1).drop_last() == self.children@.take(i as int));
            match &self.children[i] {
                XmlNode::Shape(s) => {
                    res.push(s);
                },
                _ => {},
            }
            assert(res@.map_values(|r: &XmlShape| *r) =~= shapes_of(self.children@.take(i + 1)));
            i = i + 1;
        }
        assert(self.children@.take(self.children@.len() as int) == self.children@);
        res
    }
}

} // verus!
