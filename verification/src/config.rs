use vstd::prelude::*;

use crate::data::str_eq;
use crate::numeric::{parse_u32, spec_parse_u32};

verus! {

/// One event of a sprite-definition document, as the XML reading
/// collaborator hands it over: only what the grammar reads is kept, and
/// events this parser ignores arrive as `Other`.
#[derive(Debug)]
pub enum ConfigXmlEvent {
    StartElement { name: String, attributes: Vec<(String, String)> },
    EndElement { name: String },
    EndDocument,
    Whitespace,
    Other,
}

pub ghost enum ConfigXmlEventView {
    StartElement { name: Seq<char>, attributes: Seq<(Seq<char>, Seq<char>)> },
    EndElement { name: Seq<char> },
    EndDocument,
    Whitespace,
    Other,
}

impl View for ConfigXmlEvent {
    type V = ConfigXmlEventView;

    open spec fn view(&self) -> ConfigXmlEventView {
        match self {
            ConfigXmlEvent::StartElement { name, attributes } => ConfigXmlEventView::StartElement {
                name: name@,
                attributes: attributes@.map_values(|p: (String, String)| (p.0@, p.1@)),
            },
            ConfigXmlEvent::EndElement { name } => ConfigXmlEventView::EndElement { name: name@ },
            ConfigXmlEvent::EndDocument => ConfigXmlEventView::EndDocument,
            ConfigXmlEvent::Whitespace => ConfigXmlEventView::Whitespace,
            ConfigXmlEvent::Other => ConfigXmlEventView::Other,
        }
    }
}

/// One frame reference of a clip: its explicit playback position and the
/// path of its image file.
#[derive(Debug)]
pub struct FrameXml {
    pub number: u32,
    pub file_path: String,
}

pub ghost struct FrameXmlView {
    pub number: u32,
    pub file_path: Seq<char>,
}

impl View for FrameXml {
    type V = FrameXmlView;

    open spec fn view(&self) -> FrameXmlView {
        FrameXmlView { number: self.number, file_path: self.file_path@ }
    }
}

/// One clip as the document declares it, frames in document order.
#[derive(Debug)]
pub struct AnimationXml {
    pub name: String,
    pub fps: Option<u32>,
    pub frames: Vec<FrameXml>,
}

pub ghost struct AnimationXmlView {
    pub name: Seq<char>,
    pub fps: Option<u32>,
    pub frames: Seq<FrameXmlView>,
}

impl View for AnimationXml {
    type V = AnimationXmlView;

    open spec fn view(&self) -> AnimationXmlView {
        AnimationXmlView {
            name: self.name@,
            fps: self.fps,
            frames: self.frames@.map_values(|f: FrameXml| f@),
        }
    }
}

#[derive(Debug)]
pub enum XmlParseError {
    MultipleShimeji,
    NoShimeji,
    MalformedFile,
    MissingAttribute { attribute: &'static str },
    MissingImageFile { file_path: String },
}

pub ghost enum XmlParseErrorView {
    MultipleShimeji,
    NoShimeji,
    MalformedFile,
    MissingAttribute { attribute: Seq<char> },
    MissingImageFile { file_path: Seq<char> },
}

impl View for XmlParseError {
    type V = XmlParseErrorView;

    open spec fn view(&self) -> XmlParseErrorView {
        match self {
            XmlParseError::MultipleShimeji => XmlParseErrorView::MultipleShimeji,
            XmlParseError::NoShimeji => XmlParseErrorView::NoShimeji,
            XmlParseError::MalformedFile => XmlParseErrorView::MalformedFile,
            XmlParseError::MissingAttribute { attribute } => XmlParseErrorView::MissingAttribute {
                attribute: attribute@,
            },
            XmlParseError::MissingImageFile { file_path } => XmlParseErrorView::MissingImageFile {
                file_path: file_path@,
            },
        }
    }
}

/// The parsed document: the sprite's name and native size, its clips, and
/// its remaining attributes (a later occurrence of a key shadows an earlier
/// one; the consumed name/height/width keys are taken out).
#[derive(Debug)]
pub struct XmlReturnData {
    pub shimeji_attributes: Vec<(String, String)>,
    pub animations: Vec<AnimationXml>,
    pub name: String,
    pub shimeji_height: u32,
    pub shimeji_width: u32,
}

pub ghost struct XmlReturnDataView {
    pub shimeji_attributes: Seq<(Seq<char>, Seq<char>)>,
    pub animations: Seq<AnimationXmlView>,
    pub name: Seq<char>,
    pub shimeji_height: u32,
    pub shimeji_width: u32,
}

impl View for XmlReturnData {
    type V = XmlReturnDataView;

    open spec fn view(&self) -> XmlReturnDataView {
        XmlReturnDataView {
            shimeji_attributes: self.shimeji_attributes@.map_values(
                |p: (String, String)| (p.0@, p.1@),
            ),
            animations: self.animations@.map_values(|a: AnimationXml| a@),
            name: self.name@,
            shimeji_height: self.shimeji_height,
            shimeji_width: self.shimeji_width,
        }
    }
}

/// The value under the first occurrence of `key`, as an in-order attribute
/// search finds it.
pub open spec fn spec_attr_first(
    attrs: Seq<(Seq<char>, Seq<char>)>,
    key: Seq<char>,
) -> Option<Seq<char>>
    decreases attrs.len(),
{
    if attrs.len() == 0 {
        None
    } else if attrs[0].0 == key {
        Some(attrs[0].1)
    } else {
        spec_attr_first(attrs.drop_first(), key)
    }
}

/// The value under the last occurrence of `key`: what a map filled by
/// inserting the attributes in document order holds.
pub open spec fn spec_attr_last(
    attrs: Seq<(Seq<char>, Seq<char>)>,
    key: Seq<char>,
) -> Option<Seq<char>>
    decreases attrs.len(),
{
    if attrs.len() == 0 {
        None
    } else if attrs.last().0 == key {
        Some(attrs.last().1)
    } else {
        spec_attr_last(attrs.drop_last(), key)
    }
}

fn attr_first<'a>(attrs: &'a Vec<(String, String)>, key: &str) -> (r: Option<&'a String>)
    ensures
        ({
            let s = spec_attr_first(attrs@.map_values(|p: (String, String)| (p.0@, p.1@)), key@);
            match r {
                Some(v) => s == Some(v@),
                None => s is None,
            }
        }),
{
    let ghost view = attrs@.map_values(|p: (String, String)| (p.0@, p.1@));
    let mut i: usize = 0;
    proof {
        assert(view.skip(0) =~= view);
    }
    while i < attrs.len()
        invariant
            i <= attrs@.len(),
            view == attrs@.map_values(|p: (String, String)| (p.0@, p.1@)),
            spec_attr_first(view, key@) == spec_attr_first(view.skip(i as int), key@),
        decreases attrs@.len() - i,
    {
        proof {
            assert(view.skip(i as int)[0] == view[i as int]);
        }
        if str_eq(attrs[i].0.as_str(), key) {
            return Some(&attrs[i].1);
        }
        proof {
            assert(view.skip(i as int).drop_first() =~= view.skip(i as int + 1));
        }
        i = i + 1;
    }
    None
}

fn attr_last<'a>(attrs: &'a Vec<(String, String)>, key: &str) -> (r: Option<&'a String>)
    ensures
        ({
            let s = spec_attr_last(attrs@.map_values(|p: (String, String)| (p.0@, p.1@)), key@);
            match r {
                Some(v) => s == Some(v@),
                None => s is None,
            }
        }),
{
    let ghost view = attrs@.map_values(|p: (String, String)| (p.0@, p.1@));
    let mut i: usize = attrs.len();
    proof {
        assert(view.take(attrs@.len() as int) =~= view);
    }
    while i > 0
        invariant
            i <= attrs@.len(),
            view == attrs@.map_values(|p: (String, String)| (p.0@, p.1@)),
            spec_attr_last(view, key@) == spec_attr_last(view.take(i as int), key@),
        decreases i,
    {
        proof {
            assert(view.take(i as int).last() == view[i as int - 1]);
        }
        if str_eq(attrs[i - 1].0.as_str(), key) {
            return Some(&attrs[i - 1].1);
        }
        proof {
            assert(view.take(i as int).drop_last() =~= view.take(i as int - 1));
        }
        i = i - 1;
    }
    None
}

/// A by-value copy of an attribute list.
fn clone_attrs(attrs: &Vec<(String, String)>) -> (r: Vec<(String, String)>)
    ensures
        r@.map_values(|p: (String, String)| (p.0@, p.1@)) == attrs@.map_values(
            |p: (String, String)| (p.0@, p.1@),
        ),
{
    let mut copied: Vec<(String, String)> = Vec::new();
    let mut i: usize = 0;
    while i < attrs.len()
        invariant
            i <= attrs@.len(),
            copied@.len() == i,
            forall|k: int|
                0 <= k < i ==> ((#[trigger] copied@[k]).0@, copied@[k].1@) == (attrs@[k].0@,
                attrs@[k].1@),
        decreases attrs@.len() - i,
    {
        copied.push((attrs[i].0.clone(), attrs[i].1.clone()));
        i = i + 1;
    }
    proof {
        assert(copied@.map_values(|p: (String, String)| (p.0@, p.1@)) =~= attrs@.map_values(
            |p: (String, String)| (p.0@, p.1@),
        ));
    }
    copied
}

/// The parser's running state: whether the one `Shimeji` element was seen
/// and with which attributes, the clip currently open, and the clips
/// finished so far.
pub ghost struct ParseStateView {
    pub shimeji_found: bool,
    pub shimeji_attributes: Seq<(Seq<char>, Seq<char>)>,
    pub inside_animation: bool,
    pub animation_name: Option<Seq<char>>,
    pub animation_fps: Option<u32>,
    pub animation_frames: Option<Seq<FrameXmlView>>,
    pub animations: Seq<AnimationXmlView>,
}

pub open spec fn spec_parse_init() -> ParseStateView {
    ParseStateView {
        shimeji_found: false,
        shimeji_attributes: Seq::empty(),
        inside_animation: false,
        animation_name: None,
        animation_fps: None,
        animation_frames: None,
        animations: Seq::empty(),
    }
}

/// One event against the grammar. A second `Shimeji` element, a nested
/// `Animation`, a `frame` outside an `Animation`, an `Animation` end with
/// nothing open or no frames, an unparsable number: each is rejected with
/// the error the grammar gives it. Elements this grammar does not know are
/// skipped.
pub open spec fn spec_step(st: ParseStateView, ev: ConfigXmlEventView) -> Result<
    ParseStateView,
    XmlParseErrorView,
> {
    match ev {
        ConfigXmlEventView::Whitespace => Ok(st),
        ConfigXmlEventView::EndDocument => Ok(st),
        ConfigXmlEventView::Other => Ok(st),
        ConfigXmlEventView::StartElement { name, attributes } => {
            if name == "Shimeji"@ {
                if st.shimeji_found {
                    Err(XmlParseErrorView::MultipleShimeji)
                } else {
                    Ok(
                        ParseStateView {
                            shimeji_found: true,
                            shimeji_attributes: attributes,
                            ..st
                        },
                    )
                }
            } else if name == "Animation"@ {
                if st.inside_animation {
                    Err(XmlParseErrorView::MalformedFile)
                } else {
                    match spec_attr_first(attributes, "fps"@) {
                        None => Err(
                            XmlParseErrorView::MissingAttribute { attribute: "fps"@ },
                        ),
                        Some(fps_text) => match spec_parse_u32(fps_text) {
                            None => Err(XmlParseErrorView::MalformedFile),
                            Some(fps) => match spec_attr_first(attributes, "name"@) {
                                None => Err(
                                    XmlParseErrorView::MissingAttribute { attribute: "name"@ },
                                ),
                                Some(clip_name) => Ok(
                                    ParseStateView {
                                        inside_animation: true,
                                        animation_frames: Some(Seq::empty()),
                                        animation_fps: Some(fps),
                                        animation_name: Some(clip_name),
                                        ..st
                                    },
                                ),
                            },
                        },
                    }
                }
            } else if name == "frame"@ {
                if !st.inside_animation {
                    Err(XmlParseErrorView::MalformedFile)
                } else {
                    match st.animation_frames {
                        None => Err(XmlParseErrorView::MalformedFile),
                        Some(frames) => match spec_attr_last(attributes, "file"@) {
                            None => Err(
                                XmlParseErrorView::MissingAttribute { attribute: "file"@ },
                            ),
                            Some(file_path) => match spec_attr_last(attributes, "number"@) {
                                None => Err(
                                    XmlParseErrorView::MissingAttribute { attribute: "number"@ },
                                ),
                                Some(number_text) => match spec_parse_u32(number_text) {
                                    None => Err(XmlParseErrorView::MalformedFile),
                                    Some(number) => Ok(
                                        ParseStateView {
                                            animation_frames: Some(
                                                frames.push(FrameXmlView { number, file_path }),
                                            ),
                                            ..st
                                        },
                                    ),
                                },
                            },
                        },
                    }
                }
            } else {
                Ok(st)
            }
        },
        ConfigXmlEventView::EndElement { name } => {
            if name == "Animation"@ {
                match (st.animation_name, st.animation_frames) {
                    (Some(clip_name), Some(frames)) => {
                        if frames.len() == 0 {
                            Err(XmlParseErrorView::MalformedFile)
                        } else {
                            Ok(
                                ParseStateView {
                                    inside_animation: false,
                                    animation_name: None,
                                    animation_fps: None,
                                    animation_frames: None,
                                    animations: st.animations.push(
                                        AnimationXmlView {
                                            name: clip_name,
                                            fps: st.animation_fps,
                                            frames,
                                        },
                                    ),
                                    ..st
                                },
                            )
                        }
                    },
                    _ => Err(XmlParseErrorView::MalformedFile),
                }
            } else {
                Ok(st)
            }
        },
    }
}

/// The state after running the events in order, stopping at the document's
/// end, or the first rejection.
pub open spec fn spec_run(st: ParseStateView, events: Seq<ConfigXmlEventView>) -> Result<
    ParseStateView,
    XmlParseErrorView,
>
    decreases events.len(),
{
    if events.len() == 0 {
        Ok(st)
    } else if events[0] is EndDocument {
        Ok(st)
    } else {
        match spec_step(st, events[0]) {
            Err(e) => Err(e),
            Ok(st2) => spec_run(st2, events.drop_first()),
        }
    }
}

pub open spec fn spec_shimeji_attr_kept(p: (Seq<char>, Seq<char>)) -> bool {
    p.0 != "name"@ && p.0 != "height"@ && p.0 != "width"@
}

/// The attributes that stay in the parse result once the name and size are
/// consumed.
pub open spec fn spec_kept_attrs(attrs: Seq<(Seq<char>, Seq<char>)>) -> Seq<
    (Seq<char>, Seq<char>),
> {
    attrs.filter(|p: (Seq<char>, Seq<char>)| spec_shimeji_attr_kept(p))
}

proof fn lemma_kept_attrs_empty()
    ensures
        spec_kept_attrs(Seq::<(Seq<char>, Seq<char>)>::empty()) =~= Seq::<
            (Seq<char>, Seq<char>),
        >::empty(),
{
    reveal_with_fuel(Seq::<(Seq<char>, Seq<char>)>::filter, 2);
}

/// How the kept attributes grow with their source, one element at a time.
proof fn lemma_kept_attrs_step(attrs: Seq<(Seq<char>, Seq<char>)>, k: int)
    requires
        0 <= k < attrs.len(),
    ensures
        spec_kept_attrs(attrs.take(k + 1)) == if spec_shimeji_attr_kept(attrs[k]) {
            spec_kept_attrs(attrs.take(k)).push(attrs[k])
        } else {
            spec_kept_attrs(attrs.take(k))
        },
{
    reveal_with_fuel(Seq::<(Seq<char>, Seq<char>)>::filter, 2);
    assert(attrs.take(k + 1).drop_last() =~= attrs.take(k));
    assert(attrs.take(k + 1).last() == attrs[k]);
    assert(attrs.take(k + 1).len() == k + 1 > 0);
}

/// The document's closing checks: a `Shimeji` element must have been seen,
/// and its attributes must name the sprite and give its pixel size.
pub open spec fn spec_finalize(st: ParseStateView) -> Result<
    XmlReturnDataView,
    XmlParseErrorView,
> {
    if !st.shimeji_found {
        Err(XmlParseErrorView::NoShimeji)
    } else {
        match spec_attr_last(st.shimeji_attributes, "name"@) {
            None => Err(XmlParseErrorView::MissingAttribute { attribute: "name"@ }),
            Some(sprite_name) => match spec_attr_last(st.shimeji_attributes, "height"@) {
                None => Err(XmlParseErrorView::MissingAttribute { attribute: "height"@ }),
                Some(height_text) => match spec_parse_u32(height_text) {
                    None => Err(XmlParseErrorView::MalformedFile),
                    Some(height) => match spec_attr_last(st.shimeji_attributes, "width"@) {
                        None => Err(XmlParseErrorView::MissingAttribute { attribute: "width"@ }),
                        Some(width_text) => match spec_parse_u32(width_text) {
                            None => Err(XmlParseErrorView::MalformedFile),
                            Some(width) => Ok(
                                XmlReturnDataView {
                                    shimeji_attributes: spec_kept_attrs(st.shimeji_attributes),
                                    animations: st.animations,
                                    name: sprite_name,
                                    shimeji_height: height,
                                    shimeji_width: width,
                                },
                            ),
                        },
                    },
                },
            },
        }
    }
}

/// The whole grammar: run the events, then close the document.
pub open spec fn spec_parse_events(events: Seq<ConfigXmlEventView>) -> Result<
    XmlReturnDataView,
    XmlParseErrorView,
> {
    match spec_run(spec_parse_init(), events) {
        Err(e) => Err(e),
        Ok(st) => spec_finalize(st),
    }
}

struct ParseState {
    shimeji_found: bool,
    shimeji_attributes: Vec<(String, String)>,
    inside_animation: bool,
    animation_name: Option<String>,
    animation_fps: Option<u32>,
    animation_frames: Option<Vec<FrameXml>>,
    animations: Vec<AnimationXml>,
}

impl View for ParseState {
    type V = ParseStateView;

    closed spec fn view(&self) -> ParseStateView {
        ParseStateView {
            shimeji_found: self.shimeji_found,
            shimeji_attributes: self.shimeji_attributes@.map_values(
                |p: (String, String)| (p.0@, p.1@),
            ),
            inside_animation: self.inside_animation,
            animation_name: match self.animation_name {
                Some(n) => Some(n@),
                None => None,
            },
            animation_fps: self.animation_fps,
            animation_frames: match self.animation_frames {
                Some(f) => Some(f@.map_values(|x: FrameXml| x@)),
                None => None,
            },
            animations: self.animations@.map_values(|a: AnimationXml| a@),
        }
    }
}

/// Reads one sprite definition out of its document's events: exactly the
/// grammar `spec_parse_events` gives, result or rejection. (Whether each
/// frame's image file exists is for the caller to check, with the frame
/// paths the result carries.)
#[verifier::loop_isolation(false)]
pub fn parse(events: Vec<ConfigXmlEvent>) -> (r: Result<XmlReturnData, XmlParseError>)
    ensures
        ({
            let s = spec_parse_events(events@.map_values(|e: ConfigXmlEvent| e@));
            match r {
                Ok(d) => s == Ok::<XmlReturnDataView, XmlParseErrorView>(d@),
                Err(e) => s == Err::<XmlReturnDataView, XmlParseErrorView>(e@),
            }
        }),
{
    let ghost evs = events@.map_values(|e: ConfigXmlEvent| e@);
    let mut st = ParseState {
        shimeji_found: false,
        shimeji_attributes: Vec::new(),
        inside_animation: false,
        animation_name: None,
        animation_fps: None,
        animation_frames: None,
        animations: Vec::new(),
    };
    proof {
        assert(st@.shimeji_attributes =~= spec_parse_init().shimeji_attributes);
        assert(st@.animations =~= spec_parse_init().animations);
        assert(st@ == spec_parse_init());
        assert(evs.skip(0) =~= evs);
    }
    let mut done = false;
    let mut i: usize = 0;
    while i < events.len() && !done
        invariant
            i <= events@.len(),
            !done ==> spec_run(spec_parse_init(), evs) == spec_run(st@, evs.skip(i as int)),
            done ==> spec_run(spec_parse_init(), evs) == Ok::<
                ParseStateView,
                XmlParseErrorView,
            >(st@),
        decreases events@.len() - i,
    {
        let ghost pre = st@;
        proof {
            assert(evs.skip(i as int)[0] == evs[i as int]);
            assert(evs.skip(i as int).drop_first() =~= evs.skip(i as int + 1));
        }
        match &events[i] {
            ConfigXmlEvent::Whitespace => {},
            ConfigXmlEvent::Other => {},
            ConfigXmlEvent::EndDocument => {
                done = true;
            },
            ConfigXmlEvent::StartElement { name, attributes } => {
                if str_eq(name.as_str(), "Shimeji") {
                    if st.shimeji_found {
                        return Err(XmlParseError::MultipleShimeji);
                    }
                    st.shimeji_found = true;
                    st.shimeji_attributes = clone_attrs(attributes);
                    proof {
                        assert(spec_step(pre, evs[i as int]) == Ok::<
                            ParseStateView,
                            XmlParseErrorView,
                        >(st@));
                    }
                } else if str_eq(name.as_str(), "Animation") {
                    if st.inside_animation {
                        return Err(XmlParseError::MalformedFile);
                    }
                    let fps_text = match attr_first(attributes, "fps") {
                        None => {
                            return Err(XmlParseError::MissingAttribute { attribute: "fps" });
                        },
                        Some(v) => v,
                    };
                    let fps = match parse_u32(fps_text.as_str()) {
                        None => {
                            return Err(XmlParseError::MalformedFile);
                        },
                        Some(v) => v,
                    };
                    let clip_name = match attr_first(attributes, "name") {
                        None => {
                            return Err(XmlParseError::MissingAttribute { attribute: "name" });
                        },
                        Some(v) => v.clone(),
                    };
                    st.inside_animation = true;
                    st.animation_frames = Some(Vec::new());
                    st.animation_fps = Some(fps);
                    st.animation_name = Some(clip_name);
                    proof {
                        assert(st@.animation_frames.unwrap() =~= Seq::<FrameXmlView>::empty());
                        assert(spec_step(pre, evs[i as int]) == Ok::<
                            ParseStateView,
                            XmlParseErrorView,
                        >(st@));
                    }
                } else if str_eq(name.as_str(), "frame") {
                    if !st.inside_animation {
                        return Err(XmlParseError::MalformedFile);
                    }
                    if st.animation_frames.is_none() {
                        return Err(XmlParseError::MalformedFile);
                    }
                    let file_path = match attr_last(attributes, "file") {
                        None => {
                            return Err(XmlParseError::MissingAttribute { attribute: "file" });
                        },
                        Some(v) => v.clone(),
                    };
                    let number = match attr_last(attributes, "number") {
                        None => {
                            return Err(XmlParseError::MissingAttribute { attribute: "number" });
                        },
                        Some(v) => match parse_u32(v.as_str()) {
                            None => {
                                return Err(XmlParseError::MalformedFile);
                            },
                            Some(n) => n,
                        },
                    };
                    match &mut st.animation_frames {
                        None => {
                            return Err(XmlParseError::MalformedFile);
                        },
                        Some(frames) => {
                            frames.push(FrameXml { number, file_path });
                        },
                    }
                    proof {
                        assert(st@.animation_frames.unwrap()
                            =~= pre.animation_frames.unwrap().push(
                            FrameXmlView { number, file_path: file_path@ },
                        ));
                        assert(spec_step(pre, evs[i as int]) == Ok::<
                            ParseStateView,
                            XmlParseErrorView,
                        >(st@));
                    }
                }
            },
            ConfigXmlEvent::EndElement { name } => {
                if str_eq(name.as_str(), "Animation") {
                    let clip_name = match st.animation_name.take() {
                        None => {
                            return Err(XmlParseError::MalformedFile);
                        },
                        Some(n) => n,
                    };
                    let frames = match st.animation_frames.take() {
                        None => {
                            return Err(XmlParseError::MalformedFile);
                        },
                        Some(f) => f,
                    };
                    let fps = st.animation_fps.take();
                    st.inside_animation = false;
                    if frames.len() == 0 {
                        return Err(XmlParseError::MalformedFile);
                    }
                    st.animations.push(AnimationXml { name: clip_name, fps, frames });
                    proof {
                        assert(st@.animations =~= pre.animations.push(
                            AnimationXmlView {
                                name: clip_name@,
                                fps,
                                frames: frames@.map_values(|x: FrameXml| x@),
                            },
                        ));
                        assert(spec_step(pre, evs[i as int]) == Ok::<
                            ParseStateView,
                            XmlParseErrorView,
                        >(st@));
                    }
                }
            },
        }
        i = i + 1;
    }
    proof {
        if !done {
            assert(evs.skip(i as int).len() == 0);
        }
        assert(spec_run(spec_parse_init(), evs) == Ok::<ParseStateView, XmlParseErrorView>(st@));
        lemma_kept_attrs_empty();
    }
    if !st.shimeji_found {
        return Err(XmlParseError::NoShimeji);
    }
    let sprite_name = match attr_last(&st.shimeji_attributes, "name") {
        None => {
            return Err(XmlParseError::MissingAttribute { attribute: "name" });
        },
        Some(v) => v.clone(),
    };
    let shimeji_height = match attr_last(&st.shimeji_attributes, "height") {
        None => {
            return Err(XmlParseError::MissingAttribute { attribute: "height" });
        },
        Some(v) => match parse_u32(v.as_str()) {
            None => {
                return Err(XmlParseError::MalformedFile);
            },
            Some(h) => h,
        },
    };
    let shimeji_width = match attr_last(&st.shimeji_attributes, "width") {
        None => {
            return Err(XmlParseError::MissingAttribute { attribute: "width" });
        },
        Some(v) => match parse_u32(v.as_str()) {
            None => {
                return Err(XmlParseError::MalformedFile);
            },
            Some(w) => w,
        },
    };
    let mut kept: Vec<(String, String)> = Vec::new();
    let ghost attrs_view = st@.shimeji_attributes;
    let mut k: usize = 0;
    proof {
        assert(attrs_view.take(0) =~= Seq::<(Seq<char>, Seq<char>)>::empty());
        assert(kept@.map_values(|p: (String, String)| (p.0@, p.1@)) =~= spec_kept_attrs(
            attrs_view.take(0),
        ));
    }
    while k < st.shimeji_attributes.len()
        invariant
            k <= st.shimeji_attributes@.len(),
            attrs_view == st@.shimeji_attributes,
            kept@.map_values(|p: (String, String)| (p.0@, p.1@)) == spec_kept_attrs(
                attrs_view.take(k as int),
            ),
        decreases st.shimeji_attributes@.len() - k,
    {
        proof {
            lemma_kept_attrs_step(attrs_view, k as int);
            assert(attrs_view[k as int] == (st.shimeji_attributes@[k as int].0@,
            st.shimeji_attributes@[k as int].1@));
        }
        let key = &st.shimeji_attributes[k].0;
        if !str_eq(key.as_str(), "name") && !str_eq(key.as_str(), "height") && !str_eq(
            key.as_str(),
            "width",
        ) {
            kept.push((st.shimeji_attributes[k].0.clone(), st.shimeji_attributes[k].1.clone()));
            proof {
                assert(kept@.map_values(|p: (String, String)| (p.0@, p.1@)) =~= spec_kept_attrs(
                    attrs_view.take(k as int + 1),
                ));
            }
        }
        k = k + 1;
    }
    proof {
        assert(attrs_view.take(st.shimeji_attributes@.len() as int) =~= attrs_view);
    }
    let ghost st_final = st@;
    let result = XmlReturnData {
        shimeji_attributes: kept,
        animations: st.animations,
        name: sprite_name,
        shimeji_height,
        shimeji_width,
    };
    proof {
        assert(spec_finalize(st_final) == Ok::<XmlReturnDataView, XmlParseErrorView>(result@));
    }
    Ok(result)
}

} // verus!
