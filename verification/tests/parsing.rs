use shimeji_engine::config::{parse, ConfigXmlEvent, FrameXml, XmlParseError};
use shimeji_engine::data::{AnimationData, Frame, ShimejiData};
use shimeji_engine::loader::{build_animation, frame_from_rgba_bytes, sorted_frames, LoadError};
use shimeji_engine::numeric::parse_u32;
use shimeji_engine::rgba::Rgba;

fn start(name: &str, attrs: &[(&str, &str)]) -> ConfigXmlEvent {
    ConfigXmlEvent::StartElement {
        name: String::from(name),
        attributes: attrs
            .iter()
            .map(|(k, v)| (String::from(*k), String::from(*v)))
            .collect(),
    }
}

fn end(name: &str) -> ConfigXmlEvent {
    ConfigXmlEvent::EndElement { name: String::from(name) }
}

fn minimal_document() -> Vec<ConfigXmlEvent> {
    vec![
        ConfigXmlEvent::Whitespace,
        start("Shimeji", &[("name", "TestSprite"), ("height", "64"), ("width", "48"), (
            "gravity",
            "1",
        )]),
        start("Animation", &[("name", "idle"), ("fps", "24")]),
        start("frame", &[("file", "a.png"), ("number", "1")]),
        start("frame", &[("file", "b.png"), ("number", "2")]),
        end("Animation"),
        end("Shimeji"),
        ConfigXmlEvent::EndDocument,
    ]
}

#[test]
fn parse_minimal_document() {
    let parsed = parse(minimal_document()).unwrap();
    assert_eq!(parsed.name, "TestSprite");
    assert_eq!(parsed.shimeji_height, 64);
    assert_eq!(parsed.shimeji_width, 48);
    assert_eq!(parsed.animations.len(), 1);
    let clip = &parsed.animations[0];
    assert_eq!(clip.name, "idle");
    assert_eq!(clip.fps, Some(24));
    assert_eq!(clip.frames.len(), 2);
    assert_eq!(clip.frames[0].file_path, "a.png");
    assert_eq!(clip.frames[0].number, 1);
    assert_eq!(clip.frames[1].file_path, "b.png");
    assert_eq!(clip.frames[1].number, 2);
    // The consumed keys are gone; the rest stays.
    assert_eq!(parsed.shimeji_attributes.len(), 1);
    assert_eq!(parsed.shimeji_attributes[0].0, "gravity");
}

#[test]
fn parse_requires_a_shimeji_element() {
    let result = parse(vec![ConfigXmlEvent::EndDocument]);
    assert!(matches!(result, Err(XmlParseError::NoShimeji)));
}

#[test]
fn parse_rejects_a_second_shimeji_element() {
    let events = vec![
        start("Shimeji", &[("name", "a"), ("height", "1"), ("width", "1")]),
        start("Shimeji", &[("name", "b"), ("height", "1"), ("width", "1")]),
    ];
    assert!(matches!(parse(events), Err(XmlParseError::MultipleShimeji)));
}

#[test]
fn parse_rejects_a_frame_outside_an_animation() {
    let events = vec![
        start("Shimeji", &[("name", "a"), ("height", "1"), ("width", "1")]),
        start("frame", &[("file", "a.png"), ("number", "1")]),
    ];
    assert!(matches!(parse(events), Err(XmlParseError::MalformedFile)));
}

#[test]
fn parse_rejects_an_animation_without_fps() {
    let events = vec![
        start("Shimeji", &[("name", "a"), ("height", "1"), ("width", "1")]),
        start("Animation", &[("name", "idle")]),
    ];
    assert!(
        matches!(parse(events), Err(XmlParseError::MissingAttribute { attribute: "fps" }))
    );
}

#[test]
fn parse_rejects_an_empty_animation() {
    let events = vec![
        start("Shimeji", &[("name", "a"), ("height", "1"), ("width", "1")]),
        start("Animation", &[("name", "idle"), ("fps", "24")]),
        end("Animation"),
    ];
    assert!(matches!(parse(events), Err(XmlParseError::MalformedFile)));
}

#[test]
fn parse_rejects_a_missing_size_attribute() {
    let events = vec![start("Shimeji", &[("name", "a"), ("width", "1")])];
    assert!(
        matches!(parse(events), Err(XmlParseError::MissingAttribute { attribute: "height" }))
    );
}

#[test]
fn parse_rejects_a_non_numeric_size() {
    let events = vec![start("Shimeji", &[("name", "a"), ("height", "x"), ("width", "1")])];
    assert!(matches!(parse(events), Err(XmlParseError::MalformedFile)));
}

#[test]
fn parse_stops_at_end_of_document() {
    let mut events = minimal_document();
    // Nothing after the document's end is read, not even a second sprite.
    events.push(start("Shimeji", &[("name", "b")]));
    assert!(parse(events).is_ok());
}

#[test]
fn parse_lets_a_later_attribute_shadow_an_earlier_one() {
    let events = vec![
        start("Shimeji", &[("name", "first"), ("name", "second"), ("height", "1"), (
            "width",
            "1",
        )]),
        ConfigXmlEvent::EndDocument,
    ];
    let parsed = parse(events).unwrap();
    assert_eq!(parsed.name, "second");
}

#[test]
fn parse_u32_reads_plain_and_signed_decimals() {
    assert_eq!(parse_u32("0"), Some(0));
    assert_eq!(parse_u32("123"), Some(123));
    assert_eq!(parse_u32("+42"), Some(42));
    assert_eq!(parse_u32("4294967295"), Some(u32::MAX));
}

#[test]
fn parse_u32_rejects_junk_and_overflow() {
    assert_eq!(parse_u32(""), None);
    assert_eq!(parse_u32("+"), None);
    assert_eq!(parse_u32("-1"), None);
    assert_eq!(parse_u32("12a"), None);
    assert_eq!(parse_u32("4294967296"), None);
    assert_eq!(parse_u32("один"), None);
}

#[test]
fn sorted_frames_orders_by_number_stably() {
    let frames = vec![
        FrameXml { number: 3, file_path: String::from("a") },
        FrameXml { number: 1, file_path: String::from("b") },
        FrameXml { number: 2, file_path: String::from("c") },
        FrameXml { number: 1, file_path: String::from("d") },
    ];
    let sorted = sorted_frames(&frames);
    let order: Vec<&str> = sorted.iter().map(|f| f.file_path.as_str()).collect();
    assert_eq!(order, vec!["b", "d", "c", "a"]);
}

#[test]
fn frame_from_rgba_bytes_groups_four_bytes_per_pixel() {
    let frame = frame_from_rgba_bytes(&vec![1, 2, 3, 4, 5, 6, 7, 8]).unwrap();
    assert_eq!(frame.pixels_row_major.len(), 2);
    assert_eq!(frame.pixels_row_major[0], Rgba::new(1, 2, 3, 4));
    assert_eq!(frame.pixels_row_major[1], Rgba::new(5, 6, 7, 8));
}

#[test]
fn frame_from_rgba_bytes_rejects_a_ragged_buffer() {
    assert!(matches!(
        frame_from_rgba_bytes(&vec![1, 2, 3, 4, 5]),
        Err(LoadError::MalformedPixelBuffer)
    ));
}

#[test]
fn build_animation_defaults_missing_fps_to_24() {
    let frames = vec![Frame { pixels_row_major: vec![Rgba::new(0, 0, 0, 0)] }];
    let clip = build_animation(None, frames);
    assert_eq!(clip.fps, 24);
    assert_eq!(clip.frames.len(), 1);
    let frames = vec![Frame { pixels_row_major: vec![Rgba::new(0, 0, 0, 0)] }];
    assert_eq!(build_animation(Some(60), frames).fps, 60);
}

fn one_clip(name: &str, frame_count: usize) -> (String, AnimationData) {
    let mut frames = Vec::new();
    for _ in 0..frame_count {
        frames.push(Frame { pixels_row_major: vec![Rgba::new(0, 0, 0, 0)] });
    }
    (String::from(name), AnimationData { fps: 24, frames })
}

#[test]
fn is_valid_accepts_a_complete_sprite() {
    let data = ShimejiData {
        name: String::from("s"),
        height: 2,
        width: 2,
        animations: vec![one_clip("idle", 1), one_clip("walk", 2)],
    };
    assert!(data.is_valid());
}

#[test]
fn is_valid_requires_an_idle_clip() {
    let data = ShimejiData {
        name: String::from("s"),
        height: 2,
        width: 2,
        animations: vec![one_clip("walk", 2)],
    };
    assert!(!data.is_valid());
}

#[test]
fn is_valid_rejects_duplicate_clip_names() {
    let data = ShimejiData {
        name: String::from("s"),
        height: 2,
        width: 2,
        animations: vec![one_clip("idle", 1), one_clip("idle", 2)],
    };
    assert!(!data.is_valid());
}

#[test]
fn is_valid_rejects_an_empty_clip() {
    let data = ShimejiData {
        name: String::from("s"),
        height: 2,
        width: 2,
        animations: vec![one_clip("idle", 0)],
    };
    assert!(!data.is_valid());
}
