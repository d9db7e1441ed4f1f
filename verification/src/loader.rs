use vstd::prelude::*;

use crate::config::{FrameXml, FrameXmlView};
use crate::data::{AnimationData, Frame};
use crate::rgba::Rgba;
use crate::sorting::{sort_pairs, spec_sorted_pairs};

verus! {

/// Rejections while turning decoded image data into animation frames.
#[derive(Clone, Copy, PartialEq, Eq, Structural, Debug)]
pub enum LoadError {
    /// The decoded image is not in 8-bit RGBA form.
    UnsupportedColorType,
    /// The decoded pixel buffer's byte length is not a multiple of four.
    MalformedPixelBuffer,
}

/// The pixels written as four bytes each, RGBA order.
pub open spec fn spec_rgba_of_bytes(bytes: Seq<u8>) -> Seq<Rgba> {
    Seq::new(
        bytes.len() / 4,
        |i: int|
            Rgba {
                red: bytes[4 * i],
                green: bytes[4 * i + 1],
                blue: bytes[4 * i + 2],
                alpha: bytes[4 * i + 3],
            },
    )
}

/// One frame out of a decoded RGBA byte buffer: four bytes per pixel, in
/// buffer order; a buffer whose length is not a multiple of four is
/// malformed.
pub fn frame_from_rgba_bytes(bytes: &Vec<u8>) -> (r: Result<Frame, LoadError>)
    ensures
        match r {
            Ok(f) => bytes@.len() % 4 == 0 && f@ == spec_rgba_of_bytes(bytes@),
            Err(e) => e == LoadError::MalformedPixelBuffer && bytes@.len() % 4 != 0,
        },
{
    if bytes.len() % 4 != 0 {
        return Err(LoadError::MalformedPixelBuffer);
    }
    let pixel_count = bytes.len() / 4;
    proof {
        assert(4 * pixel_count == bytes@.len()) by (nonlinear_arith)
            requires
                pixel_count == bytes@.len() / 4,
                bytes@.len() % 4 == 0,
        ;
    }
    let mut pixels: Vec<Rgba> = Vec::new();
    let mut i: usize = 0;
    while i < pixel_count
        invariant
            i <= pixel_count,
            4 * pixel_count == bytes@.len(),
            bytes@.len() <= usize::MAX,
            pixels@.len() == i,
            forall|k: int| 0 <= k < i ==> pixels@[k] == spec_rgba_of_bytes(bytes@)[k],
        decreases pixel_count - i,
    {
        proof {
            assert(4 * i + 3 < bytes@.len());
        }
        let pixel = Rgba::new(bytes[4 * i], bytes[4 * i + 1], bytes[4 * i + 2], bytes[4 * i + 3]);
        pixels.push(pixel);
        i = i + 1;
    }
    proof {
        assert(pixels@ =~= spec_rgba_of_bytes(bytes@));
    }
    Ok(Frame { pixels_row_major: pixels })
}

/// The load pairs of a clip's frame list: each frame's explicit number with
/// its position.
pub open spec fn spec_frame_pairs(frames: Seq<FrameXmlView>) -> Seq<(u64, u64)> {
    Seq::new(frames.len(), |i: int| (frames[i].number as u64, i as u64))
}

/// The frame list in playback order: stably sorted by the explicit frame
/// number, exactly as sorting (number, position) pairs ascending orders it.
pub open spec fn spec_sorted_frames(frames: Seq<FrameXmlView>) -> Seq<FrameXmlView> {
    spec_sorted_pairs(spec_frame_pairs(frames)).map_values(
        |p: (u64, u64)| frames[p.1 as int],
    )
}

/// Frame order is authoritative: the sorted frame list holds the same
/// frames, with their explicit numbers ascending — the playback order the
/// data model promises.
pub proof fn lemma_sorted_frames_ordered(frames: Seq<FrameXmlView>)
    requires
        frames.len() <= usize::MAX,
    ensures
        spec_sorted_frames(frames).len() == frames.len(),
        forall|k: int|
            0 <= k < frames.len() ==> frames.contains(#[trigger] spec_sorted_frames(frames)[k]),
        forall|k: int, l: int|
            0 <= k < l < frames.len() ==> spec_sorted_frames(frames)[k].number
                <= spec_sorted_frames(frames)[l].number,
{
    let pairs = spec_frame_pairs(frames);
    let sorted = spec_sorted_pairs(pairs);
    crate::sorting::lemma_sorted_pairs_ensures(pairs);
    assert forall|k: int| 0 <= k < frames.len() implies sorted[k].1 < frames.len() && sorted[k]
        == (frames[sorted[k].1 as int].number as u64, sorted[k].1) by {
        assert(sorted.contains(sorted[k]));
        let m = choose|m: int| 0 <= m < pairs.len() && pairs[m] == sorted[k];
        assert(pairs[m].1 == m as u64);
    }
    assert forall|k: int|
        0 <= k < frames.len() implies frames.contains(
        #[trigger] spec_sorted_frames(frames)[k]) by {
        assert(spec_sorted_frames(frames)[k] == frames[sorted[k].1 as int]);
    }
    assert forall|k: int, l: int|
        0 <= k < l < frames.len() implies spec_sorted_frames(frames)[k].number
        <= spec_sorted_frames(frames)[l].number by {
        assert(crate::sorting::pair_order()(sorted[k], sorted[l]));
        assert(spec_sorted_frames(frames)[k] == frames[sorted[k].1 as int]);
        assert(spec_sorted_frames(frames)[l] == frames[sorted[l].1 as int]);
    }
}

fn clone_frame_xml(f: &FrameXml) -> (r: FrameXml)
    ensures
        r@ == f@,
{
    FrameXml { number: f.number, file_path: f.file_path.clone() }
}

/// Sorts a clip's frames into playback order by their explicit frame
/// number; frames sharing a number keep their document order.
pub fn sorted_frames(frames: &Vec<FrameXml>) -> (r: Vec<FrameXml>)
    ensures
        r@.map_values(|f: FrameXml| f@) == spec_sorted_frames(
            frames@.map_values(|f: FrameXml| f@),
        ),
{
    let ghost fview = frames@.map_values(|f: FrameXml| f@);
    let mut pairs: Vec<(u64, u64)> = Vec::new();
    let mut i: usize = 0;
    while i < frames.len()
        invariant
            i <= frames@.len(),
            fview == frames@.map_values(|f: FrameXml| f@),
            pairs@.len() == i,
            forall|k: int| 0 <= k < i ==> pairs@[k] == spec_frame_pairs(fview)[k],
        decreases frames@.len() - i,
    {
        pairs.push((frames[i].number as u64, i as u64));
        i = i + 1;
    }
    proof {
        assert(pairs@ =~= spec_frame_pairs(fview));
    }
    let sorted = sort_pairs(pairs);
    proof {
        crate::sorting::lemma_sorted_pairs_ensures(spec_frame_pairs(fview));
    }
    let mut ordered: Vec<FrameXml> = Vec::new();
    let mut k: usize = 0;
    while k < sorted.len()
        invariant
            k <= sorted@.len(),
            fview == frames@.map_values(|f: FrameXml| f@),
            fview.len() <= usize::MAX,
            sorted@ == spec_sorted_pairs(spec_frame_pairs(fview)),
            forall|x: (u64, u64)|
                #[trigger] sorted@.contains(x) ==> spec_frame_pairs(fview).contains(x),
            ordered@.len() == k,
            forall|j: int|
                0 <= j < k ==> (#[trigger] ordered@[j])@ == spec_sorted_frames(fview)[j],
        decreases sorted@.len() - k,
    {
        proof {
            assert(sorted@.contains(sorted@[k as int]));
            let m = choose|m: int|
                0 <= m < spec_frame_pairs(fview).len() && spec_frame_pairs(fview)[m]
                    == sorted@[k as int];
            assert(spec_frame_pairs(fview)[m].1 == m as u64);
            assert(sorted@[k as int].1 < fview.len());
        }
        let idx = sorted[k].1 as usize;
        let copied = clone_frame_xml(&frames[idx]);
        ordered.push(copied);
        proof {
            assert(spec_sorted_frames(fview)[k as int] == fview[sorted@[k as int].1 as int]);
            assert(ordered@[k as int]@ == fview[idx as int]);
        }
        k = k + 1;
    }
    proof {
        assert(ordered@.map_values(|f: FrameXml| f@) =~= spec_sorted_frames(fview));
    }
    ordered
}

/// One clip from its declared rate and its decoded, ordered frames: an
/// unspecified frame rate defaults to the safe 24.
pub fn build_animation(fps: Option<u32>, frames: Vec<Frame>) -> (r: AnimationData)
    ensures
        r@.fps == (match fps {
            Some(f) => f,
            None => 24u32,
        }),
        r@.frames == frames@.map_values(|f: Frame| f@),
{
    let rate = match fps {
        Some(f) => f,
        None => 24,
    };
    AnimationData { fps: rate, frames }
}

} // verus!
