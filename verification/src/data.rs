use vstd::prelude::*;

use crate::rgba::Rgba;

verus! {

/// One decoded animation frame: a fixed-size row-major pixel buffer.
#[derive(Clone, Debug)]
pub struct Frame {
    pub pixels_row_major: Vec<Rgba>,
}

impl View for Frame {
    type V = Seq<Rgba>;

    open spec fn view(&self) -> Seq<Rgba> {
        self.pixels_row_major@
    }
}

/// One named clip: an ordered frame sequence plus its target frame rate.
///
/// The playback order of `frames` is authoritative; the loader sorts frames
/// by their explicit frame number before it builds this value.
#[derive(Clone, Debug)]
pub struct AnimationData {
    /// Target frames per second; a value of 0 is treated as the safe
    /// default of 24 by the frame-pacing logic, never divided by.
    pub fps: u32,
    pub frames: Vec<Frame>,
}

pub ghost struct AnimationDataView {
    pub fps: u32,
    pub frames: Seq<Seq<Rgba>>,
}

impl View for AnimationData {
    type V = AnimationDataView;

    open spec fn view(&self) -> AnimationDataView {
        AnimationDataView { fps: self.fps, frames: self.frames@.map_values(|f: Frame| f@) }
    }
}

impl AnimationDataView {
    /// Every clip holds at least one frame, and the frame count stays small
    /// enough for the playback cursor, which is kept in a `u32`.
    pub open spec fn wf(self) -> bool {
        1 <= self.frames.len() < 0x1_0000_0000
    }
}

/// The immutable description of one sprite kind: its name, its native pixel
/// dimensions and its named animation clips. Built once by the loader and
/// shared read-only (behind `Arc`) by every sprite instantiated from it.
#[derive(Clone, Debug)]
pub struct ShimejiData {
    pub name: String,
    pub height: u32,
    pub width: u32,
    /// Clip name to clip, with pairwise distinct names. The map the loader
    /// fills is kept as an association list so that lookup order is fixed.
    pub animations: Vec<(String, AnimationData)>,
}

pub ghost struct ShimejiDataView {
    pub name: Seq<char>,
    pub height: u32,
    pub width: u32,
    pub animations: Seq<(Seq<char>, AnimationDataView)>,
}

impl View for ShimejiData {
    type V = ShimejiDataView;

    open spec fn view(&self) -> ShimejiDataView {
        ShimejiDataView {
            name: self.name@,
            height: self.height,
            width: self.width,
            animations: self.animations@.map_values(
                |p: (String, AnimationData)| (p.0@, p.1@),
            ),
        }
    }
}

/// The first clip under the given name, if any.
pub open spec fn spec_get_animation(
    animations: Seq<(Seq<char>, AnimationDataView)>,
    name: Seq<char>,
) -> Option<AnimationDataView>
    decreases animations.len(),
{
    if animations.len() == 0 {
        None
    } else if animations[0].0 == name {
        Some(animations[0].1)
    } else {
        spec_get_animation(animations.drop_first(), name)
    }
}

impl ShimejiDataView {
    /// Validated animation data, as the loading collaborator promises it:
    /// clip names are distinct, every clip is non-empty, the sprite has an
    /// "idle" clip, and one frame's worth of surface bytes fits in memory.
    pub open spec fn wf(self) -> bool {
        &&& forall|i: int, j: int|
            0 <= i < j < self.animations.len() ==> self.animations[i].0 != self.animations[j].0
        &&& forall|i: int|
            0 <= i < self.animations.len() ==> (#[trigger] self.animations[i]).1.wf()
        &&& spec_get_animation(self.animations, "idle"@).is_some()
        &&& self.width * self.height * 4 <= usize::MAX
    }
}

/// A clip found by name is one of the stored clips.
pub proof fn lemma_get_animation_is_entry(
    animations: Seq<(Seq<char>, AnimationDataView)>,
    name: Seq<char>,
)
    requires
        spec_get_animation(animations, name) is Some,
    ensures
        exists|i: int|
            0 <= i < animations.len() && #[trigger] animations[i].1 == spec_get_animation(
                animations,
                name,
            ).unwrap(),
    decreases animations.len(),
{
    if animations[0].0 == name {
        assert(animations[0].1 == spec_get_animation(animations, name).unwrap());
    } else {
        lemma_get_animation_is_entry(animations.drop_first(), name);
        let i = choose|i: int|
            0 <= i < animations.drop_first().len() && #[trigger] animations.drop_first()[i].1
                == spec_get_animation(animations.drop_first(), name).unwrap();
        assert(animations[i + 1].1 == spec_get_animation(animations, name).unwrap());
    }
}

impl ShimejiData {
    /// The clip stored under `name`, located by straight search; mirrors a
    /// by-name map lookup.
    pub fn get_animation(&self, name: &str) -> (r: Option<&AnimationData>)
        ensures
            match r {
                Some(a) => spec_get_animation(self@.animations, name@) == Some(a@),
                None => spec_get_animation(self@.animations, name@) is None,
            },
    {
        let mut i: usize = 0;
        proof {
            assert(self@.animations.skip(0) =~= self@.animations);
        }
        while i < self.animations.len()
            invariant
                0 <= i <= self.animations.len(),
                forall|k: int|
                    0 <= k < i ==> (#[trigger] self@.animations[k]).0 != name@,
                spec_get_animation(self@.animations, name@) == spec_get_animation(
                    self@.animations.skip(i as int),
                    name@,
                ),
            decreases self.animations.len() - i,
        {
            let entry = &self.animations[i];
            proof {
                assert(self@.animations.skip(i as int)[0] == self@.animations[i as int]);
            }
            if str_eq(entry.0.as_str(), name) {
                return Some(&entry.1);
            }
            proof {
                assert(self@.animations.skip(i as int).drop_first() =~= self@.animations.skip(
                    i as int + 1,
                ));
            }
            i = i + 1;
        }
        proof {
            assert(self@.animations.skip(i as int).len() == 0);
        }
        None
    }
}

impl ShimejiData {
    /// Decides `wf` at run time: what a caller must check before handing
    /// sprite data of unknown provenance to the engine.
    #[verifier::loop_isolation(false)]
    pub fn is_valid(&self) -> (r: bool)
        ensures
            r == self@.wf(),
    {
        let n = self.animations.len();
        let mut i: usize = 0;
        while i < n
            invariant
                i <= n,
                forall|a: int, b: int|
                    0 <= a < b < n && a < i ==> (#[trigger] self@.animations[a]).0 != (
                    #[trigger] self@.animations[b]).0,
            decreases n - i,
        {
            let mut j: usize = i + 1;
            while j < n
                invariant
                    i < j <= n || (i + 1 == j && j > n),
                    i < n,
                    forall|b: int|
                        i < b < j ==> (#[trigger] self@.animations[b]).0 != self@.animations[
                            i as int
                        ].0,
                decreases n - j,
            {
                if str_eq(self.animations[i].0.as_str(), self.animations[j].0.as_str()) {
                    proof {
                        assert(self@.animations[i as int].0 == self@.animations[j as int].0);
                        assert(!self@.wf());
                    }
                    return false;
                }
                j = j + 1;
            }
            i = i + 1;
        }
        let mut k: usize = 0;
        while k < n
            invariant
                k <= n,
                forall|a: int| 0 <= a < k ==> (#[trigger] self@.animations[a]).1.wf(),
            decreases n - k,
        {
            let clip_len = self.animations[k].1.frames.len();
            if clip_len == 0 || clip_len as u64 >= 0x1_0000_0000u64 {
                proof {
                    assert(self@.animations[k as int].1.frames.len() == clip_len);
                    assert(!self@.animations[k as int].1.wf());
                    assert(!self@.wf());
                }
                return false;
            }
            k = k + 1;
        }
        if self.get_animation("idle").is_none() {
            return false;
        }
        proof {
            assert((self.width as int) * (self.height as int) < 0x1_0000_0000_0000_0000) by (nonlinear_arith)
                requires
                    self.width < 0x1_0000_0000 && self.height < 0x1_0000_0000,
            ;
        }
        if (self.width as u128) * (self.height as u128) * 4 > (usize::MAX as u128) {
            return false;
        }
        true
    }
}

/// Character-for-character string equality, built on `String` comparison.
pub fn str_eq(a: &str, b: &str) -> (r: bool)
    ensures
        r == (a@ == b@),
{
    let owned_a: String = a.to_owned();
    let owned_b: String = b.to_owned();
    owned_a == owned_b
}

} // verus!
