use vstd::prelude::*;

use crate::bucket::{WindowHandle, WindowSize};
use crate::data::{spec_get_animation, AnimationDataView, ShimejiData, ShimejiDataView};
use crate::rgba::Rgba;
use std::sync::Arc;

verus! {

/// The clip a sprite plays. Active-clip selection is a future extension
/// point; this engine plays the one mandatory clip.
pub open spec fn spec_idle_clip(d: ShimejiDataView) -> AnimationDataView {
    spec_get_animation(d.animations, "idle"@).unwrap()
}

/// The frame rate actually used for pacing: a stored rate of 0 falls back to
/// the safe default of 24 instead of being divided by.
pub open spec fn spec_effective_fps(fps: u32) -> u32 {
    if fps == 0 {
        24u32
    } else {
        fps
    }
}

/// The minimum number of microseconds between two rendered frames of a clip:
/// one second divided by the clip's frame rate.
pub open spec fn spec_frame_interval_micros(fps: u32) -> int {
    1_000_000int / (spec_effective_fps(fps) as int)
}

/// The playback cursor after one advance: one past the current frame
/// (1-based), wrapping to the first frame instead of running past the clip's
/// last frame. Before the first advance the cursor reads as 1.
pub open spec fn spec_next_cursor(cursor: Option<u32>, clip_len: int) -> u32 {
    let base = match cursor {
        Some(c) => c as int,
        None => 1int,
    };
    if base + 1 > clip_len {
        1u32
    } else {
        (base + 1) as u32
    }
}

/// In validated sprite data the mandatory clip is itself well formed.
pub proof fn lemma_idle_clip_wf(d: ShimejiDataView)
    requires
        d.wf(),
    ensures
        spec_idle_clip(d).wf(),
{
    crate::data::lemma_get_animation_is_entry(d.animations, "idle"@);
}

/// A surface buffer after one frame copy: pixels go in row-major order, four
/// bytes per pixel in RGBA channel order, one pixel per four-byte chunk of
/// the buffer; bytes beyond the copied pixels keep their old value.
pub open spec fn spec_blit(buffer: Seq<u8>, frame: Seq<Rgba>) -> Seq<u8> {
    Seq::new(
        buffer.len(),
        |j: int|
            {
                let p = j / 4;
                if p < frame.len() && p < buffer.len() / 4 {
                    if j % 4 == 0 {
                        frame[p].red
                    } else if j % 4 == 1 {
                        frame[p].green
                    } else if j % 4 == 2 {
                        frame[p].blue
                    } else {
                        frame[p].alpha
                    }
                } else {
                    buffer[j]
                }
            },
    )
}

/// One sprite render unit: a native window the engine owns exclusively, the
/// shared animation description, and the playback cursor plus pacing clock.
/// Mutated only by its owning bucket's worker.
pub struct ShimejiWindow {
    window_id: u64,
    surface_width: u32,
    surface_height: u32,
    visible: bool,
    buffer: Vec<u8>,
    data: Arc<ShimejiData>,
    last_rendered_frame: u64,
    current_frame: Option<u32>,
}

pub ghost struct ShimejiWindowView {
    pub window_id: u64,
    pub surface: WindowSize,
    pub visible: bool,
    pub buffer: Seq<u8>,
    pub data: ShimejiDataView,
    /// Microsecond timestamp of the last rendered frame.
    pub last_rendered_frame: u64,
    /// 1-based index of the frame on screen; unset before the first render.
    pub current_frame: Option<u32>,
}

impl View for ShimejiWindow {
    type V = ShimejiWindowView;

    closed spec fn view(&self) -> ShimejiWindowView {
        ShimejiWindowView {
            window_id: self.window_id,
            surface: WindowSize { width: self.surface_width, height: self.surface_height },
            visible: self.visible,
            buffer: self.buffer@,
            data: self.data@,
            last_rendered_frame: self.last_rendered_frame,
            current_frame: self.current_frame,
        }
    }
}

impl ShimejiWindowView {
    /// The playback cursor, once set, is a valid 1-based index into the
    /// active clip, and the surface buffer holds one native-sized frame.
    pub open spec fn wf(self) -> bool {
        &&& self.data.wf()
        &&& match self.current_frame {
            Some(c) => 1 <= c <= spec_idle_clip(self.data).frames.len(),
            None => true,
        }
        &&& self.buffer.len() == self.data.width * self.data.height * 4
    }
}

/// The whole effect of one `update` call at time `now` (microseconds): if
/// the clip's inter-frame interval has not yet elapsed since the last
/// render, nothing changes; otherwise the cursor advances (wrapping), the
/// new frame is copied into the surface buffer, the window is visible, and
/// `now` becomes the last-rendered timestamp.
pub open spec fn spec_update(s: ShimejiWindowView, now: u64) -> ShimejiWindowView {
    let clip = spec_idle_clip(s.data);
    if now - s.last_rendered_frame < spec_frame_interval_micros(clip.fps) {
        s
    } else {
        let next = spec_next_cursor(s.current_frame, clip.frames.len() as int);
        ShimejiWindowView {
            current_frame: Some(next),
            buffer: spec_blit(s.buffer, clip.frames[next - 1]),
            visible: true,
            last_rendered_frame: now,
            ..s
        }
    }
}

/// Copies a frame into a surface buffer, four bytes per pixel, RGBA order;
/// the byte-level form of `spec_blit`.
fn blit_frame(frame: &Vec<Rgba>, buffer: &mut Vec<u8>)
    ensures
        final(buffer)@ == spec_blit(old(buffer)@, frame@),
{
    let chunk_count = buffer.len() / 4;
    proof {
        assert(4 * chunk_count <= buffer@.len()) by (nonlinear_arith)
            requires
                chunk_count == buffer@.len() / 4,
        ;
    }
    let pair_count = if frame.len() < chunk_count {
        frame.len()
    } else {
        chunk_count
    };
    let mut p: usize = 0;
    while p < pair_count
        invariant
            pair_count <= frame@.len(),
            4 * pair_count <= buffer@.len(),
            p <= pair_count,
            buffer@.len() == old(buffer)@.len(),
            buffer@.len() <= usize::MAX,
            forall|j: int| 4 * p <= j < buffer@.len() ==> buffer@[j] == old(buffer)@[j],
            forall|j: int|
                0 <= j < 4 * p ==> buffer@[j] == spec_blit(old(buffer)@, frame@)[j],
            pair_count == if frame@.len() < old(buffer)@.len() / 4 {
                frame@.len()
            } else {
                old(buffer)@.len() / 4
            },
        decreases pair_count - p,
    {
        proof {
            assert(4 * p + 3 < buffer@.len());
        }
        let px = frame[p];
        buffer[4 * p] = px.red;
        buffer[4 * p + 1] = px.green;
        buffer[4 * p + 2] = px.blue;
        buffer[4 * p + 3] = px.alpha;
        proof {
            assert forall|j: int| 0 <= j < 4 * (p + 1) implies buffer@[j] == spec_blit(
                old(buffer)@,
                frame@,
            )[j] by {
                assert(j / 4 <= p);
            }
        }
        p = p + 1;
    }
    proof {
        assert(buffer@ =~= spec_blit(old(buffer)@, frame@));
    }
}

/// Frame wraparound: when the render interval has elapsed, the cursor
/// advances to the next frame, and from the clip's last frame it advances to
/// frame 1 — never to an out-of-range index.
pub proof fn lemma_frame_wraparound(s: ShimejiWindowView, now: u64)
    requires
        s.wf(),
        now >= s.last_rendered_frame,
        now - s.last_rendered_frame >= spec_frame_interval_micros(spec_idle_clip(s.data).fps),
    ensures
        ({
            let clip = spec_idle_clip(s.data);
            let next = spec_update(s, now).current_frame.unwrap();
            &&& spec_update(s, now).current_frame is Some
            &&& 1 <= next <= clip.frames.len()
            &&& (s.current_frame == Some(clip.frames.len() as u32) ==> next == 1)
            &&& (match s.current_frame {
                Some(c) => c < clip.frames.len() ==> next == c + 1,
                None => true,
            })
        }),
{
    lemma_idle_clip_wf(s.data);
}

/// Frame pacing: after a call that rendered at time `now1`, a second call
/// less than one inter-frame interval later changes nothing — neither the
/// displayed frame nor the last-rendered timestamp.
pub proof fn lemma_frame_pacing(s: ShimejiWindowView, now1: u64, now2: u64)
    requires
        s.wf(),
        now1 >= s.last_rendered_frame,
        now1 - s.last_rendered_frame >= spec_frame_interval_micros(spec_idle_clip(s.data).fps),
        now1 <= now2,
        now2 - now1 < spec_frame_interval_micros(spec_idle_clip(s.data).fps),
    ensures
        spec_update(spec_update(s, now1), now2) == spec_update(s, now1),
{
}

impl ShimejiWindow {
    pub open spec fn wf(&self) -> bool {
        self@.wf()
    }

    /// Takes ownership of a native window and a shared animation
    /// description; the surface starts fully transparent (every byte zero),
    /// the window visible, the cursor unset, and the pacing clock at `now`.
    pub fn new(window: WindowHandle, data: Arc<ShimejiData>, now_micros: u64) -> (r: Self)
        requires
            data@.wf(),
        ensures
            r.wf(),
            r@ == (ShimejiWindowView {
                window_id: window.id,
                surface: WindowSize { width: window.width, height: window.height },
                visible: true,
                buffer: Seq::<u8>::new((data@.width * data@.height * 4) as nat, |j: int| 0u8),
                data: data@,
                last_rendered_frame: now_micros,
                current_frame: None,
            }),
    {
        let side_w = data.width as usize;
        let side_h = data.height as usize;
        let byte_len = side_w * side_h * 4;
        let mut buffer: Vec<u8> = Vec::new();
        let mut j: usize = 0;
        while j < byte_len
            invariant
                j <= byte_len,
                buffer@.len() == j,
                forall|k: int| 0 <= k < j ==> buffer@[k] == 0u8,
            decreases byte_len - j,
        {
            buffer.push(0u8);
            j = j + 1;
        }
        proof {
            assert(buffer@ =~= Seq::<u8>::new((data@.width * data@.height * 4) as nat, |j: int| 0u8));
        }
        ShimejiWindow {
            window_id: window.id,
            surface_width: window.width,
            surface_height: window.height,
            visible: true,
            buffer,
            data,
            last_rendered_frame: now_micros,
            current_frame: None,
        }
    }

    pub fn window_id(&self) -> (r: u64)
        ensures
            r == self@.window_id,
    {
        self.window_id
    }

    /// The 1-based index of the frame on screen; unset before the first
    /// render.
    pub fn current_frame(&self) -> (r: Option<u32>)
        ensures
            r == self@.current_frame,
    {
        self.current_frame
    }

    pub fn last_rendered_micros(&self) -> (r: u64)
        ensures
            r == self@.last_rendered_frame,
    {
        self.last_rendered_frame
    }

    pub fn surface_size(&self) -> (r: WindowSize)
        ensures
            r == self@.surface,
    {
        WindowSize { width: self.surface_width, height: self.surface_height }
    }

    /// The staged surface bytes, as the last render left them.
    pub fn buffer(&self) -> (r: &Vec<u8>)
        ensures
            r@ == self@.buffer,
    {
        &self.buffer
    }

    /// Resizes the backing surface after the native window changed size.
    pub fn resize_surface(&mut self, size: WindowSize)
        requires
            old(self).wf(),
        ensures
            final(self).wf(),
            final(self)@ == (ShimejiWindowView { surface: size, ..old(self)@ }),
    {
        self.surface_width = size.width;
        self.surface_height = size.height;
    }

    /// One pacing step at wall-clock time `now_micros` (from a monotonic
    /// clock, so never earlier than the last render): renders the next frame
    /// if and only if the clip's own interval has elapsed, exactly as
    /// `spec_update` says.
    pub fn update(&mut self, now_micros: u64)
        requires
            old(self).wf(),
            now_micros >= old(self)@.last_rendered_frame,
        ensures
            final(self).wf(),
            final(self)@ == spec_update(old(self)@, now_micros),
    {
        proof {
            lemma_idle_clip_wf(self@.data);
        }
        let (fps, clip_len) = {
            let clip = match self.data.get_animation("idle") {
                Some(clip) => clip,
                None => {
                    proof {
                        assert(false);
                    }
                    return ;
                },
            };
            (clip.fps, clip.frames.len())
        };
        let effective_fps: u32 = if fps == 0 {
            24
        } else {
            fps
        };
        let interval: u64 = 1_000_000u64 / (effective_fps as u64);
        let delta: u64 = now_micros - self.last_rendered_frame;
        if delta < interval {
            return ;
        }
        let clip_len_u32: u32 = clip_len as u32;
        let base: u32 = match self.current_frame {
            Some(c) => c,
            None => 1,
        };
        let next: u32 = if base >= clip_len_u32 {
            1
        } else {
            base + 1
        };
        self.current_frame = Some(next);
        let zero_indexed: usize = (next - 1) as usize;
        let clip = match self.data.get_animation("idle") {
            Some(clip) => clip,
            None => {
                proof {
                    assert(false);
                }
                return ;
            },
        };
        let ghost clip_view = clip@;
        blit_frame(&clip.frames[zero_indexed].pixels_row_major, &mut self.buffer);
        self.visible = true;
        self.last_rendered_frame = now_micros;
        proof {
            let s_old = old(self)@;
            assert(clip_view == spec_idle_clip(s_old.data));
            assert(next == spec_next_cursor(s_old.current_frame, clip_view.frames.len() as int));
            assert(self@.buffer =~= spec_blit(s_old.buffer, clip_view.frames[next - 1]));
            assert(self@ == spec_update(s_old, now_micros));
        }
    }
}

} // verus!
