use vstd::prelude::*;

use crate::bucket::{BucketThreadMessage, BucketThreadMessageView, WindowSize};
use crate::shimeji::{spec_update, ShimejiWindow, ShimejiWindowView};

verus! {

/// The index of the first owned unit with the given window id, or -1.
pub open spec fn spec_first_match(units: Seq<ShimejiWindowView>, id: u64) -> int
    decreases units.len(),
{
    if units.len() == 0 {
        -1
    } else if units[0].window_id == id {
        0
    } else {
        let rest = spec_first_match(units.drop_first(), id);
        if rest < 0 {
            -1
        } else {
            rest + 1
        }
    }
}

pub proof fn lemma_first_match_bounds(units: Seq<ShimejiWindowView>, id: u64)
    ensures
        spec_first_match(units, id) >= 0 ==> spec_first_match(units, id) < units.len()
            && units[spec_first_match(units, id)].window_id == id,
        spec_first_match(units, id) < 0 ==> forall|i: int|
            0 <= i < units.len() ==> (#[trigger] units[i]).window_id != id,
    decreases units.len(),
{
    if units.len() > 0 && units[0].window_id != id {
        lemma_first_match_bounds(units.drop_first(), id);
        if spec_first_match(units, id) < 0 {
            assert forall|i: int|
                0 <= i < units.len() implies (#[trigger] units[i]).window_id != id by {
                if i > 0 {
                    assert(units[i] == units.drop_first()[i - 1]);
                }
            }
        }
    }
}

/// The worker-thread half of one bucket: the sprite render units this
/// bucket's thread owns and steps. Everything here runs on (a model of) the
/// bucket's own thread; the controlling thread only ever talks to it through
/// `BucketThreadMessage`s.
pub struct BucketWorker {
    id: usize,
    units: Vec<ShimejiWindow>,
}

pub ghost struct BucketWorkerView {
    pub id: usize,
    pub units: Seq<ShimejiWindowView>,
}

impl View for BucketWorker {
    type V = BucketWorkerView;

    closed spec fn view(&self) -> BucketWorkerView {
        BucketWorkerView {
            id: self.id,
            units: self.units@.map_values(|u: ShimejiWindow| u@),
        }
    }
}

impl BucketWorkerView {
    pub open spec fn wf(self) -> bool {
        forall|i: int| 0 <= i < self.units.len() ==> (#[trigger] self.units[i]).wf()
    }
}

impl BucketWorker {
    pub open spec fn wf(&self) -> bool {
        self@.wf()
    }

    pub fn new(id: usize) -> (r: Self)
        ensures
            r.wf(),
            r@.id == id,
            r@.units.len() == 0,
    {
        BucketWorker { id, units: Vec::new() }
    }

    /// True while this worker owns no unit: the state in which the real
    /// worker loop goes back to blocking on its inbox instead of polling.
    pub fn is_idle(&self) -> (r: bool)
        ensures
            r == (self@.units.len() == 0),
    {
        self.units.len() == 0
    }

    pub fn unit_count(&self) -> (r: usize)
        ensures
            r == self@.units.len(),
    {
        self.units.len()
    }

    /// The owned render units, in ownership order; read-only.
    pub fn units(&self) -> (r: &Vec<ShimejiWindow>)
        ensures
            r@.map_values(|u: ShimejiWindow| u@) == self@.units,
    {
        &self.units
    }

    /// Applies one drained inbox message, at wall-clock time `now_micros`:
    /// `Add` constructs a unit for the handed-over window and appends it;
    /// `Resized` resizes the backing surface of the first unit with that
    /// window id; `Remove` evicts the first unit under that window id. Returns
    /// false, changing nothing, when a `Resized` or `Remove` names a window
    /// this worker does not own — a desynchronization between the routing
    /// map and this worker's owned set, for the caller to surface.
    #[verifier::loop_isolation(false)]
    pub fn handle_message(&mut self, msg: BucketThreadMessage, now_micros: u64) -> (r: bool)
        requires
            old(self).wf(),
            msg@.wf(),
        ensures
            final(self).wf(),
            final(self)@.id == old(self)@.id,
            match msg@ {
                BucketThreadMessageView::Add(w, d) => r && final(self)@.units == old(
                    self,
                )@.units.push(
                    ShimejiWindowView {
                        window_id: w.id,
                        surface: WindowSize { width: w.width, height: w.height },
                        visible: true,
                        buffer: Seq::<u8>::new((d.width * d.height * 4) as nat, |j: int| 0u8),
                        data: d,
                        last_rendered_frame: now_micros,
                        current_frame: None,
                    },
                ),
                BucketThreadMessageView::Resized { id, size } => {
                    let k = spec_first_match(old(self)@.units, id);
                    if k >= 0 {
                        r && final(self)@.units == old(self)@.units.update(
                            k,
                            ShimejiWindowView { surface: size, ..old(self)@.units[k] },
                        )
                    } else {
                        !r && final(self)@.units == old(self)@.units
                    }
                },
                BucketThreadMessageView::Remove(id) => {
                    let k = spec_first_match(old(self)@.units, id);
                    if k >= 0 {
                        r && final(self)@.units == old(self)@.units.remove(k)
                    } else {
                        !r && final(self)@.units == old(self)@.units
                    }
                },
            },
    {
        match msg {
            BucketThreadMessage::Add(window, data) => {
                let unit = ShimejiWindow::new(window, data, now_micros);
                self.units.push(unit);
                proof {
                    assert(self@.units =~= old(self)@.units.push(unit@));
                }
                true
            },
            BucketThreadMessage::Resized { id, size } => {
                proof {
                    lemma_first_match_bounds(self@.units, id);
                }
                let mut i: usize = 0;
                while i < self.units.len()
                    invariant
                        old(self).wf(),
                        self@ == old(self)@,
                        i <= self@.units.len(),
                        forall|k: int|
                            0 <= k < i ==> (#[trigger] self@.units[k]).window_id != id,
                    decreases self@.units.len() - i,
                {
                    if self.units[i].window_id() == id {
                        proof {
                            lemma_first_match_is_first(self@.units, id, i as int);
                        }
                        self.units[i].resize_surface(size);
                        proof {
                            assert(spec_first_match(old(self)@.units, id) == i as int);
                            assert(self@.units =~= old(self)@.units.update(
                                i as int,
                                ShimejiWindowView { surface: size, ..old(self)@.units[i as int] },
                            ));
                        }
                        return true;
                    }
                    i = i + 1;
                }
                proof {
                    lemma_first_match_bounds(self@.units, id);
                }
                false
            },
            BucketThreadMessage::Remove(id) => {
                proof {
                    lemma_first_match_bounds(self@.units, id);
                }
                let mut i: usize = 0;
                while i < self.units.len()
                    invariant
                        old(self).wf(),
                        self@ == old(self)@,
                        i <= self@.units.len(),
                        forall|k: int|
                            0 <= k < i ==> (#[trigger] self@.units[k]).window_id != id,
                    decreases self@.units.len() - i,
                {
                    if self.units[i].window_id() == id {
                        proof {
                            lemma_first_match_is_first(self@.units, id, i as int);
                        }
                        self.units.remove(i);
                        proof {
                            assert(self@.units =~= old(self)@.units.remove(i as int));
                        }
                        return true;
                    }
                    i = i + 1;
                }
                proof {
                    lemma_first_match_bounds(self@.units, id);
                }
                false
            },
        }
    }

    /// Steps every owned unit once, in order, at wall-clock time
    /// `now_micros`; each unit renders if and only if its own inter-frame
    /// interval has elapsed. (The real loop yields the thread between
    /// units; that has no observable effect on the units themselves.)
    #[verifier::loop_isolation(false)]
    pub fn update_all(&mut self, now_micros: u64)
        requires
            old(self).wf(),
            forall|i: int|
                0 <= i < old(self)@.units.len() ==> now_micros >= (#[trigger] old(
                    self,
                )@.units[i]).last_rendered_frame,
        ensures
            final(self).wf(),
            final(self)@.id == old(self)@.id,
            final(self)@.units.len() == old(self)@.units.len(),
            forall|i: int|
                0 <= i < old(self)@.units.len() ==> final(self)@.units[i] == spec_update(
                    #[trigger] old(self)@.units[i],
                    now_micros,
                ),
    {
        let mut i: usize = 0;
        while i < self.units.len()
            invariant
                old(self).wf(),
                forall|k: int|
                    0 <= k < old(self)@.units.len() ==> now_micros >= (#[trigger] old(
                        self,
                    )@.units[k]).last_rendered_frame,
                i <= self@.units.len(),
                self@.id == old(self)@.id,
                self@.units.len() == old(self)@.units.len(),
                forall|k: int|
                    i <= k < self@.units.len() ==> self@.units[k] == old(self)@.units[k],
                forall|k: int|
                    0 <= k < i ==> self@.units[k] == spec_update(
                        #[trigger] old(self)@.units[k],
                        now_micros,
                    ),
                forall|k: int| 0 <= k < i ==> (#[trigger] self@.units[k]).wf(),
            decreases self@.units.len() - i,
        {
            proof {
                assert(self@.units[i as int] == old(self)@.units[i as int]);
                assert(old(self)@.units[i as int].wf());
                assert(now_micros >= old(self)@.units[i as int].last_rendered_frame);
            }
            let ghost prev_units = self@.units;
            self.units[i].update(now_micros);
            proof {
                assert(self@.units =~= prev_units.update(i as int, self@.units[i as int]));
            }
            i = i + 1;
        }
    }
}

/// The first match is no later than any other match.
proof fn lemma_first_match_is_first(units: Seq<ShimejiWindowView>, id: u64, i: int)
    requires
        0 <= i < units.len(),
        units[i].window_id == id,
        forall|k: int| 0 <= k < i ==> (#[trigger] units[k]).window_id != id,
    ensures
        spec_first_match(units, id) == i,
    decreases i,
{
    if i > 0 {
        lemma_first_match_is_first(units.drop_first(), id, i - 1);
    }
}

} // verus!
