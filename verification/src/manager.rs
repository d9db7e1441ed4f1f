use vstd::prelude::*;

use crate::bucket::{
    BucketError, BucketThreadMessage, BucketThreadMessageView, ShimejiBucket, ShimejiBucketView,
    WindowHandle, WindowSize,
};
use crate::data::{ShimejiData, ShimejiDataView};
use crate::sorting::{pair_leq, sort_pairs, spec_sorted_pairs};
use std::collections::HashMap;
use std::sync::Arc;

verus! {

broadcast use vstd::std_specs::hash::group_hash_axioms;

/// Errors of the controlling-thread manager.
#[derive(Clone, Copy, PartialEq, Eq, Structural, Debug)]
pub enum ManagerError {
    /// The pool is empty; cannot happen for a constructed manager.
    NoBucketsAvailable,
    /// A bucket operation failed underneath the manager.
    Bucket(BucketError),
    /// A window-system event named a window id with no recorded owning
    /// bucket: a routing-map desynchronization, surfaced, never swallowed.
    UnknownWindowRoute,
}

/// The bucket pool's load pairs: for each bucket, its optimistic sprite
/// count paired with its index.
pub open spec fn spec_load_pairs(buckets: Seq<ShimejiBucketView>) -> Seq<(u64, u64)> {
    Seq::new(buckets.len(), |i: int| (buckets[i].count as u64, i as u64))
}

/// The round-robin cursor order of one drain: bucket indices sorted by
/// ascending sprite count, ties by ascending bucket index.
pub open spec fn spec_assignment_order(buckets: Seq<ShimejiBucketView>) -> Seq<u64> {
    spec_sorted_pairs(spec_load_pairs(buckets)).map_values(|p: (u64, u64)| p.1)
}

/// A bucket that has just been sent one more sprite: counted and with the
/// `Add` in its inbox.
pub open spec fn spec_bump_bucket(
    b: ShimejiBucketView,
    w: WindowHandle,
    d: ShimejiDataView,
) -> ShimejiBucketView {
    ShimejiBucketView {
        count: (b.count + 1) as usize,
        inbox: Some(b.inbox.unwrap().push(BucketThreadMessageView::Add(w, d))),
        ..b
    }
}

/// Load balancing: the drain's cursor order lists each bucket index exactly
/// once, in ascending order of sprite count with ties broken by ascending
/// index — so the least-loaded bucket receives the first new sprite.
pub proof fn lemma_assignment_order_balances(buckets: Seq<ShimejiBucketView>)
    requires
        buckets.len() <= usize::MAX,
    ensures
        spec_assignment_order(buckets).len() == buckets.len(),
        forall|k: int|
            0 <= k < buckets.len() ==> (#[trigger] spec_assignment_order(buckets)[k])
                < buckets.len(),
        forall|k: int, l: int|
            0 <= k < l < buckets.len() ==> pair_leq(
                (
                    buckets[spec_assignment_order(buckets)[k] as int].count as u64,
                    spec_assignment_order(buckets)[k],
                ),
                (
                    buckets[spec_assignment_order(buckets)[l] as int].count as u64,
                    spec_assignment_order(buckets)[l],
                ),
            ),
        spec_assignment_order(buckets).no_duplicates(),
{
    let pairs = spec_load_pairs(buckets);
    let sorted = spec_sorted_pairs(pairs);
    let ord = spec_assignment_order(buckets);
    crate::sorting::lemma_sorted_pairs_ensures(pairs);
    assert forall|k: int| 0 <= k < buckets.len() implies (#[trigger] ord[k])
        < buckets.len() && sorted[k] == (buckets[ord[k] as int].count as u64, ord[k]) by {
        assert(sorted.contains(sorted[k]));
        let m = choose|m: int| 0 <= m < pairs.len() && pairs[m] == sorted[k];
        assert(pairs[m].1 == m as u64);
    }
    assert(pairs.no_duplicates()) by {
        assert forall|i: int, j: int|
            0 <= i < pairs.len() && 0 <= j < pairs.len() && i != j implies pairs[i]
            != pairs[j] by {
            assert(pairs[i].1 == i as u64 && pairs[j].1 == j as u64);
        }
    }
    pairs.lemma_multiset_has_no_duplicates();
    sorted.lemma_multiset_has_no_duplicates_conv();
    assert forall|k: int, l: int|
        0 <= k < buckets.len() && 0 <= l < buckets.len() && k != l implies #[trigger] ord[k]
        != #[trigger] ord[l] by {
        assert(sorted[k] != sorted[l]);
        assert(sorted[k] == (buckets[ord[k] as int].count as u64, ord[k]));
        assert(sorted[l] == (buckets[ord[l] as int].count as u64, ord[l]));
    }
    assert forall|k: int, l: int| 0 <= k < l < buckets.len() implies pair_leq(
        (buckets[ord[k] as int].count as u64, ord[k]),
        (buckets[ord[l] as int].count as u64, ord[l]),
    ) by {
        assert(crate::sorting::pair_order()(sorted[k], sorted[l]));
    }
}

pub ghost struct BucketManagerView {
    pub should_exit: bool,
    pub pending: Seq<ShimejiDataView>,
    pub buckets: Seq<ShimejiBucketView>,
    pub routes: Map<u64, usize>,
}

/// The manager after `steps` assignments of one drain: the pending sprite
/// on top of the stack goes to the bucket the fixed cursor order names for
/// that step, that bucket's inbox and count grow, and the sprite's new
/// window id is recorded as routed to that bucket.
pub open spec fn spec_after_drain(
    m: BucketManagerView,
    ord: Seq<u64>,
    windows: Seq<WindowHandle>,
    steps: nat,
) -> BucketManagerView
    decreases steps,
{
    if steps == 0 {
        m
    } else {
        let prev = spec_after_drain(m, ord, windows, (steps - 1) as nat);
        let k = steps - 1;
        let target = ord[k as int % ord.len() as int] as int;
        BucketManagerView {
            pending: prev.pending.drop_last(),
            buckets: prev.buckets.update(
                target,
                spec_bump_bucket(prev.buckets[target], windows[k as int], prev.pending.last()),
            ),
            routes: prev.routes.insert(windows[k as int].id, target as usize),
            ..prev
        }
    }
}

/// The controlling-thread component: owns the fixed bucket pool, the stack
/// of sprites waiting for a window and a bucket, and the window-id-to-bucket
/// routing map for window-system events.
pub struct BucketManager {
    should_exit: bool,
    /// Shimejis that are waiting for a window to be made before they can be
    /// sent to a bucket.
    pending_shimejis: Vec<Arc<ShimejiData>>,
    buckets: Vec<ShimejiBucket>,
    buckets_windows_map: HashMap<u64, usize>,
}

impl View for BucketManager {
    type V = BucketManagerView;

    closed spec fn view(&self) -> BucketManagerView {
        BucketManagerView {
            should_exit: self.should_exit,
            pending: self.pending_shimejis@.map_values(|d: Arc<ShimejiData>| d@),
            buckets: self.buckets@.map_values(|b: ShimejiBucket| b@),
            routes: self.buckets_windows_map@,
        }
    }
}

impl BucketManagerView {
    /// Every bucket of the pool is running and sits at its own index; every
    /// recorded route points into the pool; every queued sprite is
    /// validated. The pool is never empty.
    pub open spec fn wf(self) -> bool {
        &&& self.buckets.len() >= 1
        &&& forall|i: int|
            0 <= i < self.buckets.len() ==> (#[trigger] self.buckets[i]).wf()
                && self.buckets[i].is_running && self.buckets[i].id == i
        &&& forall|w: u64| self.routes.dom().contains(w) ==> self.routes[w] < self.buckets.len()
        &&& forall|i: int| 0 <= i < self.pending.len() ==> (#[trigger] self.pending[i]).wf()
        &&& forall|i: int, j: int|
            0 <= i < self.buckets.len() && 0 <= j < self.buckets[i].inbox.unwrap().len() ==> (
            #[trigger] self.buckets[i].inbox.unwrap()[j]).wf()
    }
}

impl BucketManager {
    pub open spec fn wf(&self) -> bool {
        self@.wf()
    }

    /// Builds and starts the whole pool: exactly `amount` buckets, each
    /// running with an empty inbox and no sprites, numbered 0 upward. An
    /// empty pool is not tolerated, and neither is a partly started one.
    pub fn new(amount: usize) -> (r: Self)
        requires
            amount != 0,
        ensures
            r.wf(),
            r@.should_exit == false,
            r@.pending.len() == 0,
            r@.routes == Map::<u64, usize>::empty(),
            r@.buckets.len() == amount,
            forall|i: int|
                0 <= i < amount ==> (#[trigger] r@.buckets[i]) == (ShimejiBucketView {
                    id: i as usize,
                    is_running: true,
                    has_thread: true,
                    count: 0,
                    inbox: Some(Seq::<BucketThreadMessageView>::empty()),
                }),
    {
        let mut buckets: Vec<ShimejiBucket> = Vec::new();
        let mut i: usize = 0;
        while i < amount
            invariant
                i <= amount,
                buckets@.len() == i,
                forall|k: int|
                    0 <= k < i ==> (#[trigger] buckets@[k]@) == (ShimejiBucketView {
                        id: k as usize,
                        is_running: true,
                        has_thread: true,
                        count: 0,
                        inbox: Some(Seq::<BucketThreadMessageView>::empty()),
                    }),
            decreases amount - i,
        {
            let mut bucket = ShimejiBucket::new(i);
            let started = bucket.init();
            proof {
                assert(started is Ok);
            }
            buckets.push(bucket);
            i = i + 1;
        }
        let manager = BucketManager {
            should_exit: false,
            pending_shimejis: Vec::new(),
            buckets,
            buckets_windows_map: HashMap::new(),
        };
        proof {
            assert(manager@.pending =~= Seq::<ShimejiDataView>::empty());
        }
        manager
    }

    /// Queues one sprite; it owns no window and no bucket yet. Nothing but
    /// the pending stack changes.
    pub fn add_shimeji(&mut self, pending: Arc<ShimejiData>)
        requires
            old(self).wf(),
            pending@.wf(),
        ensures
            final(self).wf(),
            final(self)@ == (BucketManagerView {
                pending: old(self)@.pending.push(pending@),
                ..old(self)@
            }),
    {
        let ghost pending_view = pending@;
        self.pending_shimejis.push(pending);
        proof {
            assert(self@.pending =~= old(self)@.pending.push(pending_view));
        }
    }

    pub fn pending_count(&self) -> (r: usize)
        ensures
            r == self@.pending.len(),
    {
        self.pending_shimejis.len()
    }

    /// The pool, read-only; buckets are owned and managed by the manager.
    pub fn buckets(&self) -> (r: &Vec<ShimejiBucket>)
        ensures
            r@.map_values(|b: ShimejiBucket| b@) == self@.buckets,
    {
        &self.buckets
    }

    /// Marks the process-wide exit request; the runtime shell mirrors this
    /// into the shared atomic flag every worker polls.
    pub fn request_exit(&mut self)
        requires
            old(self).wf(),
        ensures
            final(self).wf(),
            final(self)@ == (BucketManagerView { should_exit: true, ..old(self)@ }),
    {
        self.should_exit = true;
    }

    pub fn should_exit(&self) -> (r: bool)
        ensures
            r == self@.should_exit,
    {
        self.should_exit
    }

    /// The snapshot cursor order for one drain: bucket indices by ascending
    /// sprite count, ties by ascending index.
    pub fn assignment_order(&self) -> (r: Vec<usize>)
        requires
            self.wf(),
        ensures
            r@.map_values(|x: usize| x as u64) == spec_assignment_order(self@.buckets),
            r@.len() == self@.buckets.len(),
            forall|k: int| 0 <= k < r@.len() ==> (#[trigger] r@[k]) < self@.buckets.len(),
    {
        let n = self.buckets.len();
        let mut pairs: Vec<(u64, u64)> = Vec::new();
        let mut i: usize = 0;
        while i < n
            invariant
                i <= n,
                n == self@.buckets.len(),
                self.wf(),
                pairs@.len() == i,
                forall|k: int| 0 <= k < i ==> pairs@[k] == spec_load_pairs(self@.buckets)[k],
            decreases n - i,
        {
            let count = self.buckets[i].contained_shimejis();
            pairs.push((count as u64, i as u64));
            i = i + 1;
        }
        proof {
            assert(pairs@ =~= spec_load_pairs(self@.buckets));
        }
        let sorted = sort_pairs(pairs);
        proof {
            crate::sorting::lemma_sorted_pairs_ensures(spec_load_pairs(self@.buckets));
        }
        let mut order: Vec<usize> = Vec::new();
        let mut k: usize = 0;
        while k < sorted.len()
            invariant
                k <= sorted@.len(),
                n == self@.buckets.len(),
                sorted@ == spec_sorted_pairs(spec_load_pairs(self@.buckets)),
                forall|x: (u64, u64)|
                    #[trigger] sorted@.contains(x) ==> spec_load_pairs(
                        self@.buckets,
                    ).contains(x),
                order@.len() == k,
                forall|j: int|
                    0 <= j < k ==> (#[trigger] order@[j]) as u64 == sorted@[j].1 && order@[j] < n,
            decreases sorted@.len() - k,
        {
            let idx_u64 = sorted[k].1;
            proof {
                assert(sorted@.contains(sorted@[k as int]));
                let m = choose|m: int|
                    0 <= m < spec_load_pairs(self@.buckets).len() && spec_load_pairs(
                        self@.buckets,
                    )[m] == sorted@[k as int];
                assert(spec_load_pairs(self@.buckets)[m].1 == m as u64);
            }
            let idx = idx_u64 as usize;
            order.push(idx);
            k = k + 1;
        }
        proof {
            assert(order@.map_values(|x: usize| x as u64) =~= spec_assignment_order(
                self@.buckets,
            ));
        }
        order
    }

    /// Drains the pending stack to empty, assigning each sprite (top first)
    /// to the next bucket of the snapshot order, round robin: the k-th
    /// sprite popped goes to the bucket at the order's position `k mod pool
    /// size`, its `Add` is queued there, its count moves, and its new
    /// window — made by the window-system collaborator, one per pending
    /// sprite, handed over in `windows` — is routed to that bucket. The
    /// order is a snapshot: it is taken once, before the first assignment,
    /// and later sends do not re-balance the same drain.
    #[verifier::loop_isolation(false)]
    pub fn address_pending_shimejis(&mut self, windows: Vec<WindowHandle>)
        requires
            old(self).wf(),
            windows@.len() == old(self)@.pending.len(),
            forall|i: int|
                0 <= i < old(self)@.buckets.len() ==> (#[trigger] old(self)@.buckets[i]).count
                    + old(self)@.pending.len() <= usize::MAX,
        ensures
            final(self).wf(),
            final(self)@ == spec_after_drain(
                old(self)@,
                spec_assignment_order(old(self)@.buckets),
                windows@,
                old(self)@.pending.len() as nat,
            ),
            final(self)@.pending.len() == 0,
    {
        let order = self.assignment_order();
        let n = self.buckets.len();
        let total = self.pending_shimejis.len();
        let ghost ord = spec_assignment_order(old(self)@.buckets);
        let mut k: usize = 0;
        while k < total
            invariant
                k <= total,
                self@ == spec_after_drain(old(self)@, ord, windows@, k as nat),
                self@.pending.len() == total - k,
                self@.buckets.len() == n,
                forall|i: int|
                    0 <= i < n ==> (#[trigger] self@.buckets[i]).count + (total - k) <= usize::MAX,
                self.wf(),
            decreases total - k,
        {
            let pending_item = match self.pending_shimejis.pop() {
                Some(p) => p,
                None => {
                    proof {
                        assert(false);
                    }
                    return ;
                },
            };
            let ghost popped = self@;
            let idx = order[k % n];
            let window = windows[k];
            proof {
                assert(self@.pending =~= spec_after_drain(
                    old(self)@,
                    ord,
                    windows@,
                    k as nat,
                ).pending.drop_last());
                assert(pending_item@ == spec_after_drain(
                    old(self)@,
                    ord,
                    windows@,
                    k as nat,
                ).pending.last());
            }
            proof {
                assert(idx < n);
                assert(self@.buckets[idx as int].wf());
                assert(self@.buckets[idx as int].is_running);
                assert(self@.buckets[idx as int].count + (total - k) <= usize::MAX);
            }
            let sent = self.buckets[idx].add(pending_item, window);
            proof {
                assert(sent is Ok);
                assert(self@.buckets =~= spec_after_drain(
                    old(self)@,
                    ord,
                    windows@,
                    (k + 1) as nat,
                ).buckets);
            }
            self.buckets_windows_map.insert(window.id, idx);
            proof {
                assert(self@ == spec_after_drain(old(self)@, ord, windows@, (k + 1) as nat));
            }
            k = k + 1;
        }
    }

    /// Hands out everything queued for one bucket and not yet consumed, in
    /// send order, leaving that inbox empty: how the runtime shell moves the
    /// manager's sends onto the worker's real transport.
    pub fn drain_bucket_inbox(&mut self, index: usize) -> (r: Vec<BucketThreadMessage>)
        requires
            old(self).wf(),
            index < old(self)@.buckets.len(),
        ensures
            final(self).wf(),
            r@.map_values(|m: BucketThreadMessage| m@) == old(self)@.buckets[
                index as int
            ].inbox.unwrap(),
            final(self)@ == (BucketManagerView {
                buckets: old(self)@.buckets.update(
                    index as int,
                    ShimejiBucketView {
                        inbox: Some(Seq::<BucketThreadMessageView>::empty()),
                        ..old(self)@.buckets[index as int]
                    },
                ),
                ..old(self)@
            }),
    {
        proof {
            assert(self@.buckets[index as int].wf());
        }
        let drained = self.buckets[index].drain_inbox();
        proof {
            assert(self@.buckets =~= old(self)@.buckets.update(
                index as int,
                ShimejiBucketView {
                    inbox: Some(Seq::<BucketThreadMessageView>::empty()),
                    ..old(self)@.buckets[index as int]
                },
            ));
        }
        drained
    }

    /// Forwards a window-system resize to the bucket that owns the window.
    /// An unknown window id is a routing desynchronization and fails loudly
    /// with `UnknownWindowRoute`, changing nothing.
    pub fn route_resize(&mut self, window_id: u64, size: WindowSize) -> (r: Result<
        (),
        ManagerError,
    >)
        requires
            old(self).wf(),
        ensures
            final(self).wf(),
            match r {
                Ok(()) => old(self)@.routes.dom().contains(window_id) && final(self)@ == (
                BucketManagerView {
                    buckets: old(self)@.buckets.update(
                        old(self)@.routes[window_id] as int,
                        ShimejiBucketView {
                            inbox: Some(
                                old(self)@.buckets[old(self)@.routes[window_id] as int]
                                    .inbox
                                    .unwrap()
                                    .push(BucketThreadMessageView::Resized { id: window_id, size }),
                            ),
                            ..old(self)@.buckets[old(self)@.routes[window_id] as int]
                        },
                    ),
                    ..old(self)@
                }),
                Err(e) => e == ManagerError::UnknownWindowRoute && !old(
                    self,
                )@.routes.dom().contains(window_id) && final(self)@ == old(self)@,
            },
    {
        let idx: usize = match self.buckets_windows_map.get(&window_id) {
            Some(idx) => *idx,
            None => {
                return Err(ManagerError::UnknownWindowRoute);
            },
        };
        let sent = self.buckets[idx].was_resized(window_id, size);
        proof {
            assert(sent is Ok);
            assert(self@.buckets =~= old(self)@.buckets.update(
                idx as int,
                ShimejiBucketView {
                    inbox: Some(
                        old(self)@.buckets[idx as int].inbox.unwrap().push(
                            BucketThreadMessageView::Resized { id: window_id, size },
                        ),
                    ),
                    ..old(self)@.buckets[idx as int]
                },
            ));
        }
        Ok(())
    }
}

} // verus!
