use vstd::prelude::*;

use crate::data::{ShimejiData, ShimejiDataView};
use std::sync::Arc;

verus! {

/// Errors of the bucket lifecycle and of per-call bucket operations.
#[derive(Clone, Copy, PartialEq, Eq, Structural, Debug)]
pub enum BucketError {
    /// `init` was called on a bucket that is already running.
    DoubleInit,
    /// An operation that needs an active worker was invoked on a stopped or
    /// uninitialized bucket.
    NotRunning,
    /// The runtime shell could not create the worker's thread; fatal to
    /// startup.
    SpawnFailure,
}

/// The inner pixel size of a native window.
#[derive(Clone, Copy, PartialEq, Eq, Structural, Debug)]
pub struct WindowSize {
    pub width: u32,
    pub height: u32,
}

/// What the engine reads of one native window: its process-unique id and its
/// current inner size. The runtime shell that owns the real window hands this
/// value over together with exclusive control of that window.
#[derive(Clone, Copy, PartialEq, Eq, Structural, Debug)]
pub struct WindowHandle {
    pub id: u64,
    pub width: u32,
    pub height: u32,
}

/// One message of a bucket's inbox. Each message transfers ownership of its
/// payload (notably the window) from the controlling thread into the worker.
#[derive(Clone, Debug)]
pub enum BucketThreadMessage {
    Add(WindowHandle, Arc<ShimejiData>),
    Resized { id: u64, size: WindowSize },
    Remove(u64),
}

pub ghost enum BucketThreadMessageView {
    Add(WindowHandle, ShimejiDataView),
    Resized { id: u64, size: WindowSize },
    Remove(u64),
}

impl View for BucketThreadMessage {
    type V = BucketThreadMessageView;

    open spec fn view(&self) -> BucketThreadMessageView {
        match self {
            BucketThreadMessage::Add(w, d) => BucketThreadMessageView::Add(*w, d@),
            BucketThreadMessage::Resized { id, size } => BucketThreadMessageView::Resized {
                id: *id,
                size: *size,
            },
            BucketThreadMessage::Remove(id) => BucketThreadMessageView::Remove(*id),
        }
    }
}

/// A bucket of shimejis, for one worker thread.
///
/// This is the controlling-thread half of the actor: the running flag, the
/// optimistic sprite count used for load balancing, and the sending half of
/// the worker's inbox. The inbox is the queue of messages sent but not yet
/// consumed by the worker; the runtime shell drains it into the worker's
/// loop.
#[derive(Debug)]
pub struct ShimejiBucket {
    pub id: usize,
    is_running: bool,
    has_thread: bool,
    currently_responsible_shimejis: usize,
    inbox: Option<Vec<BucketThreadMessage>>,
}

pub ghost struct ShimejiBucketView {
    pub id: usize,
    pub is_running: bool,
    pub has_thread: bool,
    pub count: usize,
    pub inbox: Option<Seq<BucketThreadMessageView>>,
}

impl View for ShimejiBucket {
    type V = ShimejiBucketView;

    closed spec fn view(&self) -> ShimejiBucketView {
        ShimejiBucketView {
            id: self.id,
            is_running: self.is_running,
            has_thread: self.has_thread,
            count: self.currently_responsible_shimejis,
            inbox: match self.inbox {
                Some(q) => Some(q@.map_values(|m: BucketThreadMessage| m@)),
                None => None,
            },
        }
    }
}

impl BucketThreadMessageView {
    /// The data payload a message must carry for a worker to accept it.
    pub open spec fn wf(self) -> bool {
        match self {
            BucketThreadMessageView::Add(_, d) => d.wf(),
            _ => true,
        }
    }
}

/// A bucket after its worker thread has been joined (or before it was ever
/// started): not running, no thread, no send handle.
pub open spec fn spec_joined(b: ShimejiBucketView) -> ShimejiBucketView {
    ShimejiBucketView { is_running: false, has_thread: false, inbox: None, ..b }
}

impl ShimejiBucketView {
    /// A bucket has a send handle exactly while it is running, and it is
    /// running exactly while its worker thread exists.
    pub open spec fn wf(self) -> bool {
        &&& self.inbox.is_some() == self.is_running
        &&& self.is_running == self.has_thread
    }
}

impl ShimejiBucket {
    /// A bucket has a send handle exactly while it is running, and it is
    /// running exactly while its worker thread exists.
    pub open spec fn wf(&self) -> bool {
        self@.wf()
    }

    pub fn is_running(&self) -> (r: bool)
        ensures
            r == self@.is_running,
    {
        self.is_running
    }

    pub fn new(id: usize) -> (r: Self)
        ensures
            r.wf(),
            r@ == (ShimejiBucketView {
                id,
                is_running: false,
                has_thread: false,
                count: 0,
                inbox: None,
            }),
    {
        ShimejiBucket {
            id,
            is_running: false,
            has_thread: false,
            currently_responsible_shimejis: 0,
            inbox: None,
        }
    }

    /// Starts the bucket: exactly one worker thread is bound to it, with an
    /// empty inbox. Fails with `DoubleInit`, changing nothing, when the
    /// bucket is already running.
    pub fn init(&mut self) -> (r: Result<(), BucketError>)
        requires
            old(self).wf(),
        ensures
            final(self).wf(),
            match r {
                Ok(()) => !old(self)@.is_running && final(self)@ == (ShimejiBucketView {
                    is_running: true,
                    has_thread: true,
                    inbox: Some(Seq::<BucketThreadMessageView>::empty()),
                    ..old(self)@
                }),
                Err(e) => e == BucketError::DoubleInit && old(self)@.is_running && final(self)@
                    == old(self)@,
            },
    {
        if self.is_running {
            return Err(BucketError::DoubleInit);
        }
        self.inbox = Some(Vec::new());
        self.has_thread = true;
        self.is_running = true;
        proof {
            assert(self@.inbox.unwrap() =~= Seq::<BucketThreadMessageView>::empty());
        }
        Ok(())
    }

    /// Stops the bucket: drops the send handle (which unblocks a worker
    /// waiting on an empty inbox), joins the worker thread, and marks the
    /// bucket not running. Idempotent: it succeeds whether or not the bucket
    /// is running, and never joins an already-consumed thread.
    pub fn join_thread(&mut self) -> (r: Result<(), BucketError>)
        requires
            old(self).wf(),
        ensures
            final(self).wf(),
            r is Ok,
            final(self)@ == spec_joined(old(self)@),
    {
        if !self.is_running || !self.has_thread {
            proof {
                assert(self@ == spec_joined(self@));
            }
            return Ok(());
        }
        self.inbox = None;
        self.has_thread = false;
        self.is_running = false;
        Ok(())
    }

    /// Queues an `Add` for the worker and counts the sprite against this
    /// bucket. The count moves at send time, not at processing time: it is
    /// the optimistic load measure the manager balances on.
    pub fn add(&mut self, shimeji: Arc<ShimejiData>, window: WindowHandle) -> (r: Result<
        (),
        BucketError,
    >)
        requires
            old(self).wf(),
            old(self)@.count < usize::MAX,
        ensures
            final(self).wf(),
            match r {
                Ok(()) => old(self)@.is_running && final(self)@ == (ShimejiBucketView {
                    count: (old(self)@.count + 1) as usize,
                    inbox: Some(
                        old(self)@.inbox.unwrap().push(
                            BucketThreadMessageView::Add(window, shimeji@),
                        ),
                    ),
                    ..old(self)@
                }),
                Err(e) => e == BucketError::NotRunning && !old(self)@.is_running && final(self)@
                    == old(self)@,
            },
    {
        if !self.is_running {
            return Err(BucketError::NotRunning);
        }
        self.currently_responsible_shimejis = self.currently_responsible_shimejis + 1;
        let message = BucketThreadMessage::Add(window, shimeji);
        let ghost message_view = message@;
        match &mut self.inbox {
            Some(queue) => {
                queue.push(message);
            },
            None => {
                return Err(BucketError::NotRunning);
            },
        }
        proof {
            assert(self@.inbox.unwrap() =~= old(self)@.inbox.unwrap().push(message_view));
        }
        Ok(())
    }

    /// Queues a `Resized` notification for the worker.
    pub fn was_resized(&mut self, id: u64, size: WindowSize) -> (r: Result<(), BucketError>)
        requires
            old(self).wf(),
        ensures
            final(self).wf(),
            match r {
                Ok(()) => old(self)@.is_running && final(self)@ == (ShimejiBucketView {
                    inbox: Some(
                        old(self)@.inbox.unwrap().push(
                            BucketThreadMessageView::Resized { id, size },
                        ),
                    ),
                    ..old(self)@
                }),
                Err(e) => e == BucketError::NotRunning && !old(self)@.is_running && final(self)@
                    == old(self)@,
            },
    {
        if !self.is_running {
            return Err(BucketError::NotRunning);
        }
        let message = BucketThreadMessage::Resized { id, size };
        let ghost message_view = message@;
        match &mut self.inbox {
            Some(queue) => {
                queue.push(message);
            },
            None => {
                return Err(BucketError::NotRunning);
            },
        }
        proof {
            assert(self@.inbox.unwrap() =~= old(self)@.inbox.unwrap().push(message_view));
        }
        Ok(())
    }

    /// The optimistic count of sprites assigned to this bucket.
    pub fn contained_shimejis(&self) -> (r: usize)
        ensures
            r == self@.count,
    {
        self.currently_responsible_shimejis
    }

    /// Hands out every message sent to this bucket and not yet consumed, in
    /// send order; the worker side of the inbox. Returns nothing when the
    /// bucket is not running.
    pub fn drain_inbox(&mut self) -> (r: Vec<BucketThreadMessage>)
        requires
            old(self).wf(),
        ensures
            final(self).wf(),
            match old(self)@.inbox {
                Some(q) => r@.map_values(|m: BucketThreadMessage| m@) == q && final(self)@ == (
                ShimejiBucketView { inbox: Some(Seq::<BucketThreadMessageView>::empty()), ..old(
                    self,
                )@ }),
                None => r@.len() == 0 && final(self)@ == old(self)@,
            },
    {
        match &mut self.inbox {
            Some(queue) => {
                let mut taken: Vec<BucketThreadMessage> = Vec::new();
                std::mem::swap(queue, &mut taken);
                proof {
                    assert(self@.inbox.unwrap() =~= Seq::<BucketThreadMessageView>::empty());
                }
                taken
            },
            None => Vec::new(),
        }
    }
}

/// Joining is idempotent: a second join finds the bucket already stopped and
/// leaves it exactly as the first join did (`join_thread` itself returns
/// success unconditionally).
pub proof fn lemma_join_idempotent(b: ShimejiBucketView)
    ensures
        spec_joined(spec_joined(b)) == spec_joined(b),
{
}

} // verus!
