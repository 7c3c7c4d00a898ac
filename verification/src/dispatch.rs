//! The bounded submission queue between the parallel connection tasks
//! and the single serialized processing stage: submission with
//! backpressure, strictly FIFO consumption, and cooperative shutdown.

use vstd::prelude::*;

use crate::catcher::Catcher;
use crate::cors::Cors;
use crate::request::Request;
use crate::routing::Route;

verus! {

/// One matched request on its way to the processing stage: the request,
/// the matched route with its captured parameters, the index of the
/// router it was found in, the identifier of the reply channel the
/// waiting connection task listens on, and the configuration snapshots
/// the processing stage reads.
pub struct ProcessRequest {
    pub request: Request,
    pub router_index: usize,
    pub route: Route,
    pub params: Vec<(String, String)>,
    pub reply: u64,
    pub cors: Option<Cors>,
    pub catchers: Vec<Catcher>,
}

/// The queue's state at the specification level.
#[verifier::ext_equal]
pub struct QueueView {
    pub items: Seq<ProcessRequest>,
    pub capacity: nat,
    pub shutdown: bool,
}

/// What a submission came to.
#[derive(Clone, Copy, Debug, PartialEq, Eq, Structural)]
pub enum SubmitOutcome {
    /// The message stands at the back of the queue.
    Enqueued,
    /// The queue is at capacity; nothing changed, nothing was dropped,
    /// and the submitter is to wait and try again.
    Full,
    /// The queue is shut down and accepts nothing further.
    Closed,
}

/// What submitting does: refused after shutdown, refused without loss
/// when the queue stands at capacity, appended at the back otherwise.
pub open spec fn submit_spec(q: QueueView, m: ProcessRequest) -> (QueueView, SubmitOutcome) {
    if q.shutdown {
        (q, SubmitOutcome::Closed)
    } else if q.items.len() >= q.capacity {
        (q, SubmitOutcome::Full)
    } else {
        (
            QueueView { items: q.items.push(m), capacity: q.capacity, shutdown: q.shutdown },
            SubmitOutcome::Enqueued,
        )
    }
}

/// What consuming does: nothing after shutdown or on an empty queue,
/// else the front message leaves the queue.
pub open spec fn dequeue_spec(q: QueueView) -> (QueueView, Option<ProcessRequest>) {
    if q.shutdown || q.items.len() == 0 {
        (q, None)
    } else {
        (
            QueueView {
                items: q.items.drop_first(),
                capacity: q.capacity,
                shutdown: q.shutdown,
            },
            Some(q.items[0]),
        )
    }
}

/// What the shutdown signal does: the flag flips; messages still queued
/// stay where they are (and are abandoned, never consumed).
pub open spec fn shutdown_spec(q: QueueView) -> QueueView {
    QueueView { items: q.items, capacity: q.capacity, shutdown: true }
}

/// The bounded queue feeding the processing stage.
pub struct DispatchQueue {
    pub items: Vec<ProcessRequest>,
    pub capacity: usize,
    pub shutdown: bool,
}

impl View for DispatchQueue {
    type V = QueueView;

    open spec fn view(&self) -> QueueView {
        QueueView { items: self.items@, capacity: self.capacity as nat, shutdown: self.shutdown }
    }
}

impl DispatchQueue {
    /// An open, empty queue admitting at most `capacity` messages.
    pub fn new(capacity: usize) -> (r: DispatchQueue)
        ensures
            r@.items.len() == 0,
            r@.capacity == capacity,
            !r@.shutdown,
    {
        DispatchQueue { items: Vec::new(), capacity, shutdown: false }
    }

    /// How many messages wait in the queue.
    pub fn len(&self) -> (r: usize)
        ensures
            r == self@.items.len(),
    {
        self.items.len()
    }

    /// Whether the shutdown signal has fired.
    pub fn is_shut_down(&self) -> (r: bool)
        ensures
            r == self@.shutdown,
    {
        self.shutdown
    }

    /// Submits a message. At capacity the message is refused with
    /// `Full` — not dropped and not an error: the submitter suspends and
    /// resubmits, which is the backpressure linking accept rate to
    /// processing throughput.
    pub fn try_submit(&mut self, m: ProcessRequest) -> (r: SubmitOutcome)
        ensures
            final (self)@ == submit_spec(old(self)@, m).0,
            r == submit_spec(old(self)@, m).1,
    {
        if self.shutdown {
            proof {
                assert(final (self)@ =~= submit_spec(old(self)@, m).0);
            }
            return SubmitOutcome::Closed;
        }
        if self.items.len() >= self.capacity {
            proof {
                assert(final (self)@ =~= submit_spec(old(self)@, m).0);
            }
            return SubmitOutcome::Full;
        }
        self.items.push(m);
        proof {
            assert(final (self)@ =~= submit_spec(old(self)@, m).0);
        }
        SubmitOutcome::Enqueued
    }

    /// Takes the front message, oldest first. After the shutdown signal
    /// nothing further is consumed, whatever still waits in the queue.
    pub fn dequeue(&mut self) -> (r: Option<ProcessRequest>)
        ensures
            final (self)@ == dequeue_spec(old(self)@).0,
            r == dequeue_spec(old(self)@).1,
    {
        if self.shutdown || self.items.len() == 0 {
            proof {
                assert(final (self)@ =~= dequeue_spec(old(self)@).0);
            }
            return None;
        }
        let m = self.items.remove(0);
        proof {
            assert(old(self)@.items.remove(0) =~= old(self)@.items.drop_first());
            assert(final (self)@ =~= dequeue_spec(old(self)@).0);
        }
        Some(m)
    }

    /// Fires the shutdown signal: nothing further is admitted or
    /// consumed; messages still queued are abandoned where they are.
    pub fn signal_shutdown(&mut self)
        ensures
            final (self)@ == shutdown_spec(old(self)@),
    {
        self.shutdown = true;
        proof {
            assert(final (self)@ =~= shutdown_spec(old(self)@));
        }
    }
}

/// The connection-admission semaphore: a counted pool of permits, one
/// held per open connection. Acquiring when none is free is refused —
/// the acceptor then suspends until a connection ends — so never more
/// than the configured number of connections is served at once.
pub struct ConnectionPermits {
    pub available: usize,
    pub limit: usize,
}

impl ConnectionPermits {
    /// Whether the pool is consistent: never more free permits than the
    /// limit.
    pub open spec fn wf(&self) -> bool {
        self.available <= self.limit
    }

    /// A pool admitting at most `limit` connections at once.
    pub fn new(limit: usize) -> (r: ConnectionPermits)
        ensures
            r.available == limit,
            r.limit == limit,
            r.wf(),
    {
        ConnectionPermits { available: limit, limit }
    }

    /// Takes one permit; refused exactly when none is free, in which
    /// case nothing changes and the acceptor is to wait.
    pub fn try_acquire(&mut self) -> (r: bool)
        ensures
            r == (old(self).available > 0),
            final (self).limit == old(self).limit,
            final (self).available == if old(self).available > 0 {
                old(self).available - 1
            } else {
                old(self).available as int
            },
            old(self).wf() ==> final (self).wf(),
    {
        if self.available > 0 {
            self.available = self.available - 1;
            true
        } else {
            false
        }
    }

    /// Returns the permit a finished connection held.
    pub fn release(&mut self)
        requires
            old(self).available < old(self).limit,
        ensures
            final (self).available == old(self).available + 1,
            final (self).limit == old(self).limit,
            old(self).wf() ==> final (self).wf(),
    {
        self.available = self.available + 1;
    }
}

/// Backpressure: submitting to a full, running queue changes nothing and
/// loses nothing — the outcome is `Full`, telling the submitter to
/// suspend and resubmit, never an error and never a dropped message.
pub proof fn lemma_backpressure(q: QueueView, m: ProcessRequest)
    requires
        !q.shutdown,
        q.items.len() == q.capacity,
    ensures
        submit_spec(q, m).0 == q,
        submit_spec(q, m).1 == SubmitOutcome::Full,
{
}

/// FIFO order: two messages submitted in order to a running queue with
/// room stand behind everything already queued, in submission order, and
/// consumption returns them oldest first — so with nothing queued ahead
/// of them, the first submitted is the first consumed.
pub proof fn lemma_fifo(q: QueueView, a: ProcessRequest, b: ProcessRequest)
    requires
        !q.shutdown,
        q.items.len() + 2 <= q.capacity,
    ensures
        ({
            let (q1, r1) = submit_spec(q, a);
            let (q2, r2) = submit_spec(q1, b);
            &&& r1 == SubmitOutcome::Enqueued
            &&& r2 == SubmitOutcome::Enqueued
            &&& q2.items == q.items + seq![a] + seq![b]
        }),
        q.items.len() == 0 ==> ({
            let q2 = submit_spec(submit_spec(q, a).0, b).0;
            let (q3, first) = dequeue_spec(q2);
            let (_, second) = dequeue_spec(q3);
            first == Some(a) && second == Some(b)
        }),
{
    let (q1, r1) = submit_spec(q, a);
    let (q2, r2) = submit_spec(q1, b);
    assert(q2.items =~= q.items + seq![a] + seq![b]);
    if q.items.len() == 0 {
        assert(q2.items[0] == a);
        assert(q2.items.drop_first() =~= seq![b]);
    }
}

/// Shutdown: once the signal has fired, no further message is consumed,
/// and the messages still queued are left untouched (their connection
/// tasks observe the dropped reply and degrade to an error response). A
/// message consumed before the signal is unaffected: its reply is
/// computed from the message alone.
pub proof fn lemma_shutdown(q: QueueView)
    ensures
        dequeue_spec(shutdown_spec(q)).1 is None,
        dequeue_spec(shutdown_spec(q)).0 == shutdown_spec(q),
        shutdown_spec(q).items == q.items,
        q.shutdown ==> dequeue_spec(q).1 is None && dequeue_spec(q).0 == q,
{
}

} // verus!
