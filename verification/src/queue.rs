use vstd::prelude::*;

use crate::backend::BackendError;
use crate::types::EmbedResponse;

verus! {

/// One embedding request admitted by the dispatcher, identified by the ticket
/// its submitter holds. The ticket stands for the job's private response
/// channel: the delivery that later carries the same ticket is the one value
/// ever written to that channel.
pub struct EmbedJob {
    pub id: u64,
    pub texts: Vec<String>,
    pub normalize_embeddings: bool,
    pub batch_size: u32,
}

/// One write to a job's private response channel: the job's ticket together
/// with the success or failure handed back to its submitter.
pub struct Delivery {
    pub id: u64,
    pub outcome: Result<EmbedResponse, BackendError>,
}

/// The job deliveries produced when pending submissions are resolved at
/// shutdown: each pending job is answered once, with a closed-queue failure.
pub open spec fn closed_deliveries(s: Seq<EmbedJob>) -> Seq<Delivery> {
    s.map_values(
        |j: EmbedJob| Delivery { id: j.id, outcome: Err(BackendError::QueueClosed) },
    )
}

/// How many workers hold a claimed job.
pub open spec fn busy_count(r: Seq<Option<u64>>) -> nat
    decreases r.len(),
{
    if r.len() == 0 {
        0
    } else {
        busy_count(r.drop_last()) + (if r.last() is Some {
            1nat
        } else {
            0nat
        })
    }
}

proof fn lemma_busy_count_le_len(r: Seq<Option<u64>>)
    ensures
        busy_count(r) <= r.len(),
    decreases r.len(),
{
    if r.len() > 0 {
        lemma_busy_count_le_len(r.drop_last());
    }
}

/// Whether some job in `s` carries ticket `id`.
pub open spec fn holds_ticket(s: Seq<EmbedJob>, id: u64) -> bool {
    exists|i: int| 0 <= i < s.len() && s[i].id == id
}

/// Whether some worker slot is executing the job with ticket `id`.
pub open spec fn running_holds(r: Seq<Option<u64>>, id: u64) -> bool {
    exists|w: int| 0 <= w < r.len() && r[w] == Some(id)
}

/// Whether an answer for ticket `id` has been written.
pub open spec fn delivered_holds(d: Seq<Delivery>, id: u64) -> bool {
    exists|i: int| 0 <= i < d.len() && d[i].id == id
}

/// The admission and dispatch state of the gateway: a bounded FIFO buffer of
/// admitted jobs, the submissions suspended behind it, a fixed set of worker
/// slots, and the history of answers written back to submitters.
///
/// The executable methods are the dispatcher's transitions; the surrounding
/// asynchronous shell performs one transition per scheduling step. A
/// submission sits in `waiting` while its submitter is suspended on a full
/// buffer, moves to `queued` when the buffer accepts it, is claimed by
/// exactly one worker slot, and is answered by exactly one entry of
/// `delivered`. In-flight jobs at shutdown are drained: their workers finish
/// and deliver normally; only unclaimed submissions are answered with a
/// closed-queue failure.
pub struct Queue {
    /// Number of worker slots; at least one.
    pub worker_count: usize,
    /// Bound of the admission buffer `queued`.
    pub capacity: usize,
    /// Whether new submissions are still accepted.
    pub accepting: bool,
    /// The next unused job ticket.
    pub next_id: u64,
    /// Jobs admitted into the bounded buffer, in submission order.
    pub queued: Vec<EmbedJob>,
    /// Submissions suspended behind a full buffer, in submission order.
    pub waiting: Vec<EmbedJob>,
    /// Per-worker slot: the ticket of the job the worker is executing, if any.
    pub running: Vec<Option<u64>>,
    /// Every answer ever written back to a submitter, in write order.
    pub delivered: Vec<Delivery>,
}

impl Queue {
    /// Every invariant of a reachable dispatcher state: the buffer respects
    /// its bound, submissions wait only behind a full buffer, tickets are
    /// issued in increasing order and appear in at most one place, a closed
    /// dispatcher holds no unanswered submission, and every ticket issued so
    /// far is accounted for somewhere.
    pub open spec fn wf(self) -> bool {
        &&& self.worker_count >= 1
        &&& self.running@.len() == self.worker_count
        &&& self.queued@.len() <= self.capacity
        &&& (self.waiting@.len() > 0 ==> self.queued@.len() == self.capacity)
        &&& (forall|i: int, j: int|
            0 <= i < j < self.queued@.len() ==> self.queued@[i].id < self.queued@[j].id)
        &&& (forall|i: int, j: int|
            0 <= i < j < self.waiting@.len() ==> self.waiting@[i].id < self.waiting@[j].id)
        &&& (forall|i: int, j: int|
            0 <= i < self.queued@.len() && 0 <= j < self.waiting@.len()
                ==> self.queued@[i].id < self.waiting@[j].id)
        &&& (forall|i: int| 0 <= i < self.queued@.len() ==> self.queued@[i].id < self.next_id)
        &&& (forall|i: int| 0 <= i < self.waiting@.len() ==> self.waiting@[i].id < self.next_id)
        &&& (forall|w: int|
            0 <= w < self.running@.len() && self.running@[w] is Some
                ==> self.running@[w]->0 < self.next_id)
        &&& (forall|i: int|
            0 <= i < self.delivered@.len() ==> self.delivered@[i].id < self.next_id)
        &&& (forall|w1: int, w2: int|
            0 <= w1 < w2 < self.running@.len() && self.running@[w1] is Some
                && self.running@[w2] is Some ==> self.running@[w1]->0 != self.running@[w2]->0)
        &&& (forall|i: int, j: int|
            0 <= i < j < self.delivered@.len() ==> self.delivered@[i].id != self.delivered@[j].id)
        &&& (forall|i: int, w: int|
            0 <= i < self.queued@.len() && 0 <= w < self.running@.len() && self.running@[w] is Some
                ==> self.queued@[i].id != self.running@[w]->0)
        &&& (forall|i: int, w: int|
            0 <= i < self.waiting@.len() && 0 <= w < self.running@.len() && self.running@[w] is Some
                ==> self.waiting@[i].id != self.running@[w]->0)
        &&& (forall|i: int, j: int|
            0 <= i < self.queued@.len() && 0 <= j < self.delivered@.len()
                ==> self.queued@[i].id != self.delivered@[j].id)
        &&& (forall|i: int, j: int|
            0 <= i < self.waiting@.len() && 0 <= j < self.delivered@.len()
                ==> self.waiting@[i].id != self.delivered@[j].id)
        &&& (forall|w: int, j: int|
            0 <= w < self.running@.len() && self.running@[w] is Some && 0 <= j
                < self.delivered@.len() ==> self.running@[w]->0 != self.delivered@[j].id)
        &&& (!self.accepting ==> self.queued@.len() == 0 && self.waiting@.len() == 0)
        &&& (forall|id: u64|
            id < self.next_id ==> holds_ticket(self.queued@, id) || holds_ticket(
                self.waiting@,
                id,
            ) || running_holds(self.running@, id) || delivered_holds(self.delivered@, id))
    }

    /// Build a dispatcher with `workers` worker slots (a count below one is
    /// clamped to one) and an admission buffer of `capacity` jobs. It starts
    /// open, idle and with an empty history.
    pub fn new(workers: usize, capacity: usize) -> (q: Queue)
        ensures
            q.wf(),
            q.worker_count == (if workers >= 1 {
                workers as int
            } else {
                1int
            }),
            q.capacity == capacity,
            q.accepting,
            q.next_id == 0,
            q.queued@.len() == 0,
            q.waiting@.len() == 0,
            q.delivered@.len() == 0,
            forall|w: int| 0 <= w < q.running@.len() ==> q.running@[w] is None,
    {
        let worker_count = if workers >= 1 {
            workers
        } else {
            1
        };
        let mut running: Vec<Option<u64>> = Vec::new();
        let mut w: usize = 0;
        while w < worker_count
            invariant
                w <= worker_count,
                running@.len() == w,
                forall|i: int| 0 <= i < running@.len() ==> running@[i] is None,
            decreases worker_count - w,
        {
            running.push(None);
            w = w + 1;
        }
        Queue {
            worker_count,
            capacity,
            accepting: true,
            next_id: 0,
            queued: Vec::new(),
            waiting: Vec::new(),
            running,
            delivered: Vec::new(),
        }
    }

    /// Submit one embedding request. While the dispatcher is open a
    /// submission never fails and is never dropped: it is admitted into the
    /// buffer when there is room and nobody is already waiting, and otherwise
    /// joins the waiting submitters — the submitter stays suspended either
    /// way until the delivery carrying the returned ticket appears. After
    /// shutdown, submission fails immediately with a closed-queue error and
    /// the state is unchanged.
    pub fn enqueue(&mut self, texts: Vec<String>, normalize_embeddings: bool, batch_size: u32) -> (r:
        Result<u64, BackendError>)
        requires
            old(self).wf(),
            old(self).next_id < u64::MAX,
        ensures
            final(self).wf(),
            final(self).worker_count == old(self).worker_count,
            final(self).capacity == old(self).capacity,
            final(self).accepting == old(self).accepting,
            final(self).running@ == old(self).running@,
            final(self).delivered@ == old(self).delivered@,
            !old(self).accepting ==> ({
                &&& r == Err::<u64, BackendError>(BackendError::QueueClosed)
                &&& final(self).queued@ == old(self).queued@
                &&& final(self).waiting@ == old(self).waiting@
                &&& final(self).next_id == old(self).next_id
            }),
            old(self).accepting ==> ({
                let job = (EmbedJob {
                    id: old(self).next_id,
                    texts,
                    normalize_embeddings,
                    batch_size,
                });
                let room = old(self).queued@.len() < old(self).capacity;
                let direct = old(self).waiting@.len() == 0 && room;
                &&& r == Ok::<u64, BackendError>(old(self).next_id)
                &&& final(self).next_id == old(self).next_id + 1
                &&& (direct ==> final(self).queued@ == old(self).queued@.push(job))
                &&& (direct ==> final(self).waiting@ == old(self).waiting@)
                &&& (!direct ==> final(self).waiting@ == old(self).waiting@.push(job))
                &&& (!direct ==> final(self).queued@ == old(self).queued@)
            }),
    {
        if !self.accepting {
            return Err(BackendError::QueueClosed);
        }
        let id = self.next_id;
        self.next_id = self.next_id + 1;
        let job = EmbedJob { id, texts, normalize_embeddings, batch_size };
        if self.waiting.len() == 0 && self.queued.len() < self.capacity {
            self.queued.push(job);
        } else {
            self.waiting.push(job);
        }
        proof {
            assert forall|t: u64| t < self.next_id implies holds_ticket(self.queued@, t)
                || holds_ticket(self.waiting@, t) || running_holds(self.running@, t)
                || delivered_holds(self.delivered@, t) by {
                if t < old(self).next_id {
                    if holds_ticket(old(self).queued@, t) {
                        let i = choose|i: int|
                            0 <= i < old(self).queued@.len() && old(self).queued@[i].id == t;
                        assert(self.queued@[i].id == t);
                    } else if holds_ticket(old(self).waiting@, t) {
                        let i = choose|i: int|
                            0 <= i < old(self).waiting@.len() && old(self).waiting@[i].id == t;
                        assert(self.waiting@[i].id == t);
                    }
                } else {
                    if self.queued@.len() == old(self).queued@.len() + 1 {
                        assert(self.queued@[old(self).queued@.len() as int].id == t);
                    } else {
                        assert(self.waiting@[old(self).waiting@.len() as int].id == t);
                    }
                }
            };
        }
        Ok(id)
    }

    /// Let idle worker slot `w` claim the next pending job, in admission
    /// order: the head of the buffer, or — when the buffer's bound is zero
    /// and so the buffer is always empty — the first waiting submission
    /// directly. When a buffered job is taken while submitters wait, the
    /// first waiting submission moves into the freed buffer slot. Returns
    /// the claimed job, or nothing when no submission is pending.
    pub fn claim(&mut self, w: usize) -> (r: Option<EmbedJob>)
        requires
            old(self).wf(),
            w < old(self).worker_count,
            old(self).running@[w as int] is None,
        ensures
            final(self).wf(),
            final(self).worker_count == old(self).worker_count,
            final(self).capacity == old(self).capacity,
            final(self).accepting == old(self).accepting,
            final(self).next_id == old(self).next_id,
            final(self).delivered@ == old(self).delivered@,
            old(self).queued@.len() == 0 && old(self).waiting@.len() == 0 ==> ({
                &&& r is None
                &&& final(self).queued@ == old(self).queued@
                &&& final(self).waiting@ == old(self).waiting@
                &&& final(self).running@ == old(self).running@
            }),
            old(self).queued@.len() > 0 ==> ({
                let head = old(self).queued@[0];
                &&& r == Some(head)
                &&& final(self).running@ == old(self).running@.update(w as int, Some(head.id))
                &&& (old(self).waiting@.len() > 0 ==> final(self).queued@ == old(
                    self,
                ).queued@.drop_first().push(old(self).waiting@[0]))
                &&& (old(self).waiting@.len() > 0 ==> final(self).waiting@ == old(
                    self,
                ).waiting@.drop_first())
                &&& (old(self).waiting@.len() == 0 ==> final(self).queued@ == old(
                    self,
                ).queued@.drop_first())
                &&& (old(self).waiting@.len() == 0 ==> final(self).waiting@ == old(self).waiting@)
            }),
            old(self).queued@.len() == 0 && old(self).waiting@.len() > 0 ==> ({
                let head = old(self).waiting@[0];
                &&& r == Some(head)
                &&& final(self).running@ == old(self).running@.update(w as int, Some(head.id))
                &&& final(self).queued@ == old(self).queued@
                &&& final(self).waiting@ == old(self).waiting@.drop_first()
            }),
    {
        if self.queued.len() > 0 {
            let job = self.queued.remove(0);
            proof {
                assert(old(self).queued@.remove(0) =~= old(self).queued@.drop_first());
            }
            if self.waiting.len() > 0 {
                let promoted = self.waiting.remove(0);
                proof {
                    assert(old(self).waiting@.remove(0) =~= old(self).waiting@.drop_first());
                }
                self.queued.push(promoted);
            }
            self.running[w] = Some(job.id);
            proof {
                assert forall|t: u64| t < self.next_id implies holds_ticket(self.queued@, t)
                || holds_ticket(self.waiting@, t) || running_holds(self.running@, t)
                || delivered_holds(self.delivered@, t) by {
                    if holds_ticket(old(self).queued@, t) {
                        let i = choose|i: int|
                            0 <= i < old(self).queued@.len() && old(self).queued@[i].id == t;
                        if i == 0 {
                            assert(self.running@[w as int] == Some(t));
                        } else {
                            assert(self.queued@[i - 1].id == t);
                        }
                    } else if holds_ticket(old(self).waiting@, t) {
                        let i = choose|i: int|
                            0 <= i < old(self).waiting@.len() && old(self).waiting@[i].id == t;
                        if i == 0 {
                            assert(self.queued@[self.queued@.len() - 1].id == t);
                        } else {
                            assert(self.waiting@[i - 1].id == t);
                        }
                    } else if running_holds(old(self).running@, t) {
                        let ww = choose|ww: int|
                            0 <= ww < old(self).running@.len() && old(self).running@[ww] == Some(
                                t,
                            );
                        assert(self.running@[ww] == Some(t));
                    }
                };
            }
            Some(job)
        } else if self.waiting.len() > 0 {
            let job = self.waiting.remove(0);
            proof {
                assert(old(self).waiting@.remove(0) =~= old(self).waiting@.drop_first());
            }
            self.running[w] = Some(job.id);
            proof {
                assert forall|t: u64| t < self.next_id implies holds_ticket(self.queued@, t)
                || holds_ticket(self.waiting@, t) || running_holds(self.running@, t)
                || delivered_holds(self.delivered@, t) by {
                    if holds_ticket(old(self).waiting@, t) {
                        let i = choose|i: int|
                            0 <= i < old(self).waiting@.len() && old(self).waiting@[i].id == t;
                        if i == 0 {
                            assert(self.running@[w as int] == Some(t));
                        } else {
                            assert(self.waiting@[i - 1].id == t);
                        }
                    } else if running_holds(old(self).running@, t) {
                        let ww = choose|ww: int|
                            0 <= ww < old(self).running@.len() && old(self).running@[ww] == Some(
                                t,
                            );
                        assert(self.running@[ww] == Some(t));
                    }
                };
            }
            Some(job)
        } else {
            None
        }
    }

    /// Record that worker slot `w` finished the job it had claimed, writing
    /// `outcome` back to that job's submitter. The slot becomes idle and the
    /// answer history gains exactly one entry for the job's ticket — its
    /// first and only one, since a well-formed state never holds an answer
    /// for a ticket that is still running.
    pub fn complete(&mut self, w: usize, job_id: u64, outcome: Result<EmbedResponse, BackendError>)
        requires
            old(self).wf(),
            w < old(self).worker_count,
            old(self).running@[w as int] == Some(job_id),
        ensures
            final(self).wf(),
            final(self).worker_count == old(self).worker_count,
            final(self).capacity == old(self).capacity,
            final(self).accepting == old(self).accepting,
            final(self).next_id == old(self).next_id,
            final(self).queued@ == old(self).queued@,
            final(self).waiting@ == old(self).waiting@,
            final(self).running@ == old(self).running@.update(w as int, None::<u64>),
            final(self).delivered@ == old(self).delivered@.push(
                (Delivery { id: job_id, outcome }),
            ),
            forall|j: int|
                0 <= j < old(self).delivered@.len() ==> old(self).delivered@[j].id != job_id,
    {
        self.running[w] = None;
        self.delivered.push(Delivery { id: job_id, outcome });
        proof {
            assert forall|t: u64| t < self.next_id implies holds_ticket(self.queued@, t)
                || holds_ticket(self.waiting@, t) || running_holds(self.running@, t)
                || delivered_holds(self.delivered@, t) by {
                if t == job_id {
                    assert(self.delivered@[old(self).delivered@.len() as int].id == t);
                } else if running_holds(old(self).running@, t) {
                    let ww = choose|ww: int|
                        0 <= ww < old(self).running@.len() && old(self).running@[ww] == Some(t);
                    assert(self.running@[ww] == Some(t));
                } else if delivered_holds(old(self).delivered@, t) {
                    let i = choose|i: int|
                        0 <= i < old(self).delivered@.len() && old(self).delivered@[i].id == t;
                    assert(self.delivered@[i].id == t);
                }
            };
        }
    }

    /// Close the dispatcher. No further submission is accepted, and every
    /// submission not yet claimed by a worker — buffered or still waiting —
    /// is answered immediately with a closed-queue failure, in admission
    /// order. Jobs already claimed are drained: their workers finish and
    /// deliver normally.
    pub fn shutdown(&mut self)
        requires
            old(self).wf(),
        ensures
            final(self).wf(),
            !final(self).accepting,
            final(self).worker_count == old(self).worker_count,
            final(self).capacity == old(self).capacity,
            final(self).next_id == old(self).next_id,
            final(self).running@ == old(self).running@,
            final(self).queued@.len() == 0,
            final(self).waiting@.len() == 0,
            final(self).delivered@ == old(self).delivered@ + closed_deliveries(
                old(self).queued@ + old(self).waiting@,
            ),
    {
        let ghost q0 = old(self).queued@;
        let ghost w0 = old(self).waiting@;
        let ghost d0 = old(self).delivered@;
        while self.queued.len() > 0
            invariant
                old(self).wf(),
                q0 == old(self).queued@,
                d0 == old(self).delivered@,
                self.waiting@ == old(self).waiting@,
                self.running@ == old(self).running@,
                self.next_id == old(self).next_id,
                self.accepting == old(self).accepting,
                self.worker_count == old(self).worker_count,
                self.capacity == old(self).capacity,
                self.queued@.len() <= q0.len(),
                self.queued@ == q0.subrange(q0.len() - self.queued@.len(), q0.len() as int),
                self.delivered@ == d0 + closed_deliveries(
                    q0.subrange(0, q0.len() - self.queued@.len()),
                ),
            decreases self.queued@.len(),
        {
            let ghost k = q0.len() - self.queued@.len();
            let j = self.queued.remove(0);
            self.delivered.push(Delivery { id: j.id, outcome: Err(BackendError::QueueClosed) });
            proof {
                assert(j == q0[k]);
                assert(self.queued@ =~= q0.subrange(q0.len() - self.queued@.len(), q0.len() as int));
                assert(closed_deliveries(q0.subrange(0, k + 1)) =~= closed_deliveries(
                    q0.subrange(0, k),
                ).push(Delivery { id: q0[k].id, outcome: Err(BackendError::QueueClosed) }));
                assert(self.delivered@ =~= d0 + closed_deliveries(q0.subrange(0, k + 1)));
            }
        }
        proof {
            assert(q0.subrange(0, q0.len() as int) =~= q0);
        }
        while self.waiting.len() > 0
            invariant
                old(self).wf(),
                w0 == old(self).waiting@,
                d0 == old(self).delivered@,
                q0 == old(self).queued@,
                self.queued@.len() == 0,
                self.running@ == old(self).running@,
                self.next_id == old(self).next_id,
                self.accepting == old(self).accepting,
                self.worker_count == old(self).worker_count,
                self.capacity == old(self).capacity,
                self.waiting@.len() <= w0.len(),
                self.waiting@ == w0.subrange(w0.len() - self.waiting@.len(), w0.len() as int),
                self.delivered@ == d0 + closed_deliveries(q0) + closed_deliveries(
                    w0.subrange(0, w0.len() - self.waiting@.len()),
                ),
            decreases self.waiting@.len(),
        {
            let ghost k = w0.len() - self.waiting@.len();
            let j = self.waiting.remove(0);
            self.delivered.push(Delivery { id: j.id, outcome: Err(BackendError::QueueClosed) });
            proof {
                assert(j == w0[k]);
                assert(self.waiting@ =~= w0.subrange(
                    w0.len() - self.waiting@.len(),
                    w0.len() as int,
                ));
                assert(closed_deliveries(w0.subrange(0, k + 1)) =~= closed_deliveries(
                    w0.subrange(0, k),
                ).push(Delivery { id: w0[k].id, outcome: Err(BackendError::QueueClosed) }));
                assert(self.delivered@ =~= d0 + closed_deliveries(q0) + closed_deliveries(
                    w0.subrange(0, k + 1),
                ));
            }
        }
        self.accepting = false;
        proof {
            assert(w0.subrange(0, w0.len() as int) =~= w0);
            assert(closed_deliveries(q0 + w0) =~= closed_deliveries(q0) + closed_deliveries(w0));
            assert(self.delivered@ =~= d0 + closed_deliveries(q0 + w0));
            assert forall|t: u64| t < self.next_id implies holds_ticket(self.queued@, t)
                || holds_ticket(self.waiting@, t) || running_holds(self.running@, t)
                || delivered_holds(self.delivered@, t) by {
                if holds_ticket(q0, t) {
                    let i = choose|i: int| 0 <= i < q0.len() && q0[i].id == t;
                    assert((q0 + w0)[i].id == t);
                    assert(self.delivered@[d0.len() + i].id == t);
                } else if holds_ticket(w0, t) {
                    let i = choose|i: int| 0 <= i < w0.len() && w0[i].id == t;
                    assert((q0 + w0)[q0.len() + i].id == t);
                    assert(self.delivered@[d0.len() + q0.len() + i].id == t);
                } else if delivered_holds(d0, t) {
                    let i = choose|i: int| 0 <= i < d0.len() && d0[i].id == t;
                    assert(self.delivered@[i].id == t);
                }
            };
        }
    }
}

/// In every reachable dispatcher state, at most `worker_count` jobs are
/// claimed, so at most `worker_count` backend calls are in flight at any
/// instant: the worker pool is the sole concurrency-limiting mechanism.
pub proof fn lemma_concurrency_bound(q: Queue)
    requires
        q.wf(),
    ensures
        busy_count(q.running@) <= q.worker_count,
{
    lemma_busy_count_le_len(q.running@);
}

/// In every reachable dispatcher state, the jobs admitted past the submitters
/// — buffered or claimed — never exceed `capacity + worker_count`. Together
/// with `enqueue`'s guarantee that an open dispatcher always accepts a
/// submission into the buffer or the waiting line, this is the backpressure
/// contract: excess submissions suspend; they are neither refused nor
/// dropped.
pub proof fn lemma_backpressure_bound(q: Queue)
    requires
        q.wf(),
    ensures
        q.queued@.len() + busy_count(q.running@) <= q.capacity + q.worker_count,
{
    lemma_busy_count_le_len(q.running@);
}

/// Each job's response channel receives at most one value: the answer history
/// of a reachable state never holds two entries for one ticket, and never an
/// entry for a ticket that is still buffered, waiting or running. Together
/// with the postconditions of `complete` and `shutdown`, which write exactly
/// one answer per retired job, every job is answered exactly once.
pub proof fn lemma_single_delivery(q: Queue)
    requires
        q.wf(),
    ensures
        forall|i: int, j: int|
            0 <= i < j < q.delivered@.len() ==> q.delivered@[i].id != q.delivered@[j].id,
        forall|i: int, j: int|
            0 <= i < q.queued@.len() && 0 <= j < q.delivered@.len()
                ==> q.queued@[i].id != q.delivered@[j].id,
        forall|i: int, j: int|
            0 <= i < q.waiting@.len() && 0 <= j < q.delivered@.len()
                ==> q.waiting@[i].id != q.delivered@[j].id,
        forall|w: int, j: int|
            0 <= w < q.running@.len() && q.running@[w] is Some && 0 <= j < q.delivered@.len()
                ==> q.running@[w]->0 != q.delivered@[j].id,
{
}

/// No submission is ever lost: every ticket the dispatcher has issued is, at
/// every reachable state, accounted for in some place — still buffered, still
/// waiting, claimed by a worker, or already answered. Together with the
/// disjointness stated by `lemma_single_delivery`, each ticket is in exactly
/// one of them.
pub proof fn lemma_no_job_lost(q: Queue)
    requires
        q.wf(),
    ensures
        forall|id: u64|
            id < q.next_id ==> holds_ticket(q.queued@, id) || holds_ticket(q.waiting@, id)
                || running_holds(q.running@, id) || delivered_holds(q.delivered@, id),
{
}

/// Jobs are admitted and claimed in submission order: tickets increase along
/// the buffer, along the waiting line, and from the buffer to the waiting
/// line, so the pending job with the smallest ticket is always the next one
/// a worker claims.
pub proof fn lemma_fifo_admission(q: Queue)
    requires
        q.wf(),
    ensures
        forall|i: int, j: int|
            0 <= i < j < q.queued@.len() ==> q.queued@[i].id < q.queued@[j].id,
        forall|i: int, j: int|
            0 <= i < j < q.waiting@.len() ==> q.waiting@[i].id < q.waiting@[j].id,
        forall|i: int, j: int|
            0 <= i < q.queued@.len() && 0 <= j < q.waiting@.len()
                ==> q.queued@[i].id < q.waiting@[j].id,
{
}

} // verus!
