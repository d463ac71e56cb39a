//! The coordinator model: one state holding the supervisor's pool, every
//! worker's private slice, the shared inbound channel and the relay log, with
//! one operation per scheduling step.
//!
//! Any interleaving of worker sends and supervisor dispatches is a sequence of
//! these operations, so what `wf` maintains holds under every interleaving:
//! frames are conserved (never duplicated), a plea's reply reaches only its
//! sender's slice, and the messages of one sender reach the relay in the order
//! they were sent.
use crate::frame::take_frames;
use crate::frame::Frame;
use vstd::prelude::*;

verus! {

/// What one modelled message carries.
pub enum Note {
    /// An action request, spending the carried frame when one is needed.
    Deed(Option<Frame>),
    /// A log line.
    Quip(String),
    /// A request for more frames, answered from the pool and not relayed.
    Plea,
}

impl Note {
    /// Whether the supervisor relays this message to the external consumer.
    pub open spec fn is_forwardable(self) -> bool {
        !(self is Plea)
    }
}

/// One message in flight: who sent it, and what it says.
pub struct Missive {
    /// The position of the sending worker.
    pub sender: usize,
    /// The message itself.
    pub note: Note,
}

/// The frames held by a sequence of worker slices, in total.
pub open spec fn slice_total(ss: Seq<Vec<Frame>>) -> int
    decreases ss.len(),
{
    if ss.len() == 0 {
        0
    } else {
        slice_total(ss.drop_last()) + ss.last()@.len()
    }
}

/// Replacing one slice changes the total by the difference of that slice.
pub proof fn lemma_slice_total_update(ss: Seq<Vec<Frame>>, i: int, v: Vec<Frame>)
    requires
        0 <= i < ss.len(),
    ensures
        slice_total(ss.update(i, v)) == slice_total(ss) - ss[i]@.len() + v@.len(),
    decreases ss.len(),
{
    let upd = ss.update(i, v);
    if i == ss.len() - 1 {
        assert(upd.drop_last() =~= ss.drop_last());
    } else {
        assert(upd.drop_last() =~= ss.drop_last().update(i, v));
        assert(upd.last() == ss.last());
        lemma_slice_total_update(ss.drop_last(), i, v);
    }
}

/// Adding a slice adds its frames to the total.
pub proof fn lemma_slice_total_push(ss: Seq<Vec<Frame>>, v: Vec<Frame>)
    ensures
        slice_total(ss.push(v)) == slice_total(ss) + v@.len(),
{
    assert(ss.push(v).drop_last() =~= ss);
    assert(ss.push(v).last() == v);
}

/// Keeps the messages that worker `i` sent and the supervisor relays.
pub open spec fn fwd_pred(i: int) -> spec_fn(Missive) -> bool {
    |m: Missive| m.sender as int == i && m.note.is_forwardable()
}

/// The messages of `ms` that worker `i` sent and the supervisor relays, in
/// order.
pub open spec fn fwd_of(ms: Seq<Missive>, i: int) -> Seq<Missive> {
    ms.filter(fwd_pred(i))
}

/// Filtering a single message keeps or drops it.
proof fn lemma_filter_one(m: Missive, pred: spec_fn(Missive) -> bool)
    ensures
        seq![m].filter(pred) == if pred(m) {
            seq![m]
        } else {
            Seq::<Missive>::empty()
        },
{
    reveal(Seq::filter);
    assert(seq![m].drop_last() =~= Seq::<Missive>::empty());
    assert(Seq::<Missive>::empty().filter(pred) == Seq::<Missive>::empty());
    assert(seq![m].last() == m);
    if pred(m) {
        assert(seq![m].filter(pred) =~= seq![m]);
    }
}

/// The reply drawn from the end of a pool: its `k` newest frames, newest
/// first.
pub open spec fn reply_of(pool: Seq<Frame>, k: int) -> Seq<Frame> {
    Seq::new(k as nat, |j: int| pool[pool.len() - 1 - j])
}

/// The size of the reply a pool of `pool_len` frames gives to one plea when
/// `per` frames are owed: all that is owed, or all that is left. An empty
/// pool gives the empty reply rather than holding the requester up.
pub open spec fn reply_len(pool_len: int, per: int) -> int {
    if pool_len < per {
        pool_len
    } else {
        per
    }
}

/// The whole coordinator at one instant: the supervisor's pool, each worker's
/// private slice, the shared first-in-first-out inbound channel, and the log
/// of messages already relayed to the external consumer. Each worker's full
/// send history is kept alongside, in ghost form, so order properties can be
/// stated against what was actually sent.
pub struct System {
    /// The supervisor's authoritative pool.
    pub pool: Vec<Frame>,
    /// Each worker's private slice, by worker position.
    pub slices: Vec<Vec<Frame>>,
    /// The shared inbound channel, oldest message first.
    pub queue: Vec<Missive>,
    /// The messages relayed to the external consumer, oldest first.
    pub relayed: Vec<Missive>,
    /// Frames owed to each worker at spawn time and per reply.
    pub per: usize,
    /// The number of frames held overall when the system was set up.
    pub initial: Ghost<int>,
    /// Every message each worker has sent, in send order, by worker position.
    pub sent: Ghost<Seq<Seq<Missive>>>,
}

impl System {
    /// The number of workers.
    pub open spec fn worker_count(self) -> int {
        self.slices@.len() as int
    }

    /// The frames held by the pool and the workers' slices together — the
    /// quantity that is conserved.
    pub open spec fn held(self) -> int {
        self.pool@.len() + slice_total(self.slices@)
    }

    /// First-in-first-out per sender: what worker `i` has sent and the
    /// supervisor relays is exactly what was already relayed for `i` followed
    /// by what still waits in the channel, in order.
    pub open spec fn fifo_ok(self, i: int) -> bool {
        fwd_of(self.relayed@, i) + fwd_of(self.queue@, i) == fwd_of(self.sent@[i], i)
    }

    /// Well-formedness, established at set-up and preserved by every
    /// operation: one send history per worker, every message in flight or
    /// relayed names a real sender, no more frames are held than the system
    /// started with, and each sender's relay order is its send order.
    pub open spec fn wf(self) -> bool {
        &&& self.sent@.len() == self.slices@.len()
        &&& forall|j: int|
            0 <= j < self.queue@.len() ==> (#[trigger] self.queue@[j]).sender
                < self.slices@.len()
        &&& forall|j: int|
            0 <= j < self.relayed@.len() ==> (#[trigger] self.relayed@[j]).sender
                < self.slices@.len()
        &&& self.held() <= self.initial@
        &&& forall|i: int| 0 <= i < self.slices@.len() ==> #[trigger] self.fifo_ok(i)
    }

    /// Sets up a coordinator around an initial pool, before any worker is
    /// enrolled; `per` is what each worker is owed at enrolment and per
    /// reply.
    pub fn setup(pool: Vec<Frame>, per: usize) -> (s: System)
        ensures
            s.wf(),
            s.pool == pool,
            s.per == per,
            s.worker_count() == 0,
            s.queue@.len() == 0,
            s.relayed@.len() == 0,
            s.initial@ == pool@.len(),
            s.held() == pool@.len(),
    {
        let ghost size = pool@.len() as int;
        System {
            pool,
            slices: Vec::new(),
            queue: Vec::new(),
            relayed: Vec::new(),
            per,
            initial: Ghost(size),
            sent: Ghost(Seq::empty()),
        }
    }

    /// The pool can supply a cohort of `count` new workers.
    pub open spec fn can_enroll(self, count: int) -> bool {
        count * self.per <= self.pool@.len()
    }

    /// Enrolls `count` workers, each owning the next `per` frames drawn from
    /// the end of the pool and an empty send history. When the pool cannot
    /// supply the whole cohort, nothing changes: no partial cohort is ever
    /// made. Conserves the held frames exactly.
    pub fn enroll(&mut self, count: usize) -> (ok: bool)
        requires
            old(self).wf(),
        ensures
            final(self).wf(),
            ok == old(self).can_enroll(count as int),
            !ok ==> *final(self) == *old(self),
            final(self).per == old(self).per,
            final(self).initial == old(self).initial,
            final(self).queue == old(self).queue,
            final(self).relayed == old(self).relayed,
            final(self).held() == old(self).held(),
            ok ==> {
                let pre = *old(self);
                let len = pre.pool@.len();
                &&& final(self).worker_count() == pre.worker_count() + count
                &&& final(self).pool@ == pre.pool@.take(len - count * pre.per)
                &&& forall|i: int|
                    0 <= i < pre.worker_count() ==> #[trigger] final(self).slices@[i]
                        == pre.slices@[i]
                &&& forall|c: int|
                    0 <= c < count ==> (#[trigger] final(self).slices@[pre.worker_count() + c])@
                        =~= reply_of(pre.pool@.take(len - c * pre.per), pre.per as int)
            },
    {
        let flen = self.pool.len();
        let need = count.checked_mul(self.per);
        let enough = match need {
            Some(n) => n <= flen,
            None => false,
        };
        if !enough {
            proof {
                if old(self).can_enroll(count as int) {
                    assert(count * (self.per as int) <= flen as int);
                    assert(need == Some((count * self.per) as usize));
                    assert(false);
                }
            }
            return false;
        }
        let ghost pre = *self;
        let mut c: usize = 0;
        while c < count
            invariant
                pre.wf(),
                c <= count,
                count * pre.per <= pre.pool@.len(),
                self.per == pre.per,
                self.initial == pre.initial,
                self.queue == pre.queue,
                self.relayed == pre.relayed,
                self.pool@ == pre.pool@.take(pre.pool@.len() - c * pre.per),
                self.slices@.len() == pre.slices@.len() + c,
                self.sent@.len() == self.slices@.len(),
                forall|i: int|
                    0 <= i < pre.worker_count() ==> #[trigger] self.slices@[i] == pre.slices@[i],
                forall|i: int|
                    0 <= i < pre.worker_count() ==> #[trigger] self.sent@[i] == pre.sent@[i],
                forall|k: int|
                    0 <= k < c ==> (#[trigger] self.slices@[pre.worker_count() + k])@ =~= reply_of(
                        pre.pool@.take(pre.pool@.len() - k * pre.per),
                        pre.per as int,
                    ),
                forall|k: int|
                    0 <= k < c ==> #[trigger] self.sent@[pre.worker_count() + k]
                        =~= Seq::<Missive>::empty(),
                slice_total(self.slices@) == slice_total(pre.slices@) + c * pre.per,
            decreases count - c,
        {
            proof {
                assert((c + 1) * pre.per == c * pre.per + pre.per) by (nonlinear_arith);
                assert(count * pre.per >= (c + 1) * pre.per) by (nonlinear_arith)
                    requires
                        c + 1 <= count,
                        pre.per >= 0,
                ;
            }
            let slice = take_frames(&mut self.pool, self.per);
            proof {
                lemma_slice_total_push(self.slices@, slice);
                assert(slice@ =~= reply_of(
                    pre.pool@.take(pre.pool@.len() - c * pre.per),
                    pre.per as int,
                ));
            }
            self.slices.push(slice);
            self.sent = Ghost(self.sent@.push(Seq::empty()));
            c += 1;
            proof {
                assert(self.pool@ =~= pre.pool@.take(pre.pool@.len() - c * pre.per));
            }
        }
        proof {
            assert forall|i: int| 0 <= i < self.slices@.len() implies #[trigger] self.fifo_ok(
                i,
            ) by {
                if i < pre.worker_count() {
                    assert(pre.fifo_ok(i));
                    assert(self.sent@[i] == pre.sent@[i]);
                } else {
                    assert(self.sent@[pre.worker_count() + (i - pre.worker_count())]
                        =~= Seq::<Missive>::empty());
                    assert forall|j: int|
                        0 <= j < self.relayed@.len() implies !(fwd_pred(i)(
                        #[trigger] self.relayed@[j],
                    )) by {
                        assert(self.relayed@[j].sender < pre.slices@.len());
                    }
                    self.relayed@.lemma_all_neg_filter_empty(fwd_pred(i));
                    assert forall|j: int|
                        0 <= j < self.queue@.len() implies !(fwd_pred(i)(
                        #[trigger] self.queue@[j],
                    )) by {
                        assert(self.queue@[j].sender < pre.slices@.len());
                    }
                    self.queue@.lemma_all_neg_filter_empty(fwd_pred(i));
                    assert(self.sent@[i] =~= Seq::<Missive>::empty());
                    reveal(Seq::filter);
                    assert(fwd_of(self.relayed@, i) + fwd_of(self.queue@, i) =~= fwd_of(
                        self.sent@[i],
                        i,
                    ));
                }
            }
        }
        true
    }

    /// One message went into the channel: it was appended to the queue and to
    /// its sender's history, and nothing else moved.
    pub open spec fn queued(pre: System, post: System, m: Missive) -> bool {
        &&& post.queue@ == pre.queue@.push(m)
        &&& post.sent@ == pre.sent@.update(
            m.sender as int,
            pre.sent@[m.sender as int].push(m),
        )
        &&& post.relayed == pre.relayed
        &&& post.per == pre.per
        &&& post.initial == pre.initial
    }

    /// Appends a message from worker `i` to the channel and to `i`'s send
    /// history.
    fn enqueue(&mut self, i: usize, note: Note)
        requires
            old(self).wf(),
            i < old(self).worker_count(),
        ensures
            final(self).wf(),
            final(self).pool == old(self).pool,
            final(self).slices == old(self).slices,
            Self::queued(*old(self), *final(self), Missive { sender: i, note }),
    {
        let ghost pre = *self;
        let ghost m = Missive { sender: i, note };
        let missive = Missive { sender: i, note };
        self.queue.push(missive);
        proof {
            self.sent@ = pre.sent@.update(i as int, pre.sent@[i as int].push(m));
            assert(self.queue@ =~= pre.queue@ + seq![m]);
            assert forall|j: int| 0 <= j < self.slices@.len() implies #[trigger] self.fifo_ok(
                j,
            ) by {
                assert(pre.fifo_ok(j));
                Seq::<Missive>::filter_distributes_over_add(pre.queue@, seq![m], fwd_pred(j));
                lemma_filter_one(m, fwd_pred(j));
                if j == i as int {
                    assert(self.sent@[j] =~= pre.sent@[j] + seq![m]);
                    Seq::<Missive>::filter_distributes_over_add(
                        pre.sent@[j],
                        seq![m],
                        fwd_pred(j),
                    );
                    assert(fwd_of(self.relayed@, j) + fwd_of(self.queue@, j) =~= fwd_of(
                        self.sent@[j],
                        j,
                    ));
                } else {
                    assert(fwd_of(self.queue@, j) =~= fwd_of(pre.queue@, j));
                    assert(fwd_of(self.relayed@, j) + fwd_of(self.queue@, j) =~= fwd_of(
                        self.sent@[j],
                        j,
                    ));
                }
            }
        }
    }

    /// Worker `i` takes an instigating turn: with a frame in hand it spends
    /// the newest one on a deed; out of frames it pleads for more instead,
    /// changing no slice. Held frames never grow.
    pub fn send_deed(&mut self, i: usize)
        requires
            old(self).wf(),
            i < old(self).worker_count(),
        ensures
            final(self).wf(),
            final(self).pool == old(self).pool,
            final(self).worker_count() == old(self).worker_count(),
            forall|j: int|
                0 <= j < old(self).worker_count() && j != i ==> #[trigger] final(self).slices@[j]
                    == old(self).slices@[j],
            final(self).held() <= old(self).held(),
            old(self).slices@[i as int]@.len() > 0 ==> final(self).slices@[i as int]@ == old(
                self,
            ).slices@[i as int]@.drop_last() && Self::queued(
                *old(self),
                *final(self),
                Missive {
                    sender: i,
                    note: Note::Deed(Some(old(self).slices@[i as int]@.last())),
                },
            ),
            old(self).slices@[i as int]@.len() == 0 ==> final(self).slices@[i as int]@ == old(
                self,
            ).slices@[i as int]@ && Self::queued(
                *old(self),
                *final(self),
                Missive { sender: i, note: Note::Plea },
            ),
    {
        let ghost pre = *self;
        let mut slice = self.slices.remove(i);
        let note = match slice.pop() {
            Some(frame) => Note::Deed(Some(frame)),
            None => Note::Plea,
        };
        self.slices.insert(i, slice);
        proof {
            assert(self.slices@ =~= pre.slices@.update(i as int, self.slices@[i as int]));
            lemma_slice_total_update(pre.slices@, i as int, self.slices@[i as int]);
            assert(self.held() <= pre.held());
            assert forall|j: int| 0 <= j < self.slices@.len() implies #[trigger] self.fifo_ok(
                j,
            ) by {
                assert(pre.fifo_ok(j));
            }
            assert(self.wf());
        }
        self.enqueue(i, note);
    }

    /// Worker `i` asks that a window be closed; no frame is needed and none
    /// moves.
    pub fn send_spoil(&mut self, i: usize)
        requires
            old(self).wf(),
            i < old(self).worker_count(),
        ensures
            final(self).wf(),
            final(self).pool == old(self).pool,
            final(self).slices == old(self).slices,
            Self::queued(
                *old(self),
                *final(self),
                Missive { sender: i, note: Note::Deed(None) },
            ),
    {
        self.enqueue(i, Note::Deed(None));
    }

    /// Worker `i` logs a line; no frame moves.
    pub fn send_quip(&mut self, i: usize, text: String)
        requires
            old(self).wf(),
            i < old(self).worker_count(),
        ensures
            final(self).wf(),
            final(self).pool == old(self).pool,
            final(self).slices == old(self).slices,
            Self::queued(
                *old(self),
                *final(self),
                Missive { sender: i, note: Note::Quip(text) },
            ),
    {
        self.enqueue(i, Note::Quip(text));
    }

    /// The supervisor takes the oldest message out of the channel and routes
    /// it. A forwardable message goes to the relay log unchanged. A plea is
    /// answered at once from the pool — the newest `per` frames, fewer when
    /// the pool runs short and none when it is empty, so an exhausted pool
    /// yields the empty reply rather than a wait — and the reply lands in the
    /// sender's slice and no other. Held frames are conserved exactly.
    pub fn dispatch(&mut self)
        requires
            old(self).wf(),
            old(self).queue@.len() > 0,
        ensures
            final(self).wf(),
            final(self).queue@ == old(self).queue@.drop_first(),
            final(self).sent == old(self).sent,
            final(self).per == old(self).per,
            final(self).initial == old(self).initial,
            final(self).worker_count() == old(self).worker_count(),
            final(self).held() == old(self).held(),
            ({
                let m = old(self).queue@[0];
                if m.note.is_forwardable() {
                    &&& final(self).relayed@ == old(self).relayed@.push(m)
                    &&& final(self).pool == old(self).pool
                    &&& final(self).slices == old(self).slices
                } else {
                    let len = old(self).pool@.len() as int;
                    let k = reply_len(len, old(self).per as int);
                    &&& final(self).relayed == old(self).relayed
                    &&& final(self).pool@ == old(self).pool@.take(len - k)
                    &&& final(self).slices@[m.sender as int]@ == old(self).slices@[m.sender as int]@
                        + reply_of(old(self).pool@, k)
                    &&& forall|j: int|
                        0 <= j < old(self).worker_count() && j != m.sender as int
                            ==> #[trigger] final(self).slices@[j] == old(self).slices@[j]
                }
            }),
    {
        let ghost pre = *self;
        let ghost gm = pre.queue@[0];
        let missive = self.queue.remove(0);
        proof {
            assert(pre.queue@ =~= seq![gm] + self.queue@);
            assert(self.queue@ =~= pre.queue@.drop_first());
        }
        let Missive { sender, note } = missive;
        match note {
            Note::Plea => {
                let reply = take_frames(&mut self.pool, self.per);
                let ghost k = reply_len(pre.pool@.len() as int, pre.per as int);
                proof {
                    assert(reply@ =~= reply_of(pre.pool@, k));
                }
                let mut slice = self.slices.remove(sender);
                let mut reply = reply;
                slice.append(&mut reply);
                self.slices.insert(sender, slice);
                proof {
                    assert(self.slices@ =~= pre.slices@.update(
                        sender as int,
                        self.slices@[sender as int],
                    ));
                    lemma_slice_total_update(pre.slices@, sender as int, self.slices@[sender as int]);
                    Self::lemma_drop_plea_keeps_fifo(pre, *self, gm);
                }
                proof {
                    assert(self.slices@[sender as int]@ =~= pre.slices@[sender as int]@ + reply_of(
                        pre.pool@,
                        k,
                    ));
                }
            },
            other => {
                let kept = Missive { sender, note: other };
                proof {
                    assert(kept == gm);
                }
                self.relayed.push(kept);
                proof {
                    Self::lemma_relay_keeps_fifo(pre, *self, gm);
                }
            },
        }
    }

    /// Taking a plea off the front of the channel relays nothing and keeps
    /// every sender's relay order.
    proof fn lemma_drop_plea_keeps_fifo(pre: System, post: System, m: Missive)
        requires
            pre.wf(),
            pre.queue@.len() > 0,
            pre.queue@[0] == m,
            !m.note.is_forwardable(),
            post.queue@ == pre.queue@.drop_first(),
            post.relayed == pre.relayed,
            post.sent == pre.sent,
            post.slices@.len() == pre.slices@.len(),
        ensures
            forall|i: int| 0 <= i < post.slices@.len() ==> #[trigger] post.fifo_ok(i),
    {
        assert forall|i: int| 0 <= i < post.slices@.len() implies #[trigger] post.fifo_ok(i) by {
            assert(pre.fifo_ok(i));
            assert(pre.queue@ =~= seq![m] + post.queue@);
            Seq::<Missive>::filter_distributes_over_add(seq![m], post.queue@, fwd_pred(i));
            lemma_filter_one(m, fwd_pred(i));
            assert(fwd_of(pre.queue@, i) =~= fwd_of(post.queue@, i));
            assert(fwd_of(post.relayed@, i) + fwd_of(post.queue@, i) =~= fwd_of(
                post.sent@[i],
                i,
            ));
        }
    }

    /// Moving a forwardable message from the front of the channel to the end
    /// of the relay log keeps every sender's relay order.
    proof fn lemma_relay_keeps_fifo(pre: System, post: System, m: Missive)
        requires
            pre.wf(),
            pre.queue@.len() > 0,
            pre.queue@[0] == m,
            m.note.is_forwardable(),
            post.queue@ == pre.queue@.drop_first(),
            post.relayed@ == pre.relayed@.push(m),
            post.sent == pre.sent,
            post.slices@.len() == pre.slices@.len(),
        ensures
            forall|i: int| 0 <= i < post.slices@.len() ==> #[trigger] post.fifo_ok(i),
    {
        assert forall|i: int| 0 <= i < post.slices@.len() implies #[trigger] post.fifo_ok(i) by {
            assert(pre.fifo_ok(i));
            assert(pre.queue@ =~= seq![m] + post.queue@);
            Seq::<Missive>::filter_distributes_over_add(seq![m], post.queue@, fwd_pred(i));
            assert(post.relayed@ =~= pre.relayed@ + seq![m]);
            Seq::<Missive>::filter_distributes_over_add(pre.relayed@, seq![m], fwd_pred(i));
            lemma_filter_one(m, fwd_pred(i));
            if i == m.sender as int {
                assert(fwd_of(pre.queue@, i) =~= seq![m] + fwd_of(post.queue@, i));
                assert(fwd_of(post.relayed@, i) + fwd_of(post.queue@, i) =~= (fwd_of(
                    pre.relayed@,
                    i,
                ) + seq![m]) + fwd_of(post.queue@, i));
                assert((fwd_of(pre.relayed@, i) + seq![m]) + fwd_of(post.queue@, i) =~= fwd_of(
                    pre.relayed@,
                    i,
                ) + (seq![m] + fwd_of(post.queue@, i)));
                assert(fwd_of(post.relayed@, i) + fwd_of(post.queue@, i) =~= fwd_of(
                    post.sent@[i],
                    i,
                ));
            } else {
                assert(fwd_of(pre.queue@, i) =~= fwd_of(post.queue@, i));
                assert(fwd_of(post.relayed@, i) =~= fwd_of(pre.relayed@, i));
                assert(fwd_of(post.relayed@, i) + fwd_of(post.queue@, i) =~= fwd_of(
                    post.sent@[i],
                    i,
                ));
            }
        }
    }
}

/// Conservation: however the workers and the supervisor interleave, the pool
/// and the private slices together never hold more frames than the pool held
/// at set-up. `setup` establishes `wf`, every operation's contract carries it
/// forward, and `wf` bounds the held frames; no frame is ever duplicated.
pub proof fn lemma_conservation(s: System)
    requires
        s.wf(),
    ensures
        s.held() <= s.initial@,
{
}

/// The set-up size never changes along a run whose steps all keep it.
proof fn lemma_initial_constant(trace: Seq<System>, t: int)
    requires
        0 <= t < trace.len(),
        forall|u: int|
            0 < u < trace.len() ==> (#[trigger] trace[u]).initial == trace[u - 1].initial,
    ensures
        trace[t].initial == trace[0].initial,
    decreases t,
{
    if t > 0 {
        lemma_initial_constant(trace, t - 1);
    }
}

/// Conservation along a whole run: a run that starts well-formed, and whose
/// every later state is well-formed with the same set-up size — which is what
/// every operation's contract gives — holds at no instant more frames in the
/// pool and the slices together than the pool held at set-up.
pub proof fn lemma_conservation_trace(trace: Seq<System>)
    requires
        trace.len() > 0,
        forall|t: int| 0 <= t < trace.len() ==> (#[trigger] trace[t]).wf(),
        forall|t: int|
            0 < t < trace.len() ==> (#[trigger] trace[t]).initial == trace[t - 1].initial,
    ensures
        forall|t: int| 0 <= t < trace.len() ==> (#[trigger] trace[t]).held() <= trace[0].initial@,
{
    assert forall|t: int| 0 <= t < trace.len() implies (#[trigger] trace[t]).held()
        <= trace[0].initial@ by {
        lemma_initial_constant(trace, t);
    }
}

/// First-in-first-out per sender: in any well-formed state, the messages of
/// one sender that reached the relay log are exactly the first of that
/// sender's forwardable sends, in send order — two messages sent in order by
/// one worker are relayed in that order, however other workers' messages
/// interleave.
pub proof fn lemma_fifo_per_sender(s: System, i: int)
    requires
        s.wf(),
        0 <= i < s.worker_count(),
    ensures
        fwd_of(s.relayed@, i) == fwd_of(s.sent@[i], i).take(fwd_of(s.relayed@, i).len() as int),
{
    assert(s.fifo_ok(i));
    assert(fwd_of(s.relayed@, i) =~= fwd_of(s.sent@[i], i).take(
        fwd_of(s.relayed@, i).len() as int,
    ));
}

} // verus!
