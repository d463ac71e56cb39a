//! The supervisor: sole owner of the frame pool, provisioner of workers, and
//! router of every message they send.
//!
//! The pool is mutated nowhere but here. The caller owns the channel and the
//! external consumer; it hands each received message to `dispatch`, performs
//! the forwarding `dispatch` asks for, and never sees the pool.
use crate::frame::take_frames;
use crate::frame::Frame;
use crate::hijinks::send_reply;
use crate::hijinks::Hijinks;
use crate::imp::Imp;
use crate::quote::Quotes;
use crate::FRAMES;
use vstd::prelude::*;

verus! {

/// Relies on names::Generator: draws a fresh random display name. Nothing is
/// promised of the outcome.
#[verifier::external_body]
fn fresh_name() -> String {
    names::Generator::default().next().unwrap_or_default()
}

/// Relies on convert_case::Casing::to_case: renders the text in title case.
/// Nothing is promised of the outcome's content.
#[verifier::external_body]
fn title_case(s: &str) -> String {
    convert_case::Casing::to_case(&s, convert_case::Case::Title)
}

/// Draws a fresh random display name and renders it in title case.
fn fresh_title_name() -> String {
    let name = fresh_name();
    title_case(name.as_str())
}

/// What the supervisor asks of its caller after routing one message.
pub enum Route {
    /// The message is approved: hand it to the external consumer.
    Forward(Hijinks),
    /// A frame request was answered through its own reply channel; `true`
    /// when the requester was still listening, `false` when it was gone and
    /// the frames went back into the pool.
    Replied(bool),
}

/// The supervisor: the authoritative frame pool and the master copy of the
/// quote catalog. The channel's two halves and the external consumer's entry
/// point stay with the caller.
pub struct ImpKing {
    /// The authoritative pool of frames not yet handed to any worker.
    pub frames: Vec<Frame>,
    /// The master copy of the quote catalog, cloned to each worker.
    pub quotes: Quotes,
}

impl ImpKing {
    /// The pool can provision `count` workers with `per` frames each.
    pub open spec fn can_provision(self, count: int, per: int) -> bool {
        count * per <= self.frames@.len()
    }

    /// What provisioning leaves and yields when the pool suffices: one worker
    /// for each requested name, in order, each owning the next `per` frames
    /// drawn from the end of the pool (newest first) and its own copy of the
    /// catalog.
    pub open spec fn provisioned(pre: ImpKing, post: ImpKing, names: Seq<String>, per: int, r: Seq<
        Imp,
    >) -> bool {
        let len = pre.frames@.len();
        &&& r.len() == names.len()
        &&& post.frames@ == pre.frames@.take(len - names.len() * per)
        &&& post.quotes == pre.quotes
        &&& forall|i: int|
            0 <= i < r.len() ==> {
                &&& (#[trigger] r[i]).name == names[i]
                &&& r[i].quotes@ == pre.quotes@
                &&& r[i].frames@.len() == per
                &&& forall|j: int|
                    0 <= j < per ==> (#[trigger] r[i].frames@[j]) == pre.frames@[len - i * per - 1
                        - j]
            }
    }

    /// Builds a supervisor around an initial pool and the catalog.
    pub fn summon(frames: Vec<Frame>, quotes: Quotes) -> (r: Self)
        ensures
            r == (ImpKing { frames, quotes }),
    {
        ImpKing { frames, quotes }
    }

    /// The authoritative pool.
    pub fn frames(&self) -> (r: &Vec<Frame>)
        ensures
            *r == self.frames,
    {
        &self.frames
    }

    /// The master catalog.
    pub fn quotes(&self) -> (r: &Quotes)
        ensures
            *r == self.quotes,
    {
        &self.quotes
    }

    /// Provisions one worker per name, each with `per` frames popped from the
    /// pool. When the pool holds fewer than `names.len() * per` frames, no
    /// worker is made and the pool is left untouched: the caller must size
    /// the pool before spawning, and a partial cohort is never created.
    pub fn provision(&mut self, names: Vec<String>, per: usize) -> (r: Vec<Imp>)
        ensures
            old(self).can_provision(names@.len() as int, per as int) ==> Self::provisioned(
                *old(self),
                *final(self),
                names@,
                per as int,
                r@,
            ),
            !old(self).can_provision(names@.len() as int, per as int) ==> r@.len() == 0
                && *final(self) == *old(self),
    {
        let flen = self.frames.len();
        let need = names.len().checked_mul(per);
        let enough = match need {
            Some(n) => n <= flen,
            None => false,
        };
        if !enough {
            proof {
                if old(self).can_provision(names@.len() as int, per as int) {
                    assert(names@.len() * (per as int) <= flen as int);
                    assert(need == Some((names@.len() * per) as usize));
                    assert(false);
                }
            }
            return Vec::new();
        }
        let ghost pre = *self;
        let ghost all_names = names@;
        let count = names.len();
        let mut names = names;
        let mut imps: Vec<Imp> = Vec::new();
        let mut i: usize = 0;
        while i < count
            invariant
                i == imps@.len(),
                i <= count,
                count * per <= pre.frames@.len(),
                count == all_names.len(),
                names@ == all_names.skip(i as int),
                self.quotes == pre.quotes,
                self.frames@ == pre.frames@.take(pre.frames@.len() - i * per),
                forall|k: int|
                    0 <= k < i ==> {
                        &&& (#[trigger] imps@[k]).name == all_names[k]
                        &&& imps@[k].quotes@ == pre.quotes@
                        &&& imps@[k].frames@.len() == per
                        &&& forall|j: int|
                            0 <= j < per ==> (#[trigger] imps@[k].frames@[j])
                                == pre.frames@[pre.frames@.len() - k * per - 1 - j]
                    },
            decreases count - i,
        {
            proof {
                assert((i + 1) * per == i * per + per) by (nonlinear_arith);
                assert(count * per >= (i + 1) * per) by (nonlinear_arith)
                    requires
                        i + 1 <= count,
                        per >= 0,
                ;
            }
            let name = names.remove(0);
            let slice = take_frames(&mut self.frames, per);
            let imp = Imp::new(slice, name, self.quotes.clone());
            imps.push(imp);
            i += 1;
            proof {
                assert(names@ =~= all_names.skip(i as int));
                assert(self.frames@ =~= pre.frames@.take(pre.frames@.len() - i * per));
            }
        }
        imps
    }

    /// Provisions `count` workers with `FRAMES` frames each, under fresh
    /// random names; apart from the names being unknowable in advance, the
    /// outcome keeps `provision`'s promise. Fails fast — no worker, pool
    /// untouched — when the pool cannot supply the whole cohort.
    pub fn imps(&mut self, count: usize) -> (r: Vec<Imp>)
        ensures
            old(self).can_provision(count as int, FRAMES as int) ==> exists|names: Seq<String>|
                names.len() == count && Self::provisioned(
                    *old(self),
                    *final(self),
                    names,
                    FRAMES as int,
                    r@,
                ),
            !old(self).can_provision(count as int, FRAMES as int) ==> r@.len() == 0 && *final(self)
                == *old(self),
    {
        let mut names: Vec<String> = Vec::new();
        let mut i: usize = 0;
        while i < count
            invariant
                names@.len() == i,
                i <= count,
            decreases count - i,
        {
            names.push(fresh_title_name());
            i += 1;
        }
        self.provision(names, FRAMES)
    }

    /// Routes one received message. An action or a log is approved unchanged
    /// for the external consumer; a frame request is answered through the
    /// reply channel it carried — with up to `FRAMES` frames popped from the
    /// pool, and with the empty reply rather than a wait when the pool is
    /// exhausted. Frames a dead requester could not take go back into the
    /// pool.
    pub fn dispatch(&mut self, h: Hijinks) -> (r: Route)
        ensures
            h.is_forwardable() ==> (r matches Route::Forward(f) && f == h
                && *final(self) == *old(self)),
            h is Filch ==> {
                let len = old(self).frames@.len();
                let k = if len < FRAMES { len as int } else { FRAMES as int };
                &&& final(self).quotes == old(self).quotes
                &&& r matches Route::Replied(ok)
                    && (ok ==> final(self).frames@ == old(self).frames@.take(len - k))
                    && (!ok ==> final(self).frames@ == old(self).frames@)
            },
    {
        match h {
            Hijinks::Filch(filch) => {
                let ghost pre_pool = self.frames@;
                let reply = take_frames(&mut self.frames, FRAMES);
                match send_reply(filch.dissolve(), reply) {
                    Ok(_) => Route::Replied(true),
                    Err(returned) => {
                        let mut returned = returned;
                        while returned.len() > 0
                            invariant
                                returned@.len() <= pre_pool.len(),
                                forall|j: int|
                                    0 <= j < returned@.len() ==> (#[trigger] returned@[j])
                                        == pre_pool[pre_pool.len() - 1 - j],
                                self.frames@ == pre_pool.take(pre_pool.len() - returned@.len()),
                                self.quotes == old(self).quotes,
                            decreases returned@.len(),
                        {
                            let f = returned.pop().unwrap();
                            self.frames.push(f);
                            proof {
                                assert(self.frames@ =~= pre_pool.take(
                                    pre_pool.len() - returned@.len(),
                                ));
                            }
                        }
                        proof {
                            assert(self.frames@ =~= pre_pool);
                        }
                        Route::Replied(false)
                    },
                }
            },
            other => Route::Forward(other),
        }
    }
}

} // verus!
