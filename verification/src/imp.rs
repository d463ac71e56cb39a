//! Workers: autonomous units that own a private slice of frames, choose
//! actions, and emit messages toward the supervisor.
//!
//! A worker never touches the external consumer and never waits inside the
//! library: each of its methods decides one step and hands back the message to
//! send — and, for a frame request, the receiving half of the reply channel to
//! await. The caller performs the send, the await and the pause.
use crate::chance::coin;
use crate::chance::wide_draw;
use crate::frame::Frame;
use crate::hijinks::reply_channel;
use crate::hijinks::Act;
use crate::hijinks::Filch;
use crate::hijinks::Hijinks;
use crate::hijinks::Meddle;
use crate::quote::Quotes;
use vstd::prelude::*;
use vstd::string::StringExecFns;

verus! {

/// What a worker asks of its caller after one decision.
pub enum Urge {
    /// Send this message to the supervisor, then go on.
    Send(Hijinks),
    /// Send this frame request to the supervisor, then await fresh frames on
    /// the receiving half and hand them to `accept_reply`.
    Plead(Hijinks, tokio::sync::oneshot::Receiver<Vec<Frame>>),
}

/// An autonomous worker: a private slice of frames, a display name (not
/// required to be unique), and its own clone of the quote catalog.
pub struct Imp {
    /// Frames this worker alone may spend on new windows.
    pub frames: Vec<Frame>,
    /// The worker's display name.
    pub name: String,
    /// The worker's clone of the quote catalog.
    pub quotes: Quotes,
}

impl Imp {
    /// The title a worker gives the windows it opens.
    pub open spec fn window_title(self) -> Seq<char> {
        self.name@ + "'s Window"@
    }

    /// The text a worker logs for the quote at position `i` of its catalog.
    pub open spec fn vandal_text(self, i: int) -> Seq<char> {
        self.name@ + " says: "@ + self.quotes@[i].graffiti_rep()
    }

    /// The worker's name and catalog are as they were.
    pub open spec fn keeps_identity(pre: Imp, post: Imp) -> bool {
        post.name == pre.name && post.quotes == pre.quotes
    }

    /// What `instigate` does: with a frame in hand, the newest frame is spent
    /// on a new-window request titled after the worker; out of frames, the
    /// worker instead pleads for more, changing nothing.
    pub open spec fn instigated(pre: Imp, post: Imp, u: Urge) -> bool {
        if pre.frames@.len() > 0 {
            &&& post.frames@ == pre.frames@.drop_last()
            &&& Self::keeps_identity(pre, post)
            &&& u matches Urge::Send(h) && h matches Hijinks::Meddle(m)
                && m.act == Act::NewWindow && m.frame == Some(pre.frames@.last())
                && m.title@ == pre.window_title()
        } else {
            &&& post.frames@ == pre.frames@
            &&& Self::keeps_identity(pre, post)
            &&& u matches Urge::Plead(h, _) && h is Filch
        }
    }

    /// What `spoil` does: a close-window request titled with the worker's
    /// name, spending no frame.
    pub open spec fn spoiled(pre: Imp, u: Urge) -> bool {
        u matches Urge::Send(h) && h matches Hijinks::Meddle(m) && m.act == Act::CloseWindow
            && m.frame is None && m.title@ == pre.name@
    }

    /// What `vandalize` does: a log message quoting some entry of the
    /// worker's catalog.
    pub open spec fn vandalized(pre: Imp, u: Urge) -> bool {
        u matches Urge::Send(h) && h matches Hijinks::Vandalize(t) && exists|i: int|
            0 <= i < pre.quotes@.len() && t@ == pre.vandal_text(i)
    }

    /// Builds a worker from its parts.
    pub fn new(frames: Vec<Frame>, name: String, quotes: Quotes) -> (r: Self)
        ensures
            r == (Imp { frames, name, quotes }),
    {
        Imp { frames, name, quotes }
    }

    /// The worker's private frames.
    pub fn frames(&self) -> (r: &Vec<Frame>)
        ensures
            *r == self.frames,
    {
        &self.frames
    }

    /// The worker's display name.
    pub fn name(&self) -> (r: &String)
        ensures
            *r == self.name,
    {
        &self.name
    }

    /// The worker's catalog clone.
    pub fn quotes(&self) -> (r: &Quotes)
        ensures
            *r == self.quotes,
    {
        &self.quotes
    }

    /// Decides a new-window action: spends the newest private frame on a
    /// `Meddle` when one is present, and otherwise pleads for more frames.
    pub fn instigate(&mut self) -> (u: Urge)
        ensures
            Self::instigated(*old(self), *final(self), u),
    {
        let ghost pre = *self;
        match self.frames.pop() {
            Some(frame) => {
                proof {
                    assert(self.frames@ =~= pre.frames@.drop_last());
                }
                let title = self.name.clone().concat("'s Window");
                let meddle = Meddle::new(Act::NewWindow, Some(frame), title);
                Urge::Send(Hijinks::Meddle(meddle))
            },
            None => self.filch(),
        }
    }

    /// Builds a frame request around a fresh single-use reply channel: the
    /// request carries the sending half, the worker awaits the receiving
    /// half, so the reply can reach this worker and no other.
    pub fn filch(&self) -> (u: Urge)
        ensures
            u matches Urge::Plead(h, _) && h is Filch,
    {
        let (tx, rx) = reply_channel();
        Urge::Plead(Hijinks::Filch(Filch::new(tx)), rx)
    }

    /// Takes in the frames a plea was answered with; they replace the private
    /// slice.
    pub fn accept_reply(&mut self, frames: Vec<Frame>)
        ensures
            final(self).frames == frames,
            Self::keeps_identity(*old(self), *final(self)),
    {
        self.frames = frames;
    }

    /// Decides a close-window action; no frame is needed.
    pub fn spoil(&self) -> (u: Urge)
        ensures
            Self::spoiled(*self, u),
    {
        let meddle = Meddle::new(Act::CloseWindow, None, self.name.clone());
        Urge::Send(Hijinks::Meddle(meddle))
    }

    /// Decides between opening a window and closing one, given the toss of a
    /// coin: heads instigates, tails spoils.
    pub fn meddle_with(&mut self, heads: bool) -> (u: Urge)
        ensures
            heads ==> Self::instigated(*old(self), *final(self), u),
            !heads ==> *final(self) == *old(self) && Self::spoiled(*old(self), u),
    {
        if heads {
            self.instigate()
        } else {
            self.spoil()
        }
    }

    /// Decides between opening a window and closing one, by a random coin
    /// toss; each outcome keeps `meddle_with`'s promise for that toss.
    pub fn meddle(&mut self) -> (u: Urge)
        ensures
            ({
                ||| Self::instigated(*old(self), *final(self), u)
                ||| (*final(self) == *old(self) && Self::spoiled(*old(self), u))
            }),
    {
        let heads = coin();
        self.meddle_with(heads)
    }

    /// The quote position a wide random draw selects: the draw reduced modulo
    /// the catalog size. When the catalog size does not divide the draw range
    /// evenly, the low positions are favored by one part in the range; the
    /// draw range is wide, so the bias is slight.
    pub fn vandal_index(&self, draw: u16) -> (i: usize)
        requires
            self.quotes@.len() > 0,
        ensures
            i == draw as int % self.quotes@.len() as int,
            i < self.quotes@.len(),
    {
        (draw as usize) % self.quotes.len()
    }

    /// The text the worker logs for the quote at position `i`: its name, the
    /// word `says`, and the quote's display form.
    pub fn vandal_quip(&self, i: usize) -> (t: String)
        requires
            i < self.quotes@.len(),
        ensures
            t@ == self.vandal_text(i as int),
    {
        let q = self.quotes.at(i);
        let g = q.graffiti();
        let mut t = self.name.clone();
        t.append(" says: ");
        t.append(g.as_str());
        t
    }

    /// Picks a quote by reducing one wide random draw modulo the catalog
    /// size, and logs it. The catalog must not be empty, as no draw could
    /// select from an empty one.
    pub fn vandalize(&self) -> (u: Urge)
        requires
            self.quotes@.len() > 0,
        ensures
            Self::vandalized(*self, u),
    {
        let trial = wide_draw();
        let idx = self.vandal_index(trial);
        let text = self.vandal_quip(idx);
        Urge::Send(Hijinks::Vandalize(text))
    }

    /// Decides one turn of the worker's loop: a coin toss picks between the
    /// meddling path and the vandalizing path, and the turn's outcome keeps
    /// the picked path's promise.
    pub fn hijinks(&mut self) -> (u: Urge)
        requires
            old(self).quotes@.len() > 0,
        ensures
            ({
                ||| Self::instigated(*old(self), *final(self), u)
                ||| (*final(self) == *old(self) && Self::spoiled(*old(self), u))
                ||| (*final(self) == *old(self) && Self::vandalized(*old(self), u))
            }),
    {
        if coin() {
            self.meddle()
        } else {
            self.vandalize()
        }
    }
}

} // verus!
