//! The message protocol between workers and the supervisor: actions, quote
//! logs, and frame requests carrying a single-use reply channel.
use crate::frame::Frame;
use vstd::prelude::*;

verus! {

/// An action the external consumer can be asked to perform.
#[derive(Debug, Clone, Copy, PartialEq, Eq, Structural)]
pub enum Act {
    /// Open a new window.
    NewWindow,
    /// Close a window.
    CloseWindow,
    /// Leave the application.
    Exit,
    /// Do nothing at all.
    Be,
}

/// A worker's request that the external consumer perform an action: the
/// action, the frame to perform it with when one is needed, and a title.
#[derive(Debug)]
pub struct Meddle {
    /// The requested action.
    pub act: Act,
    /// The frame a new window takes; `None` for actions that need none.
    pub frame: Option<Frame>,
    /// The window title, carrying the name of the worker that asked.
    pub title: String,
}

impl Meddle {
    /// Builds a request from its parts.
    pub fn new(act: Act, frame: Option<Frame>, title: String) -> (r: Self)
        ensures
            r == (Meddle { act, frame, title }),
    {
        Meddle { act, frame, title }
    }

    /// The requested action.
    pub fn act(&self) -> (r: &Act)
        ensures
            *r == self.act,
    {
        &self.act
    }

    /// The frame the action takes, if any.
    pub fn frame(&self) -> (r: &Option<Frame>)
        ensures
            *r == self.frame,
    {
        &self.frame
    }

    /// The window title.
    pub fn title(&self) -> (r: &String)
        ensures
            *r == self.title,
    {
        &self.title
    }
}

/// The external half of a frame request: a single-use reply channel is
/// declared so that a request can carry its sending side to the supervisor.
#[verifier::external_type_specification]
#[verifier::external_body]
#[verifier::reject_recursive_types(T)]
pub struct ExOneshotSender<T>(tokio::sync::oneshot::Sender<T>);

/// The receiving half of a single-use reply channel; the requester awaits it
/// outside the library.
#[verifier::external_type_specification]
#[verifier::external_body]
#[verifier::reject_recursive_types(T)]
pub struct ExOneshotReceiver<T>(tokio::sync::oneshot::Receiver<T>);

/// The error a reply channel's receiving half yields when the sending half
/// was dropped unused; declared so the receiving half's type is fully known.
#[verifier::external_type_specification]
#[verifier::external_body]
pub struct ExOneshotRecvError(tokio::sync::oneshot::error::RecvError);

/// Relies on tokio::sync::oneshot::channel: creates the two linked halves of
/// a fresh single-use reply channel.
#[verifier::external_body]
pub(crate) fn reply_channel() -> (
    tokio::sync::oneshot::Sender<Vec<Frame>>,
    tokio::sync::oneshot::Receiver<Vec<Frame>>,
) {
    tokio::sync::oneshot::channel()
}

/// Relies on tokio::sync::oneshot::Sender::send: consumes the sending half,
/// so a reply is sent at most once; it hands the frames to the linked
/// receiving half, or returns them unsent when the receiver is already gone.
#[verifier::external_body]
pub(crate) fn send_reply(
    tx: tokio::sync::oneshot::Sender<Vec<Frame>>,
    frames: Vec<Frame>,
) -> (r: Result<(), Vec<Frame>>)
    ensures
        r matches Err(v) ==> v == frames,
{
    tx.send(frames)
}

/// A worker's request for more frames. It carries the sending half of the
/// reply channel the requester awaits, so the reply can reach that worker and
/// no other.
#[derive(Debug)]
pub struct Filch {
    /// The sending half of the requester's reply channel.
    pub tx: tokio::sync::oneshot::Sender<Vec<Frame>>,
}

impl Filch {
    /// Builds a request around the sending half of a fresh reply channel.
    pub fn new(tx: tokio::sync::oneshot::Sender<Vec<Frame>>) -> (r: Self)
        ensures
            r == (Filch { tx }),
    {
        Filch { tx }
    }

    /// Takes the sending half back out, for the responder to reply through.
    pub fn dissolve(self) -> (r: tokio::sync::oneshot::Sender<Vec<Frame>>)
        ensures
            self == (Filch { tx: r }),
    {
        self.tx
    }
}

/// A message from a worker to the supervisor.
#[derive(Debug)]
pub enum Hijinks {
    /// Ask the external consumer to perform an action.
    Meddle(Meddle),
    /// Log a quote for the external consumer to show.
    Vandalize(String),
    /// Ask the supervisor for more frames, with the reply channel to answer
    /// on.
    Filch(Filch),
}

impl Hijinks {
    /// Whether the supervisor forwards this message to the external consumer;
    /// a frame request is answered instead.
    pub open spec fn is_forwardable(self) -> bool {
        !(self is Filch)
    }
}

} // verus!
