//! Frames: placement descriptors for new windows, and the pool operations on
//! them.
use crate::chance::draw_in;
use vstd::prelude::*;

verus! {

/// Minimum width and height of a window, and the minimum padding kept between
/// a window and the edge of its screen.
pub const MIN_SPAN: u32 = 50;

/// A placement descriptor for a new window: a target screen handle, an anchor
/// position and a size. Produced from the environment's screen data, handed
/// out of the supervisor's pool, and consumed when a window is opened.
#[derive(Debug, Clone, Copy, PartialEq, Eq, Structural)]
pub struct Frame {
    /// Opaque handle of the target screen.
    pub monitor: u64,
    /// Horizontal anchor of the window on the screen.
    pub x: u32,
    /// Vertical anchor of the window on the screen.
    pub y: u32,
    /// Width of the window.
    pub width: u32,
    /// Height of the window.
    pub height: u32,
}

impl Frame {
    /// The window described by this frame lies wholly on a screen of the given
    /// size, with `MIN_SPAN` padding on the left and top and a `MIN_SPAN`
    /// margin kept free on the right and bottom sides of the size draw.
    pub open spec fn fits(self, monitor_width: u32, monitor_height: u32) -> bool {
        &&& MIN_SPAN <= self.width < monitor_width - MIN_SPAN
        &&& MIN_SPAN <= self.height < monitor_height - MIN_SPAN
        &&& MIN_SPAN <= self.x && self.x + self.width < monitor_width
        &&& MIN_SPAN <= self.y && self.y + self.height < monitor_height
    }

    /// Builds a frame from its parts.
    pub fn new(monitor: u64, x: u32, y: u32, width: u32, height: u32) -> (r: Self)
        ensures
            r == (Frame { monitor, x, y, width, height }),
    {
        Frame { monitor, x, y, width, height }
    }

    /// Picks a window size and position at random within a screen of the given
    /// size, keeping `MIN_SPAN` padding; the screen must leave room for that
    /// padding on both axes.
    pub fn from_monitor(monitor: u64, monitor_width: u32, monitor_height: u32) -> (r: Frame)
        requires
            monitor_width > 2 * MIN_SPAN,
            monitor_height > 2 * MIN_SPAN,
        ensures
            r.monitor == monitor,
            r.fits(monitor_width, monitor_height),
    {
        let width = draw_in(MIN_SPAN, monitor_width - MIN_SPAN);
        let height = draw_in(MIN_SPAN, monitor_height - MIN_SPAN);
        let clip_x = monitor_width - width;
        let clip_y = monitor_height - height;
        let x = draw_in(MIN_SPAN, clip_x);
        let y = draw_in(MIN_SPAN, clip_y);
        Frame { monitor, x, y, width, height }
    }
}

/// Removes up to `want` frames from the end of `pool` and returns them, newest
/// first. When the pool holds fewer than `want`, everything it holds is
/// returned; an empty pool yields an empty reply rather than blocking.
pub fn take_frames(pool: &mut Vec<Frame>, want: usize) -> (r: Vec<Frame>)
    ensures
        r@.len() == if want <= old(pool)@.len() {
            want as int
        } else {
            old(pool)@.len() as int
        },
        final(pool)@ == old(pool)@.take(old(pool)@.len() - r@.len()),
        forall|j: int| 0 <= j < r@.len() ==> r@[j] == old(pool)@[old(pool)@.len() - 1 - j],
{
    let ghost init = pool@;
    let mut r: Vec<Frame> = Vec::new();
    while r.len() < want && pool.len() > 0
        invariant
            r@.len() <= want,
            r@.len() <= init.len(),
            pool@ == init.take(init.len() - r@.len()),
            forall|j: int| 0 <= j < r@.len() ==> r@[j] == init[init.len() - 1 - j],
        decreases want - r@.len(),
    {
        let f = pool.pop().unwrap();
        assert(f == init[init.len() - r@.len() - 1]);
        r.push(f);
        proof {
            assert(pool@ =~= init.take(init.len() - r@.len()));
        }
    }
    r
}

} // verus!
