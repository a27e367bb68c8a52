//! Terminal-resize detection between render iterations.
//!
//! A watcher is asked once per loop iteration and must answer edge-triggered:
//! true at most once per actual change. The poll-driven watcher compares the
//! dimensions the caller just queried against its memo; a signal-driven
//! watcher can implement the same trait on the unverified side.

use vstd::prelude::*;

verus! {

/// Edge-triggered resize detection: `resized` is handed the just-queried
/// terminal dimensions and answers whether they changed since last asked.
pub trait ResizeWatcher {
    fn resized(&mut self, width: u16, height: u16) -> bool;
}

/// The poll-driven watcher: remembers the last observed dimensions.
pub struct PollWatcher {
    pub width: u16,
    pub height: u16,
}

impl PollWatcher {
    /// A watcher whose memo starts at the given dimensions, so that only a
    /// later change reports true.
    pub fn new(width: u16, height: u16) -> (w: Self)
        ensures
            w.width == width,
            w.height == height,
    {
        PollWatcher { width, height }
    }
}

impl ResizeWatcher for PollWatcher {
    /// True exactly when the dimensions differ from the memo; the memo is
    /// updated either way, so one change reports true once.
    fn resized(&mut self, width: u16, height: u16) -> (r: bool)
        ensures
            r == (width != old(self).width || height != old(self).height),
            final(self).width == width,
            final(self).height == height,
    {
        let changed = width != self.width || height != self.height;
        self.width = width;
        self.height = height;
        changed
    }
}

/// The watcher used when nothing platform-specific is available: polling,
/// seeded with the dimensions observed at startup.
pub fn default_watcher(width: u16, height: u16) -> (w: PollWatcher)
    ensures
        w.width == width,
        w.height == height,
{
    PollWatcher::new(width, height)
}

} // verus!
