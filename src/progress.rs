use vstd::prelude::*;

verus! {

/// The record a transfer publishes for an observer: the target total (0 when
/// unknown), the bytes processed so far, the elapsed seconds, and whether the
/// phase completed.
#[derive(Clone, Copy, Debug, PartialEq, Eq, Structural)]
pub struct Progress {
    pub size: u64,
    pub done: u64,
    pub secs: u64,
    pub finished: bool,
}

/// A fresh record for a phase whose target total is `size`.
pub open spec fn fresh(size: u64) -> Progress {
    Progress { size, done: 0, secs: 0, finished: false }
}

/// The target total of a verification pass that follows a copy: the copy's
/// own total when it was known, otherwise what the copy moved.
pub open spec fn verify_size(copied: Progress) -> u64 {
    if copied.size > 0 {
        copied.size
    } else {
        copied.done
    }
}

impl Default for Progress {
    fn default() -> (r: Progress)
        ensures
            r == fresh(0),
    {
        Progress { size: 0, done: 0, secs: 0, finished: false }
    }
}

impl Progress {
    /// A fresh record for a phase of `size` bytes (0: unknown).
    pub fn new(size: u64) -> (r: Progress)
        ensures
            r == fresh(size),
    {
        Progress { size, done: 0, secs: 0, finished: false }
    }

    /// The record a verification pass starts from after `copied`: the same
    /// size baseline, and the copy's seconds, to which the pass adds its own.
    pub fn for_verify(copied: &Progress) -> (r: Progress)
        ensures
            r == (Progress { size: verify_size(*copied), done: 0, secs: copied.secs, finished: false }),
    {
        let size = if copied.size > 0 {
            copied.size
        } else {
            copied.done
        };
        Progress { size, done: 0, secs: copied.secs, finished: false }
    }

    /// Bytes per second over the phase; the whole count when it took under
    /// a second.
    pub fn average_speed(&self) -> (r: u64)
        ensures
            self.secs > 0 ==> r == self.done / self.secs,
            self.secs == 0 ==> r == self.done,
    {
        if self.secs > 0 {
            self.done / self.secs
        } else {
            self.done
        }
    }
}

} // verus!
