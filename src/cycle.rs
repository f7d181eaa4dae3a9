//! The frame counters of a run that restarts every so many frames.
use vstd::prelude::*;

verus! {

/// The number of completed runs before the spawn clock stops advancing.
pub const SYNC_RUNS: usize = 2;

/// Counts the frames of a run. The spawn clock advances once per frame while
/// fewer than `SYNC_RUNS` runs have completed; at frame `period` the run is
/// reset and the spawn clock starts over; each frame number that is a
/// positive multiple of `period` completes a run.
pub struct RunClock {
    period: usize,
    sync_frames: usize,
    sim_runs: usize,
}

impl RunClock {
    pub closed spec fn spec_period(&self) -> nat {
        self.period as nat
    }

    pub closed spec fn spec_sync_frames(&self) -> nat {
        self.sync_frames as nat
    }

    pub closed spec fn spec_sim_runs(&self) -> nat {
        self.sim_runs as nat
    }

    pub open spec fn wf(&self) -> bool {
        self.spec_period() > 0
    }

    /// A clock for runs of `period` frames, with both counters at zero.
    pub fn new(period: usize) -> (c: RunClock)
        requires
            period > 0,
        ensures
            c.wf(),
            c.spec_period() == period,
            c.spec_sync_frames() == 0,
            c.spec_sim_runs() == 0,
    {
        RunClock { period, sync_frames: 0, sim_runs: 0 }
    }

    pub fn sync_frames(&self) -> (f: usize)
        ensures
            f == self.spec_sync_frames(),
    {
        self.sync_frames
    }

    pub fn sim_runs(&self) -> (r: usize)
        ensures
            r == self.spec_sim_runs(),
    {
        self.sim_runs
    }

    /// The start of a frame: the spawn clock advances (saturating) while
    /// fewer than `SYNC_RUNS` runs have completed.
    pub fn begin_frame(&mut self)
        requires
            old(self).wf(),
        ensures
            final(self).wf(),
            final(self).spec_period() == old(self).spec_period(),
            final(self).spec_sim_runs() == old(self).spec_sim_runs(),
            final(self).spec_sync_frames() == if old(self).spec_sim_runs() < SYNC_RUNS {
                if old(self).spec_sync_frames() < usize::MAX {
                    old(self).spec_sync_frames() + 1
                } else {
                    old(self).spec_sync_frames()
                }
            } else {
                old(self).spec_sync_frames()
            },
    {
        if self.sim_runs < SYNC_RUNS {
            self.sync_frames = self.sync_frames.saturating_add(1);
        }
    }

    /// The end of frame number `frame`: whether the run resets now (at frame
    /// `period`, which sets the spawn clock back to zero); a positive
    /// multiple of `period` also completes a run (the run count saturates).
    pub fn end_frame(&mut self, frame: usize) -> (reset: bool)
        requires
            old(self).wf(),
        ensures
            final(self).wf(),
            reset == (frame == old(self).spec_period()),
            final(self).spec_period() == old(self).spec_period(),
            final(self).spec_sync_frames() == if reset { 0 } else { old(self).spec_sync_frames() },
            final(self).spec_sim_runs() == if frame > 0 && (frame as nat) % old(self).spec_period() == 0
                && old(self).spec_sim_runs() < usize::MAX {
                old(self).spec_sim_runs() + 1
            } else {
                old(self).spec_sim_runs()
            },
    {
        let reset = frame == self.period && frame > 0;
        if reset {
            self.sync_frames = 0;
        }
        if frame > 0 && frame % self.period == 0 {
            self.sim_runs = self.sim_runs.saturating_add(1);
        }
        reset
    }
}

} // verus!
