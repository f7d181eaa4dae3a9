//! When a line spawner emits particles, and how many.
use vstd::prelude::*;

verus! {

/// How many particles a spawner with `rows` rows emits at frame `frame`,
/// having emitted `count` of at most `max_spawn` so far: one per row on each
/// frame that is a multiple of `period`, while the total stays within
/// `max_spawn`.
pub open spec fn spawn_now(period: nat, rows: nat, max_spawn: nat, count: nat, frame: nat) -> nat
    recommends
        period > 0,
{
    if frame % period != 0 || count >= max_spawn {
        0
    } else if max_spawn - count < rows {
        (max_spawn - count) as nat
    } else {
        rows
    }
}

/// The counting part of a line spawner: every `spawn_period` frames it emits
/// one particle for each of its `rows` rows, up to `max_spawn` in all.
pub struct SpawnSchedule {
    spawn_period: usize,
    rows: usize,
    max_spawn: usize,
    spawn_count: usize,
}

impl SpawnSchedule {
    pub closed spec fn period(&self) -> nat {
        self.spawn_period as nat
    }

    pub closed spec fn row_count(&self) -> nat {
        self.rows as nat
    }

    pub closed spec fn max(&self) -> nat {
        self.max_spawn as nat
    }

    pub closed spec fn count(&self) -> nat {
        self.spawn_count as nat
    }

    pub open spec fn wf(&self) -> bool {
        self.period() > 0 && self.count() <= self.max()
    }

    pub fn new(spawn_period: usize, rows: usize, max_spawn: usize) -> (s: SpawnSchedule)
        requires
            spawn_period > 0,
        ensures
            s.wf(),
            s.period() == spawn_period,
            s.row_count() == rows,
            s.max() == max_spawn,
            s.count() == 0,
    {
        SpawnSchedule { spawn_period, rows, max_spawn, spawn_count: 0 }
    }

    /// How many particles have been emitted since the last reset.
    pub fn spawn_count(&self) -> (c: usize)
        ensures
            c == self.count(),
    {
        self.spawn_count
    }

    /// Starts the count afresh.
    pub fn reset(&mut self)
        requires
            old(self).wf(),
        ensures
            final(self).wf(),
            final(self).count() == 0,
            final(self).period() == old(self).period(),
            final(self).row_count() == old(self).row_count(),
            final(self).max() == old(self).max(),
    {
        self.spawn_count = 0;
    }

    /// The particles emitted at frame `frame_count`, as pairs of the row
    /// they start from and their number in the emission order; the count
    /// moves on by as many.
    pub fn update(&mut self, frame_count: usize) -> (out: Vec<(usize, usize)>)
        requires
            old(self).wf(),
        ensures
            final(self).wf(),
            final(self).period() == old(self).period(),
            final(self).row_count() == old(self).row_count(),
            final(self).max() == old(self).max(),
            out@.len() == spawn_now(old(self).period(), old(self).row_count(), old(self).max(), old(self).count(), frame_count as nat),
            final(self).count() == old(self).count() + out@.len(),
            forall|i: int| 0 <= i < out@.len() ==> (#[trigger] out@[i]).0 == i && out@[i].1 == old(self).count() + i,
    {
        let mut out: Vec<(usize, usize)> = Vec::new();
        if frame_count % self.spawn_period == 0 {
            let start = self.spawn_count;
            let mut i: usize = 0;
            while i < self.rows
                invariant
                    self.wf(),
                    self.spawn_period == old(self).spawn_period,
                    self.rows == old(self).rows,
                    self.max_spawn == old(self).max_spawn,
                    start == old(self).spawn_count,
                    i <= self.rows,
                    out@.len() <= i,
                    self.spawn_count == start + out@.len(),
                    out@.len() == i || self.spawn_count == self.max_spawn,
                    forall|j: int| 0 <= j < out@.len() ==> (#[trigger] out@[j]).0 == j && out@[j].1 == start + j,
                decreases self.rows - i,
            {
                if self.spawn_count < self.max_spawn {
                    out.push((i, self.spawn_count));
                    self.spawn_count += 1;
                }
                i += 1;
            }
        }
        out
    }
}

} // verus!
