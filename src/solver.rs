//! The solver's pool of particles, the pairs that its collision phase
//! visits, and the order of the phases of one update.
use vstd::prelude::*;
use crate::partition::{SpatialHash, append_pairs_from, candidates, layout, pairs_from};

verus! {

/// How the collision phase finds its candidate pairs.
#[derive(Debug, Clone, Copy, PartialEq, Eq, Structural)]
pub enum DetectMode {
    /// Pairs drawn from the spatial hash.
    SpatialPartition,
    /// Every ordered pair of distinct particles.
    Slow,
}

/// How a renderer colours the particles.
#[derive(Debug, Clone, Copy, PartialEq, Eq, Structural)]
pub enum ColorMode {
    Velocity,
    Collide,
    Index,
}

/// One phase of a substep.
#[derive(Debug, Clone, Copy, PartialEq, Eq, Structural)]
pub enum Phase {
    /// Every particle accumulates its acceleration.
    Gravity,
    /// Each boundary, in list order, corrects the particles that cross it.
    Boundaries,
    /// The spatial hash is rebuilt and the overlapping pairs are pushed apart.
    Collisions,
    /// Every particle takes one Verlet step.
    Integrate,
}

/// The phase at position `k` of the schedule of an update: gravity,
/// boundaries, collisions, integration, over and over.
pub open spec fn phase_at(k: int) -> Phase {
    if k % 4 == 0 {
        Phase::Gravity
    } else if k % 4 == 1 {
        Phase::Boundaries
    } else if k % 4 == 2 {
        Phase::Collisions
    } else {
        Phase::Integrate
    }
}

/// The indices `0 .. n`.
pub open spec fn index_range(n: nat) -> Seq<usize> {
    Seq::new(n, |i: int| i as usize)
}

/// The ordered pairs `(i, j)` of distinct indices below `n` with `i < upto`,
/// `i` in the outer order.
pub open spec fn all_pairs(n: nat, upto: int) -> Seq<(usize, usize)>
    decreases upto,
{
    if upto <= 0 {
        seq![]
    } else {
        all_pairs(n, upto - 1) + pairs_from((upto - 1) as usize, index_range(n))
    }
}

/// The items `s[i]` for which `keep[i]` holds, in order.
pub open spec fn kept<P>(s: Seq<P>, keep: Seq<bool>) -> Seq<P>
    decreases s.len(),
{
    if s.len() == 0 {
        seq![]
    } else {
        let rest = kept(s.drop_last(), keep);
        if keep[s.len() - 1] {
            rest.push(s.last())
        } else {
            rest
        }
    }
}

/// What the pool operations read and change: the particles and the lists
/// of the spatial hash.
pub ghost struct PoolState<P> {
    pub balls: Seq<P>,
    pub cells: Seq<Seq<Seq<usize>>>,
}

/// The grid `g` with every list emptied.
pub open spec fn emptied(g: Seq<Seq<Seq<usize>>>) -> Seq<Seq<Seq<usize>>> {
    Seq::new(g.len(), |r: int| Seq::new(g[r].len(), |c: int| Seq::<usize>::empty()))
}

/// The state after a restart: no particles, every list of the hash empty.
pub open spec fn restarted<P>(s: PoolState<P>) -> PoolState<P> {
    PoolState { balls: Seq::empty(), cells: emptied(s.cells) }
}

/// The state after `p` is inserted.
pub open spec fn with_particle<P>(s: PoolState<P>, p: P) -> PoolState<P> {
    PoolState { balls: s.balls.push(p), cells: s.cells }
}

/// The state after the items of `ps` are inserted one by one.
pub open spec fn with_particles<P>(s: PoolState<P>, ps: Seq<P>) -> PoolState<P>
    decreases ps.len(),
{
    if ps.len() == 0 {
        s
    } else {
        with_particle(with_particles(s, ps.drop_last()), ps.last())
    }
}

/// A restart leaves an empty pool, a second restart changes nothing, and
/// inserting `m` particles after a restart gives a pool of exactly those `m`
/// particles, in order.
pub proof fn lemma_restart_idempotent<P>(s: PoolState<P>, ps: Seq<P>)
    ensures
        restarted(s).balls.len() == 0,
        restarted(restarted(s)) == restarted(s),
        restarted(restarted(s)).balls.len() == 0,
        with_particles(restarted(s), ps).balls == ps,
        with_particles(restarted(s), ps).balls.len() == ps.len(),
    decreases ps.len(),
{
    assert(emptied(emptied(s.cells)) =~~= emptied(s.cells));
    assert(restarted(restarted(s)) == restarted(s));
    if ps.len() == 0 {
        assert(restarted(s).balls =~= ps);
    } else {
        lemma_restart_idempotent(s, ps.drop_last());
        assert(ps.drop_last().push(ps.last()) =~= ps);
    }
}

/// The particle pool of a 2D Verlet solver, with its boundaries, its spatial
/// hash and the number of substeps of an update.
pub struct Solver<P, B> {
    pub balls: Vec<P>,
    pub boundaries: Vec<B>,
    pub substeps: usize,
    pub hash: SpatialHash,
    pub detect_mode: DetectMode,
}

impl<P, B> Solver<P, B> {
    pub open spec fn wf(&self) -> bool {
        self.hash.wf()
    }

    pub open spec fn state(&self) -> PoolState<P> {
        PoolState { balls: self.balls@, cells: self.hash.cells() }
    }

    /// A solver with no particles.
    pub fn new(hash: SpatialHash, boundaries: Vec<B>, substeps: usize, detect_mode: DetectMode) -> (s: Self)
        ensures
            s.balls@.len() == 0,
            s.boundaries@ == boundaries@,
            s.substeps == substeps,
            s.hash == hash,
            s.detect_mode == detect_mode,
    {
        Solver { balls: Vec::new(), boundaries, substeps, hash, detect_mode }
    }

    /// Appends `p` to the pool.
    pub fn insert_particle(&mut self, p: P)
        ensures
            final(self).state() == with_particle(old(self).state(), p),
            final(self).boundaries@ == old(self).boundaries@,
            final(self).substeps == old(self).substeps,
            final(self).hash == old(self).hash,
            final(self).detect_mode == old(self).detect_mode,
    {
        self.balls.push(p);
    }

    /// Empties the spatial hash and the pool.
    pub fn restart(&mut self)
        requires
            old(self).wf(),
        ensures
            final(self).wf(),
            final(self).state() == restarted(old(self).state()),
            final(self).hash.spec_rows() == old(self).hash.spec_rows(),
            final(self).hash.spec_cols() == old(self).hash.spec_cols(),
            final(self).boundaries@ == old(self).boundaries@,
            final(self).substeps == old(self).substeps,
            final(self).detect_mode == old(self).detect_mode,
    {
        let ghost before = self.hash.cells();
        self.hash.clear();
        self.balls.clear();
        assert(self.hash.cells() =~~= emptied(before));
        assert(self.state() =~~= restarted(old(self).state()));
    }

    /// Keeps the particles `i` for which `keep[i]` holds, in order, and drops
    /// the others.
    pub fn retain_marked(&mut self, keep: &Vec<bool>)
        requires
            keep@.len() == old(self).balls@.len(),
        ensures
            final(self).balls@ == kept(old(self).balls@, keep@),
            final(self).boundaries@ == old(self).boundaries@,
            final(self).substeps == old(self).substeps,
            final(self).hash == old(self).hash,
            final(self).detect_mode == old(self).detect_mode,
    {
        let n = self.balls.len();
        let ghost orig = self.balls@;
        let mut rev: Vec<P> = Vec::new();
        while self.balls.len() > 0
            invariant
                n == orig.len(),
                self.balls@ == orig.take(self.balls@.len() as int),
                rev@.len() + self.balls@.len() == n,
                forall|j: int| 0 <= j < rev@.len() ==> rev@[j] == orig[n - 1 - j],
                self.boundaries@ == old(self).boundaries@,
                self.substeps == old(self).substeps,
                self.hash == old(self).hash,
                self.detect_mode == old(self).detect_mode,
            decreases self.balls@.len(),
        {
            let x = self.balls.pop().unwrap();
            rev.push(x);
            assert(self.balls@ =~= orig.take(self.balls@.len() as int));
        }
        let mut i: usize = 0;
        assert(orig.take(0) =~= seq![]);
        while i < n
            invariant
                n == orig.len(),
                keep@.len() == n,
                i <= n,
                rev@.len() == n - i,
                forall|j: int| 0 <= j < rev@.len() ==> rev@[j] == orig[n - 1 - j],
                self.balls@ == kept(orig.take(i as int), keep@),
                self.boundaries@ == old(self).boundaries@,
                self.substeps == old(self).substeps,
                self.hash == old(self).hash,
                self.detect_mode == old(self).detect_mode,
            decreases n - i,
        {
            let x = rev.pop().unwrap();
            assert(x == orig[i as int]);
            assert(orig.take(i + 1).drop_last() =~= orig.take(i as int));
            if keep[i] {
                self.balls.push(x);
            }
            i += 1;
        }
        assert(orig.take(n as int) =~= orig);
    }

    /// Files each particle `i` in the spatial hash at the cell `coords[i] =
    /// (row, col)` (those out of the grid are left out), and returns the
    /// candidate pairs of the hash.
    pub fn solve_grid_collisions(&mut self, coords: &Vec<(i64, i64)>) -> (out: Vec<(usize, usize)>)
        requires
            old(self).wf(),
            coords@.len() == old(self).balls@.len(),
        ensures
            final(self).wf(),
            final(self).hash.spec_rows() == old(self).hash.spec_rows(),
            final(self).hash.spec_cols() == old(self).hash.spec_cols(),
            final(self).hash.cells() == layout(coords@, old(self).hash.spec_rows(), old(self).hash.spec_cols()),
            out@ == candidates(final(self).hash.cells(), old(self).hash.spec_rows() as int, old(self).hash.spec_cols() as int),
            final(self).balls@ == old(self).balls@,
            final(self).boundaries@ == old(self).boundaries@,
            final(self).substeps == old(self).substeps,
            final(self).detect_mode == old(self).detect_mode,
    {
        self.hash.rebuild(coords);
        self.hash.candidate_pairs()
    }

    /// Every ordered pair `(i, j)` of distinct particles, `i` in the outer
    /// order.
    pub fn solve_collisions(&self) -> (out: Vec<(usize, usize)>)
        ensures
            out@ == all_pairs(self.balls@.len() as nat, self.balls@.len() as int),
    {
        let n = self.balls.len();
        let mut range: Vec<usize> = Vec::new();
        let mut k: usize = 0;
        while k < n
            invariant
                k <= n,
                range@ == index_range(k as nat),
            decreases n - k,
        {
            range.push(k);
            assert(range@ =~= index_range((k + 1) as nat));
            k += 1;
        }
        let mut out: Vec<(usize, usize)> = Vec::new();
        let mut i: usize = 0;
        assert(out@ =~= all_pairs(n as nat, 0));
        while i < n
            invariant
                n == self.balls@.len(),
                i <= n,
                range@ == index_range(n as nat),
                out@ == all_pairs(n as nat, i as int),
            decreases n - i,
        {
            append_pairs_from(&mut out, i, &range);
            i += 1;
        }
        out
    }

    /// The candidate pairs of the collision phase under the solver's detect
    /// mode; in `SpatialPartition` mode the hash is first rebuilt from
    /// `coords`, in `Slow` mode it is left as it was.
    pub fn collision_pairs(&mut self, coords: &Vec<(i64, i64)>) -> (out: Vec<(usize, usize)>)
        requires
            old(self).wf(),
            coords@.len() == old(self).balls@.len(),
        ensures
            final(self).wf(),
            final(self).balls@ == old(self).balls@,
            final(self).boundaries@ == old(self).boundaries@,
            final(self).substeps == old(self).substeps,
            final(self).detect_mode == old(self).detect_mode,
            final(self).hash.spec_rows() == old(self).hash.spec_rows(),
            final(self).hash.spec_cols() == old(self).hash.spec_cols(),
            old(self).detect_mode == DetectMode::SpatialPartition ==> {
                &&& final(self).hash.cells() == layout(coords@, old(self).hash.spec_rows(), old(self).hash.spec_cols())
                &&& out@ == candidates(final(self).hash.cells(), old(self).hash.spec_rows() as int, old(self).hash.spec_cols() as int)
            },
            old(self).detect_mode == DetectMode::Slow ==> {
                &&& final(self).hash == old(self).hash
                &&& out@ == all_pairs(old(self).balls@.len() as nat, old(self).balls@.len() as int)
            },
    {
        match self.detect_mode {
            DetectMode::SpatialPartition => self.solve_grid_collisions(coords),
            DetectMode::Slow => self.solve_collisions(),
        }
    }

    /// The phases of one update, in order: `substeps` rounds of gravity,
    /// boundaries, collisions and integration.
    pub fn schedule(&self) -> (out: Vec<Phase>)
        requires
            self.substeps * 4 <= usize::MAX,
        ensures
            out@.len() == self.substeps * 4,
            forall|k: int| 0 <= k < out@.len() ==> out@[k] == phase_at(k),
    {
        let mut out: Vec<Phase> = Vec::new();
        let mut s: usize = 0;
        while s < self.substeps
            invariant
                s <= self.substeps,
                self.substeps * 4 <= usize::MAX,
                out@.len() == s * 4,
                forall|k: int| 0 <= k < out@.len() ==> out@[k] == phase_at(k),
            decreases self.substeps - s,
        {
            out.push(Phase::Gravity);
            out.push(Phase::Boundaries);
            out.push(Phase::Collisions);
            out.push(Phase::Integrate);
            proof {
                let b = s * 4;
                assert(b % 4 == 0) by (nonlinear_arith)
                    requires b == s * 4;
                assert((b + 1) % 4 == 1 && (b + 2) % 4 == 2 && (b + 3) % 4 == 3);
            }
            s += 1;
        }
        out
    }
}

} // verus!
