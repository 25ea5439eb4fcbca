//! The simulation engine: time-evolution of a board under the Game of Life
//! rule, with a bounded undo history.
//!
//! The engine owns the live board (`current`) and a FIFO ring of up to
//! `capacity` past snapshots, oldest first. Stepping forward records the
//! pre-step board (evicting the oldest snapshot when the ring is full) and
//! replaces the live board with the next generation. Stepping backward pops
//! the newest snapshot and makes it the live board again; with no history it
//! is a silent no-op. Reset discards all history and draws a fresh random
//! board.

use std::collections::VecDeque;

use vstd::prelude::*;

use crate::error::LifeError;
use crate::grid::{next_gen, Grid};
use crate::rng::{random_cells, rng_iter, Rng};

verus! {

/// The history after recording `c`: appended as newest, the oldest snapshot
/// evicted first when the ring already holds `cap` entries.
pub open spec fn hist_push(h: Seq<Seq<bool>>, c: Seq<bool>, cap: int) -> Seq<Seq<bool>> {
    if h.len() < cap {
        h.push(c)
    } else {
        h.push(c).drop_first()
    }
}

/// One forward step of the abstract engine state `(history, current)`.
pub open spec fn model_forward(h: Seq<Seq<bool>>, c: Seq<bool>, cap: int, size: int) -> (
    Seq<Seq<bool>>,
    Seq<bool>,
) {
    (hist_push(h, c, cap), next_gen(c, size))
}

/// One backward step of the abstract engine state `(history, current)`:
/// the newest snapshot is popped and restored, or nothing happens when the
/// history is empty.
pub open spec fn model_backward(h: Seq<Seq<bool>>, c: Seq<bool>) -> (Seq<Seq<bool>>, Seq<bool>) {
    if h.len() == 0 {
        (h, c)
    } else {
        (h.drop_last(), h.last())
    }
}

/// A Game of Life board together with a bounded undo history.
#[derive(Debug)]
pub struct Engine {
    capacity: usize,
    size: usize,
    history: VecDeque<Grid>,
    current: Grid,
    rng: Rng,
}

impl Engine {
    /// The maximum number of past snapshots retained.
    pub closed spec fn spec_capacity(self) -> int {
        self.capacity as int
    }

    /// The fixed side length of every board this engine owns.
    pub closed spec fn spec_size(self) -> int {
        self.size as int
    }

    /// The past snapshots, oldest first.
    pub closed spec fn hist(self) -> Seq<Seq<bool>> {
        Seq::new(self.history@.len(), |i: int| self.history@[i]@)
    }

    /// The live board.
    pub closed spec fn cur(self) -> Seq<bool> {
        self.current@
    }

    /// The state of the owned random generator.
    pub closed spec fn rng_state(self) -> u64 {
        self.rng.spec_state()
    }

    /// Well-formedness: the live board and every snapshot are well-formed
    /// boards of the engine's side length, and the history never exceeds the
    /// capacity.
    pub closed spec fn wf(self) -> bool {
        &&& self.current.wf()
        &&& self.current.spec_size() == self.spec_size()
        &&& self.history@.len() <= self.capacity
        &&& forall|i: int|
            0 <= i < self.history@.len() ==> (#[trigger] self.history@[i]).wf()
                && self.history@[i].spec_size() == self.spec_size()
    }

    /// What well-formedness means for the abstract state: a positive side
    /// length, a history within capacity, and every board of the right area.
    pub proof fn lemma_wf_model(self)
        requires
            self.wf(),
        ensures
            self.spec_size() > 0,
            self.spec_size() * self.spec_size() <= usize::MAX,
            self.hist().len() <= self.spec_capacity(),
            self.cur().len() == self.spec_size() * self.spec_size(),
            forall|i: int|
                0 <= i < self.hist().len() ==> (#[trigger] self.hist()[i]).len() == self.spec_size()
                    * self.spec_size(),
    {
    }

    /// Builds an engine with an undo depth of `capacity` and a randomized
    /// starting board of side `size`, drawn from a generator seeded with
    /// `seed`. The history starts empty.
    ///
    /// A zero side length is an invalid configuration.
    pub fn new(capacity: usize, size: usize, seed: u64) -> (r: Result<Engine, LifeError>)
        requires
            size * size <= usize::MAX,
        ensures
            r is Ok <==> size > 0,
            r matches Ok(e) ==> e.wf() && e.spec_capacity() == capacity && e.spec_size() == size
                && e.hist() == Seq::<Seq<bool>>::empty() && e.cur() == random_cells(
                seed,
                (size * size) as nat,
            ) && e.rng_state() == rng_iter(seed, (size * size) as nat),
            r matches Err(err) ==> err == LifeError::InvalidConfiguration,
    {
        if size == 0 {
            return Err(LifeError::InvalidConfiguration);
        }
        let mut rng = Rng::new(seed);
        let current = Grid::randomized(size, &mut rng);
        let e = Engine { capacity, size, history: VecDeque::new(), current, rng };
        proof {
            assert(e.hist() =~= Seq::<Seq<bool>>::empty());
        }
        Ok(e)
    }

    /// Builds an engine whose starting board is `grid`, with an undo depth of
    /// `capacity` and an empty history; later resets draw from a generator
    /// seeded with `seed`.
    pub fn from_grid(capacity: usize, grid: Grid, seed: u64) -> (e: Engine)
        requires
            grid.wf(),
        ensures
            e.wf(),
            e.spec_capacity() == capacity,
            e.spec_size() == grid.spec_size(),
            e.hist() == Seq::<Seq<bool>>::empty(),
            e.cur() == grid@,
            e.rng_state() == seed,
    {
        let size = grid.size();
        let e = Engine {
            capacity,
            size,
            history: VecDeque::new(),
            current: grid,
            rng: Rng::new(seed),
        };
        proof {
            assert(e.hist() =~= Seq::<Seq<bool>>::empty());
        }
        e
    }

    /// A read-only view of the live board.
    pub fn current_grid(&self) -> (g: &Grid)
        requires
            self.wf(),
        ensures
            g.wf(),
            g.spec_size() == self.spec_size(),
            g@ == self.cur(),
    {
        &self.current
    }

    /// The fixed side length.
    pub fn size(&self) -> (s: usize)
        ensures
            s == self.spec_size(),
    {
        self.size
    }

    /// The maximum undo depth.
    pub fn capacity(&self) -> (c: usize)
        ensures
            c == self.spec_capacity(),
    {
        self.capacity
    }

    /// How many past snapshots are currently retained.
    pub fn history_len(&self) -> (n: usize)
        ensures
            n == self.hist().len(),
    {
        self.history.len()
    }

    /// Advances the simulation by one generation: records the pre-step board
    /// as the newest snapshot (evicting the oldest when the ring is full),
    /// then replaces the live board with the next generation, every cell
    /// computed from the same pre-step board.
    pub fn step_forward(&mut self)
        requires
            old(self).wf(),
        ensures
            final(self).wf(),
            final(self).spec_capacity() == old(self).spec_capacity(),
            final(self).spec_size() == old(self).spec_size(),
            final(self).rng_state() == old(self).rng_state(),
            final(self).hist() == model_forward(
                old(self).hist(),
                old(self).cur(),
                old(self).spec_capacity(),
                old(self).spec_size(),
            ).0,
            final(self).cur() == model_forward(
                old(self).hist(),
                old(self).cur(),
                old(self).spec_capacity(),
                old(self).spec_size(),
            ).1,
    {
        let ghost h0 = self.hist();
        let ghost c0 = self.cur();
        let ghost cap = self.spec_capacity();
        let mut next = self.current.next_generation();
        core::mem::swap(&mut self.current, &mut next);
        // `next` now holds the pre-step board.
        if self.capacity > 0 {
            if self.history.len() == self.capacity {
                let _ = self.history.pop_front();
                self.history.push_back(next);
                proof {
                    assert(self.hist() =~= h0.push(c0).drop_first());
                }
            } else {
                self.history.push_back(next);
                proof {
                    assert(self.hist() =~= h0.push(c0));
                }
            }
        } else {
            proof {
                assert(self.hist() =~= h0.push(c0).drop_first());
            }
        }
    }

    /// Rewinds to the previous recorded generation: pops the newest snapshot
    /// and makes it the live board, discarding the board it replaces. With
    /// an empty history this is a silent no-op.
    pub fn step_backward(&mut self)
        requires
            old(self).wf(),
        ensures
            final(self).wf(),
            final(self).spec_capacity() == old(self).spec_capacity(),
            final(self).spec_size() == old(self).spec_size(),
            final(self).rng_state() == old(self).rng_state(),
            final(self).hist() == model_backward(old(self).hist(), old(self).cur()).0,
            final(self).cur() == model_backward(old(self).hist(), old(self).cur()).1,
    {
        let ghost h0 = self.hist();
        match self.history.pop_back() {
            Some(g) => {
                self.current = g;
                proof {
                    assert(self.hist() =~= h0.drop_last());
                }
            },
            None => {
                proof {
                    assert(self.hist() =~= h0);
                }
            },
        }
    }

    /// Hard restart: discards the whole history and replaces the live board
    /// with a freshly randomized one of the same side length.
    pub fn reset(&mut self)
        requires
            old(self).wf(),
        ensures
            final(self).wf(),
            final(self).spec_capacity() == old(self).spec_capacity(),
            final(self).spec_size() == old(self).spec_size(),
            final(self).hist() == Seq::<Seq<bool>>::empty(),
            final(self).cur() == random_cells(
                old(self).rng_state(),
                (old(self).spec_size() * old(self).spec_size()) as nat,
            ),
            final(self).rng_state() == rng_iter(
                old(self).rng_state(),
                (old(self).spec_size() * old(self).spec_size()) as nat,
            ),
    {
        self.history.clear();
        self.current = Grid::randomized(self.size, &mut self.rng);
        proof {
            assert(self.hist() =~= Seq::<Seq<bool>>::empty());
        }
    }
}

/// After any forward step of an engine whose capacity is at least 1, one
/// backward step restores exactly the pre-step board, cell for cell,
/// whatever the history held before.
pub proof fn lemma_backward_restores_previous(
    h: Seq<Seq<bool>>,
    c: Seq<bool>,
    cap: int,
    size: int,
)
    requires
        cap >= 1,
        h.len() <= cap,
    ensures
        model_forward(h, c, cap, size).0.len() > 0,
        model_backward(model_forward(h, c, cap, size).0, model_forward(h, c, cap, size).1).1 == c,
        h.len() < cap ==> model_backward(
            model_forward(h, c, cap, size).0,
            model_forward(h, c, cap, size).1,
        ) == (h, c),
{
    let pushed = hist_push(h, c, cap);
    if h.len() < cap {
        assert(pushed.last() == c);
        assert(pushed.drop_last() =~= h);
    } else {
        assert(pushed.last() == h.push(c).drop_first().last());
        assert(h.push(c).drop_first().last() == c);
    }
}

/// A backward step on an empty history changes nothing; since a reset always
/// leaves the history empty, a backward step immediately after a reset is a
/// no-op whatever the history held before the reset.
pub proof fn lemma_backward_on_empty(h: Seq<Seq<bool>>, c: Seq<bool>)
    requires
        h.len() == 0,
    ensures
        model_backward(h, c) == (h, c),
{
}

} // verus!
