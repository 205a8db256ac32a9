//! An explicitly injected source of random draws.
//!
//! The simulation never reaches for ambient randomness: the host fills a
//! `RandomSource` with non-negative raw draws (from whatever generator it
//! likes) and every routine that needs chance pulls the next draw from it.
//! Given the same draws, setup, bounces and spawns are fully deterministic,
//! and every contract below pins the result exactly.
use vstd::prelude::*;

verus! {

/// Mathematical model of a `RandomSource`: the raw draws and the cursor.
pub ghost struct RngModel {
    pub draws: Seq<i64>,
    pub idx: int,
}

/// A well-formed source: every raw draw is non-negative and the cursor is
/// in range whenever there are draws at all.
pub open spec fn rng_wf(m: RngModel) -> bool {
    &&& forall|i: int| 0 <= i < m.draws.len() ==> 0 <= #[trigger] m.draws[i]
    &&& (m.draws.len() == 0 || 0 <= m.idx < m.draws.len())
}

/// The value the next draw yields when asked for the range `[lo, hi]`:
/// the raw draw under the cursor, reduced into the range. An empty source
/// always yields `lo`.
pub open spec fn rng_next_spec(m: RngModel, lo: int, hi: int) -> int {
    if m.draws.len() == 0 {
        lo
    } else {
        lo + (m.draws[m.idx] as int) % (hi - lo + 1)
    }
}

/// The source after one draw: the cursor moves forward and wraps.
pub open spec fn rng_adv_spec(m: RngModel) -> RngModel {
    if m.draws.len() == 0 {
        m
    } else {
        RngModel {
            draws: m.draws,
            idx: if m.idx + 1 == m.draws.len() {
                0
            } else {
                m.idx + 1
            },
        }
    }
}

/// A deterministic supply of random draws, filled by the host.
pub struct RandomSource {
    pub draws: Vec<i64>,
    pub idx: usize,
}

impl View for RandomSource {
    type V = RngModel;

    open spec fn view(&self) -> RngModel {
        RngModel { draws: self.draws@, idx: self.idx as int }
    }
}

impl RandomSource {
    /// Build a source over the given raw draws, cursor at the start.
    pub fn from_draws(draws: Vec<i64>) -> (r: RandomSource)
        requires
            forall|i: int| 0 <= i < draws@.len() ==> 0 <= #[trigger] draws@[i],
        ensures
            r@.draws == draws@,
            r@.idx == 0,
            rng_wf(r@),
    {
        RandomSource { draws, idx: 0 }
    }

    /// Yield a value in `[lo, hi]` from the draw under the cursor and move
    /// the cursor forward.
    pub fn next_in(&mut self, lo: i64, hi: i64) -> (r: i64)
        requires
            rng_wf(old(self)@),
            lo <= hi,
            (hi as int) - (lo as int) < 0x7fff_ffff_ffff_ffff,
        ensures
            (r as int) == rng_next_spec(old(self)@, lo as int, hi as int),
            final(self)@ == rng_adv_spec(old(self)@),
            rng_wf(final(self)@),
            lo <= r <= hi,
    {
        let n = hi - lo + 1;
        if self.draws.len() == 0 {
            return lo;
        }
        let v = self.draws[self.idx];
        let m = v % n;
        assert(0 <= m < n) by (nonlinear_arith)
            requires
                0 <= v,
                0 < n,
                m == v % n,
        ;
        self.idx = if self.idx + 1 == self.draws.len() {
            0
        } else {
            self.idx + 1
        };
        lo + m
    }
}

} // verus!
