//! Pools of colored dice: a count per color, random population, match
//! detection against another pool, and the two reroll strategies.

use vstd::prelude::*;
use crate::color::DieCol;

verus! {

/// A pool of colored dice, held as one count per color, indexed in the
/// fixed domain order.
#[derive(Debug, Clone, Copy)]
pub struct ColCounts {
    pub counts: [u8; 5],
}

/// A color together with a count of dice showing it; the result of a
/// successful match between two pools.
#[derive(Debug, Clone, Copy, PartialEq, Eq, Structural)]
pub struct ColoredDice {
    pub col: DieCol,
    pub count: u8,
}

impl ColCounts {
    /// The number of dice showing color `c`.
    pub open spec fn cnt(self, c: DieCol) -> u8 {
        self.counts@[c.idx()]
    }

    /// The size of the pool: the sum of the per-color counts.
    pub open spec fn total(self) -> int {
        self.counts@[0] + self.counts@[1] + self.counts@[2] + self.counts@[3]
            + self.counts@[4]
    }

    /// No color can show more dice than the pool holds in all.
    pub proof fn lemma_cnt_le_total(self, c: DieCol)
        ensures
            0 <= self.cnt(c) <= self.total(),
    {
    }

    /// A pool with zero dice of every color.
    pub fn new() -> (r: Self)
        ensures
            forall|c: DieCol| r.cnt(c) == 0,
            r.total() == 0,
    {
        ColCounts { counts: [0, 0, 0, 0, 0] }
    }

    /// Reads the count for one color.
    pub fn count_of(&self, col: DieCol) -> (r: u8)
        ensures
            r == self.cnt(col),
    {
        self.counts[col.to_idx() as usize]
    }

    /// Overwrites the count for one color, leaving the others as they were.
    pub fn set_count(&mut self, col: DieCol, v: u8)
        ensures
            final(self).cnt(col) == v,
            forall|c: DieCol| c != col ==> final(self).cnt(c) == old(self).cnt(c),
            final(self).total() == old(self).total() - old(self).cnt(col) + v,
    {
        let i = col.to_idx() as usize;
        self.counts[i] = v;
    }

    /// The size of the pool, computed by summing the five counts.
    pub fn count(&self) -> (r: u8)
        requires
            self.total() <= u8::MAX,
        ensures
            r as int == self.total(),
    {
        self.counts[0] + self.counts[1] + self.counts[2] + self.counts[3]
            + self.counts[4]
    }

    /// A color is a candidate for a match when this pool shows it on at
    /// least one die and the other pool shows it on exactly as many.
    pub open spec fn is_candidate(self, other: ColCounts, c: DieCol) -> bool {
        self.cnt(c) > 0 && self.cnt(c) == other.cnt(c)
    }

    /// The accepted match after scanning the first `n` colors in domain
    /// order. The first candidate found is accepted; each later candidate
    /// replaces the accepted one unless the accepted count is strictly
    /// below the candidate's count. The scan therefore tends to keep the
    /// smallest or latest-equal candidate, not the largest.
    pub open spec fn chosen_upto(self, other: ColCounts, n: int) -> Option<ColoredDice>
        decreases n,
    {
        if n <= 0 {
            None
        } else {
            let prev = self.chosen_upto(other, n - 1);
            let c = DieCol::col_of(n - 1);
            if self.is_candidate(other, c) {
                match prev {
                    Some(d) => if d.count < self.cnt(c) {
                        prev
                    } else {
                        Some(ColoredDice { col: c, count: self.cnt(c) })
                    },
                    None => Some(ColoredDice { col: c, count: self.cnt(c) }),
                }
            } else {
                prev
            }
        }
    }

    /// A scan of the first `n` colors comes back empty exactly when none
    /// of them is a candidate.
    proof fn lemma_chosen_upto_none(self, other: ColCounts, n: int)
        requires
            0 <= n,
        ensures
            self.chosen_upto(other, n) is None <==> (forall|i: int|
                0 <= i < n ==> !self.is_candidate(other, DieCol::col_of(i))),
        decreases n,
    {
        if n > 0 {
            self.lemma_chosen_upto_none(other, n - 1);
        }
    }

    /// Whatever a scan of the first `n` colors accepts is a candidate among
    /// them, carrying that color's shared count.
    proof fn lemma_chosen_upto_some(self, other: ColCounts, n: int)
        requires
            0 <= n,
        ensures
            self.chosen_upto(other, n) matches Some(d) ==> self.is_candidate(other, d.col)
                && d.count == self.cnt(d.col) && 0 <= d.col.idx() < n
                && d.col == DieCol::col_of(d.col.idx()),
        decreases n,
    {
        if n > 0 {
            self.lemma_chosen_upto_some(other, n - 1);
        }
    }

    /// Scans the colors in domain order and returns the accepted match, as
    /// `chosen_upto` over the whole domain says: `None` exactly when no
    /// color is a candidate, and otherwise some candidate color with the
    /// shared count, picked by the sequential replacement rule.
    pub fn chosen_match(&self, other: &Self) -> (r: Option<ColoredDice>)
        ensures
            r == self.chosen_upto(*other, 5),
            (r is None <==> forall|c: DieCol| !self.is_candidate(*other, c)),
            r matches Some(d) ==> self.is_candidate(*other, d.col)
                && d.count == self.cnt(d.col),
    {
        let mut best: Option<ColoredDice> = None;
        for i in 0..5usize
            invariant
                best == self.chosen_upto(*other, i as int),
        {
            let col = DieCol::from_idx(i as u8);
            let here = self.count_of(col);
            if here > 0 && here == other.count_of(col) {
                let keep = match best {
                    Some(d) => d.count < here,
                    None => false,
                };
                if !keep {
                    best = Some(ColoredDice { col, count: here });
                }
            }
        }
        proof {
            self.lemma_chosen_upto_none(*other, 5);
            self.lemma_chosen_upto_some(*other, 5);
            assert forall|c: DieCol| self.is_candidate(*other, c) implies !(self.chosen_upto(
                *other,
                5,
            ) is None) by {
                assert(DieCol::col_of(c.idx()) == c);
            }
        }
        best
    }

    /// Adds `count` dice to the pool, each of an independently drawn
    /// random color. The pool grows by exactly `count` and no color's
    /// count shrinks; which colors grow depends on the generator alone.
    pub fn with_n_random_more(self, rng: &mut fastrand::Rng, count: u8) -> (r: Self)
        requires
            self.total() + count <= u8::MAX,
        ensures
            r.total() == self.total() + count,
            forall|c: DieCol| self.cnt(c) <= #[trigger] r.cnt(c) <= self.cnt(c) + count,
    {
        let mut cur = self;
        for i in 0..count
            invariant
                cur.total() == self.total() + i,
                forall|c: DieCol| self.cnt(c) <= #[trigger] cur.cnt(c) <= self.cnt(c) + i,
                self.total() + count <= u8::MAX,
        {
            let col = DieCol::random(rng);
            proof {
                cur.lemma_cnt_le_total(col);
            }
            let here = cur.count_of(col);
            cur.set_count(col, here + 1);
        }
        cur
    }

    /// Builds a pool of exactly `count` random dice.
    pub fn random(rng: &mut fastrand::Rng, count: u8) -> (r: Self)
        ensures
            r.total() == count,
    {
        Self::new().with_n_random_more(rng, count)
    }

    /// Rerolls the dice of one color: that color's slot is zeroed and as
    /// many dice are added back by independent random draws, which may
    /// land on any color including the original. The pool's size is
    /// conserved and no other color's count shrinks.
    pub fn col_rerolled(self, col: DieCol, rng: &mut fastrand::Rng) -> (r: Self)
        requires
            self.total() <= u8::MAX,
        ensures
            r.total() == self.total(),
            forall|c: DieCol| c != col ==> self.cnt(c) <= r.cnt(c),
            r.cnt(col) <= self.cnt(col),
    {
        let count = self.count_of(col);
        let mut cur = self;
        cur.set_count(col, 0);
        proof {
            self.lemma_cnt_le_total(col);
        }
        cur.with_n_random_more(rng, count)
    }

    /// Discards the pool's contents and draws a brand-new random pool of
    /// the same size.
    pub fn rerolled(self, rng: &mut fastrand::Rng) -> (r: Self)
        requires
            self.total() <= u8::MAX,
        ensures
            r.total() == self.total(),
    {
        let n = self.count();
        Self::random(rng, n)
    }
}

} // verus!

