//! The Monte Carlo combat experiment: one simulated duel of a fixed number
//! of rounds between an attacker pool and a freshly drawn defender pool
//! each round, accumulating the matched dice as lost health.

use vstd::prelude::*;
use crate::pool::ColCounts;

verus! {

/// The parameters of one duel: the attacker's dice count, the defender's
/// dice count, and how many rounds to simulate.
#[derive(Debug, Clone, Copy, PartialEq, Eq, Structural)]
pub struct HleConfig {
    pub my_dice_count: u8,
    pub their_dice_count: u8,
    pub rounds: u8,
}

impl HleConfig {
    /// The most health one round can cost: a match count is a count shared
    /// by both pools, so it is bounded by the smaller pool.
    pub open spec fn round_cap(self) -> int {
        vstd::math::min(self.my_dice_count as int, self.their_dice_count as int)
    }
}

/// Runs one simulated duel. The attacker's pool is drawn once; each round
/// a fresh defender pool is drawn, a match is sought, and on a match its
/// count is added to the health lost and the matched color is rerolled,
/// while on no match the whole attacker pool is rerolled. Both pools keep
/// their sizes within a round and a match count is shared by both, so one
/// round costs at most the smaller dice count; the precondition keeps the
/// accumulated loss within `u8`, where the total is returned.
pub fn health_lost_experiment(rng: &mut fastrand::Rng, config: HleConfig) -> (r: u8)
    requires
        config.rounds as int * config.round_cap() <= u8::MAX as int,
    ensures
        config.rounds == 0 ==> r == 0,
        r as int <= config.rounds as int * config.round_cap(),
{
    let ghost cap: int = config.round_cap();
    let mut mine = ColCounts::random(rng, config.my_dice_count);
    let mut health_lost: u8 = 0;
    for round in 0..config.rounds
        invariant
            cap == config.round_cap(),
            mine.total() == config.my_dice_count as int,
            health_lost as int <= round as int * cap,
            config.rounds as int * cap <= u8::MAX as int,
    {
        let theirs = ColCounts::random(rng, config.their_dice_count);
        proof {
            assert((round as int + 1) * cap == round as int * cap + cap && (round as int + 1)
                * cap <= config.rounds as int * cap) by (nonlinear_arith)
                requires
                    round as int + 1 <= config.rounds as int,
                    cap >= 0,
            ;
        }
        mine = match mine.chosen_match(&theirs) {
            Some(colored_dice) => {
                proof {
                    mine.lemma_cnt_le_total(colored_dice.col);
                    theirs.lemma_cnt_le_total(colored_dice.col);
                }
                health_lost = health_lost + colored_dice.count;
                mine.col_rerolled(colored_dice.col, rng)
            },
            None => mine.rerolled(rng),
        };
    }
    health_lost
}

} // verus!
