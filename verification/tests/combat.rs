use dice_duel::color::DieCol;
use dice_duel::experiment::health_lost_experiment;
use dice_duel::experiment::HleConfig;
use dice_duel::histogram::bar_len;
use dice_duel::histogram::histo_buckets;
use dice_duel::histogram::histo_total;
use dice_duel::pool::ColCounts;
use dice_duel::pool::ColoredDice;

#[test]
fn random_pool_total_matches_request() {
    let mut rng = fastrand::Rng::with_seed(11);
    for &n in &[0u8, 1, 5, 100, 255] {
        let pool = ColCounts::random(&mut rng, n);
        assert_eq!(pool.count(), n);
    }
}

#[test]
fn reroll_all_preserves_total() {
    let mut rng = fastrand::Rng::with_seed(22);
    let pool = ColCounts::random(&mut rng, 37);
    let rerolled = pool.rerolled(&mut rng);
    assert_eq!(rerolled.count(), 37);
}

#[test]
fn reroll_color_preserves_total() {
    let mut rng = fastrand::Rng::with_seed(33);
    let pool = ColCounts::random(&mut rng, 37);
    for &col in &[DieCol::Red, DieCol::Blue, DieCol::Black, DieCol::Yellow, DieCol::Green] {
        let rerolled = pool.col_rerolled(col, &mut rng);
        assert_eq!(rerolled.count(), 37);
        assert_eq!(pool.count(), 37);
    }
}

#[test]
fn color_weights_converge() {
    let mut rng = fastrand::Rng::with_seed(7);
    let mut counts = [0u32; 5];
    let n: u32 = 60_000;
    for _ in 0..n {
        let c = DieCol::random(&mut rng);
        counts[c.to_idx() as usize] += 1;
    }
    // expected roughly 10_000 for each of the first four colors and
    // 20_000 for the doubled last color (ratio 1:1:1:1:2)
    for i in 0..4 {
        assert!(8_500 < counts[i] && counts[i] < 11_500, "color {} count {}", i, counts[i]);
    }
    assert!(17_500 < counts[4] && counts[4] < 22_500, "green count {}", counts[4]);
    assert_eq!(counts.iter().sum::<u32>(), n);
}

#[test]
fn chosen_match_none_without_candidates() {
    // no color has a strictly positive count equal in both pools
    let a = ColCounts { counts: [1, 0, 3, 0, 2] };
    let b = ColCounts { counts: [2, 0, 4, 5, 0] };
    assert_eq!(a.chosen_match(&b), None);
    let empty = ColCounts::new();
    assert_eq!(empty.chosen_match(&b), None);
    assert_eq!(empty.chosen_match(&empty), None);
}

#[test]
fn chosen_match_single_candidate() {
    let a = ColCounts { counts: [1, 0, 3, 0, 2] };
    let b = ColCounts { counts: [2, 0, 3, 5, 0] };
    assert_eq!(
        a.chosen_match(&b),
        Some(ColoredDice { col: DieCol::Black, count: 3 })
    );
}

#[test]
fn tie_break_keeps_accepted_over_larger_candidate() {
    // Red and Blue both tie; the accepted Red (count 2) is kept because
    // 2 is strictly below the later candidate's count 5
    let a = ColCounts { counts: [2, 5, 0, 0, 0] };
    let b = ColCounts { counts: [2, 5, 1, 1, 1] };
    assert_eq!(
        a.chosen_match(&b),
        Some(ColoredDice { col: DieCol::Red, count: 2 })
    );
}

#[test]
fn tie_break_replaces_accepted_with_smaller_candidate() {
    // Red (count 5) is accepted first, then replaced by Blue (count 2),
    // since 5 < 2 does not hold; the result is not the largest match
    let a = ColCounts { counts: [5, 2, 0, 0, 0] };
    let b = ColCounts { counts: [5, 2, 1, 1, 1] };
    assert_eq!(
        a.chosen_match(&b),
        Some(ColoredDice { col: DieCol::Blue, count: 2 })
    );
}

#[test]
fn tie_break_three_candidates() {
    // Red (3) accepted, replaced by Blue (1); Black (2) does not replace
    // Blue because 1 < 2
    let a = ColCounts { counts: [3, 1, 2, 0, 0] };
    let b = ColCounts { counts: [3, 1, 2, 9, 9] };
    assert_eq!(
        a.chosen_match(&b),
        Some(ColoredDice { col: DieCol::Blue, count: 1 })
    );
}

#[test]
fn zero_rounds_loses_nothing() {
    for seed in 0..20u64 {
        let mut rng = fastrand::Rng::with_seed(seed);
        let config = HleConfig { my_dice_count: 8, their_dice_count: 6, rounds: 0 };
        assert_eq!(health_lost_experiment(&mut rng, config), 0);
    }
}

#[test]
fn end_to_end_replay_single_round() {
    for seed in 0..50u64 {
        let config = HleConfig { my_dice_count: 5, their_dice_count: 5, rounds: 1 };
        let mut rng = fastrand::Rng::with_seed(seed);
        let loss = health_lost_experiment(&mut rng, config);
        // replay the same generator stream through the pool operations
        let mut replay = fastrand::Rng::with_seed(seed);
        let mine = ColCounts::random(&mut replay, 5);
        let theirs = ColCounts::random(&mut replay, 5);
        let expected = match mine.chosen_match(&theirs) {
            Some(d) => d.count,
            None => 0,
        };
        assert_eq!(loss, expected, "seed {}", seed);
    }
}

#[test]
fn experiment_loss_within_bound() {
    let mut rng = fastrand::Rng::with_seed(99);
    let config = HleConfig { my_dice_count: 8, their_dice_count: 6, rounds: 10 };
    for _ in 0..200 {
        let loss = health_lost_experiment(&mut rng, config);
        // one round costs at most the smaller dice count
        assert!(loss <= 60);
    }
}

#[test]
fn experiment_accepts_lopsided_pools() {
    // a big attacker pool against one defender die: each round's match
    // count is at most 1, so even many rounds stay within the counter
    let mut rng = fastrand::Rng::with_seed(123);
    let config = HleConfig { my_dice_count: 200, their_dice_count: 1, rounds: 100 };
    for _ in 0..20 {
        let loss = health_lost_experiment(&mut rng, config);
        assert!(loss <= 100);
    }
}

#[test]
fn histogram_buckets_scenario() {
    let samples: Vec<u8> = vec![0, 0, 1, 1, 1];
    let buckets = histo_buckets(&samples);
    assert_eq!(buckets, vec![2u32, 3u32]);
    let total = histo_total(&buckets);
    assert_eq!(total, 5);
    assert_eq!(bar_len(buckets[0], 1), 2);
    assert_eq!(bar_len(buckets[1], 1), 3);
    let p0 = buckets[0] as f32 / total as f32;
    let p1 = buckets[1] as f32 / total as f32;
    assert_eq!(p0, 0.4);
    assert_eq!(p1, 0.6);
}

#[test]
fn histogram_empty_samples_give_no_buckets() {
    let samples: Vec<u8> = Vec::new();
    let buckets = histo_buckets(&samples);
    assert!(buckets.is_empty());
    assert_eq!(histo_total(&buckets), 0);
}

#[test]
fn histogram_fills_gaps_with_zeroes() {
    let samples: Vec<u8> = vec![3];
    let buckets = histo_buckets(&samples);
    assert_eq!(buckets, vec![0u32, 0, 0, 1]);
    assert_eq!(histo_total(&buckets), 1);
}

#[test]
fn histogram_max_value_sample() {
    let samples: Vec<u8> = vec![255, 0, 255];
    let buckets = histo_buckets(&samples);
    assert_eq!(buckets.len(), 256);
    assert_eq!(buckets[0], 1);
    assert_eq!(buckets[255], 2);
    assert_eq!(histo_total(&buckets), 3);
}

#[test]
fn bar_length_rounds_down() {
    assert_eq!(bar_len(5, 2), 2);
    assert_eq!(bar_len(1_999, 2_000), 0);
    assert_eq!(bar_len(2_000, 2_000), 1);
    assert_eq!(bar_len(0, 2_000), 0);
}

#[test]
fn domain_lists_the_five_colors_in_order() {
    let domain = DieCol::domain();
    assert_eq!(
        domain,
        vec![DieCol::Red, DieCol::Blue, DieCol::Black, DieCol::Yellow, DieCol::Green]
    );
    for (i, col) in domain.iter().enumerate() {
        assert_eq!(col.to_idx() as usize, i);
        assert_eq!(DieCol::from_idx(i as u8), *col);
    }
}

#[test]
fn counts_read_back_what_was_set() {
    let mut pool = ColCounts::new();
    for &col in &[DieCol::Red, DieCol::Blue, DieCol::Black, DieCol::Yellow, DieCol::Green] {
        assert_eq!(pool.count_of(col), 0);
    }
    pool.set_count(DieCol::Yellow, 7);
    pool.set_count(DieCol::Red, 2);
    assert_eq!(pool.count_of(DieCol::Yellow), 7);
    assert_eq!(pool.count_of(DieCol::Red), 2);
    assert_eq!(pool.count_of(DieCol::Green), 0);
    assert_eq!(pool.count(), 9);
}
