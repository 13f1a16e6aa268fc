use oracle_token::scoring::{
    calculate_difficulty_score, calculate_early_bird_bonus, oracle_tokens_earned, split_stake,
};

#[test]
fn split_of_winning_stake_matches_worked_example() {
    // share = floor(100 * 1000 / 400) = 250; fee = floor(250 * 200 / 10000) = 5
    assert_eq!(split_stake(100, 1000, 400, 200), Some((245, 5)));
}

#[test]
fn split_rounds_share_and_fee_down() {
    // share = floor(7 * 10 / 3) = 23; fee = floor(23 * 333 / 10000) = 0
    assert_eq!(split_stake(7, 10, 3, 333), Some((23, 0)));
    // share = floor(1 * 4 / 3) = 1
    assert_eq!(split_stake(1, 4, 3, 0), Some((1, 0)));
    // full fee takes the whole share
    assert_eq!(split_stake(50, 100, 50, 10000), Some((0, 100)));
}

#[test]
fn split_refuses_share_beyond_u64() {
    assert_eq!(split_stake(u64::MAX, u64::MAX, 1, 0), None);
    assert_eq!(split_stake(u64::MAX, u64::MAX, u64::MAX, 0), Some((u64::MAX, 0)));
}

#[test]
fn winners_split_whole_pool_up_to_rounding() {
    // three winners of 1 on a pool of 4: each gets floor(4/3) = 1, one unit left over
    let stakes = [1u64, 1, 1];
    let correct: u64 = stakes.iter().sum();
    let mut settled = 0u64;
    for s in stakes {
        let (payout, fee) = split_stake(s, 4, correct, 200).unwrap();
        settled += payout + fee;
    }
    assert!(settled <= 4);
    assert!(4 - settled <= stakes.len() as u64 - 1);
    assert_eq!(settled, 3);

    // stakes 400 and 100 on the winning side of a pool of 1000: exact split
    let (p1, f1) = split_stake(400, 1000, 500, 200).unwrap();
    let (p2, f2) = split_stake(100, 1000, 500, 200).unwrap();
    assert_eq!(p1 + f1 + p2 + f2, 1000);
}

#[test]
fn early_bird_is_double_at_opening_and_single_at_deadline() {
    assert_eq!(calculate_early_bird_bonus(1000, 1000, 2000), 200);
    assert_eq!(calculate_early_bird_bonus(2000, 1000, 2000), 100);
    assert_eq!(calculate_early_bird_bonus(1500, 1000, 2000), 150);
}

#[test]
fn early_bird_defaults_when_market_has_no_duration() {
    assert_eq!(calculate_early_bird_bonus(5, 7, 7), 100);
    assert_eq!(calculate_early_bird_bonus(7, 7, 7), 100);
}

#[test]
fn early_bird_rounds_to_nearest() {
    // 100 * 1/3 = 33.3 -> 33
    assert_eq!(calculate_early_bird_bonus(1, 0, 3), 167);
    // 100 * 2/3 = 66.7 -> 67
    assert_eq!(calculate_early_bird_bonus(2, 0, 3), 133);
    // 100 * 1/200 = 0.5 -> 1
    assert_eq!(calculate_early_bird_bonus(1, 0, 200), 199);
}

#[test]
fn early_bird_is_clamped_outside_the_window() {
    assert_eq!(calculate_early_bird_bonus(-50, 0, 100), 200);
    assert_eq!(calculate_early_bird_bonus(500, 0, 100), 100);
    assert_eq!(calculate_early_bird_bonus(i64::MAX, i64::MIN, 0), 100);
}

#[test]
fn difficulty_boundaries() {
    assert_eq!(calculate_difficulty_score(500, 1000), 100);
    assert_eq!(calculate_difficulty_score(1000, 1000), 50);
    assert_eq!(calculate_difficulty_score(0, 0), 100);
    assert!(calculate_difficulty_score(499, 1000) > 100);
    assert!(calculate_difficulty_score(900, 1000) < 100);
    assert!(calculate_difficulty_score(999, 1000) >= 50);
}

#[test]
fn difficulty_rewards_contrarian_calls() {
    // ratio 0.1 -> 100 / 0.1 = 1000
    assert_eq!(calculate_difficulty_score(100, 1000), 1000);
    // ratio 0.4 -> 250
    assert_eq!(calculate_difficulty_score(400, 1000), 250);
    // ratio 0.9 -> 100 * 0.1 + 50 = 60
    assert_eq!(calculate_difficulty_score(900, 1000), 60);
    // ratio 1/3 -> 300
    assert_eq!(calculate_difficulty_score(1, 3), 300);
    // ratio 2/3 -> 33.3 + 50 -> 83
    assert_eq!(calculate_difficulty_score(2, 3), 83);
}

#[test]
fn difficulty_of_tiny_minority_exceeds_u64_range() {
    let d = calculate_difficulty_score(1, u64::MAX);
    assert_eq!(d, 100 * u64::MAX as u128);
}

#[test]
fn tokens_earned_formula() {
    // 100 * 200 * 250 / 10000
    assert_eq!(oracle_tokens_earned(100, 200, 250), Some(500));
    // floor(3 * 150 * 83 / 10000) = floor(3.735)
    assert_eq!(oracle_tokens_earned(3, 150, 83), Some(3));
    assert_eq!(oracle_tokens_earned(u64::MAX, 200, u128::MAX), None);
    assert_eq!(oracle_tokens_earned(u64::MAX, 100, 100), Some(u64::MAX));
    assert_eq!(oracle_tokens_earned(u64::MAX, 100, 101), None);
}
