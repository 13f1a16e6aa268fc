//! Integer scoring rules: the early-bird multiplier, the difficulty multiplier,
//! and the split of a resolved pool between winners and the platform.

use vstd::prelude::*;

verus! {

/// The integer nearest to `n / d` (for `d > 0`), halves rounded up.
pub open spec fn round_ratio(n: int, d: int) -> int {
    (2 * n + d) / (2 * d)
}

pub open spec fn clamp(x: int, lo: int, hi: int) -> int {
    if x < lo {
        lo
    } else if x > hi {
        hi
    } else {
        x
    }
}

/// Multiplier (in hundredths) for staking at `t` in a market open from `start`
/// to `end`: 200 at the opening, falling linearly to 100 at the deadline, and
/// 100 when the market has no duration.
pub open spec fn early_bird_spec(t: int, start: int, end: int) -> int {
    let n = t - start;
    let d = end - start;
    if d == 0 {
        100
    } else if d > 0 {
        clamp(200 - round_ratio(100 * n, d), 100, 200)
    } else {
        clamp(200 - round_ratio(-100 * n, -d), 100, 200)
    }
}

proof fn lemma_round_ratio_bounds(n: int, d: int)
    requires
        d > 0,
    ensures
        n <= 0 ==> round_ratio(100 * n, d) <= 0,
        n >= d ==> round_ratio(100 * n, d) >= 100,
        0 <= n < d ==> 0 <= round_ratio(100 * n, d) <= 100,
{
    let q = round_ratio(100 * n, d);
    let x = 2 * (100 * n) + d;
    vstd::arithmetic::div_mod::lemma_fundamental_div_mod(x, 2 * d);
    let r = x % (2 * d);
    assert(x == (2 * d) * q + r);
    assert(0 <= r < 2 * d);
    if n <= 0 {
        assert((2 * d) * q <= x) by (nonlinear_arith)
            requires x == (2 * d) * q + r, r >= 0;
        assert(q <= 0) by (nonlinear_arith)
            requires (2 * d) * q <= x, x <= d, d > 0;
    }
    if n >= d {
        assert(x >= 201 * d) by (nonlinear_arith)
            requires x == 200 * n + d, n >= d;
        assert(q >= 100) by (nonlinear_arith)
            requires x == (2 * d) * q + r, r < 2 * d, x >= 201 * d, d > 0;
    }
    if 0 <= n < d {
        assert(x < 201 * d) by (nonlinear_arith)
            requires x == 200 * n + d, n < d;
        assert(0 <= q <= 100) by (nonlinear_arith)
            requires x == (2 * d) * q + r, 0 <= r < 2 * d, x < 201 * d, x >= 0, d > 0;
    }
}

/// Early-bird multiplier, in hundredths (100 is 1x, 200 is 2x).
pub fn calculate_early_bird_bonus(prediction_time: i64, market_start: i64, market_end: i64) -> (r:
    u64)
    ensures
        r == early_bird_spec(prediction_time as int, market_start as int, market_end as int),
        100 <= r <= 200,
        market_end != market_start && prediction_time == market_start ==> r == 200,
        market_end != market_start && prediction_time == market_end ==> r == 100,
        market_end == market_start ==> r == 100,
{
    let into: i128 = prediction_time as i128 - market_start as i128;
    let total: i128 = market_end as i128 - market_start as i128;
    if total == 0 {
        return 100;
    }
    let (n, d): (i128, i128) = if total > 0 {
        (into, total)
    } else {
        (-into, -total)
    };
    proof {
        lemma_round_ratio_bounds(n as int, d as int);
        assert(-100 * (into as int) == 100 * (n as int) || total > 0);
    }
    if n <= 0 {
        200
    } else if n >= d {
        100
    } else {
        let q: i128 = (200 * n + d) / (2 * d);
        proof {
            assert(100 * (n as int) >= 0);
        }
        (200 - q) as u64
    }
}


/// Difficulty multiplier, in hundredths, for a correct call whose side holds
/// `c` of a pool of `t`: above 100 when the side is a minority, 100 at one
/// half, and down to 50 at unanimity; 100 for an empty pool.
pub open spec fn difficulty_spec(c: int, t: int) -> int {
    if t == 0 {
        100
    } else if 2 * c < t {
        round_ratio(100 * t, c)
    } else {
        round_ratio(150 * t - 100 * c, t)
    }
}

/// Difficulty (contrarian) multiplier, in hundredths.
pub fn calculate_difficulty_score(correct_volume: u64, total_volume: u64) -> (r: u128)
    requires
        correct_volume <= total_volume,
        total_volume == 0 || correct_volume > 0,
    ensures
        r == difficulty_spec(correct_volume as int, total_volume as int),
        total_volume == 0 ==> r == 100,
        total_volume > 0 && 2 * correct_volume == total_volume ==> r == 100,
        2 * correct_volume < total_volume ==> r > 100,
        total_volume > 0 && 2 * correct_volume >= total_volume ==> 50 <= r <= 100,
        total_volume > 0 && correct_volume == total_volume ==> r == 50,
{
    if total_volume == 0 {
        return 100;
    }
    let c = correct_volume as u128;
    let t = total_volume as u128;
    if 2 * c < t {
        let x: u128 = 200 * t + c;
        let q: u128 = x / (2 * c);
        proof {
            let (ci, ti, xi, qi) = (c as int, t as int, x as int, q as int);
            vstd::arithmetic::div_mod::lemma_fundamental_div_mod(xi, 2 * ci);
            let rem = xi % (2 * ci);
            assert(qi >= 200) by (nonlinear_arith)
                requires xi == (2 * ci) * qi + rem, rem < 2 * ci, 2 * ci < ti, xi == 200 * ti + ci,
                    ci > 0;
        }
        q
    } else {
        let x: u128 = 301 * t - 200 * c;
        let q: u128 = x / (2 * t);
        proof {
            let (ci, ti, xi, qi) = (c as int, t as int, x as int, q as int);
            assert(xi == 2 * (150 * ti - 100 * ci) + ti);
            vstd::arithmetic::div_mod::lemma_fundamental_div_mod(xi, 2 * ti);
            let rem = xi % (2 * ti);
            assert(50 <= qi <= 100) by (nonlinear_arith)
                requires xi == (2 * ti) * qi + rem, 0 <= rem < 2 * ti, 2 * ci >= ti, ci <= ti,
                    xi == 301 * ti - 200 * ci, ti > 0;
            if 2 * ci == ti {
                assert(qi == 100) by (nonlinear_arith)
                    requires xi == (2 * ti) * qi + rem, 0 <= rem < 2 * ti, xi == 201 * ti, ti > 0;
            }
            if ci == ti {
                assert(qi == 50) by (nonlinear_arith)
                    requires xi == (2 * ti) * qi + rem, 0 <= rem < 2 * ti, xi == 101 * ti, ti > 0;
            }
        }
        q
    }
}

proof fn lemma_floor_at_least(q: int, x: int, d: int)
    requires
        d > 0,
        d * q <= x,
    ensures
        q <= x / d,
{
    vstd::arithmetic::div_mod::lemma_fundamental_div_mod(x, d);
    let r = x % d;
    assert(q <= x / d) by (nonlinear_arith)
        requires x == d * (x / d) + r, r < d, d * q <= x, d > 0;
}

/// The difficulty score never falls as the winning side's share of the pool
/// shrinks: for a fixed pool, a smaller winning volume scores at least as high.
pub proof fn lemma_difficulty_monotonic(c1: int, c2: int, t: int)
    requires
        0 < c1 <= c2 <= t,
    ensures
        difficulty_spec(c1, t) >= difficulty_spec(c2, t),
{
    let d1 = difficulty_spec(c1, t);
    let d2 = difficulty_spec(c2, t);
    if 2 * c2 < t {
        let x2 = 200 * t + c2;
        let x1 = 200 * t + c1;
        vstd::arithmetic::div_mod::lemma_fundamental_div_mod(x2, 2 * c2);
        let r2 = x2 % (2 * c2);
        lemma_floor_at_least(1, x2, 2 * c2);
        assert(2 * c1 * d2 <= x1) by (nonlinear_arith)
            requires x2 == (2 * c2) * d2 + r2, r2 >= 0, 0 < c1 <= c2, x1 == 200 * t + c1,
                x2 == 200 * t + c2, d2 >= 1;
        lemma_floor_at_least(d2, x1, 2 * c1);
    } else if 2 * c1 >= t {
        vstd::arithmetic::div_mod::lemma_div_is_ordered(
            2 * (150 * t - 100 * c2) + t,
            2 * (150 * t - 100 * c1) + t,
            2 * t,
        );
    } else {
        let x1 = 200 * t + c1;
        let x2 = 2 * (150 * t - 100 * c2) + t;
        assert(2 * c1 * 200 <= x1) by (nonlinear_arith)
            requires 2 * c1 < t, x1 == 200 * t + c1, c1 > 0;
        lemma_floor_at_least(200, x1, 2 * c1);
        assert(x2 < 2 * t * 101) by (nonlinear_arith)
            requires x2 == 301 * t - 200 * c2, 2 * c2 >= t, t > 0;
        vstd::arithmetic::div_mod::lemma_div_is_ordered(x2, 2 * t * 101, 2 * t);
        vstd::arithmetic::div_mod::lemma_div_multiples_vanish(101, 2 * t);
    }
}

/// A winner's share of the pool: the stake times the pool over the winning
/// side's volume, rounded down.
pub open spec fn user_share_spec(amount: int, total_volume: int, correct_volume: int) -> int {
    amount * total_volume / correct_volume
}

/// The platform's cut of a share, in basis points, rounded down.
pub open spec fn fee_spec(share: int, fee_bps: int) -> int {
    share * fee_bps / 10000
}

/// What the winner receives: the share less the fee.
pub open spec fn payout_spec(amount: int, total_volume: int, correct_volume: int, fee_bps: int) -> int {
    let share = user_share_spec(amount, total_volume, correct_volume);
    share - fee_spec(share, fee_bps)
}

/// Incentive tokens for a winning stake scored by the two multipliers.
pub open spec fn tokens_spec(amount: int, early_bird: int, difficulty: int) -> int {
    amount * early_bird * difficulty / 10000
}

/// Splits a winning stake's share of the pool into `(payout, fee)`; `None`
/// when the share does not fit in 64 bits.
pub fn split_stake(amount: u64, total_volume: u64, correct_volume: u64, fee_bps: u16) -> (r: Option<
    (u64, u64),
>)
    requires
        correct_volume > 0,
        fee_bps <= 10000,
    ensures
        user_share_spec(amount as int, total_volume as int, correct_volume as int) <= u64::MAX
            <==> r is Some,
        r matches Some((payout, fee)) ==> {
            &&& fee == fee_spec(
                user_share_spec(amount as int, total_volume as int, correct_volume as int),
                fee_bps as int,
            )
            &&& payout == payout_spec(
                amount as int,
                total_volume as int,
                correct_volume as int,
                fee_bps as int,
            )
            &&& payout + fee == user_share_spec(
                amount as int,
                total_volume as int,
                correct_volume as int,
            )
        },
{
    proof {
        assert(amount as int * total_volume as int <= u64::MAX as int * u64::MAX as int)
            by (nonlinear_arith)
            requires amount <= u64::MAX, total_volume <= u64::MAX;
    }
    let product: u128 = amount as u128 * total_volume as u128;
    let share: u128 = product / correct_volume as u128;
    if share > u64::MAX as u128 {
        return None;
    }
    proof {
        assert(share * fee_bps <= u64::MAX as int * 10000) by (nonlinear_arith)
            requires share <= u64::MAX, fee_bps <= 10000;
    }
    let fee: u128 = share * fee_bps as u128 / 10000;
    proof {
        assert(share * fee_bps <= share * 10000) by (nonlinear_arith)
            requires fee_bps <= 10000, share >= 0;
        vstd::arithmetic::div_mod::lemma_div_is_ordered(
            (share * fee_bps) as int,
            (share * 10000) as int,
            10000,
        );
        vstd::arithmetic::div_mod::lemma_div_multiples_vanish(share as int, 10000);
    }
    Some(((share - fee) as u64, fee as u64))
}

/// Incentive tokens for a winning stake; `None` when they do not fit in 64 bits.
pub fn oracle_tokens_earned(amount: u64, early_bird: u64, difficulty: u128) -> (r: Option<u64>)
    requires
        early_bird <= 200,
    ensures
        tokens_spec(amount as int, early_bird as int, difficulty as int) <= u64::MAX <==> r is Some,
        r matches Some(t) ==> t == tokens_spec(amount as int, early_bird as int, difficulty as int),
{
    proof {
        assert(amount as int * early_bird as int <= 200 * u64::MAX) by (nonlinear_arith)
            requires amount <= u64::MAX, early_bird <= 200;
    }
    let base: u128 = amount as u128 * early_bird as u128;
    match base.checked_mul(difficulty) {
        Some(p) => {
            let t: u128 = p / 10000;
            if t > u64::MAX as u128 {
                None
            } else {
                Some(t as u64)
            }
        },
        None => {
            proof {
                let x = amount as int * early_bird as int * difficulty as int;
                assert(x == base * difficulty);
                assert(x / 10000 > u64::MAX) by (nonlinear_arith)
                    requires x > u128::MAX;
            }
            None
        },
    }
}


/// Sum of a sequence of amounts.
pub open spec fn seq_sum(s: Seq<u64>) -> int
    decreases s.len(),
{
    if s.len() == 0 {
        0
    } else {
        seq_sum(s.drop_last()) + s.last()
    }
}

pub proof fn lemma_seq_sum_update(s: Seq<u64>, i: int, v: u64)
    requires
        0 <= i < s.len(),
    ensures
        seq_sum(s.update(i, v)) == seq_sum(s) - s[i] + v,
    decreases s.len(),
{
    let u = s.update(i, v);
    if i < s.len() - 1 {
        lemma_seq_sum_update(s.drop_last(), i, v);
        assert(u.drop_last() =~= s.drop_last().update(i, v));
    } else {
        assert(u.drop_last() =~= s.drop_last());
    }
}

pub proof fn lemma_seq_sum_bounds(s: Seq<u64>, i: int)
    requires
        0 <= i < s.len(),
    ensures
        0 <= s[i] <= seq_sum(s),
    decreases s.len(),
{
    lemma_seq_sum_nonneg(s.drop_last());
    if i < s.len() - 1 {
        lemma_seq_sum_bounds(s.drop_last(), i);
    }
}

pub proof fn lemma_seq_sum_nonneg(s: Seq<u64>)
    ensures
        seq_sum(s) >= 0,
    decreases s.len(),
{
    if s.len() > 0 {
        lemma_seq_sum_nonneg(s.drop_last());
    }
}

pub proof fn lemma_seq_sum_zeros(s: Seq<u64>)
    requires
        forall|i: int| 0 <= i < s.len() ==> s[i] == 0,
    ensures
        seq_sum(s) == 0,
    decreases s.len(),
{
    if s.len() > 0 {
        lemma_seq_sum_zeros(s.drop_last());
    }
}

/// What settling each of `stakes` takes out of the pool: payouts plus fees.
pub open spec fn total_settled(stakes: Seq<u64>, total_volume: int, correct_volume: int, fee_bps: int) -> int
    decreases stakes.len(),
{
    if stakes.len() == 0 {
        0
    } else {
        let a = stakes.last() as int;
        total_settled(stakes.drop_last(), total_volume, correct_volume, fee_bps) + payout_spec(
            a,
            total_volume,
            correct_volume,
            fee_bps,
        ) + fee_spec(user_share_spec(a, total_volume, correct_volume), fee_bps)
    }
}

proof fn lemma_settled_remainder(stakes: Seq<u64>, t: int, c: int, fee_bps: int)
    requires
        c > 0,
        t >= 0,
    ensures
        0 <= t * seq_sum(stakes) - c * total_settled(stakes, t, c, fee_bps) <= stakes.len() * (c
            - 1),
    decreases stakes.len(),
{
    if stakes.len() > 0 {
        let init = stakes.drop_last();
        let a = stakes.last() as int;
        lemma_settled_remainder(init, t, c, fee_bps);
        let share = user_share_spec(a, t, c);
        vstd::arithmetic::div_mod::lemma_fundamental_div_mod(a * t, c);
        let r = (a * t) % c;
        assert(a * t == c * share + r);
        let s0 = seq_sum(init);
        let p0 = total_settled(init, t, c, fee_bps);
        assert(seq_sum(stakes) == s0 + a);
        assert(total_settled(stakes, t, c, fee_bps) == p0 + share);
        let n0 = init.len() as int;
        assert(t * (s0 + a) - c * (p0 + share) == (t * s0 - c * p0) + (a * t - c * share))
            by (nonlinear_arith);
        assert(n0 * (c - 1) + (c - 1) == (n0 + 1) * (c - 1)) by (nonlinear_arith);
    }
}

/// Settling every winning stake of a resolved market, where the winning side's
/// volume is the sum of those stakes, pays out (fees included) no more than
/// the whole pool, and leaves less than one unit per winner undistributed.
pub proof fn lemma_settlement_conservation(stakes: Seq<u64>, total_volume: u64, fee_bps: u16)
    requires
        seq_sum(stakes) > 0,
        fee_bps <= 10000,
    ensures
        stakes.len() >= 1,
        total_settled(stakes, total_volume as int, seq_sum(stakes), fee_bps as int)
            <= total_volume,
        total_volume - total_settled(stakes, total_volume as int, seq_sum(stakes), fee_bps as int)
            <= stakes.len() - 1,
{
    let c = seq_sum(stakes);
    let t = total_volume as int;
    let p = total_settled(stakes, t, c, fee_bps as int);
    let n = stakes.len() as int;
    lemma_settled_remainder(stakes, t, c, fee_bps as int);
    assert(t * c - c * p == c * (t - p)) by (nonlinear_arith);
    assert(t - p >= 0) by (nonlinear_arith)
        requires c * (t - p) >= 0, c > 0;
    if n == 0 {
        assert(c == 0);
    }
    assert(t - p < n) by (nonlinear_arith)
        requires c * (t - p) <= n * (c - 1), c > 0, n >= 1;
}

} // verus!
