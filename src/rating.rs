//! Play ratings and the player's overall rating, in exact fixed point.
//!
//! A chart's base rating is kept in hundredths (10.7 is `1070`). A play rating
//! is kept in units of 1/600000, the least common unit of the two fractional
//! steps of the rating formula, so every rating is an exact integer.
use vstd::prelude::*;

verus! {

/// One whole rating point, in play-rating units.
pub const RATING_UNIT: u64 = 600_000;

/// Play-rating units per hundredth of a base rating.
pub const UNITS_PER_BASE_HUNDREDTH: u64 = 6_000;

/// Score from which a play earns the full bonus of two points.
pub const PERFECT_SCORE: isize = 10_000_000;

/// Score from which a play earns at least one point above the base rating.
pub const EX_SCORE: isize = 9_800_000;

/// Score at which a play is rated exactly at the base rating.
pub const BASE_SCORE: isize = 9_500_000;

/// The largest play rating: a base rating of `u32::MAX` hundredths plus two points.
pub const MAX_PLAY_RATING: u64 = 25_769_803_770_000 + 1_200_000;

/// The rating of a play, in play-rating units, for a base rating in hundredths:
/// base + 2 from a perfect score on, base + 1 + (score - 9,800,000) / 200,000
/// from 9,800,000 on, and base + (score - 9,500,000) / 300,000 below that,
/// never less than zero.
pub open spec fn play_rating_spec(base_rating: int, score: int) -> int {
    let base = base_rating * 6000;
    if score >= 10_000_000 {
        base + 1_200_000
    } else if score >= 9_800_000 {
        base + 600_000 + (score - 9_800_000) * 3
    } else if base + (score - 9_500_000) * 2 < 0 {
        0
    } else {
        base + (score - 9_500_000) * 2
    }
}

/// Rates one play of a chart whose base rating is `base_rating` hundredths.
pub fn play_rating(base_rating: u32, score: isize) -> (r: u64)
    ensures
        r as int == play_rating_spec(base_rating as int, score as int),
        r <= MAX_PLAY_RATING,
{
    let base: u64 = base_rating as u64 * UNITS_PER_BASE_HUNDREDTH;
    if score >= PERFECT_SCORE {
        base + 2 * RATING_UNIT
    } else if score >= EX_SCORE {
        base + RATING_UNIT + (score - EX_SCORE) as u64 * 3
    } else if score >= BASE_SCORE {
        base + (score - BASE_SCORE) as u64 * 2
    } else {
        let deficit: i128 = (BASE_SCORE as i128 - score as i128) * 2;
        if deficit >= base as i128 {
            0
        } else {
            base - deficit as u64
        }
    }
}

/// A perfect score earns exactly two points above the base rating.
pub proof fn lemma_perfect_score_rating(base_rating: int, score: int)
    requires
        base_rating >= 0,
        score >= 10_000_000,
    ensures
        play_rating_spec(base_rating, score) == base_rating * 6000 + 2 * RATING_UNIT,
{
}

/// Between 9,500,000 and 9,800,000 a play rating is never negative and grows
/// strictly with the score.
pub proof fn lemma_rating_grows_below_ex(base_rating: int, score1: int, score2: int)
    requires
        base_rating >= 0,
        9_500_000 <= score1 < score2 < 9_800_000,
    ensures
        play_rating_spec(base_rating, score1) >= 0,
        play_rating_spec(base_rating, score1) < play_rating_spec(base_rating, score2),
{
}

/// No play rating is negative, whatever the base rating and the score.
pub proof fn lemma_rating_not_negative(base_rating: int, score: int)
    requires
        base_rating >= 0,
    ensures
        play_rating_spec(base_rating, score) >= 0,
{
}

/// `a / b` rounded to the nearest integer, halves rounded up.
pub open spec fn round_div(a: int, b: int) -> int {
    (2 * a + b) / (2 * b)
}

/// The overall rating: the mean of the best and recent play ratings taken
/// together, times 100, rounded. With no rating at all it is zero.
pub open spec fn player_rating_spec(best_sum: int, best_count: int, recent_sum: int, recent_count: int) -> int {
    let count = best_count + recent_count;
    let divisor = if count == 0 { 1 } else { count };
    round_div(100 * (best_sum + recent_sum), divisor * RATING_UNIT)
}

/// Computes the overall rating from the sums and counts of the best and the
/// recent play ratings.
pub fn player_rating(best_sum: u64, best_count: u64, recent_sum: u64, recent_count: u64) -> (r: u64)
    requires
        best_count <= 30,
        recent_count <= 30,
        best_sum <= 30 * MAX_PLAY_RATING,
        recent_sum <= 30 * MAX_PLAY_RATING,
    ensures
        r as int == player_rating_spec(best_sum as int, best_count as int, recent_sum as int, recent_count as int),
{
    let count = best_count + recent_count;
    let divisor: u64 = if count == 0 { 1 } else { count };
    proof {
        assert(divisor * RATING_UNIT <= 60 * RATING_UNIT) by (nonlinear_arith)
            requires
                divisor <= 60,
        ;
    }
    let total = best_sum + recent_sum;
    let denominator = divisor * RATING_UNIT;
    (2 * (100 * total) + denominator) / (2 * denominator)
}

/// Position of the largest value of `s`, the first one on ties.
pub open spec fn max_position(s: Seq<u64>) -> int
    decreases s.len(),
{
    if s.len() <= 1 {
        0
    } else {
        let i = max_position(s.drop_last());
        if s.last() > s[i] {
            s.len() - 1
        } else {
            i
        }
    }
}

/// Sum of the `k` largest values of `s`, or of all of them when there are
/// fewer: the largest, plus the `k - 1` largest of the rest.
pub open spec fn top_sum(s: Seq<u64>, k: nat) -> int
    decreases k,
{
    if k == 0 || s.len() == 0 {
        0
    } else {
        let i = max_position(s);
        s[i] + top_sum(s.remove(i), (k - 1) as nat)
    }
}

/// Sum of all values of `s`.
pub open spec fn sum_of(s: Seq<u64>) -> int
    decreases s.len(),
{
    if s.len() == 0 {
        0
    } else {
        sum_of(s.drop_last()) + s.last()
    }
}

/// Every value of `s` is a possible play rating.
pub open spec fn all_play_ratings(s: Seq<u64>) -> bool {
    forall|i: int| 0 <= i < s.len() ==> s[i] <= MAX_PLAY_RATING
}

pub proof fn lemma_max_position_in_range(s: Seq<u64>)
    requires
        s.len() > 0,
    ensures
        0 <= max_position(s) < s.len(),
    decreases s.len(),
{
    if s.len() > 1 {
        lemma_max_position_in_range(s.drop_last());
    }
}

proof fn lemma_next_bound(acc: int, x: int, n: int)
    requires
        0 <= n < 40,
        0 <= acc <= n * MAX_PLAY_RATING,
        0 <= x <= MAX_PLAY_RATING,
    ensures
        acc + x <= (n + 1) * MAX_PLAY_RATING,
        (n + 1) * MAX_PLAY_RATING <= 40 * MAX_PLAY_RATING,
{
    assert((n + 1) * MAX_PLAY_RATING == n * MAX_PLAY_RATING + MAX_PLAY_RATING) by (nonlinear_arith);
    assert((n + 1) * MAX_PLAY_RATING <= 40 * MAX_PLAY_RATING) by (nonlinear_arith)
        requires
            n < 40,
    ;
}

/// Finds the position of the largest value, the first one on ties.
fn find_max_position(v: &Vec<u64>) -> (i: usize)
    requires
        v.len() > 0,
    ensures
        i as int == max_position(v@),
        i < v.len(),
{
    let mut best: usize = 0;
    let mut j: usize = 1;
    while j < v.len()
        invariant
            1 <= j <= v.len(),
            best < j,
            best as int == max_position(v@.subrange(0, j as int)),
        decreases v.len() - j,
    {
        assert(v@.subrange(0, j + 1).drop_last() =~= v@.subrange(0, j as int));
        if v[j] > v[best] {
            best = j;
        }
        j += 1;
    }
    assert(v@.subrange(0, v.len() as int) =~= v@);
    best
}

/// Sums the `k` largest of the given play ratings.
pub fn sum_of_top(values: Vec<u64>, k: usize) -> (r: u64)
    requires
        k <= 30,
        all_play_ratings(values@),
    ensures
        r as int == top_sum(values@, k as nat),
        r <= 30 * MAX_PLAY_RATING,
{
    let mut rest = values;
    let mut acc: u64 = 0;
    let mut taken: usize = 0;
    while taken < k && rest.len() > 0
        invariant
            taken <= k <= 30,
            all_play_ratings(rest@),
            acc + top_sum(rest@, (k - taken) as nat) == top_sum(values@, k as nat),
            acc <= taken * MAX_PLAY_RATING,
        decreases k - taken,
    {
        let i = find_max_position(&rest);
        let ghost before = rest@;
        let x = rest.remove(i);
        proof {
            assert(x == before[i as int]);
            assert(all_play_ratings(rest@));
            lemma_next_bound(acc as int, x as int, taken as int);
        }
        acc = acc + x;
        taken = taken + 1;
    }
    assert(taken * MAX_PLAY_RATING <= 30 * MAX_PLAY_RATING) by (nonlinear_arith)
        requires
            taken <= 30,
    ;
    acc
}

/// Sums the given play ratings.
pub fn sum_of_all(values: &Vec<u64>) -> (r: u64)
    requires
        values.len() <= 30,
        all_play_ratings(values@),
    ensures
        r as int == sum_of(values@),
        r <= 30 * MAX_PLAY_RATING,
{
    let mut acc: u64 = 0;
    let mut i: usize = 0;
    while i < values.len()
        invariant
            i <= values.len() <= 30,
            all_play_ratings(values@),
            acc as int == sum_of(values@.subrange(0, i as int)),
            acc <= i * MAX_PLAY_RATING,
        decreases values.len() - i,
    {
        assert(values@.subrange(0, i + 1).drop_last() =~= values@.subrange(0, i as int));
        proof {
            lemma_next_bound(acc as int, values[i as int] as int, i as int);
        }
        acc = acc + values[i];
        i += 1;
    }
    assert(values@.subrange(0, values.len() as int) =~= values@);
    assert(i * MAX_PLAY_RATING <= 30 * MAX_PLAY_RATING) by (nonlinear_arith)
        requires
            i <= 30,
    ;
    acc
}

/// The sum of the `k` largest of some play ratings is between zero and `k`
/// times the largest play rating.
pub proof fn lemma_top_sum_bound(s: Seq<u64>, k: nat)
    requires
        all_play_ratings(s),
    ensures
        0 <= top_sum(s, k) <= k * MAX_PLAY_RATING,
    decreases k,
{
    if k > 0 && s.len() > 0 {
        let i = max_position(s);
        lemma_max_position_in_range(s);
        let rest = s.remove(i);
        assert(all_play_ratings(rest));
        lemma_top_sum_bound(rest, (k - 1) as nat);
        assert(k * MAX_PLAY_RATING == (k - 1) * MAX_PLAY_RATING + MAX_PLAY_RATING) by (nonlinear_arith)
            requires
                k > 0,
        ;
    }
}

/// The sum of some play ratings is between zero and their number times the
/// largest play rating.
pub proof fn lemma_sum_of_bound(s: Seq<u64>)
    requires
        all_play_ratings(s),
    ensures
        0 <= sum_of(s) <= s.len() * MAX_PLAY_RATING,
    decreases s.len(),
{
    if s.len() > 0 {
        assert(all_play_ratings(s.drop_last()));
        lemma_sum_of_bound(s.drop_last());
        assert(s.len() * MAX_PLAY_RATING == (s.len() - 1) * MAX_PLAY_RATING + MAX_PLAY_RATING) by (nonlinear_arith)
            requires
                s.len() > 0,
        ;
    }
}

} // verus!
