//! Player ratings and the Elo arithmetic behind them.

use vstd::prelude::*;

use crate::address::Address;
use crate::arith::{lemma_trunc_div_bounds, lemma_trunc_div_neg, signed32, trunc_div};

verus! {

#[derive(Copy, Clone, Debug, PartialEq, Eq, Structural)]
pub struct PlayerRating {
    pub address: Address,
    pub rating: i32,
    pub games_played: u32,
    pub wins: u32,
    pub losses: u32,
    pub draws: u32,
    pub highest_rating: i32,
    /// The ledger sequence of the last change.
    pub last_updated: u64,
}

impl PlayerRating {
    /// What holds of every rating that began with a registration.
    pub open spec fn wf(self) -> bool {
        &&& self.rating <= self.highest_rating
        &&& self.games_played == self.wins + self.losses + self.draws
    }
}

/// The rating of a player who has just registered.
pub open spec fn fresh_rating(player: Address, sequence: u32) -> PlayerRating {
    PlayerRating {
        address: player,
        rating: 1200,
        games_played: 0,
        wins: 0,
        losses: 0,
        draws: 0,
        highest_rating: 1200,
        last_updated: sequence as u64,
    }
}

/// The score that a player rated `rating_a` is expected to make against one
/// rated `rating_b`, in ten-thousandths: one half less the rating difference
/// over 800, held between 0.09 and 0.91.
pub open spec fn expected_score(rating_a: int, rating_b: int) -> int {
    let linear = 5000 - trunc_div((rating_b - rating_a) * 10000, 800);
    if linear < 900 {
        900
    } else if linear > 9100 {
        9100
    } else {
        linear
    }
}

/// `K * (S - E)`, with both scores in ten-thousandths, rounded toward zero.
pub open spec fn rating_change(expected: int, actual: int, k: int) -> int {
    trunc_div(k * (actual - expected), 10000)
}

/// The score of the first player under a result (1: first player won, 2:
/// second player won, 3: draw), in ten-thousandths.
pub open spec fn first_score(result: u32) -> int {
    if result == 1 {
        10000
    } else if result == 2 {
        0
    } else {
        5000
    }
}

/// The same result, seen from the second player's side.
pub open spec fn mirrored(result: u32) -> u32 {
    if result == 1 {
        2
    } else if result == 2 {
        1
    } else {
        result
    }
}

/// What a player's rating changes by in a game against `other`, where `result`
/// is seen from this player's side.
pub open spec fn change_against(own: int, other: int, result: u32, k: u32) -> int {
    rating_change(expected_score(own, other), first_score(result), signed32(k))
}

/// The record of a player after a game, where `result` is seen from this
/// player's side and `change` is what the rating changes by.
pub open spec fn after_game(
    own: PlayerRating,
    result: u32,
    change: int,
    sequence: u32,
) -> PlayerRating {
    let rating = (own.rating + change) as i32;
    PlayerRating {
        address: own.address,
        rating,
        games_played: (own.games_played + 1) as u32,
        wins: if result == 1 { (own.wins + 1) as u32 } else { own.wins },
        losses: if result == 2 { (own.losses + 1) as u32 } else { own.losses },
        draws: if result == 3 { (own.draws + 1) as u32 } else { own.draws },
        highest_rating: if rating > own.highest_rating { rating } else { own.highest_rating },
        last_updated: sequence as u64,
    }
}

/// Whether the record has room for one more game.
pub open spec fn game_fits(own: PlayerRating, result: u32, change: int) -> bool {
    &&& i32::MIN <= own.rating + change <= i32::MAX
    &&& own.games_played < u32::MAX
    &&& result == 1 ==> own.wins < u32::MAX
    &&& result == 2 ==> own.losses < u32::MAX
    &&& result == 3 ==> own.draws < u32::MAX
}

/// Two equally rated players are each expected to make half a point.
pub proof fn equal_ratings_expect_half(rating: int)
    ensures
        expected_score(rating, rating) == 5000,
{
}

/// A lead of 400 points or more is expected to make 0.91, and the other side
/// 0.09.
pub proof fn wide_lead_is_clamped(rating_a: int, rating_b: int)
    requires
        rating_a - rating_b >= 400,
    ensures
        expected_score(rating_a, rating_b) == 9100,
        expected_score(rating_b, rating_a) == 900,
{
}

/// The expected scores of two opponents add up to one point.
pub proof fn expected_scores_sum_to_one(rating_a: int, rating_b: int)
    ensures
        expected_score(rating_a, rating_b) + expected_score(rating_b, rating_a) == 10000,
        900 <= expected_score(rating_a, rating_b) <= 9100,
{
    lemma_trunc_div_neg((rating_b - rating_a) * 10000, 800);
    assert(-((rating_b - rating_a) * 10000) == (rating_a - rating_b) * 10000);
}

/// The stronger the opponent, the less a player is expected to score.
pub proof fn expected_score_falls_with_the_opponent(rating_a: int, rating_b: int, rating_c: int)
    requires
        rating_b <= rating_c,
    ensures
        expected_score(rating_a, rating_c) <= expected_score(rating_a, rating_b),
{
}

/// What one player gains in a game the other loses.
pub proof fn rating_changes_cancel(own: int, other: int, result: u32, k: u32)
    requires
        1 <= result <= 3,
    ensures
        change_against(own, other, result, k) + change_against(other, own, mirrored(result), k)
            == 0,
{
    expected_scores_sum_to_one(own, other);
    let d = first_score(result) - expected_score(own, other);
    let k = signed32(k);
    assert(first_score(mirrored(result)) - expected_score(other, own) == -d);
    assert(k * (-d) == -(k * d)) by (nonlinear_arith);
    lemma_trunc_div_neg(k * d, 10000);
}

/// With a K-factor between 1 and 100, a rating moves by at most K in one game;
/// a winner never loses points and a loser never gains any.
pub proof fn rating_change_is_bounded(own: int, other: int, result: u32, k: u32)
    requires
        1 <= result <= 3,
        1 <= k <= 100,
    ensures
        -(k as int) <= change_against(own, other, result, k) <= k,
        result == 1 ==> change_against(own, other, result, k) >= 0,
        result == 2 ==> change_against(own, other, result, k) <= 0,
{
    expected_scores_sum_to_one(own, other);
    let d = first_score(result) - expected_score(own, other);
    assert(-10000 <= d <= 10000);
    let k = k as int;
    assert(-(k * 10000) <= k * d <= k * 10000) by (nonlinear_arith)
        requires
            1 <= k,
            -10000 <= d <= 10000,
    ;
    assert(d >= 0 ==> k * d >= 0) by (nonlinear_arith)
        requires
            1 <= k,
    ;
    assert(d <= 0 ==> k * d <= 0) by (nonlinear_arith)
        requires
            1 <= k,
    ;
    lemma_trunc_div_bounds(k * d, 10000, k);
}

/// A draw never gains the stronger player points nor costs the weaker any.
pub proof fn draw_favours_the_weaker(stronger: int, weaker: int, k: u32)
    requires
        stronger >= weaker,
        1 <= k <= 100,
    ensures
        change_against(stronger, weaker, 3, k) <= 0,
        change_against(weaker, stronger, 3, k) >= 0,
{
    equal_ratings_expect_half(stronger);
    expected_score_falls_with_the_opponent(stronger, weaker, stronger);
    let d = 5000 - expected_score(stronger, weaker);
    let factor = k as int;
    assert(d <= 0 ==> factor * d <= 0) by (nonlinear_arith)
        requires
            1 <= factor,
    ;
    rating_changes_cancel(stronger, weaker, 3, k);
}

/// Against an equally rated opponent, a winner gains points as soon as the
/// K-factor is at least 2.
pub proof fn even_win_gains_points(rating: int, k: u32)
    requires
        2 <= k <= 100,
    ensures
        change_against(rating, rating, 1, k) > 0,
        change_against(rating, rating, 2, k) < 0,
        change_against(rating, rating, 3, k) == 0,
{
    equal_ratings_expect_half(rating);
    assert(rating_change(5000, 10000, k as int) > 0);
    assert(rating_change(5000, 0, k as int) < 0);
    assert(signed32(k) * (5000 - 5000) == 0) by (nonlinear_arith);
}

} // verus!
