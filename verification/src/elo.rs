//! What registering a player and taking a result into the ratings come to.

use vstd::prelude::*;

use crate::address::Address;
use crate::arith::{
    division_rounds_toward_zero, quotient_is_unique, rounds_toward_zero, signed32,
};
use crate::error::ContractError;
use crate::model::{ContractModel, Effect};
use crate::rating::{expected_score, first_score, mirrored, rating_change};

verus! {

/// The expected score is one half less the rating difference over 800, in
/// ten-thousandths with the fraction cut off, and is held between 900 and 9100.
pub proof fn expected_score_is_linear_until_held(rating_a: int, rating_b: int)
    ensures
        ({
            let lead = rating_b - rating_a;
            let expected = expected_score(rating_a, rating_b);
            &&& lead >= 328 ==> expected == 900
            &&& lead <= -328 ==> expected == 9100
            &&& -328 <= lead <= 328 ==> rounds_toward_zero(lead * 10000, 800, 5000 - expected)
            &&& 0 <= lead <= 328 ==> expected == 5000 - lead * 10000 / 800
            &&& -328 <= lead <= 0 ==> expected == 5000 + -lead * 10000 / 800
        }),
{
    division_rounds_toward_zero((rating_b - rating_a) * 10000, 800);
}

/// A rating changes by the K-factor times the difference of the scores, over ten
/// thousand with the fraction cut off.
pub proof fn rating_change_is_scaled(expected: int, actual: int, k: int)
    ensures
        rounds_toward_zero(k * (actual - expected), 10000, rating_change(expected, actual, k)),
{
    division_rounds_toward_zero(k * (actual - expected), 10000);
}

/// A player who registers is asked for their authorisation. A new player is
/// entered at 1200 without any game, and that is announced; of a registered one
/// the rating on record is returned. Nothing else changes.
pub proof fn new_player_starts_at_1200(s: ContractModel, player: Address, sequence: u32)
    ensures
        ({
            let (rating, t) = s.register_player(player, sequence);
            let asked = Effect::Authorisation { by: player };
            &&& s.ratings.contains_key(player) ==> {
                &&& rating == s.ratings[player]
                &&& t == (ContractModel { effects: s.effects.push(asked), ..s })
            }
            &&& !s.ratings.contains_key(player) ==> {
                &&& rating.address == player
                &&& rating.rating == 1200
                &&& rating.games_played == 0
                &&& rating.wins == 0
                &&& rating.losses == 0
                &&& rating.draws == 0
                &&& rating.highest_rating == 1200
                &&& rating.last_updated == sequence
                &&& t == (ContractModel {
                    ratings: s.ratings.insert(player, rating),
                    effects: t.effects,
                    ..s
                })
                &&& t.effects == s.effects + seq![
                    asked,
                    Effect::PlayerRegistered { player, rating: 1200 },
                ]
            }
        }),
{
    let t = s.register_player(player, sequence).1;
    if !s.ratings.contains_key(player) {
        assert(t.effects =~= s.effects + seq![
            Effect::Authorisation { by: player },
            Effect::PlayerRegistered { player, rating: 1200 },
        ]);
    }
}

/// A result is taken exactly when it is 1, 2 or 3 and both players are
/// registered. Each refusal has its error and changes nothing.
pub proof fn result_needs_registered_players(
    s: ContractModel,
    player1: Address,
    player2: Address,
    result: u32,
    sequence: u32,
)
    ensures
        ({
            let (answer, t) = s.update_ratings(player1, player2, result, sequence);
            let known = result == 1 || result == 2 || result == 3;
            let registered = s.ratings.contains_key(player1) && s.ratings.contains_key(player2);
            &&& answer is Ok <==> known && registered
            &&& answer is Err ==> t == s
            &&& !known ==> (answer matches Err(e) && e == ContractError::InvalidMove)
            &&& known && !registered ==> (answer matches Err(e) && e
                == ContractError::RatingNotFound)
        }),
{
}

/// A game that is taken into the ratings adds `K * (S - E)` to each of them, with
/// the K-factor that was set, or 32 where none was. `S` is all for a win, nothing
/// for a loss and half for a draw. Each record counts the game and its outcome
/// and keeps the best rating. Both records are written, the second one last, and
/// the new ratings are announced; nothing else changes.
///
/// `change1` and `change2` are what the two ratings change by.
pub proof fn result_moves_both_ratings(
    s: ContractModel,
    player1: Address,
    player2: Address,
    result: u32,
    sequence: u32,
    change1: int,
    change2: int,
)
    requires
        s.update_ratings(player1, player2, result, sequence).0 is Ok,
        ({
            let before1 = s.ratings[player1];
            let before2 = s.ratings[player2];
            let k: int = match s.k_factor {
                Some(k) if k <= 0x7fff_ffff => k as int,
                Some(k) => k - 0x1_0000_0000,
                None => 32,
            };
            let score: int = if result == 1 {
                10000
            } else if result == 2 {
                0
            } else {
                5000
            };
            let expected1 = expected_score(before1.rating as int, before2.rating as int);
            let expected2 = expected_score(before2.rating as int, before1.rating as int);
            &&& rounds_toward_zero(k * (score - expected1), 10000, change1)
            &&& rounds_toward_zero(k * (10000 - score - expected2), 10000, change2)
            &&& i32::MIN <= before1.rating + change1 <= i32::MAX
            &&& i32::MIN <= before2.rating + change2 <= i32::MAX
            &&& before1.games_played < u32::MAX && before2.games_played < u32::MAX
            &&& result == 1 ==> before1.wins < u32::MAX && before2.losses < u32::MAX
            &&& result == 2 ==> before1.losses < u32::MAX && before2.wins < u32::MAX
            &&& result == 3 ==> before1.draws < u32::MAX && before2.draws < u32::MAX
        }),
    ensures
        ({
            let (answer, t) = s.update_ratings(player1, player2, result, sequence);
            let (after1, after2) = answer.unwrap();
            let before1 = s.ratings[player1];
            let before2 = s.ratings[player2];
            &&& after1.address == before1.address
            &&& after1.rating == before1.rating + change1
            &&& after1.games_played == before1.games_played + 1
            &&& after1.wins == before1.wins + (if result == 1 {
                1int
            } else {
                0
            })
            &&& after1.losses == before1.losses + (if result == 2 {
                1int
            } else {
                0
            })
            &&& after1.draws == before1.draws + (if result == 3 {
                1int
            } else {
                0
            })
            &&& after1.highest_rating >= before1.highest_rating
            &&& after1.highest_rating >= after1.rating
            &&& after1.highest_rating == before1.highest_rating || after1.highest_rating
                == after1.rating
            &&& after1.last_updated == sequence
            &&& after2.address == before2.address
            &&& after2.rating == before2.rating + change2
            &&& after2.games_played == before2.games_played + 1
            &&& after2.wins == before2.wins + (if result == 2 {
                1int
            } else {
                0
            })
            &&& after2.losses == before2.losses + (if result == 1 {
                1int
            } else {
                0
            })
            &&& after2.draws == before2.draws + (if result == 3 {
                1int
            } else {
                0
            })
            &&& after2.highest_rating >= before2.highest_rating
            &&& after2.highest_rating >= after2.rating
            &&& after2.highest_rating == before2.highest_rating || after2.highest_rating
                == after2.rating
            &&& after2.last_updated == sequence
            &&& t == (ContractModel {
                ratings: s.ratings.insert(player1, after1).insert(player2, after2),
                effects: s.effects.push(
                    Effect::RatingsUpdated {
                        player1,
                        rating1: after1.rating,
                        player2,
                        rating2: after2.rating,
                    },
                ),
                ..s
            })
        }),
{
    let before1 = s.ratings[player1].rating as int;
    let before2 = s.ratings[player2].rating as int;
    let k = signed32(s.k());
    lemma_change(k, first_score(result), expected_score(before1, before2), change1);
    lemma_change(k, first_score(mirrored(result)), expected_score(before2, before1), change2);
}

proof fn lemma_change(k: int, score: int, expected: int, change: int)
    requires
        rounds_toward_zero(k * (score - expected), 10000, change),
    ensures
        rating_change(expected, score, k) == change,
{
    rating_change_is_scaled(expected, score, k);
    quotient_is_unique(
        k * (score - expected),
        10000,
        change,
        rating_change(expected, score, k),
    );
}

/// A result can be asked for whenever it is refused, or the products behind both
/// changes, both new ratings and the counters that rise are in range.
pub proof fn results_can_be_asked_for(
    s: ContractModel,
    player1: Address,
    player2: Address,
    result: u32,
    sequence: u32,
    change1: int,
    change2: int,
)
    requires
        ({
            let k: int = match s.k_factor {
                Some(k) if k <= 0x7fff_ffff => k as int,
                Some(k) => k - 0x1_0000_0000,
                None => 32,
            };
            let score: int = if result == 1 {
                10000
            } else if result == 2 {
                0
            } else {
                5000
            };
            let rating1 = s.ratings[player1].rating as int;
            let rating2 = s.ratings[player2].rating as int;
            &&& rounds_toward_zero(
                k * (score - expected_score(rating1, rating2)),
                10000,
                change1,
            )
            &&& rounds_toward_zero(
                k * (10000 - score - expected_score(rating2, rating1)),
                10000,
                change2,
            )
        }),
    ensures
        ({
            let before1 = s.ratings[player1];
            let before2 = s.ratings[player2];
            let k: int = match s.k_factor {
                Some(k) if k <= 0x7fff_ffff => k as int,
                Some(k) => k - 0x1_0000_0000,
                None => 32,
            };
            let score: int = if result == 1 {
                10000
            } else if result == 2 {
                0
            } else {
                5000
            };
            let expected1 = expected_score(before1.rating as int, before2.rating as int);
            let expected2 = expected_score(before2.rating as int, before1.rating as int);
            s.update_ratings_fits(player1, player2, result) <==> {
                ||| s.update_ratings(player1, player2, result, sequence).0 is Err
                ||| {
                    &&& i32::MIN <= k * (score - expected1) <= i32::MAX
                    &&& i32::MIN <= k * (10000 - score - expected2) <= i32::MAX
                    &&& i32::MIN <= before1.rating + change1 <= i32::MAX
                    &&& i32::MIN <= before2.rating + change2 <= i32::MAX
                    &&& before1.games_played < u32::MAX && before2.games_played < u32::MAX
                    &&& result == 1 ==> before1.wins < u32::MAX && before2.losses < u32::MAX
                    &&& result == 2 ==> before1.losses < u32::MAX && before2.wins < u32::MAX
                    &&& result == 3 ==> before1.draws < u32::MAX && before2.draws < u32::MAX
                }
            }
        }),
{
    if s.update_ratings(player1, player2, result, sequence).0 is Ok {
        let before1 = s.ratings[player1].rating as int;
        let before2 = s.ratings[player2].rating as int;
        let k = signed32(s.k());
        lemma_change(k, first_score(result), expected_score(before1, before2), change1);
        lemma_change(k, first_score(mirrored(result)), expected_score(before2, before1), change2);
    }
}

/// The K-factor that was set last is the one that counts: between equals a win
/// gains half of it, with the fraction cut off, and a loss costs as much.
pub proof fn set_k_factor_governs_results(
    s: ContractModel,
    admin: Address,
    k_factor: u32,
    player1: Address,
    player2: Address,
    sequence: u32,
)
    requires
        1 <= k_factor <= 100,
        s.ratings.contains_key(player1),
        s.ratings.contains_key(player2),
        s.ratings[player1].rating == s.ratings[player2].rating,
        i32::MIN + 100 <= s.ratings[player1].rating <= i32::MAX - 100,
    ensures
        ({
            let t = s.initialize_elo_system(admin, k_factor);
            let before = s.ratings[player1].rating;
            &&& t.update_ratings(player1, player2, 1, sequence).0 matches Ok((winner, loser))
                && winner.rating == before + k_factor / 2 && loser.rating == before - k_factor / 2
            &&& t.update_ratings(player1, player2, 2, sequence).0 matches Ok((loser, winner))
                && winner.rating == before + k_factor / 2 && loser.rating == before - k_factor / 2
            &&& t.update_ratings(player1, player2, 3, sequence).0 matches Ok((first, second))
                && first.rating == before && second.rating == before
        }),
{
    let k = k_factor as int;
    assert(rating_change(5000, 10000, k) == k / 2);
    assert(rating_change(5000, 0, k) == -(k / 2));
    assert(k * (5000 - 5000) == 0) by (nonlinear_arith);
}

/// Without a K-factor a win between equals gains 16 points.
pub proof fn default_k_factor_is_32(
    s: ContractModel,
    player1: Address,
    player2: Address,
    sequence: u32,
)
    requires
        s.k_factor is None,
        s.ratings.contains_key(player1),
        s.ratings.contains_key(player2),
        s.ratings[player1].rating == s.ratings[player2].rating,
        i32::MIN + 16 <= s.ratings[player1].rating <= i32::MAX - 16,
    ensures
        s.update_ratings(player1, player2, 1, sequence).0 matches Ok((winner, loser))
            && winner.rating == s.ratings[player1].rating + 16 && loser.rating
            == s.ratings[player2].rating - 16,
{
    assert(rating_change(5000, 10000, 32) == 16);
    assert(rating_change(5000, 0, 32) == -16);
}

} // verus!
