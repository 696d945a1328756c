//! Ratings and the arithmetic behind them.

use game_contract::address::Address;
use game_contract::contract::GameContract;
use game_contract::error::ContractError;
use game_contract::model::Effect;
use game_contract::rating::PlayerRating;
use soroban_sdk::Env;

fn address(n: u128) -> Address {
    Address::account(4, n)
}

fn rated(env: &Env, rating1: i32, rating2: i32) -> GameContract {
    let mut contract = GameContract::new(env);
    for (player, rating) in [(address(1), rating1), (address(2), rating2)] {
        let fresh = contract.register_player(player, 3);
        contract.ratings.set(player, PlayerRating { rating, highest_rating: rating, ..fresh });
    }
    contract.take_effects();
    contract
}

fn expected(rating_a: i32, rating_b: i32) -> i32 {
    GameContract::calculate_expected_score_scaled(rating_a, rating_b)
}

fn change(expected: i32, actual: i32, k_factor: u32) -> i32 {
    GameContract::calculate_rating_change_scaled(expected, actual, k_factor)
}

#[test]
fn expected_score_is_linear_in_the_difference() {
    assert_eq!(expected(1200, 1200), 5000);
    assert_eq!(expected(1200, 1400), 2500);
    assert_eq!(expected(1400, 1200), 7500);
    assert_eq!(expected(1200, 1201), 4988);
    assert_eq!(expected(1201, 1200), 5012);
    assert_eq!(expected(1200, 1527), 913);
}

#[test]
fn expected_score_is_clamped() {
    assert_eq!(expected(1200, 1600), 900);
    assert_eq!(expected(1600, 1200), 9100);
    assert_eq!(expected(1200, 1528), 900);
    assert_eq!(expected(i32::MIN, i32::MAX), 900);
    assert_eq!(expected(i32::MAX, i32::MIN), 9100);
}

#[test]
fn expected_scores_sum_to_one() {
    for difference in [0, 1, 7, 55, 200, 327, 328, 400, 4_000] {
        assert_eq!(expected(1200, 1200 + difference) + expected(1200 + difference, 1200), 10_000);
    }
}

#[test]
fn rating_change_follows_the_formula() {
    assert_eq!(change(5000, 10000, 32), 16);
    assert_eq!(change(5000, 0, 32), -16);
    assert_eq!(change(5000, 5000, 32), 0);
    assert_eq!(change(2500, 10000, 32), 24);
    assert_eq!(change(900, 10000, 100), 91);
    assert_eq!(change(9100, 10000, 32), 2);
    assert_eq!(change(900, 0, 32), -2);
    assert_eq!(change(0, 10000, u32::MAX), -1);
}

#[test]
fn registering_twice_is_registering_once() {
    let env = Env::default();
    let mut contract = GameContract::new(&env);
    let first = contract.register_player(address(1), 3);
    assert_eq!(
        first,
        PlayerRating {
            address: address(1),
            rating: 1200,
            games_played: 0,
            wins: 0,
            losses: 0,
            draws: 0,
            highest_rating: 1200,
            last_updated: 3,
        }
    );
    assert_eq!(contract.register_player(address(1), 9), first);
    assert_eq!(contract.get_player_rating(address(1)), Ok(first));
    assert_eq!(
        contract.get_player_rating(address(2)),
        Err(ContractError::RatingNotFound)
    );
    assert_eq!(
        contract.take_effects(),
        vec![
            Effect::Authorisation { by: address(1) },
            Effect::PlayerRegistered { player: address(1), rating: 1200 },
            Effect::Authorisation { by: address(1) },
        ]
    );
}

#[test]
fn win_between_equals_moves_sixteen_points() {
    let env = Env::default();
    let mut contract = rated(&env, 1200, 1200);
    let (first, second) = contract.update_ratings(address(1), address(2), 1, 8).unwrap();
    assert_eq!(first.rating, 1216);
    assert_eq!(first.highest_rating, 1216);
    assert_eq!((first.wins, first.losses, first.draws, first.games_played), (1, 0, 0, 1));
    assert_eq!(second.rating, 1184);
    assert_eq!(second.highest_rating, 1200);
    assert_eq!((second.wins, second.losses, second.draws, second.games_played), (0, 1, 0, 1));
    assert_eq!(first.last_updated, 8);
    assert_eq!(second.last_updated, 8);
    assert_eq!(contract.get_player_rating(address(1)), Ok(first));
    assert_eq!(contract.get_player_rating(address(2)), Ok(second));
    assert_eq!(
        contract.take_effects(),
        vec![Effect::RatingsUpdated {
            player1: address(1),
            rating1: 1216,
            player2: address(2),
            rating2: 1184,
        }]
    );
}

#[test]
fn upset_moves_more_points() {
    let env = Env::default();
    let mut contract = rated(&env, 1200, 1400);
    let (first, second) = contract.update_ratings(address(1), address(2), 1, 8).unwrap();
    assert_eq!((first.rating, second.rating), (1224, 1376));
    let mut contract = rated(&env, 1200, 1400);
    let (first, second) = contract.update_ratings(address(1), address(2), 2, 8).unwrap();
    assert_eq!((first.rating, second.rating), (1192, 1408));
    assert_eq!((first.losses, second.wins), (1, 1));
}

#[test]
fn draw_favours_the_lower_rating() {
    let env = Env::default();
    let mut contract = rated(&env, 1200, 1400);
    let (first, second) = contract.update_ratings(address(1), address(2), 3, 8).unwrap();
    assert_eq!((first.rating, second.rating), (1208, 1392));
    assert_eq!((first.draws, second.draws), (1, 1));
    assert_eq!(second.highest_rating, 1400);
}

#[test]
fn points_are_conserved() {
    let env = Env::default();
    for (rating1, rating2) in [(1200, 1200), (1000, 1333), (2500, 900), (1201, 1200)] {
        for result in 1..=3u32 {
            let mut contract = rated(&env, rating1, rating2);
            let (first, second) =
                contract.update_ratings(address(1), address(2), result, 8).unwrap();
            assert_eq!(first.rating + second.rating, rating1 + rating2);
        }
    }
}

#[test]
fn results_are_refused() {
    let env = Env::default();
    let mut contract = GameContract::new(&env);
    contract.register_player(address(1), 3);
    for result in [0, 4, u32::MAX] {
        assert!(contract.update_ratings_fits(address(1), address(2), result));
        assert_eq!(
            contract.update_ratings(address(1), address(2), result, 8),
            Err(ContractError::InvalidMove)
        );
    }
    assert_eq!(
        contract.update_ratings(address(1), address(2), 1, 8),
        Err(ContractError::RatingNotFound)
    );
    assert_eq!(
        contract.update_ratings(address(2), address(1), 1, 8),
        Err(ContractError::RatingNotFound)
    );
}

#[test]
fn result_out_of_range_does_not_fit() {
    let env = Env::default();
    let mut contract = rated(&env, i32::MAX - 2, 1200);
    assert!(contract.update_ratings_fits(address(1), address(2), 1));
    let fresh = contract.get_player_rating(address(1)).unwrap();
    contract.ratings.set(address(1), PlayerRating { rating: i32::MAX - 1, ..fresh });
    assert!(!contract.update_ratings_fits(address(1), address(2), 1));
    assert!(contract.update_ratings_fits(address(1), address(2), 2));
    contract.ratings.set(address(1), PlayerRating { games_played: u32::MAX, ..fresh });
    assert!(!contract.update_ratings_fits(address(1), address(2), 2));
    contract.ratings.set(address(1), PlayerRating { losses: u32::MAX, ..fresh });
    assert!(!contract.update_ratings_fits(address(1), address(2), 2));
    assert!(contract.update_ratings_fits(address(1), address(2), 3));
}

#[test]
fn player_against_themselves_keeps_the_second_record() {
    let env = Env::default();
    let mut contract = rated(&env, 1200, 1200);
    let (first, second) = contract.update_ratings(address(1), address(1), 1, 8).unwrap();
    assert_eq!((first.rating, second.rating), (1216, 1184));
    assert_eq!(contract.get_player_rating(address(1)), Ok(second));
}
