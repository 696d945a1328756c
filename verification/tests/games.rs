//! The life of a game, from its creation to its end.

use game_contract::address::Address;
use game_contract::contract::GameContract;
use game_contract::error::ContractError;
use game_contract::game::{Game, GameState};
use game_contract::model::Effect;
use soroban_sdk::Env;

fn address(n: u128) -> Address {
    Address::account(7, n)
}

const ALICE: u128 = 1;
const BOB: u128 = 2;
const CAROL: u128 = 3;

fn with_token(env: &Env) -> GameContract {
    let mut contract = GameContract::new(env);
    contract.initialize_token(address(90), address(91));
    contract.take_effects();
    contract
}

/// A game of Alice and Bob over 100 tokens each.
fn running_game(env: &Env) -> (GameContract, u64) {
    let mut contract = with_token(env);
    let id = contract.create_game(address(ALICE), 100, 1_000, 5).unwrap();
    contract.join_game(id, address(BOB), 1_000).unwrap();
    contract.take_effects();
    (contract, id)
}

/// The running game, marked as completed and won by Bob.
fn completed_game(env: &Env) -> (GameContract, u64) {
    let (mut contract, id) = running_game(env);
    let game = contract.get_game(id).unwrap();
    contract.games.set(
        id,
        Game { state: GameState::Completed, winner: Some(address(BOB)), ..game },
    );
    (contract, id)
}

#[test]
fn blank_contract_has_defaults() {
    let env = Env::default();
    let mut contract = GameContract::new(&env);
    assert_eq!(contract.create_game_refusal(1_000), None);
    assert_eq!(contract.create_game_refusal(1_001), Some(ContractError::StakeLimitExceeded));
    assert_eq!(contract.treasury_balance(), 0);
    assert_eq!(contract.reward_balance(address(ALICE)), 0);
    assert_eq!(contract.get_game(1).unwrap_err(), ContractError::GameNotFound);
    assert!(contract.get_all_games().get(1).is_none());
    assert!(contract.take_effects().is_empty());
}

#[test]
fn created_game_is_read_back() {
    let env = Env::default();
    let mut contract = with_token(&env);
    assert!(contract.create_game_fits(address(ALICE), 100, 1_000));
    let id = contract.create_game(address(ALICE), 100, 1_000, 5).unwrap();
    assert_eq!(id, 1);
    assert_eq!(
        contract.take_effects(),
        vec![
            Effect::Authorisation { by: address(ALICE) },
            Effect::Deposit { from: address(ALICE), amount: 100 },
        ]
    );
    assert!(contract.take_effects().is_empty());

    let game = contract.get_game(id).unwrap();
    assert_eq!(game.id, 1);
    assert_eq!(game.player1, address(ALICE));
    assert_eq!(game.player2, None);
    assert_eq!(game.state, GameState::Created);
    assert_eq!(game.wager_amount, 100);
    assert_eq!(game.current_turn, 1);
    assert!(game.moves.is_empty());
    assert_eq!(game.created_at, 5);
    assert_eq!(game.winner, None);
    assert_eq!(contract.escrow.balance(address(ALICE)), 100);
}

#[test]
fn games_are_numbered_in_order() {
    let env = Env::default();
    let mut contract = with_token(&env);
    for expected in 1..=3u64 {
        assert_eq!(contract.create_game(address(ALICE), 10, 1_000, 5), Ok(expected));
    }
    let games = contract.get_all_games();
    assert_eq!(games.ids(), vec![1, 2, 3]);
    assert_eq!(games.get(3).unwrap().id, 3);
    assert!(games.get(4).is_none());
    assert_eq!(contract.escrow.balance(address(ALICE)), 30);
}

#[test]
fn listing_is_in_ascending_order() {
    let env = Env::default();
    let (contract, id) = running_game(&env);
    let mut games = contract.get_all_games();
    let game = games.get(id).unwrap();
    for other in [u64::MAX, 7, 1 << 56, 300] {
        games.set(other, Game { id: other, ..game.clone() });
    }
    games.set(7, Game { id: 7, ..game });
    assert_eq!(games.ids(), vec![1, 7, 300, 1 << 56, u64::MAX]);
    assert_eq!(contract.get_all_games().ids(), vec![1]);
}

#[test]
fn long_game_is_kept_whole() {
    let env = Env::default();
    let (mut contract, id) = running_game(&env);
    for n in 0..40u32 {
        let player = if n % 2 == 0 { address(ALICE) } else { address(BOB) };
        assert_eq!(contract.submit_move(id, player, vec![n, n + 1], n), Ok(()));
    }
    let game = contract.get_game(id).unwrap();
    assert_eq!(game.moves.len(), 40);
    for (n, chess_move) in game.moves.iter().enumerate() {
        assert_eq!(chess_move.move_data, vec![n as u32, n as u32 + 1]);
        assert_eq!(chess_move.timestamp, n as u64);
    }
}

#[test]
fn long_moves_are_kept_whole() {
    let env = Env::default();
    let (mut contract, id) = running_game(&env);
    let long: Vec<u32> = (0..20_000).collect();
    assert_eq!(contract.submit_move(id, address(ALICE), long.clone(), 6), Ok(()));
    assert_eq!(contract.submit_move(id, address(BOB), long.clone(), 7), Ok(()));
    assert_eq!(contract.submit_move(id, address(ALICE), vec![1], 8), Ok(()));
    let game = contract.get_game(id).unwrap();
    assert_eq!(game.moves[0].move_data, long);
    assert_eq!(game.moves[1].move_data, long);
    assert_eq!(game.moves[2].move_data, vec![1]);
}

#[test]
fn listing_of_games_is_a_copy() {
    let env = Env::default();
    let (contract, id) = running_game(&env);
    let mut games = contract.get_all_games();
    let game = games.get(id).unwrap();
    games.set(id, Game { state: GameState::Drawn, ..game });
    assert_eq!(games.get(id).unwrap().state, GameState::Drawn);
    assert_eq!(contract.get_game(id).unwrap().state, GameState::InProgress);
}

#[test]
fn creation_is_refused_above_the_limit_and_without_funds() {
    let env = Env::default();
    let mut contract = with_token(&env);
    assert_eq!(
        contract.create_game(address(ALICE), 1_001, 5_000, 5),
        Err(ContractError::StakeLimitExceeded)
    );
    assert!(contract.take_effects().is_empty());
    assert_eq!(
        contract.create_game(address(ALICE), 100, 99, 5),
        Err(ContractError::InsufficientFunds)
    );
    assert_eq!(contract.take_effects(), vec![Effect::Authorisation { by: address(ALICE) }]);
    assert_eq!(contract.game_counter, None);

    contract.set_max_stake(99);
    assert_eq!(
        contract.create_game(address(ALICE), 100, 5_000, 5),
        Err(ContractError::StakeLimitExceeded)
    );
    contract.set_max_stake(i128::MAX);
    assert_eq!(contract.create_game(address(ALICE), 1_001, 5_000, 5), Ok(1));
}

#[test]
fn creation_fits_only_with_a_token_and_in_range() {
    let env = Env::default();
    let contract = GameContract::new(&env);
    assert!(!contract.create_game_fits(address(ALICE), 100, 1_000));
    assert!(contract.create_game_fits(address(ALICE), 1_001, 1_000));

    let mut contract = with_token(&env);
    contract.set_max_stake(i128::MAX);
    contract.escrow.set(address(ALICE), i128::MAX);
    assert!(!contract.create_game_fits(address(ALICE), 1, 1));
    assert!(contract.create_game_fits(address(ALICE), 1, 0));
    assert!(contract.create_game_fits(address(BOB), 1, 1));
    contract.game_counter = Some(u64::MAX);
    assert!(!contract.create_game_fits(address(BOB), 1, 1));
}

#[test]
fn joining_starts_the_game() {
    let env = Env::default();
    let mut contract = with_token(&env);
    let id = contract.create_game(address(ALICE), 100, 1_000, 5).unwrap();
    contract.take_effects();
    assert!(contract.join_game_fits(id, address(BOB), 100));
    assert_eq!(contract.join_game(id, address(BOB), 100), Ok(()));
    assert_eq!(
        contract.take_effects(),
        vec![
            Effect::Authorisation { by: address(BOB) },
            Effect::Deposit { from: address(BOB), amount: 100 },
        ]
    );
    let game = contract.get_game(id).unwrap();
    assert_eq!(game.player2, Some(address(BOB)));
    assert_eq!(game.state, GameState::InProgress);
    assert_eq!(game.current_turn, 1);
    assert_eq!(contract.escrow.balance(address(BOB)), 100);
}

#[test]
fn joining_is_refused() {
    let env = Env::default();
    let mut contract = with_token(&env);
    assert_eq!(
        contract.join_game(1, address(BOB), 1_000),
        Err(ContractError::GameNotFound)
    );
    let id = contract.create_game(address(ALICE), 100, 1_000, 5).unwrap();
    contract.take_effects();
    assert_eq!(
        contract.join_game_refusal(id, address(ALICE)),
        Some(ContractError::AlreadyJoined)
    );
    assert_eq!(
        contract.join_game(id, address(ALICE), 1_000),
        Err(ContractError::AlreadyJoined)
    );
    contract.set_max_stake(50);
    assert_eq!(
        contract.join_game(id, address(BOB), 1_000),
        Err(ContractError::StakeLimitExceeded)
    );
    contract.set_max_stake(100);
    assert!(contract.take_effects().is_empty());
    assert_eq!(
        contract.join_game(id, address(BOB), 99),
        Err(ContractError::InsufficientFunds)
    );
    assert_eq!(contract.take_effects(), vec![Effect::Authorisation { by: address(BOB) }]);
    assert_eq!(contract.join_game_refusal(id, address(BOB)), None);
    assert_eq!(contract.join_game(id, address(BOB), 100), Ok(()));
    assert_eq!(
        contract.join_game(id, address(CAROL), 1_000),
        Err(ContractError::GameAlreadyCompleted)
    );
}

#[test]
fn waiting_game_with_two_players_is_full() {
    let env = Env::default();
    let (mut contract, id) = running_game(&env);
    let game = contract.get_game(id).unwrap();
    contract.games.set(id, Game { state: GameState::Created, ..game });
    assert_eq!(contract.join_game(id, address(CAROL), 1_000), Err(ContractError::GameFull));
}

#[test]
fn joining_fits_only_with_a_token_and_in_range() {
    let env = Env::default();
    let mut contract = with_token(&env);
    let id = contract.create_game(address(ALICE), 100, 1_000, 5).unwrap();
    contract.escrow.set(address(BOB), i128::MAX - 99);
    assert!(!contract.join_game_fits(id, address(BOB), 1_000));
    assert!(contract.join_game_fits(id, address(BOB), 99));
    assert!(contract.join_game_fits(id, address(CAROL), 1_000));
    assert!(contract.join_game_fits(id + 1, address(BOB), 1_000));
    contract.token = None;
    assert!(!contract.join_game_fits(id, address(CAROL), 1_000));
}

#[test]
fn turns_alternate_and_moves_are_kept() {
    let env = Env::default();
    let (mut contract, id) = running_game(&env);
    assert_eq!(
        contract.submit_move(id, address(BOB), vec![1], 6),
        Err(ContractError::NotYourTurn)
    );
    assert_eq!(contract.submit_move(id, address(ALICE), vec![12, 28], 6), Ok(()));
    assert_eq!(
        contract.submit_move(id, address(ALICE), vec![1], 7),
        Err(ContractError::NotYourTurn)
    );
    assert_eq!(contract.get_game(id).unwrap().current_turn, 2);
    assert_eq!(contract.submit_move(id, address(BOB), vec![52, 36, 4], 8), Ok(()));
    assert_eq!(contract.submit_move(id, address(ALICE), vec![u32::MAX], 9), Ok(()));

    let game = contract.get_game(id).unwrap();
    assert_eq!(game.current_turn, 2);
    assert_eq!(game.moves.len(), 3);
    assert_eq!(game.moves[0].player, address(ALICE));
    assert_eq!(game.moves[0].move_data, vec![12, 28]);
    assert_eq!(game.moves[0].timestamp, 6);
    assert_eq!(game.moves[1].player, address(BOB));
    assert_eq!(game.moves[1].move_data, vec![52, 36, 4]);
    assert_eq!(game.moves[1].timestamp, 8);
    assert_eq!(game.moves[2].move_data, vec![u32::MAX]);
    assert!(contract.take_effects().is_empty());
}

#[test]
fn moves_are_refused() {
    let env = Env::default();
    let mut contract = with_token(&env);
    assert_eq!(
        contract.submit_move(1, address(ALICE), vec![1], 6),
        Err(ContractError::GameNotFound)
    );
    let id = contract.create_game(address(ALICE), 100, 1_000, 5).unwrap();
    assert_eq!(
        contract.submit_move(id, address(ALICE), vec![1], 6),
        Err(ContractError::GameNotInProgress)
    );
    contract.join_game(id, address(BOB), 1_000).unwrap();
    assert_eq!(
        contract.submit_move(id, address(CAROL), vec![1], 6),
        Err(ContractError::NotPlayer)
    );
    assert_eq!(
        contract.submit_move(id, address(ALICE), vec![], 6),
        Err(ContractError::InvalidMove)
    );
    assert_eq!(
        contract.submit_move(id, address(BOB), vec![], 6),
        Err(ContractError::NotYourTurn)
    );
}

#[test]
fn draw_returns_the_stakes() {
    let env = Env::default();
    let (mut contract, id) = running_game(&env);
    assert!(contract.claim_draw_fits(id, address(BOB)));
    assert_eq!(contract.claim_draw(id, address(BOB)), Ok(()));
    assert_eq!(
        contract.take_effects(),
        vec![
            Effect::Withdrawal { to: address(ALICE), amount: 100 },
            Effect::Withdrawal { to: address(BOB), amount: 100 },
        ]
    );
    assert_eq!(contract.escrow.balance(address(ALICE)), 0);
    assert_eq!(contract.escrow.balance(address(BOB)), 0);
    let game = contract.get_game(id).unwrap();
    assert_eq!(game.state, GameState::Drawn);
    assert_eq!(game.winner, None);
}

#[test]
fn draw_needs_room_and_a_token() {
    let env = Env::default();
    let (mut contract, id) = running_game(&env);
    contract.escrow.set(address(ALICE), i128::MIN + 99);
    assert!(!contract.claim_draw_fits(id, address(BOB)));
    contract.escrow.set(address(ALICE), i128::MIN + 100);
    assert!(contract.claim_draw_fits(id, address(BOB)));
    contract.escrow.set(address(BOB), i128::MIN + 99);
    assert!(!contract.claim_draw_fits(id, address(BOB)));
    contract.escrow.set(address(BOB), 0);
    contract.token = None;
    assert!(!contract.claim_draw_fits(id, address(BOB)));
    assert!(contract.claim_draw_fits(id, address(CAROL)));
}

#[test]
fn ending_a_game_is_refused() {
    let env = Env::default();
    let mut contract = with_token(&env);
    assert_eq!(contract.claim_draw(1, address(ALICE)), Err(ContractError::GameNotFound));
    assert_eq!(contract.forfeit(1, address(ALICE)), Err(ContractError::GameNotFound));
    let id = contract.create_game(address(ALICE), 100, 1_000, 5).unwrap();
    assert_eq!(
        contract.claim_draw(id, address(ALICE)),
        Err(ContractError::GameNotInProgress)
    );
    assert_eq!(contract.forfeit(id, address(ALICE)), Err(ContractError::GameNotInProgress));
    contract.join_game(id, address(BOB), 1_000).unwrap();
    assert_eq!(contract.claim_draw(id, address(CAROL)), Err(ContractError::NotPlayer));
    assert_eq!(contract.forfeit(id, address(CAROL)), Err(ContractError::NotPlayer));
}

#[test]
fn forfeit_makes_the_opponent_win() {
    let env = Env::default();
    let (mut contract, id) = running_game(&env);
    assert!(contract.forfeit_fits(id, address(BOB)));
    assert_eq!(contract.forfeit(id, address(BOB)), Ok(()));
    let game = contract.get_game(id).unwrap();
    assert_eq!(game.state, GameState::Forfeited);
    assert_eq!(game.winner, Some(address(ALICE)));
    assert_eq!(
        contract.take_effects(),
        vec![Effect::Withdrawal { to: address(ALICE), amount: 200 }]
    );
    assert_eq!(contract.escrow.balance(address(ALICE)), 200);
    assert_eq!(contract.escrow.balance(address(BOB)), 0);
}

#[test]
fn forfeit_without_opponent_is_refused() {
    let env = Env::default();
    let (mut contract, id) = running_game(&env);
    let game = contract.get_game(id).unwrap();
    contract.games.set(id, Game { player2: None, ..game });
    assert!(contract.forfeit_fits(id, address(ALICE)));
    assert_eq!(contract.forfeit(id, address(ALICE)), Err(ContractError::GameFull));
    assert_eq!(contract.get_game(id).unwrap().state, GameState::InProgress);
}

#[test]
fn forfeit_splits_off_the_fee() {
    let env = Env::default();
    let (mut contract, id) = running_game(&env);
    contract.initialize_puzzle_rewards(address(90), vec![0u8; 32], 0, 25, address(80));
    contract.take_effects();
    assert_eq!(contract.forfeit(id, address(ALICE)), Ok(()));
    assert_eq!(
        contract.take_effects(),
        vec![
            Effect::Withdrawal { to: address(BOB), amount: 195 },
            Effect::Withdrawal { to: address(80), amount: 5 },
        ]
    );
    assert_eq!(contract.escrow.balance(address(ALICE)), 0);
    assert_eq!(contract.escrow.balance(address(BOB)), 195);
    assert_eq!(contract.escrow.balance(address(80)), 5);
}

#[test]
fn fee_that_rounds_to_nothing_is_not_sent() {
    let env = Env::default();
    let mut contract = with_token(&env);
    contract.initialize_puzzle_rewards(address(90), vec![0u8; 32], 0, 20, address(80));
    let id = contract.create_game(address(ALICE), 5, 1_000, 5).unwrap();
    contract.join_game(id, address(BOB), 1_000).unwrap();
    contract.take_effects();
    assert_eq!(contract.forfeit(id, address(ALICE)), Ok(()));
    assert_eq!(
        contract.take_effects(),
        vec![Effect::Withdrawal { to: address(BOB), amount: 10 }]
    );
}

#[test]
fn forfeit_needs_room_and_a_token() {
    let env = Env::default();
    let (mut contract, id) = running_game(&env);
    contract.escrow.set(address(BOB), i128::MAX - 50);
    assert!(!contract.forfeit_fits(id, address(ALICE)));
    contract.escrow.set(address(BOB), i128::MAX - 100);
    assert!(contract.forfeit_fits(id, address(ALICE)));
    contract.token = None;
    assert!(!contract.forfeit_fits(id, address(ALICE)));
    assert!(contract.forfeit_fits(id, address(CAROL)));
}

#[test]
fn ended_games_stay_ended() {
    let env = Env::default();
    let (mut contract, id) = running_game(&env);
    contract.forfeit(id, address(ALICE)).unwrap();
    contract.take_effects();
    assert_eq!(
        contract.join_game(id, address(CAROL), 1_000),
        Err(ContractError::GameAlreadyCompleted)
    );
    assert_eq!(
        contract.submit_move(id, address(ALICE), vec![1], 6),
        Err(ContractError::GameNotInProgress)
    );
    assert_eq!(contract.claim_draw(id, address(BOB)), Err(ContractError::GameNotInProgress));
    assert_eq!(contract.forfeit(id, address(BOB)), Err(ContractError::GameNotInProgress));
    assert_eq!(contract.payout(id, address(BOB)), Err(ContractError::GameNotInProgress));
    assert_eq!(
        contract.payout_tournament(id, &vec![address(BOB)], &vec![100]),
        Err(ContractError::GameNotInProgress)
    );
    assert!(contract.take_effects().is_empty());
    assert_eq!(contract.get_game(id).unwrap().state, GameState::Forfeited);
}

#[test]
fn payout_goes_to_the_winner_on_record() {
    let env = Env::default();
    let (mut contract, id) = completed_game(&env);
    assert_eq!(contract.payout(id + 1, address(BOB)), Err(ContractError::GameNotFound));
    assert_eq!(contract.payout(id, address(ALICE)), Err(ContractError::NotPlayer));
    assert!(contract.payout_fits(id, address(BOB)));
    assert_eq!(contract.payout(id, address(BOB)), Ok(()));
    assert_eq!(
        contract.take_effects(),
        vec![Effect::Withdrawal { to: address(BOB), amount: 200 }]
    );
    assert_eq!(contract.escrow.balance(address(ALICE)), 0);
    assert_eq!(contract.escrow.balance(address(BOB)), 200);
    assert_eq!(contract.get_game(id).unwrap().state, GameState::Completed);
}

#[test]
fn payout_of_a_game_with_one_player_is_refused() {
    let env = Env::default();
    let (mut contract, id) = completed_game(&env);
    let game = contract.get_game(id).unwrap();
    contract.games.set(id, Game { player2: None, ..game });
    assert!(contract.payout_fits(id, address(BOB)));
    assert_eq!(contract.payout(id, address(BOB)), Err(ContractError::GameFull));
}

#[test]
fn payout_of_a_huge_pool_does_not_fit() {
    let env = Env::default();
    let (mut contract, id) = completed_game(&env);
    let game = contract.get_game(id).unwrap();
    contract.games.set(id, Game { wager_amount: i128::MAX, ..game });
    assert!(!contract.payout_fits(id, address(BOB)));
    assert!(contract.payout_fits(id, address(ALICE)));
}

#[test]
fn tournament_gives_the_dust_to_the_first_winner() {
    let env = Env::default();
    let (mut contract, id) = completed_game(&env);
    let winners = vec![address(CAROL), address(BOB), address(4)];
    let percentages = vec![33, 33, 34];
    contract.escrow.set(address(ALICE), 150);
    let game = contract.get_game(id).unwrap();
    contract.games.set(id, Game { wager_amount: 77, ..game });

    assert!(contract.payout_tournament_fits(id, &winners, &percentages));
    assert_eq!(contract.payout_tournament(id, &winners, &percentages), Ok(()));
    // The pool is 154: 50, 50 and 52 by percentage, and 2 left over.
    assert_eq!(contract.escrow.balance(address(CAROL)), 52);
    assert_eq!(contract.escrow.balance(address(BOB)), 100 - 77 + 50);
    assert_eq!(contract.escrow.balance(address(4)), 52);
    assert_eq!(contract.escrow.balance(address(ALICE)), 150 - 77);
    assert_eq!(contract.take_effects(), vec![Effect::Authorisation { by: address(ALICE) }]);
}

#[test]
fn tournament_of_one_player_shares_one_stake() {
    let env = Env::default();
    let (mut contract, id) = completed_game(&env);
    let game = contract.get_game(id).unwrap();
    contract.games.set(id, Game { player2: None, ..game });
    assert_eq!(contract.payout_tournament(id, &vec![address(CAROL)], &vec![100]), Ok(()));
    assert_eq!(contract.escrow.balance(address(CAROL)), 100);
    assert_eq!(contract.escrow.balance(address(ALICE)), 0);
    assert_eq!(contract.escrow.balance(address(BOB)), 100);
}

#[test]
fn tournament_winner_may_be_named_twice() {
    let env = Env::default();
    let (mut contract, id) = completed_game(&env);
    let winners = vec![address(ALICE), address(ALICE)];
    assert_eq!(contract.payout_tournament(id, &winners, &vec![25, 75]), Ok(()));
    assert_eq!(contract.escrow.balance(address(ALICE)), 200);
    assert_eq!(contract.escrow.balance(address(BOB)), 0);
}

#[test]
fn tournament_is_refused() {
    let env = Env::default();
    let (mut contract, id) = completed_game(&env);
    let asked = vec![Effect::Authorisation { by: address(ALICE) }];
    assert_eq!(
        contract.payout_tournament(id + 1, &vec![address(BOB)], &vec![100]),
        Err(ContractError::GameNotFound)
    );
    assert!(contract.take_effects().is_empty());
    assert_eq!(
        contract.payout_tournament(id, &vec![address(BOB)], &vec![50, 50]),
        Err(ContractError::MismatchedLengths)
    );
    assert_eq!(contract.take_effects(), asked);
    assert_eq!(
        contract.payout_tournament(id, &vec![address(BOB)], &vec![99]),
        Err(ContractError::InvalidPercentage)
    );
    assert_eq!(
        contract.payout_tournament(id, &vec![], &vec![]),
        Err(ContractError::InvalidPercentage)
    );
    contract.escrow.set(address(BOB), 99);
    assert_eq!(
        contract.payout_tournament(id, &vec![address(BOB)], &vec![100]),
        Err(ContractError::InsufficientFunds)
    );
    contract.escrow.set(address(ALICE), 99);
    contract.escrow.set(address(BOB), 100);
    assert_eq!(
        contract.payout_tournament(id, &vec![address(BOB)], &vec![100]),
        Err(ContractError::InsufficientFunds)
    );
    assert_eq!(contract.escrow.balance(address(BOB)), 100);
}

#[test]
fn tournament_out_of_range_does_not_fit() {
    let env = Env::default();
    let (mut contract, id) = completed_game(&env);
    let winners = vec![address(BOB), address(CAROL)];
    assert!(!contract.payout_tournament_fits(id, &winners, &vec![u32::MAX, 1]));
    assert!(contract.payout_tournament_fits(id, &winners, &vec![u32::MAX]));
    assert!(contract.payout_tournament_fits(id, &winners, &vec![50, 49]));
    contract.escrow.set(address(CAROL), i128::MAX);
    assert!(!contract.payout_tournament_fits(id, &winners, &vec![50, 50]));
    assert!(contract.payout_tournament_fits(id, &winners, &vec![100, 0]));
}

#[test]
fn contract_holds_the_open_stakes() {
    let env = Env::default();
    let mut contract = with_token(&env);
    contract.initialize_puzzle_rewards(address(90), vec![0u8; 32], 0, 100, address(80));
    let mut held: i128 = 0;
    let mut open = Vec::new();
    for n in 0..3u64 {
        let id = contract.create_game(address(ALICE), 100 + n as i128, 1_000, 5).unwrap();
        contract.join_game(id, address(BOB), 1_000).unwrap();
        open.push(id);
    }
    contract.claim_draw(open[0], address(ALICE)).unwrap();
    contract.forfeit(open[1], address(BOB)).unwrap();
    for effect in contract.take_effects() {
        match effect {
            Effect::Deposit { amount, .. } => held += amount,
            Effect::Withdrawal { amount, .. } => held -= amount,
            _ => {}
        }
    }
    assert_eq!(held, 2 * 102);
}

#[test]
fn accounts_and_contracts_are_different_addresses() {
    let env = Env::default();
    let mut contract = with_token(&env);
    let account = Address::account(1, 2);
    let twin = Address::contract(1, 2);
    contract.escrow.set(account, 5);
    assert_eq!(contract.escrow.balance(account), 5);
    assert_eq!(contract.escrow.balance(twin), 0);
    assert_eq!(contract.escrow.balance(Address::account(2, 1)), 0);
}
