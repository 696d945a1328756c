//! Laws of the contract as a whole.

use vstd::prelude::*;

use crate::address::Address;
use crate::arith::{fits_i128, lemma_trunc_div_bounds};
use crate::error::ContractError;
use crate::game::{GameModel, GameState};
use crate::ledger::{balance, credit, lemma_total_credit, lemma_total_insert, total};
use crate::model::{
    distributed, dust, lemma_shared_out_total, percent_sum, share_sum, shared_out, ContractModel,
    Effect,
};
use crate::rating::{
    draw_favours_the_weaker, even_win_gains_points, mirrored, rating_change_is_bounded,
    rating_changes_cancel,
};
use crate::store::found;

verus! {

/// The tokens that an effect moves into the contract, less those that it moves
/// out.
pub open spec fn moved(effect: Effect) -> int {
    match effect {
        Effect::Deposit { from, amount } => amount as int,
        Effect::Withdrawal { to, amount } => -amount,
        _ => 0,
    }
}

/// The tokens that a list of effects moves into the contract, less those that
/// it moves out.
pub open spec fn inflow(effects: Seq<Effect>) -> int
    decreases effects.len(),
{
    if effects.len() == 0 {
        0
    } else {
        inflow(effects.drop_last()) + moved(effects.last())
    }
}

/// The tokens that the contract keeps for a game: the stakes of those who have
/// joined, as long as the game is open.
pub open spec fn stake_held(game: GameModel) -> int {
    match game.state {
        GameState::Created => game.wager_amount as int,
        GameState::InProgress => game.wager_amount * 2,
        _ => 0,
    }
}

/// The stakes of all open games.
pub open spec fn open_stakes(games: Map<u64, GameModel>) -> int {
    total(games.map_values(|game: GameModel| stake_held(game)))
}

/// Whether the tokens of the contract changed by what the stakes of the open
/// games changed.
pub open spec fn stays_backed(before: ContractModel, after: ContractModel) -> bool {
    inflow(after.effects) - inflow(before.effects) == open_stakes(after.games) - open_stakes(
        before.games,
    )
}

proof fn lemma_push_effect(effects: Seq<Effect>, effect: Effect)
    ensures
        inflow(effects.push(effect)) == inflow(effects) + moved(effect),
{
    assert(effects.push(effect).drop_last() =~= effects);
}

proof fn lemma_open_stakes_insert(games: Map<u64, GameModel>, id: u64, game: GameModel)
    requires
        games.dom().finite(),
    ensures
        open_stakes(games.insert(id, game)) == open_stakes(games) + stake_held(game) - if
            games.contains_key(id) {
            stake_held(games[id])
        } else {
            0
        },
{
    let held = games.map_values(|g: GameModel| stake_held(g));
    assert(held.dom() =~= games.dom());
    assert(games.insert(id, game).map_values(|g: GameModel| stake_held(g)) =~= held.insert(
        id,
        stake_held(game),
    ));
    lemma_total_insert(held, id, stake_held(game));
}

// Refusals.

/// A refused call about a game leaves the state as it was; all that may remain
/// of it is the demand for an authorisation.
pub proof fn refused_game_call_changes_nothing(
    s: ContractModel,
    game_id: u64,
    player: Address,
    amount: i128,
    token_balance: i128,
    move_data: Seq<u32>,
    winners: Seq<Address>,
    percentages: Seq<u32>,
    sequence: u32,
)
    ensures
        s.create_game(player, amount, token_balance, sequence).0 is Err ==> {
            let t = s.create_game(player, amount, token_balance, sequence).1;
            t == s || t == s.asking(player)
        },
        s.join_game(game_id, player, token_balance).0 is Err ==> {
            let t = s.join_game(game_id, player, token_balance).1;
            t == s || t == s.asking(player)
        },
        s.submit_move(game_id, player, move_data, sequence).0 is Err ==> s.submit_move(
            game_id,
            player,
            move_data,
            sequence,
        ).1 == s,
        s.claim_draw(game_id, player).0 is Err ==> s.claim_draw(game_id, player).1 == s,
        s.forfeit(game_id, player).0 is Err ==> s.forfeit(game_id, player).1 == s,
        s.payout(game_id, player).0 is Err ==> s.payout(game_id, player).1 == s,
        s.payout_tournament(game_id, winners, percentages).0 is Err ==> {
            let t = s.payout_tournament(game_id, winners, percentages).1;
            t == s || t == s.asking(s.games[game_id].player1)
        },
{
}

/// A refused claim or result leaves the state as it was.
pub proof fn refused_claim_or_result_changes_nothing(
    s: ContractModel,
    player1: Address,
    player2: Address,
    result: u32,
    amount: i128,
    nonce: u64,
    accepted: bool,
    sequence: u32,
)
    ensures
        s.claim_with_verdict(player1, amount, nonce, accepted).0 != Some(
            Ok::<(), ContractError>(()),
        ) ==> s.claim_with_verdict(player1, amount, nonce, accepted).1 == s,
        s.update_ratings(player1, player2, result, sequence).0 is Err ==> s.update_ratings(
            player1,
            player2,
            result,
            sequence,
        ).1 == s,
{
}

// Games.

/// A new game gets a number that no game had, stands under it as it was opened,
/// and leaves every other game alone.
pub proof fn created_game_is_new_and_found(
    s: ContractModel,
    player1: Address,
    wager_amount: i128,
    token_balance: i128,
    sequence: u32,
)
    requires
        s.wf(),
        s.create_game_fits(player1, wager_amount, token_balance),
        s.create_game(player1, wager_amount, token_balance, sequence).0 is Ok,
    ensures
        ({
            let (answer, t) = s.create_game(player1, wager_amount, token_balance, sequence);
            let id = answer.unwrap();
            &&& !s.games.contains_key(id)
            &&& found(t.games, id) == Some(s.opened_game(player1, wager_amount, sequence))
            &&& t.counter() == id
            &&& forall|other: u64| other != id ==> found(t.games, other) == found(s.games, other)
        }),
{
}

/// No game is opened or joined above the stake limit, nor by a player who does
/// not hold the stake.
pub proof fn stakes_are_limited_and_covered(
    s: ContractModel,
    game_id: u64,
    player: Address,
    wager_amount: i128,
    token_balance: i128,
    sequence: u32,
)
    ensures
        s.create_game(player, wager_amount, token_balance, sequence).0 is Ok ==> wager_amount
            <= s.stake_limit() && wager_amount <= token_balance,
        s.join_game(game_id, player, token_balance).0 is Ok ==> {
            &&& s.games[game_id].wager_amount <= s.stake_limit()
            &&& s.games[game_id].wager_amount <= token_balance
        },
{
}

/// After a move it is the opponent's turn: the same player is told to wait, and
/// the opponent may move.
pub proof fn turns_alternate(
    s: ContractModel,
    game_id: u64,
    player: Address,
    move_data: Seq<u32>,
    sequence: u32,
    next_data: Seq<u32>,
)
    requires
        s.wf(),
        s.submit_move(game_id, player, move_data, sequence).0 is Ok,
        next_data.len() > 0,
    ensures
        ({
            let t = s.submit_move(game_id, player, move_data, sequence).1;
            let opponent = s.games[game_id].opponent(player).unwrap();
            &&& opponent != player
            &&& t.move_refusal(game_id, player, next_data) == Some(ContractError::NotYourTurn)
            &&& t.move_refusal(game_id, opponent, next_data) is None
        }),
{
    assert(s.games.contains_key(game_id));
    assert(s.games[game_id].wf());
}

/// In every good state a running game waits for the player whose turn the
/// number of moves makes it, and for nobody else.
pub proof fn exactly_one_player_may_move(
    s: ContractModel,
    game_id: u64,
    player: Address,
    move_data: Seq<u32>,
)
    requires
        s.wf(),
        s.games.contains_key(game_id),
        s.games[game_id].state == GameState::InProgress,
        move_data.len() > 0,
    ensures
        s.move_refusal(game_id, player, move_data) is None <==> s.games[game_id].mover(
            s.games[game_id].moves.len() as int,
        ) == Some(player),
{
    assert(s.games[game_id].wf());
}

/// A game that was drawn or forfeited stays as it is in every later state, and
/// every further call about it is refused.
pub proof fn ended_games_stay_ended(
    s: ContractModel,
    later: ContractModel,
    game_id: u64,
    player: Address,
    token_balance: i128,
    move_data: Seq<u32>,
    winners: Seq<Address>,
    percentages: Seq<u32>,
    sequence: u32,
)
    requires
        s.games.contains_key(game_id),
        s.games[game_id].is_over(),
        s.evolves(later),
    ensures
        found(later.games, game_id) == Some(s.games[game_id]),
        later.join_game(game_id, player, token_balance) == (
            Err::<(), ContractError>(ContractError::GameAlreadyCompleted),
            later,
        ),
        later.submit_move(game_id, player, move_data, sequence) == (
            Err::<(), ContractError>(ContractError::GameNotInProgress),
            later,
        ),
        later.claim_draw(game_id, player) == (
            Err::<(), ContractError>(ContractError::GameNotInProgress),
            later,
        ),
        later.forfeit(game_id, player) == (
            Err::<(), ContractError>(ContractError::GameNotInProgress),
            later,
        ),
        later.payout(game_id, player) == (
            Err::<(), ContractError>(ContractError::GameNotInProgress),
            later,
        ),
        later.payout_tournament(game_id, winners, percentages) == (
            Err::<(), ContractError>(ContractError::GameNotInProgress),
            later,
        ),
{
}

/// In a good state either player of a running game may give it up, nobody else
/// may, and the winner is the opponent.
pub proof fn forfeit_makes_the_opponent_win(s: ContractModel, game_id: u64, player: Address)
    requires
        s.wf(),
        s.games.contains_key(game_id),
        s.games[game_id].state == GameState::InProgress,
    ensures
        s.forfeit(game_id, player).0 is Ok <==> s.games[game_id].has_player(player),
        s.forfeit(game_id, player).0 is Ok ==> {
            let after = s.forfeit(game_id, player).1.games[game_id];
            &&& after.state == GameState::Forfeited
            &&& after.winner == s.games[game_id].opponent(player)
            &&& after.winner is Some
            &&& after.winner != Some(player)
        },
{
    assert(s.games[game_id].wf());
}

// Money.

/// The fee and the prize make up the pool. Of a pool that is not negative, at a
/// rate that can be configured, neither part is negative and the fee is rounded
/// down.
pub proof fn fee_and_prize_make_the_pool(s: ContractModel, pool: int)
    ensures
        s.fee(pool) + s.prize(pool) == pool,
        pool >= 0 && s.fee_rate() <= 1000 ==> 0 <= s.fee(pool) <= pool && 0 <= s.prize(pool)
            <= pool,
        pool >= 0 && s.treasury_address is Some ==> s.fee(pool) == pool * s.fee_rate() / 1000,
{
    let rate = s.fee_rate() as int;
    assert(pool >= 0 ==> pool * rate >= 0) by (nonlinear_arith)
        requires
            0 <= rate,
    ;
    assert(rate == 0 ==> pool * rate == 0) by (nonlinear_arith);
    if pool >= 0 && rate <= 1000 {
        assert(0 <= pool * rate <= pool * 1000) by (nonlinear_arith)
            requires
                0 <= pool,
                0 <= rate <= 1000,
        ;
        lemma_trunc_div_bounds(pool * rate, 1000, pool);
    }
}

/// Opening or joining a game moves the stake of the player who authorises it
/// into the contract and into the escrow.
pub proof fn stakes_enter_the_escrow(
    s: ContractModel,
    game_id: u64,
    player: Address,
    wager_amount: i128,
    token_balance: i128,
    sequence: u32,
)
    requires
        s.escrow.dom().finite(),
    ensures
        s.create_game(player, wager_amount, token_balance, sequence).0 is Ok ==> {
            let t = s.create_game(player, wager_amount, token_balance, sequence).1;
            &&& total(t.escrow) == total(s.escrow) + wager_amount
            &&& balance(t.escrow, player) == balance(s.escrow, player) + wager_amount
            &&& t.effects == s.effects + seq![
                Effect::Authorisation { by: player },
                Effect::Deposit { from: player, amount: wager_amount },
            ]
        },
        s.join_game(game_id, player, token_balance).0 is Ok ==> {
            let t = s.join_game(game_id, player, token_balance).1;
            let stake = s.games[game_id].wager_amount;
            &&& total(t.escrow) == total(s.escrow) + stake
            &&& balance(t.escrow, player) == balance(s.escrow, player) + stake
            &&& t.effects == s.effects + seq![
                Effect::Authorisation { by: player },
                Effect::Deposit { from: player, amount: stake },
            ]
        },
{
    lemma_total_credit(s.escrow, player, wager_amount as int);
    let opened = s.create_game(player, wager_amount, token_balance, sequence);
    if opened.0 is Ok {
        assert(opened.1.effects =~= s.effects + seq![
            Effect::Authorisation { by: player },
            Effect::Deposit { from: player, amount: wager_amount },
        ]);
    }
    let stake = s.games[game_id].wager_amount;
    lemma_total_credit(s.escrow, player, stake as int);
    let joined = s.join_game(game_id, player, token_balance);
    if joined.0 is Ok {
        assert(joined.1.effects =~= s.effects + seq![
            Effect::Authorisation { by: player },
            Effect::Deposit { from: player, amount: stake },
        ]);
    }
}

/// A draw takes the stake of each player out of the escrow and pays it back to
/// them.
pub proof fn draw_returns_the_stakes(s: ContractModel, game_id: u64, player: Address)
    requires
        s.escrow.dom().finite(),
        s.games[game_id].player2 != Some(s.games[game_id].player1),
        s.claim_draw(game_id, player).0 is Ok,
    ensures
        ({
            let t = s.claim_draw(game_id, player).1;
            let game = s.games[game_id];
            let to_first = Effect::Withdrawal { to: game.player1, amount: game.wager_amount };
            &&& t.games[game_id].state == GameState::Drawn
            &&& balance(t.escrow, game.player1) == balance(s.escrow, game.player1)
                - game.wager_amount
            &&& match game.player2 {
                Some(player2) => {
                    &&& balance(t.escrow, player2) == balance(s.escrow, player2)
                        - game.wager_amount
                    &&& total(t.escrow) == total(s.escrow) - 2 * game.wager_amount
                    &&& t.effects == s.effects + seq![
                        to_first,
                        Effect::Withdrawal { to: player2, amount: game.wager_amount },
                    ]
                },
                None => {
                    &&& total(t.escrow) == total(s.escrow) - game.wager_amount
                    &&& t.effects == s.effects.push(to_first)
                },
            }
        }),
{
    let game = s.games[game_id];
    let t = s.claim_draw(game_id, player).1;
    let first = credit(s.escrow, game.player1, -game.wager_amount);
    lemma_total_credit(s.escrow, game.player1, -game.wager_amount);
    if let Some(player2) = game.player2 {
        lemma_total_credit(first, player2, -game.wager_amount);
        assert(t.effects =~= s.effects + seq![
            Effect::Withdrawal { to: game.player1, amount: game.wager_amount },
            Effect::Withdrawal { to: player2, amount: game.wager_amount },
        ]);
    }
}

/// Crediting the winner and the treasury gives out exactly the two stakes that
/// left the escrow.
pub proof fn settlement_keeps_the_escrow_total(
    s: ContractModel,
    game: GameModel,
    winner: Address,
)
    requires
        s.escrow.dom().finite(),
        game.player2 is Some,
        game.wager_amount >= 0,
        s.fee_rate() <= 1000,
    ensures
        total(s.settled(game, winner)) == total(s.escrow),
{
    let pool = ContractModel::pool(game);
    fee_and_prize_make_the_pool(s, pool);
    let player2 = game.player2.unwrap();
    let first = credit(s.escrow, game.player1, -game.wager_amount);
    lemma_total_credit(s.escrow, game.player1, -game.wager_amount);
    lemma_total_credit(first, player2, -game.wager_amount);
    let with_prize = credit(s.stakes_returned(game), winner, s.prize(pool));
    lemma_total_credit(s.stakes_returned(game), winner, s.prize(pool));
    if let Some(treasury) = s.treasury_address {
        lemma_total_credit(with_prize, treasury, s.fee(pool));
    }
}

/// What a payout moves out of the contract is exactly the pool.
proof fn lemma_payout_withdraws_the_pool(
    s: ContractModel,
    game: GameModel,
    winner: Address,
)
    requires
        game.player2 is Some,
        game.wager_amount >= 0,
        s.fee_rate() <= 1000,
        fits_i128(ContractModel::pool(game)),
    ensures
        inflow(s.process_payout(game, winner).1.effects) == inflow(s.effects)
            - ContractModel::pool(game),
{
    let pool = ContractModel::pool(game);
    fee_and_prize_make_the_pool(s, pool);
    let to_winner = Effect::Withdrawal { to: winner, amount: s.prize(pool) as i128 };
    lemma_push_effect(s.effects, to_winner);
    if let Some(treasury) = s.treasury_address {
        lemma_push_effect(
            s.effects.push(to_winner),
            Effect::Withdrawal { to: treasury, amount: s.fee(pool) as i128 },
        );
    }
}

/// A forfeited game pays out exactly its two stakes, and the sum of the escrow
/// stays as it was.
pub proof fn forfeit_pays_out_both_stakes(s: ContractModel, game_id: u64, player: Address)
    requires
        s.escrow.dom().finite(),
        s.fee_rate() <= 1000,
        s.forfeit_fits(game_id, player),
        s.forfeit(game_id, player).0 is Ok,
        s.games[game_id].wager_amount >= 0,
    ensures
        ({
            let t = s.forfeit(game_id, player).1;
            let pool = 2 * s.games[game_id].wager_amount;
            &&& inflow(t.effects) == inflow(s.effects) - pool
            &&& total(t.escrow) == total(s.escrow)
        }),
{
    let t = s.forfeit(game_id, player).1;
    let game = t.games[game_id];
    let winner = s.games[game_id].opponent(player).unwrap();
    settlement_keeps_the_escrow_total(s, game, winner);
    lemma_payout_withdraws_the_pool(s, game, winner);
}

/// A completed game pays out exactly its two stakes, and the sum of the escrow
/// stays as it was.
pub proof fn payout_pays_out_both_stakes(s: ContractModel, game_id: u64, winner: Address)
    requires
        s.escrow.dom().finite(),
        s.fee_rate() <= 1000,
        s.payout_fits(game_id, winner),
        s.payout(game_id, winner).0 is Ok,
        s.games[game_id].wager_amount >= 0,
    ensures
        ({
            let t = s.payout(game_id, winner).1;
            let pool = 2 * s.games[game_id].wager_amount;
            &&& inflow(t.effects) == inflow(s.effects) - pool
            &&& total(t.escrow) == total(s.escrow)
        }),
{
    let game = s.games[game_id];
    settlement_keeps_the_escrow_total(s, game, winner);
    lemma_payout_withdraws_the_pool(s, game, winner);
}

/// The contract holds the stakes of the open games: opening, joining, playing
/// and drawing a game, and giving up one whose stake is not negative, move
/// exactly the tokens by which the open stakes change.
pub proof fn play_keeps_open_stakes_backed(
    s: ContractModel,
    game_id: u64,
    player: Address,
    wager_amount: i128,
    token_balance: i128,
    move_data: Seq<u32>,
    sequence: u32,
)
    requires
        s.wf(),
    ensures
        s.create_game_fits(player, wager_amount, token_balance) ==> stays_backed(
            s,
            s.create_game(player, wager_amount, token_balance, sequence).1,
        ),
        stays_backed(s, s.join_game(game_id, player, token_balance).1),
        stays_backed(s, s.submit_move(game_id, player, move_data, sequence).1),
        stays_backed(s, s.claim_draw(game_id, player).1),
        s.forfeit_fits(game_id, player) && s.games[game_id].wager_amount >= 0 ==> stays_backed(
            s,
            s.forfeit(game_id, player).1,
        ),
{
    let asked = s.asking(player).effects;
    lemma_push_effect(s.effects, Effect::Authorisation { by: player });
    if s.create_game_fits(player, wager_amount, token_balance) {
        let game = s.opened_game(player, wager_amount, sequence);
        lemma_push_effect(asked, Effect::Deposit { from: player, amount: wager_amount });
        lemma_open_stakes_insert(s.games, game.id, game);
    }
    let game = s.games[game_id];
    lemma_push_effect(asked, Effect::Deposit { from: player, amount: game.wager_amount });
    let joined = s.join_game(game_id, player, token_balance).1.games[game_id];
    lemma_open_stakes_insert(s.games, game_id, joined);
    let played = s.submit_move(game_id, player, move_data, sequence).1.games[game_id];
    lemma_open_stakes_insert(s.games, game_id, played);
    if s.ending_refusal(game_id, player) is None {
        assert(game.wf());
        let player2 = game.player2.unwrap();
        let to_first = Effect::Withdrawal { to: game.player1, amount: game.wager_amount };
        lemma_push_effect(s.effects, to_first);
        lemma_push_effect(
            s.effects.push(to_first),
            Effect::Withdrawal { to: player2, amount: game.wager_amount },
        );
        lemma_open_stakes_insert(
            s.games,
            game_id,
            s.claim_draw(game_id, player).1.games[game_id],
        );
        if s.forfeit_fits(game_id, player) && game.wager_amount >= 0 {
            forfeit_pays_out_both_stakes(s, game_id, player);
            lemma_open_stakes_insert(
                s.games,
                game_id,
                s.forfeit(game_id, player).1.games[game_id],
            );
        }
    }
}

/// The contract holds the stakes of the open games after every other call too,
/// save the payout of a completed game, which has no open stake to pay from.
pub proof fn other_calls_keep_open_stakes_backed(
    s: ContractModel,
    game_id: u64,
    player: Address,
    other: Address,
    key: Seq<u8>,
    amount: i128,
    number: u32,
    nonce: u64,
    accepted: bool,
    winners: Seq<Address>,
    percentages: Seq<u32>,
    sequence: u32,
)
    ensures
        stays_backed(s, s.payout_tournament(game_id, winners, percentages).1),
        stays_backed(s, s.initialize_token(player, other)),
        stays_backed(s, s.initialize_puzzle_rewards(player, key, amount, number, other)),
        stays_backed(s, s.set_max_stake(amount)),
        stays_backed(s, s.configure_fees(player, number, other)),
        stays_backed(s, s.upgrade_admin(player)),
        stays_backed(s, s.initialize_elo_system(player, number)),
        stays_backed(s, s.claim_with_verdict(player, amount, nonce, accepted).1),
        stays_backed(s, s.register_player(player, sequence).1),
        stays_backed(s, s.update_ratings(player, other, number, sequence).1),
{
    let asked = Effect::Authorisation { by: player };
    lemma_push_effect(s.effects, asked);
    lemma_push_effect(s.effects, Effect::Authorisation { by: s.games[game_id].player1 });
    lemma_push_effect(s.effects, Effect::RewardClaimed { recipient: player, amount });
    lemma_push_effect(s.effects.push(asked), Effect::PlayerRegistered { player, rating: 1200 });
    if let Ok((rating1, rating2)) = s.update_ratings(player, other, number, sequence).0 {
        lemma_push_effect(
            s.effects,
            Effect::RatingsUpdated {
                player1: player,
                rating1: rating1.rating,
                player2: other,
                rating2: rating2.rating,
            },
        );
    }
}

proof fn lemma_share_sum_bounds(pool: int, percentages: Seq<u32>)
    requires
        pool >= 0,
    ensures
        100 * share_sum(pool, percentages) <= pool * percent_sum(percentages),
        100 * share_sum(pool, percentages) >= pool * percent_sum(percentages) - 99
            * percentages.len(),
    decreases percentages.len(),
{
    if percentages.len() > 0 {
        lemma_share_sum_bounds(pool, percentages.drop_last());
        let last = percentages.last() as int;
        let before = percent_sum(percentages.drop_last());
        assert(pool * (before + last) == pool * before + pool * last) by (nonlinear_arith);
        assert(pool * last >= 0) by (nonlinear_arith)
            requires
                pool >= 0,
                last >= 0,
        ;
    }
}

/// The shares of a tournament never exceed the pool, and less than one unit per
/// winner is left over.
pub proof fn dust_is_small(pool: int, percentages: Seq<u32>)
    requires
        pool >= 0,
        percent_sum(percentages) == 100,
    ensures
        percentages.len() > 0,
        0 <= dust(pool, percentages) < percentages.len(),
{
    lemma_share_sum_bounds(pool, percentages);
}

/// A tournament shares out exactly the stakes that it took: the sum of the
/// escrow stays as it was, and no tokens move. The first player of the game has
/// to authorise it.
pub proof fn tournament_keeps_the_escrow_total(
    s: ContractModel,
    game_id: u64,
    winners: Seq<Address>,
    percentages: Seq<u32>,
)
    requires
        s.escrow.dom().finite(),
        s.games[game_id].player2 != Some(s.games[game_id].player1),
        s.payout_tournament(game_id, winners, percentages).0 is Ok,
        s.games[game_id].wager_amount >= 0,
    ensures
        total(s.payout_tournament(game_id, winners, percentages).1.escrow) == total(s.escrow),
        s.payout_tournament(game_id, winners, percentages).1.effects == s.effects.push(
            Effect::Authorisation { by: s.games[game_id].player1 },
        ),
{
    let game = s.games[game_id];
    let pool = ContractModel::tournament_pool(game);
    let first_left = balance(s.escrow, game.player1) - game.wager_amount;
    lemma_total_insert(s.escrow, game.player1, first_left);
    if let Some(player2) = game.player2 {
        lemma_total_insert(
            s.escrow.insert(game.player1, first_left),
            player2,
            balance(s.escrow, player2) - game.wager_amount,
        );
    }
    let table = s.tournament_stakes_out(game);
    assert(total(table) == total(s.escrow) - pool);
    dust_is_small(pool, percentages);
    lemma_shared_out_total(table, pool, winners, percentages);
    lemma_total_credit(
        shared_out(table, pool, winners, percentages),
        winners[0],
        dust(pool, percentages),
    );
    assert(total(distributed(table, pool, winners, percentages)) == total(s.escrow));
}

// Administration.

/// Every change to the settings demands an authorisation of the administrator,
/// or of whoever becomes the administrator; only the stake limit can be set
/// without one.
pub proof fn settings_are_authorised(
    s: ContractModel,
    admin: Address,
    other: Address,
    key: Seq<u8>,
    amount: i128,
    fee_bips: u32,
    k_factor: u32,
)
    ensures
        ({
            let asked = s.effects.push(Effect::Authorisation { by: admin });
            &&& s.initialize_token(admin, other).effects == asked
            &&& s.initialize_puzzle_rewards(admin, key, amount, fee_bips, other).effects == asked
            &&& s.configure_fees(admin, fee_bips, other).effects == asked
            &&& s.upgrade_admin(admin).effects == asked
            &&& s.initialize_elo_system(admin, k_factor).effects == asked
        }),
        s.set_max_stake(amount).effects == s.effects,
{
}

// Puzzle rewards.

/// A claim that is paid moves the reward from the treasury to the recipient:
/// both balances change by the amount, and their sum over all addresses stays.
pub proof fn reward_moves_from_treasury_to_recipient(
    s: ContractModel,
    recipient: Address,
    reward_amount: i128,
    nonce: u64,
)
    requires
        s.balances.dom().finite(),
        !s.nonce_used(nonce),
        s.reward_fits(recipient, reward_amount),
    ensures
        ({
            let (answer, t) = s.claim_with_verdict(recipient, reward_amount, nonce, true);
            &&& answer == Some(Ok::<(), ContractError>(()))
            &&& balance(t.balances, recipient) == balance(s.balances, recipient) + reward_amount
            &&& t.treasury_reserve() == s.treasury_reserve() - reward_amount
            &&& t.treasury_reserve() + total(t.balances) == s.treasury_reserve() + total(
                s.balances,
            )
            &&& t.nonce_used(nonce)
        }),
{
    lemma_total_credit(s.balances, recipient, reward_amount as int);
}

/// Once a claim was paid, its nonce is refused in every later state, whoever
/// claims whatever with it and however it is signed.
pub proof fn replayed_nonce_is_refused(
    s: ContractModel,
    later: ContractModel,
    recipient: Address,
    reward_amount: i128,
    nonce: u64,
    other_recipient: Address,
    other_amount: i128,
    accepted: bool,
)
    requires
        s.claim_with_verdict(recipient, reward_amount, nonce, true).0 == Some(
            Ok::<(), ContractError>(()),
        ),
        s.claim_with_verdict(recipient, reward_amount, nonce, true).1.evolves(later),
    ensures
        later.claim_with_verdict(other_recipient, other_amount, nonce, accepted) == (
            Some(Err::<(), ContractError>(ContractError::Unauthorized)),
            later,
        ),
{
    let t = s.claim_with_verdict(recipient, reward_amount, nonce, true).1;
    assert(t.nonce_used(nonce));
}

/// A claim that the signature check rejected is never paid.
pub proof fn unsigned_claim_is_never_paid(
    s: ContractModel,
    recipient: Address,
    reward_amount: i128,
    nonce: u64,
)
    ensures
        s.claim_with_verdict(recipient, reward_amount, nonce, false).0 != Some(
            Ok::<(), ContractError>(()),
        ),
        s.claim_with_verdict(recipient, reward_amount, nonce, false).1 == s,
{
}

// Ratings.

/// A registered player is found at the starting rating, and registering again
/// returns the same rating and changes nothing; the player authorises it each
/// time.
pub proof fn registering_twice_is_registering_once(
    s: ContractModel,
    player: Address,
    sequence: u32,
    again: u32,
)
    ensures
        ({
            let (rating, t) = s.register_player(player, sequence);
            &&& found(t.ratings, player) == Some(rating)
            &&& t.register_player(player, again) == (rating, t.asking(player))
            &&& t.effects[s.effects.len() as int] == (Effect::Authorisation { by: player })
            &&& !s.ratings.contains_key(player) ==> {
                &&& rating.rating == 1200
                &&& rating.highest_rating == 1200
                &&& rating.games_played == 0
                &&& rating.address == player
            }
        }),
{
}

/// A game between two players moves points from one to the other: the sum of
/// their ratings stays.
pub proof fn rating_points_are_conserved(
    s: ContractModel,
    player1: Address,
    player2: Address,
    result: u32,
    sequence: u32,
)
    requires
        player1 != player2,
        s.update_ratings_fits(player1, player2, result),
        s.update_ratings(player1, player2, result, sequence).0 is Ok,
    ensures
        ({
            let (answer, t) = s.update_ratings(player1, player2, result, sequence);
            let (rating1, rating2) = answer.unwrap();
            &&& rating1.rating + rating2.rating == s.ratings[player1].rating
                + s.ratings[player2].rating
            &&& found(t.ratings, player1) == Some(rating1)
            &&& found(t.ratings, player2) == Some(rating2)
            &&& forall|other: Address|
                other != player1 && other != player2 ==> found(t.ratings, other) == found(
                    s.ratings,
                    other,
                )
        }),
{
    rating_changes_cancel(
        s.ratings[player1].rating as int,
        s.ratings[player2].rating as int,
        result,
        s.k(),
    );
}

/// With a K-factor that can be set, no rating moves by more than it, the winner
/// does not lose points, a draw does not gain the stronger player any, and
/// between equals the winner gains and the loser loses as soon as the K-factor
/// is at least 2.
pub proof fn winners_do_not_lose_points(
    s: ContractModel,
    player1: Address,
    player2: Address,
    result: u32,
    sequence: u32,
)
    requires
        1 <= s.k() <= 100,
        s.update_ratings_fits(player1, player2, result),
        s.update_ratings(player1, player2, result, sequence).0 is Ok,
    ensures
        ({
            let before1 = s.ratings[player1].rating;
            let before2 = s.ratings[player2].rating;
            let (rating1, rating2) = s.update_ratings(
                player1,
                player2,
                result,
                sequence,
            ).0.unwrap();
            &&& -(s.k() as int) <= rating1.rating - before1 <= s.k()
            &&& -(s.k() as int) <= rating2.rating - before2 <= s.k()
            &&& result == 1 ==> rating1.rating >= before1 && rating2.rating <= before2
            &&& result == 2 ==> rating1.rating <= before1 && rating2.rating >= before2
            &&& result == 3 && before1 >= before2 ==> rating1.rating <= before1 && rating2.rating
                >= before2
            &&& result == 3 && before1 <= before2 ==> rating1.rating >= before1 && rating2.rating
                <= before2
            &&& before1 == before2 && s.k() >= 2 ==> {
                &&& result == 1 ==> rating1.rating > before1 && rating2.rating < before2
                &&& result == 2 ==> rating1.rating < before1 && rating2.rating > before2
                &&& result == 3 ==> rating1.rating == before1 && rating2.rating == before2
            }
        }),
{
    let before1 = s.ratings[player1].rating as int;
    let before2 = s.ratings[player2].rating as int;
    rating_change_is_bounded(before1, before2, result, s.k());
    rating_change_is_bounded(before2, before1, mirrored(result), s.k());
    if before1 >= before2 {
        draw_favours_the_weaker(before1, before2, s.k());
    }
    if before1 <= before2 {
        draw_favours_the_weaker(before2, before1, s.k());
    }
    if before1 == before2 && s.k() >= 2 {
        even_win_gains_points(before1, s.k());
    }
}

} // verus!
