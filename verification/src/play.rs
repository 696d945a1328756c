//! What opening, joining, playing and drawing a game come to: when each call
//! succeeds, how it is refused, and what it changes.

use vstd::prelude::*;

use crate::address::Address;
use crate::error::ContractError;
use crate::game::{ChessMove, Game, GameModel, GameState};
use crate::ledger::balance;
use crate::model::{ContractModel, Effect};
use crate::store::found;

verus! {

/// A game and its moves are seen as they stand in their fields.
pub proof fn games_are_seen_as_they_stand(game: Game, chess_move: ChessMove, i: int)
    ensures
        chess_move@.player == chess_move.player,
        chess_move@.move_data == chess_move.move_data@,
        chess_move@.timestamp == chess_move.timestamp,
        game@.id == game.id,
        game@.player1 == game.player1,
        game@.player2 == game.player2,
        game@.state == game.state,
        game@.wager_amount == game.wager_amount,
        game@.current_turn == game.current_turn,
        game@.moves.len() == game.moves@.len(),
        0 <= i < game.moves@.len() ==> game@.moves[i] == game.moves@[i]@,
        game@.created_at == game.created_at,
        game@.winner == game.winner,
{
}

/// A lookup finds what stands under the key, and nothing where nothing stands.
pub proof fn lookup_finds_what_was_written<K, V>(table: Map<K, V>, key: K, other: K, value: V)
    ensures
        found(table.insert(key, value), key) == Some(value),
        other != key ==> found(table.insert(key, value), other) == found(table, other),
        table.contains_key(key) ==> found(table, key) == Some(table[key]),
        !table.contains_key(key) ==> found(table, key) is None,
{
}

/// A game is opened exactly when the wager is within the limit, which is 1000
/// where none was set, and the player holds it. The opener is asked for their
/// authorisation unless the limit refuses the game.
pub proof fn opening_needs_limit_and_funds(
    s: ContractModel,
    player1: Address,
    wager_amount: i128,
    token_balance: i128,
    sequence: u32,
)
    ensures
        ({
            let (answer, t) = s.create_game(player1, wager_amount, token_balance, sequence);
            let limit: int = match s.max_stake {
                Some(limit) => limit as int,
                None => 1000,
            };
            &&& answer is Ok <==> wager_amount <= limit && wager_amount <= token_balance
            &&& wager_amount > limit ==> {
                &&& answer == Err::<u64, ContractError>(ContractError::StakeLimitExceeded)
                &&& t == s
                &&& s.create_game_refusal(wager_amount) == Some(ContractError::StakeLimitExceeded)
            }
            &&& wager_amount <= limit ==> s.create_game_refusal(wager_amount) is None
            &&& token_balance < wager_amount <= limit ==> {
                &&& answer == Err::<u64, ContractError>(ContractError::InsufficientFunds)
                &&& t == (ContractModel { effects: t.effects, ..s })
                &&& t.effects == s.effects.push(Effect::Authorisation { by: player1 })
            }
        }),
{
}

/// A game that is opened gets the number after the counter and waits for a
/// second player with the first to move. The opener authorises the call, pays
/// the wager and has it added to their escrow; nothing else changes.
pub proof fn opened_game_waits_for_a_player(
    s: ContractModel,
    player1: Address,
    wager_amount: i128,
    token_balance: i128,
    sequence: u32,
    other: Address,
)
    requires
        s.game_counter != Some(u64::MAX),
        s.create_game(player1, wager_amount, token_balance, sequence).0 is Ok,
    ensures
        ({
            let (answer, t) = s.create_game(player1, wager_amount, token_balance, sequence);
            let id = answer.unwrap();
            let game = t.games[id];
            &&& id == 1 + match s.game_counter {
                Some(count) => count as int,
                None => 0,
            }
            &&& t == (ContractModel {
                game_counter: Some(id),
                games: t.games,
                escrow: t.escrow,
                effects: t.effects,
                ..s
            })
            &&& t.games == s.games.insert(id, game)
            &&& game.id == id
            &&& game.player1 == player1
            &&& game.player2 is None
            &&& game.state == GameState::Created
            &&& game.wager_amount == wager_amount
            &&& game.current_turn == 1
            &&& game.moves.len() == 0
            &&& game.created_at == sequence
            &&& game.winner is None
            &&& balance(t.escrow, player1) == balance(s.escrow, player1) + wager_amount
            &&& other != player1 ==> balance(t.escrow, other) == balance(s.escrow, other)
            &&& t.effects == s.effects + seq![
                Effect::Authorisation { by: player1 },
                Effect::Deposit { from: player1, amount: wager_amount },
            ]
        }),
{
    let t = s.create_game(player1, wager_amount, token_balance, sequence).1;
    assert(t.effects =~= s.effects + seq![
        Effect::Authorisation { by: player1 },
        Effect::Deposit { from: player1, amount: wager_amount },
    ]);
}

/// Opening a game can be asked for whenever the limit refuses it, or there is a
/// token and the funds do not suffice, or there is room for the number and the
/// stake.
pub proof fn opening_can_be_asked_for(
    s: ContractModel,
    player1: Address,
    wager_amount: i128,
    token_balance: i128,
)
    ensures
        ({
            let limit: int = match s.max_stake {
                Some(limit) => limit as int,
                None => 1000,
            };
            s.create_game_fits(player1, wager_amount, token_balance) <==> {
                ||| wager_amount > limit
                ||| s.token is Some && token_balance < wager_amount
                ||| {
                    &&& s.token is Some
                    &&& s.game_counter != Some(u64::MAX)
                    &&& i128::MIN <= balance(s.escrow, player1) + wager_amount <= i128::MAX
                }
            }
        }),
{
}

/// A game can be joined exactly when it is there and waiting, its second seat is
/// free, the player is not its first player, its wager is within the limit and
/// the player holds it. Each refusal has its error, in this order.
pub proof fn joining_needs_a_free_seat(
    s: ContractModel,
    game_id: u64,
    player2: Address,
    token_balance: i128,
)
    ensures
        ({
            let (answer, t) = s.join_game(game_id, player2, token_balance);
            let refusal = s.join_game_refusal(game_id, player2);
            let limit: int = match s.max_stake {
                Some(limit) => limit as int,
                None => 1000,
            };
            let game = s.games[game_id];
            let there = s.games.contains_key(game_id);
            let waiting = there && game.state == GameState::Created;
            let free = waiting && game.player2 is None;
            let fresh = free && game.player1 != player2;
            let allowed = fresh && game.wager_amount <= limit;
            &&& answer is Ok <==> allowed && game.wager_amount <= token_balance
            &&& refusal is None <==> allowed
            &&& refusal matches Some(e) ==> {
                &&& answer == Err::<(), ContractError>(e)
                &&& t == s
            }
            &&& !there ==> refusal == Some(ContractError::GameNotFound)
            &&& there && !waiting ==> refusal == Some(ContractError::GameAlreadyCompleted)
            &&& waiting && !free ==> refusal == Some(ContractError::GameFull)
            &&& free && !fresh ==> refusal == Some(ContractError::AlreadyJoined)
            &&& fresh && !allowed ==> refusal == Some(ContractError::StakeLimitExceeded)
            &&& allowed && token_balance < game.wager_amount ==> {
                &&& answer == Err::<(), ContractError>(ContractError::InsufficientFunds)
                &&& t == (ContractModel { effects: t.effects, ..s })
                &&& t.effects == s.effects.push(Effect::Authorisation { by: player2 })
            }
        }),
{
}

/// Joining fills the second seat and starts the game with the first player to
/// move. The new player authorises the call, pays the wager and has it added to
/// their escrow; nothing else changes.
pub proof fn joined_game_is_running(
    s: ContractModel,
    game_id: u64,
    player2: Address,
    token_balance: i128,
    other: Address,
)
    requires
        s.join_game(game_id, player2, token_balance).0 is Ok,
    ensures
        ({
            let t = s.join_game(game_id, player2, token_balance).1;
            let before = s.games[game_id];
            let after = t.games[game_id];
            &&& t == (ContractModel {
                games: t.games,
                escrow: t.escrow,
                effects: t.effects,
                ..s
            })
            &&& t.games == s.games.insert(game_id, after)
            &&& after == (GameModel {
                player2: after.player2,
                state: after.state,
                current_turn: after.current_turn,
                ..before
            })
            &&& after.player2 == Some(player2)
            &&& after.state == GameState::InProgress
            &&& after.current_turn == 1
            &&& balance(t.escrow, player2) == balance(s.escrow, player2) + before.wager_amount
            &&& other != player2 ==> balance(t.escrow, other) == balance(s.escrow, other)
            &&& t.effects == s.effects + seq![
                Effect::Authorisation { by: player2 },
                Effect::Deposit { from: player2, amount: before.wager_amount },
            ]
        }),
{
    let t = s.join_game(game_id, player2, token_balance).1;
    assert(t.effects =~= s.effects + seq![
        Effect::Authorisation { by: player2 },
        Effect::Deposit { from: player2, amount: s.games[game_id].wager_amount },
    ]);
}

/// Joining can be asked for whenever it is refused outright, or there is a token
/// and the funds do not suffice or the escrow has room for the stake.
pub proof fn joining_can_be_asked_for(
    s: ContractModel,
    game_id: u64,
    player2: Address,
    token_balance: i128,
)
    ensures
        ({
            let wager_amount = s.games[game_id].wager_amount;
            s.join_game_fits(game_id, player2, token_balance) <==> {
                ||| s.join_game_refusal(game_id, player2) is Some
                ||| s.token is Some && token_balance < wager_amount
                ||| {
                    &&& s.token is Some
                    &&& i128::MIN <= balance(s.escrow, player2) + wager_amount <= i128::MAX
                }
            }
        }),
{
}

/// A move is taken exactly when the game is running, the player sits in the seat
/// whose turn it is, the first seat being that of the first player, and the move
/// is not empty. Each refusal has its error, in this order, and changes nothing.
pub proof fn moving_needs_the_turn(
    s: ContractModel,
    game_id: u64,
    player: Address,
    move_data: Seq<u32>,
    sequence: u32,
)
    ensures
        ({
            let (answer, t) = s.submit_move(game_id, player, move_data, sequence);
            let game = s.games[game_id];
            let there = s.games.contains_key(game_id);
            let running = there && game.state == GameState::InProgress;
            let seated = running && (player == game.player1 || game.player2 == Some(player));
            let turn: int = if player == game.player1 {
                1
            } else {
                2
            };
            let due = seated && game.current_turn == turn;
            &&& answer is Ok <==> due && move_data.len() > 0
            &&& answer is Err ==> t == s
            &&& !there ==> answer == Err::<(), ContractError>(ContractError::GameNotFound)
            &&& there && !running ==> answer == Err::<(), ContractError>(
                ContractError::GameNotInProgress,
            )
            &&& running && !seated ==> answer == Err::<(), ContractError>(
                ContractError::NotPlayer,
            )
            &&& seated && !due ==> answer == Err::<(), ContractError>(ContractError::NotYourTurn)
            &&& due && move_data.len() == 0 ==> answer == Err::<(), ContractError>(
                ContractError::InvalidMove,
            )
        }),
{
}

/// A move that is taken is added after the earlier ones with the player who made
/// it, number for number as it was handed in, and the ledger sequence; the turn
/// passes to the other seat. Nothing else changes.
pub proof fn move_is_recorded_as_made(
    s: ContractModel,
    game_id: u64,
    player: Address,
    move_data: Seq<u32>,
    sequence: u32,
    i: int,
)
    requires
        s.submit_move(game_id, player, move_data, sequence).0 is Ok,
    ensures
        ({
            let t = s.submit_move(game_id, player, move_data, sequence).1;
            let before = s.games[game_id];
            let after = t.games[game_id];
            let made = after.moves.last();
            &&& t == (ContractModel { games: t.games, ..s })
            &&& t.games == s.games.insert(game_id, after)
            &&& after == (GameModel {
                moves: after.moves,
                current_turn: after.current_turn,
                ..before
            })
            &&& after.moves.len() == before.moves.len() + 1
            &&& 0 <= i < before.moves.len() ==> after.moves[i] == before.moves[i]
            &&& made.player == player
            &&& made.move_data.len() == move_data.len()
            &&& 0 <= i < move_data.len() ==> made.move_data[i] == move_data[i]
            &&& made.timestamp == sequence
            &&& after.current_turn + before.current_turn == 3
        }),
{
}

/// A draw is granted exactly to the two players of a running game, however many
/// moves were made. Each refusal has its error and changes nothing.
pub proof fn drawing_needs_only_a_player(s: ContractModel, game_id: u64, player: Address)
    ensures
        ({
            let (answer, t) = s.claim_draw(game_id, player);
            let game = s.games[game_id];
            let there = s.games.contains_key(game_id);
            let running = there && game.state == GameState::InProgress;
            &&& answer is Ok <==> running && (player == game.player1 || game.player2 == Some(
                player,
            ))
            &&& answer is Err ==> t == s
            &&& !there ==> answer == Err::<(), ContractError>(ContractError::GameNotFound)
            &&& there && !running ==> answer == Err::<(), ContractError>(
                ContractError::GameNotInProgress,
            )
            &&& running && player != game.player1 && game.player2 != Some(player) ==> answer
                == Err::<(), ContractError>(ContractError::NotPlayer)
        }),
{
}

/// A draw ends the game without a winner and pays each player their own stake,
/// out of their own escrow. Nothing else changes.
pub proof fn drawn_game_pays_each_player_back(
    s: ContractModel,
    game_id: u64,
    player: Address,
    address: Address,
)
    requires
        s.claim_draw(game_id, player).0 is Ok,
    ensures
        ({
            let t = s.claim_draw(game_id, player).1;
            let game = s.games[game_id];
            let to_first = Effect::Withdrawal { to: game.player1, amount: game.wager_amount };
            &&& t == (ContractModel {
                games: t.games,
                escrow: t.escrow,
                effects: t.effects,
                ..s
            })
            &&& t.games == s.games.insert(
                game_id,
                GameModel { state: GameState::Drawn, ..game },
            )
            &&& balance(t.escrow, address) == balance(s.escrow, address) - (if address
                == game.player1 {
                game.wager_amount as int
            } else {
                0
            }) - (if game.player2 == Some(address) {
                game.wager_amount as int
            } else {
                0
            })
            &&& t.effects == s.effects + match game.player2 {
                Some(player2) => seq![
                    to_first,
                    Effect::Withdrawal { to: player2, amount: game.wager_amount },
                ],
                None => seq![to_first],
            }
        }),
{
    let game = s.games[game_id];
    let t = s.claim_draw(game_id, player).1;
    let to_first = Effect::Withdrawal { to: game.player1, amount: game.wager_amount };
    match game.player2 {
        Some(player2) => {
            assert(t.effects =~= s.effects + seq![
                to_first,
                Effect::Withdrawal { to: player2, amount: game.wager_amount },
            ]);
        },
        None => {
            assert(t.effects =~= s.effects + seq![to_first]);
        },
    }
}

/// A draw can be asked for whenever it is refused, or there is a token and both
/// escrows have room for what leaves them.
pub proof fn drawing_can_be_asked_for(s: ContractModel, game_id: u64, player: Address)
    ensures
        ({
            let game = s.games[game_id];
            s.claim_draw_fits(game_id, player) <==> {
                ||| s.claim_draw(game_id, player).0 is Err
                ||| {
                    &&& s.token is Some
                    &&& i128::MIN <= balance(s.escrow, game.player1) - game.wager_amount
                        <= i128::MAX
                    &&& game.player2 matches Some(player2) ==> i128::MIN <= balance(
                        s.escrow,
                        player2,
                    ) - game.wager_amount * (if player2 == game.player1 {
                        2int
                    } else {
                        1int
                    }) <= i128::MAX
                }
            }
        }),
{
}

} // verus!
