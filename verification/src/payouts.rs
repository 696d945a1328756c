//! Who receives what when a game is given up, paid out or shared out.

use vstd::prelude::*;

use crate::address::Address;
use crate::arith::{division_rounds_toward_zero, quotient_is_unique, rounds_toward_zero};
use crate::error::ContractError;
use crate::game::{GameModel, GameState};
use crate::ledger::balance;
use crate::model::{
    distribution_fits, percent_sum, share, share_fits, share_sum, shared_out, ContractModel, Effect,
};

verus! {

/// A running game can be given up by its two players and by nobody else; a first
/// player without an opponent is told that the game is not full. Each refusal
/// has its error and changes nothing.
pub proof fn forfeiting_needs_an_opponent(s: ContractModel, game_id: u64, player: Address)
    ensures
        ({
            let (answer, t) = s.forfeit(game_id, player);
            let game = s.games[game_id];
            let there = s.games.contains_key(game_id);
            let running = there && game.state == GameState::InProgress;
            let seated = running && (player == game.player1 || game.player2 == Some(player));
            &&& answer is Ok <==> seated && game.player2 is Some
            &&& answer is Err ==> t == s
            &&& !there ==> answer == Err::<(), ContractError>(ContractError::GameNotFound)
            &&& there && !running ==> answer == Err::<(), ContractError>(
                ContractError::GameNotInProgress,
            )
            &&& running && !seated ==> answer == Err::<(), ContractError>(
                ContractError::NotPlayer,
            )
            &&& seated && game.player2 is None ==> answer == Err::<(), ContractError>(
                ContractError::GameFull,
            )
        }),
{
}

/// A completed game is paid out to the winner on record and to nobody else, and
/// only where it had two players. Each refusal has its error and changes
/// nothing.
pub proof fn payout_needs_the_winner_on_record(s: ContractModel, game_id: u64, winner: Address)
    ensures
        ({
            let (answer, t) = s.payout(game_id, winner);
            let game = s.games[game_id];
            let there = s.games.contains_key(game_id);
            let completed = there && game.state == GameState::Completed;
            let won = completed && game.winner == Some(winner);
            &&& answer is Ok <==> won && game.player2 is Some
            &&& answer is Err ==> t == s
            &&& !there ==> answer == Err::<(), ContractError>(ContractError::GameNotFound)
            &&& there && !completed ==> answer == Err::<(), ContractError>(
                ContractError::GameNotInProgress,
            )
            &&& completed && !won ==> answer == Err::<(), ContractError>(ContractError::NotPlayer)
            &&& won && game.player2 is None ==> answer == Err::<(), ContractError>(
                ContractError::GameFull,
            )
        }),
{
}

/// The fee of a pool is the given one.
proof fn lemma_fee(s: ContractModel, pool: int, fee: int)
    requires
        match (s.treasury_address, s.fee_bips) {
            (Some(_), Some(bips)) => rounds_toward_zero(pool * bips, 1000, fee),
            _ => fee == 0,
        },
    ensures
        s.fee(pool) == fee,
        s.prize(pool) == pool - fee,
{
    if let (Some(_), Some(bips)) = (s.treasury_address, s.fee_bips) {
        division_rounds_toward_zero(pool * bips, 1000);
        assert(bips == 0 ==> pool * bips == 0) by (nonlinear_arith);
        if bips == 0 {
            quotient_is_unique(0, 1000, fee, 0);
        } else {
            quotient_is_unique(pool * bips, 1000, fee, s.fee(pool));
        }
    }
}

proof fn lemma_process_payout(
    s: ContractModel,
    game: GameModel,
    winner: Address,
    fee: int,
    address: Address,
)
    requires
        game.player2 is Some,
        match (s.treasury_address, s.fee_bips) {
            (Some(_), Some(bips)) => rounds_toward_zero(
                game.wager_amount * 2 * bips,
                1000,
                fee,
            ),
            _ => fee == 0,
        },
        i128::MIN <= fee <= i128::MAX,
        i128::MIN <= game.wager_amount * 2 - fee <= i128::MAX,
    ensures
        ({
            let t = s.process_payout(game, winner).1;
            let prize = game.wager_amount * 2 - fee;
            let to_winner = Effect::Withdrawal { to: winner, amount: prize as i128 };
            &&& t == (ContractModel { escrow: t.escrow, effects: t.effects, ..s })
            &&& t.effects == s.effects + match s.treasury_address {
                Some(treasury) if fee > 0 => seq![
                    to_winner,
                    Effect::Withdrawal { to: treasury, amount: fee as i128 },
                ],
                _ => seq![to_winner],
            }
            &&& balance(t.escrow, address) == balance(s.escrow, address) - (if address
                == game.player1 {
                game.wager_amount as int
            } else {
                0
            }) - (if game.player2 == Some(address) {
                game.wager_amount as int
            } else {
                0
            }) + (if address == winner {
                prize
            } else {
                0
            }) + (if s.treasury_address == Some(address) && fee > 0 {
                fee
            } else {
                0
            })
        }),
{
    let pool = game.wager_amount * 2;
    lemma_fee(s, pool, fee);
    let t = s.process_payout(game, winner).1;
    let to_winner = Effect::Withdrawal { to: winner, amount: (pool - fee) as i128 };
    match s.treasury_address {
        Some(treasury) if fee > 0 => {
            assert(t.effects =~= s.effects + seq![
                to_winner,
                Effect::Withdrawal { to: treasury, amount: fee as i128 },
            ]);
        },
        _ => {
            assert(t.effects =~= s.effects + seq![to_winner]);
        },
    }
}

/// A game that is given up is won by the other player. The winner receives both
/// stakes less the fee, in one transfer; where there is a fee, the treasury
/// receives it in a second one. The fee is the given thousandths of both stakes
/// with the fraction cut off, and nothing where there is no treasury or no rate.
/// In the escrow each player loses their stake, the winner gains the prize and
/// the treasury the fee. Nothing else changes.
pub proof fn forfeited_stakes_go_to_the_opponent(
    s: ContractModel,
    game_id: u64,
    player: Address,
    fee: int,
    address: Address,
)
    requires
        s.forfeit(game_id, player).0 is Ok,
        match (s.treasury_address, s.fee_bips) {
            (Some(_), Some(bips)) => rounds_toward_zero(
                s.games[game_id].wager_amount * 2 * bips,
                1000,
                fee,
            ),
            _ => fee == 0,
        },
        i128::MIN <= fee <= i128::MAX,
        i128::MIN <= s.games[game_id].wager_amount * 2 - fee <= i128::MAX,
    ensures
        ({
            let t = s.forfeit(game_id, player).1;
            let game = s.games[game_id];
            let winner = if player == game.player1 {
                game.player2.unwrap()
            } else {
                game.player1
            };
            let prize = game.wager_amount * 2 - fee;
            let to_winner = Effect::Withdrawal { to: winner, amount: prize as i128 };
            &&& t == (ContractModel {
                games: t.games,
                escrow: t.escrow,
                effects: t.effects,
                ..s
            })
            &&& t.games == s.games.insert(
                game_id,
                GameModel { state: GameState::Forfeited, winner: Some(winner), ..game },
            )
            &&& t.effects == s.effects + match s.treasury_address {
                Some(treasury) if fee > 0 => seq![
                    to_winner,
                    Effect::Withdrawal { to: treasury, amount: fee as i128 },
                ],
                _ => seq![to_winner],
            }
            &&& balance(t.escrow, address) == balance(s.escrow, address) - (if address
                == game.player1 {
                game.wager_amount as int
            } else {
                0
            }) - (if game.player2 == Some(address) {
                game.wager_amount as int
            } else {
                0
            }) + (if address == winner {
                prize
            } else {
                0
            }) + (if s.treasury_address == Some(address) && fee > 0 {
                fee
            } else {
                0
            })
        }),
{
    let game = s.games[game_id];
    let winner = if player == game.player1 {
        game.player2.unwrap()
    } else {
        game.player1
    };
    let ended = GameModel { state: GameState::Forfeited, winner: Some(winner), ..game };
    lemma_process_payout(s, ended, winner, fee, address);
}

/// A completed game pays the winner on record both stakes less the fee, in one
/// transfer; where there is a fee, the treasury receives it in a second one. In
/// the escrow each player loses their stake, the winner gains the prize and the
/// treasury the fee. No game and nothing else changes.
pub proof fn paid_stakes_go_to_the_winner(
    s: ContractModel,
    game_id: u64,
    winner: Address,
    fee: int,
    address: Address,
)
    requires
        s.payout(game_id, winner).0 is Ok,
        match (s.treasury_address, s.fee_bips) {
            (Some(_), Some(bips)) => rounds_toward_zero(
                s.games[game_id].wager_amount * 2 * bips,
                1000,
                fee,
            ),
            _ => fee == 0,
        },
        i128::MIN <= fee <= i128::MAX,
        i128::MIN <= s.games[game_id].wager_amount * 2 - fee <= i128::MAX,
    ensures
        ({
            let t = s.payout(game_id, winner).1;
            let game = s.games[game_id];
            let prize = game.wager_amount * 2 - fee;
            let to_winner = Effect::Withdrawal { to: winner, amount: prize as i128 };
            &&& t == (ContractModel { escrow: t.escrow, effects: t.effects, ..s })
            &&& t.effects == s.effects + match s.treasury_address {
                Some(treasury) if fee > 0 => seq![
                    to_winner,
                    Effect::Withdrawal { to: treasury, amount: fee as i128 },
                ],
                _ => seq![to_winner],
            }
            &&& balance(t.escrow, address) == balance(s.escrow, address) - (if address
                == game.player1 {
                game.wager_amount as int
            } else {
                0
            }) - (if game.player2 == Some(address) {
                game.wager_amount as int
            } else {
                0
            }) + (if address == winner {
                prize
            } else {
                0
            }) + (if s.treasury_address == Some(address) && fee > 0 {
                fee
            } else {
                0
            })
        }),
{
    lemma_process_payout(s, s.games[game_id], winner, fee, address);
}

/// Paying the pool of a game to a winner stays in range exactly when the pool,
/// its product with the rate and the prize do, and so does each escrow after
/// each step; with two players there has to be a token.
pub proof fn payout_stays_in_range(s: ContractModel, game: GameModel, winner: Address, fee: int)
    requires
        match (s.treasury_address, s.fee_bips) {
            (Some(_), Some(bips)) => rounds_toward_zero(
                game.wager_amount * 2 * bips,
                1000,
                fee,
            ),
            _ => fee == 0,
        },
    ensures
        s.payout_fits_game(game, winner) <==> {
            let stake = game.wager_amount as int;
            let prize = stake * 2 - fee;
            &&& i128::MIN <= stake * 2 <= i128::MAX
            &&& (s.treasury_address is Some && s.fee_bips is Some) ==> {
                &&& i128::MIN <= stake * 2 * s.fee_bips.unwrap() <= i128::MAX
                &&& i128::MIN <= prize <= i128::MAX
            }
            &&& i128::MIN <= balance(s.escrow, game.player1) - stake <= i128::MAX
            &&& game.player2 matches Some(player2) ==> {
                let taken = |a: Address|
                    (if a == game.player1 {
                        stake
                    } else {
                        0
                    }) + (if a == player2 {
                        stake
                    } else {
                        0
                    });
                &&& s.token is Some
                &&& i128::MIN <= balance(s.escrow, player2) - taken(player2) <= i128::MAX
                &&& i128::MIN <= balance(s.escrow, winner) - taken(winner) + prize <= i128::MAX
                &&& s.treasury_address matches Some(treasury) ==> fee > 0 ==> i128::MIN <= balance(
                    s.escrow,
                    treasury,
                ) - taken(treasury) + (if treasury == winner {
                    prize
                } else {
                    0
                }) + fee <= i128::MAX
            }
        },
{
    lemma_fee(s, game.wager_amount * 2, fee);
    if let (Some(_), Some(bips)) = (s.treasury_address, s.fee_bips) {
        assert(bips == 0 ==> game.wager_amount * 2 * bips == 0) by (nonlinear_arith);
    }
}

/// Giving up a game and paying out a completed one can be asked for whenever
/// they are refused, or the payout stays in range.
pub proof fn payouts_can_be_asked_for(
    s: ContractModel,
    game_id: u64,
    player: Address,
    winner: Address,
)
    ensures
        ({
            let game = s.games[game_id];
            let opponent = if player == game.player1 {
                game.player2.unwrap()
            } else {
                game.player1
            };
            &&& s.forfeit_fits(game_id, player) <==> s.forfeit(game_id, player).0 is Err
                || s.payout_fits_game(game, opponent)
            &&& s.payout_fits(game_id, winner) <==> {
                ||| !s.games.contains_key(game_id)
                ||| game.state != GameState::Completed
                ||| game.winner != Some(winner)
                ||| s.payout_fits_game(game, winner)
            }
        }),
{
}

/// Percentages and shares are added up one by one.
pub proof fn shares_are_added_up(percentages: Seq<u32>, percentage: u32, pool: int)
    ensures
        percent_sum(Seq::empty()) == 0,
        percent_sum(percentages.push(percentage)) == percent_sum(percentages) + percentage,
        share_sum(pool, Seq::empty()) == 0,
        share_sum(pool, percentages.push(percentage)) == share_sum(pool, percentages) + share(
            pool,
            percentage,
        ),
        rounds_toward_zero(pool * percentage, 100, share(pool, percentage)),
{
    assert(percentages.push(percentage).drop_last() =~= percentages);
    division_rounds_toward_zero(pool * percentage, 100);
}

/// A tournament is shared out exactly when the game is completed, there is a
/// percentage for each winner, the percentages add up to 100 and each player's
/// escrow covers the stake. Each refusal has its error, in this order. The first
/// player is asked for their authorisation as soon as the game is found to be
/// completed; beyond that a refusal changes nothing.
pub proof fn sharing_needs_a_whole_pool(
    s: ContractModel,
    game_id: u64,
    winners: Seq<Address>,
    percentages: Seq<u32>,
)
    ensures
        ({
            let (answer, t) = s.payout_tournament(game_id, winners, percentages);
            let game = s.games[game_id];
            let there = s.games.contains_key(game_id);
            let completed = there && game.state == GameState::Completed;
            let paired = completed && winners.len() == percentages.len();
            let whole = paired && percent_sum(percentages) == 100;
            let covered = balance(s.escrow, game.player1) >= game.wager_amount && (
            game.player2 matches Some(player2) ==> balance(s.escrow, player2)
                >= game.wager_amount);
            &&& answer is Ok <==> whole && covered
            &&& !there ==> answer == Err::<(), ContractError>(ContractError::GameNotFound)
            &&& there && !completed ==> answer == Err::<(), ContractError>(
                ContractError::GameNotInProgress,
            )
            &&& completed && !paired ==> answer == Err::<(), ContractError>(
                ContractError::MismatchedLengths,
            )
            &&& paired && !whole ==> answer == Err::<(), ContractError>(
                ContractError::InvalidPercentage,
            )
            &&& whole && !covered ==> answer == Err::<(), ContractError>(
                ContractError::InsufficientFunds,
            )
            &&& !completed ==> t == s
            &&& completed ==> t.effects == s.effects.push(
                Effect::Authorisation { by: game.player1 },
            )
            &&& completed && answer is Err ==> t == (ContractModel { effects: t.effects, ..s })
        }),
{
}

/// What an address is due from a list of shares: those of the places at which it
/// is named.
pub open spec fn due(winners: Seq<Address>, shares: Seq<int>, address: Address) -> int
    decreases shares.len(),
{
    if shares.len() == 0 {
        0
    } else {
        due(winners.drop_last(), shares.drop_last(), address) + if winners.last() == address {
            shares.last()
        } else {
            0
        }
    }
}

/// The sum of a list of shares.
pub open spec fn sum(shares: Seq<int>) -> int
    decreases shares.len(),
{
    if shares.len() == 0 {
        0
    } else {
        sum(shares.drop_last()) + shares.last()
    }
}

/// What is due grows by each share for the address that it is named with, and
/// for nobody else.
pub proof fn each_share_is_due_to_its_winner(
    winners: Seq<Address>,
    shares: Seq<int>,
    winner: Address,
    part: int,
    address: Address,
)
    requires
        winners.len() == shares.len(),
    ensures
        due(Seq::empty(), Seq::empty(), address) == 0,
        due(winners.push(winner), shares.push(part), winner) == due(winners, shares, winner)
            + part,
        address != winner ==> due(winners.push(winner), shares.push(part), address) == due(
            winners,
            shares,
            address,
        ),
        sum(Seq::empty()) == 0,
        sum(shares.push(part)) == sum(shares) + part,
{
    assert(winners.push(winner).drop_last() =~= winners);
    assert(shares.push(part).drop_last() =~= shares);
}

/// What sharing out does to one balance.
proof fn lemma_shared_out_balance(
    table: Map<Address, int>,
    pool: int,
    winners: Seq<Address>,
    percentages: Seq<u32>,
    shares: Seq<int>,
    address: Address,
)
    requires
        winners.len() == percentages.len(),
        shares.len() == percentages.len(),
        forall|i: int|
            0 <= i < shares.len() ==> rounds_toward_zero(
                pool * percentages[i],
                100,
                #[trigger] shares[i],
            ),
    ensures
        balance(shared_out(table, pool, winners, percentages), address) == balance(table, address)
            + due(winners, shares, address),
        share_sum(pool, percentages) == sum(shares),
    decreases shares.len(),
{
    if shares.len() > 0 {
        let last = shares.len() - 1;
        assert forall|i: int| 0 <= i < shares.drop_last().len() implies rounds_toward_zero(
            pool * percentages.drop_last()[i],
            100,
            #[trigger] shares.drop_last()[i],
        ) by {
            assert(rounds_toward_zero(pool * percentages[i], 100, shares[i]));
        }
        lemma_shared_out_balance(
            table,
            pool,
            winners.drop_last(),
            percentages.drop_last(),
            shares.drop_last(),
            address,
        );
        assert(rounds_toward_zero(pool * percentages[last], 100, shares[last]));
        division_rounds_toward_zero(pool * percentages[last], 100);
        quotient_is_unique(
            pool * percentages[last],
            100,
            shares[last],
            share(pool, percentages[last]),
        );
    }
}

/// A tournament takes the stakes of those who play out of their escrow and
/// credits each winner with their percentage of them, the fraction cut off; what
/// that leaves over is credited to the first winner. No game changes and no
/// tokens move; the first player authorises the call.
pub proof fn shared_stakes_go_to_the_winners(
    s: ContractModel,
    game_id: u64,
    winners: Seq<Address>,
    percentages: Seq<u32>,
    shares: Seq<int>,
    address: Address,
)
    requires
        s.payout_tournament(game_id, winners, percentages).0 is Ok,
        shares.len() == percentages.len(),
        forall|i: int|
            0 <= i < shares.len() ==> rounds_toward_zero(
                s.games[game_id].wager_amount * (if s.games[game_id].player2 is Some {
                    2int
                } else {
                    1int
                }) * percentages[i],
                100,
                #[trigger] shares[i],
            ),
    ensures
        ({
            let t = s.payout_tournament(game_id, winners, percentages).1;
            let game = s.games[game_id];
            let pool = game.wager_amount * (if game.player2 is Some {
                2int
            } else {
                1int
            });
            &&& winners.len() > 0
            &&& t == (ContractModel { escrow: t.escrow, effects: t.effects, ..s })
            &&& t.effects == s.effects.push(Effect::Authorisation { by: game.player1 })
            &&& balance(t.escrow, address) == balance(s.escrow, address) - (if address
                == game.player1 || game.player2 == Some(address) {
                game.wager_amount as int
            } else {
                0
            }) + due(winners, shares, address) + (if address == winners[0] && pool > sum(shares) {
                pool - sum(shares)
            } else {
                0
            })
        }),
{
    let game = s.games[game_id];
    let pool = ContractModel::tournament_pool(game);
    let table = s.tournament_stakes_out(game);
    lemma_shared_out_balance(table, pool, winners, percentages, shares, address);
    assert(winners.len() > 0) by {
        assert(percent_sum(Seq::empty()) == 0);
        if percentages.len() == 0 {
            assert(percentages =~= Seq::empty());
        }
    }
}

/// The first shares of a list are those of the first percentages.
proof fn lemma_shares_of_the_first(pool: int, percentages: Seq<u32>, shares: Seq<int>, n: int)
    requires
        0 <= n <= shares.len(),
        shares.len() == percentages.len(),
        forall|i: int|
            0 <= i < shares.len() ==> rounds_toward_zero(
                pool * percentages[i],
                100,
                #[trigger] shares[i],
            ),
    ensures
        forall|i: int|
            0 <= i < n ==> rounds_toward_zero(
                pool * percentages.take(n)[i],
                100,
                #[trigger] shares.take(n)[i],
            ),
{
    assert forall|i: int| 0 <= i < n implies rounds_toward_zero(
        pool * percentages.take(n)[i],
        100,
        #[trigger] shares.take(n)[i],
    ) by {
        assert(rounds_toward_zero(pool * percentages[i], 100, shares[i]));
    }
}

/// Crediting one share after those before it stays in range exactly when its
/// product, the sum of the shares so far and the balance that is written do.
pub proof fn credit_stays_in_range(
    table: Map<Address, int>,
    pool: int,
    winners: Seq<Address>,
    percentages: Seq<u32>,
    shares: Seq<int>,
    i: int,
)
    requires
        winners.len() == percentages.len(),
        shares.len() == percentages.len(),
        0 <= i < shares.len(),
        forall|j: int|
            0 <= j < shares.len() ==> rounds_toward_zero(
                pool * percentages[j],
                100,
                #[trigger] shares[j],
            ),
    ensures
        share_fits(table, pool, winners, percentages, i) <==> {
            &&& i128::MIN <= pool * percentages[i] <= i128::MAX
            &&& i128::MIN <= sum(shares.take(i + 1)) <= i128::MAX
            &&& i128::MIN <= balance(table, winners[i]) + due(
                winners.take(i),
                shares.take(i),
                winners[i],
            ) + shares[i] <= i128::MAX
        },
{
    assert(rounds_toward_zero(pool * percentages[i], 100, shares[i]));
    division_rounds_toward_zero(pool * percentages[i], 100);
    quotient_is_unique(pool * percentages[i], 100, shares[i], share(pool, percentages[i]));
    lemma_shares_of_the_first(pool, percentages, shares, i);
    lemma_shares_of_the_first(pool, percentages, shares, i + 1);
    lemma_shared_out_balance(
        table,
        pool,
        winners.take(i),
        percentages.take(i),
        shares.take(i),
        winners[i],
    );
    lemma_shared_out_balance(
        table,
        pool,
        winners.take(i + 1),
        percentages.take(i + 1),
        shares.take(i + 1),
        winners[i],
    );
}

/// Sharing a pool out of a table stays in range exactly when each credit, what
/// is left over and the last balance of the first winner do.
pub proof fn distribution_stays_in_range(
    table: Map<Address, int>,
    pool: int,
    winners: Seq<Address>,
    percentages: Seq<u32>,
    shares: Seq<int>,
)
    requires
        winners.len() == percentages.len(),
        shares.len() == percentages.len(),
        forall|i: int|
            0 <= i < shares.len() ==> rounds_toward_zero(
                pool * percentages[i],
                100,
                #[trigger] shares[i],
            ),
    ensures
        distribution_fits(table, pool, winners, percentages) <==> {
            &&& forall|i: int|
                0 <= i < winners.len() ==> share_fits(table, pool, winners, percentages, i)
            &&& i128::MIN <= pool - sum(shares) <= i128::MAX
            &&& pool > sum(shares) && winners.len() > 0 ==> i128::MIN <= balance(
                table,
                winners[0],
            ) + due(winners, shares, winners[0]) + pool - sum(shares) <= i128::MAX
        },
{
    lemma_shared_out_balance(table, pool, winners, percentages, shares, winners[0]);
}

/// A tournament can be asked for whenever the percentages add up in range and it
/// is refused, or the pool and the stakes taken out are in range and sharing the
/// pool out of the escrow that this leaves is.
pub proof fn sharing_can_be_asked_for(
    s: ContractModel,
    game_id: u64,
    winners: Seq<Address>,
    percentages: Seq<u32>,
    address: Address,
)
    ensures
        ({
            let game = s.games[game_id];
            let stake = game.wager_amount as int;
            let pool = stake * (if game.player2 is Some {
                2int
            } else {
                1int
            });
            let table = s.tournament_stakes_out(game);
            &&& balance(table, address) == balance(s.escrow, address) - (if address
                == game.player1 || game.player2 == Some(address) {
                stake
            } else {
                0
            })
            &&& s.payout_tournament_fits(game_id, winners, percentages) <==> {
                &&& s.games.contains_key(game_id) && game.state == GameState::Completed
                    && winners.len() == percentages.len() ==> percent_sum(percentages) <= u32::MAX
                &&& s.payout_tournament(game_id, winners, percentages).0 is Ok ==> {
                    &&& i128::MIN <= pool <= i128::MAX
                    &&& i128::MIN <= balance(s.escrow, game.player1) - stake <= i128::MAX
                    &&& game.player2 matches Some(player2) ==> i128::MIN <= balance(
                        s.escrow,
                        player2,
                    ) - stake <= i128::MAX
                    &&& distribution_fits(table, pool, winners, percentages)
                }
            }
        }),
{
}

} // verus!
