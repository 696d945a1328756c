//! The contract as a mathematical state machine: what each call answers and
//! what state it leaves behind.

use vstd::prelude::*;

use crate::address::Address;
use crate::arith::{fits_i128, fits_i32, signed32, trunc_div};
use crate::claim::{claim_digest, ed25519_accepts};
use crate::error::ContractError;
use crate::game::{GameModel, GameState, MoveModel};
use crate::ledger::{balance, credit, lemma_total_credit, total};
use crate::rating::{
    after_game, change_against, expected_score, first_score, fresh_rating, game_fits, mirrored,
    PlayerRating,
};
use crate::store::found;

verus! {

/// What a call asks of the network: an authorisation, a movement of tokens, or
/// an event.
#[derive(Copy, Clone, Debug, PartialEq, Eq, Structural)]
pub enum Effect {
    /// The address has to authorise the call; without that the call fails as a
    /// whole.
    Authorisation { by: Address },
    /// Tokens from an address to the contract.
    Deposit { from: Address, amount: i128 },
    /// Tokens from the contract to an address.
    Withdrawal { to: Address, amount: i128 },
    RewardClaimed { recipient: Address, amount: i128 },
    PlayerRegistered { player: Address, rating: i32 },
    RatingsUpdated { player1: Address, rating1: i32, player2: Address, rating2: i32 },
}

/// The state of the contract as a mathematical value. A setting that was never
/// written is `None`.
#[verifier::ext_equal]
pub struct ContractModel {
    pub token: Option<Address>,
    pub game_counter: Option<u64>,
    pub max_stake: Option<i128>,
    pub admin: Option<Address>,
    pub admin_key: Option<Seq<u8>>,
    pub treasury: Option<i128>,
    pub treasury_address: Option<Address>,
    pub fee_bips: Option<u32>,
    pub k_factor: Option<u32>,
    pub games: Map<u64, GameModel>,
    pub escrow: Map<Address, int>,
    pub balances: Map<Address, int>,
    pub nonces: Map<u64, bool>,
    pub ratings: Map<Address, PlayerRating>,
    /// What the network was asked for and has not been handed over yet.
    pub effects: Seq<Effect>,
}

/// The sum of a list of percentages.
pub open spec fn percent_sum(percentages: Seq<u32>) -> int
    decreases percentages.len(),
{
    if percentages.len() == 0 {
        0
    } else {
        percent_sum(percentages.drop_last()) + percentages.last()
    }
}

/// A percentage of a pool, rounded toward zero.
pub open spec fn share(pool: int, percentage: u32) -> int {
    trunc_div(pool * percentage, 100)
}

/// The sum of the shares of a pool.
pub open spec fn share_sum(pool: int, percentages: Seq<u32>) -> int
    decreases percentages.len(),
{
    if percentages.len() == 0 {
        0
    } else {
        share_sum(pool, percentages.drop_last()) + share(pool, percentages.last())
    }
}

/// A table of balances after each winner was credited with their share.
pub open spec fn shared_out(
    table: Map<Address, int>,
    pool: int,
    winners: Seq<Address>,
    percentages: Seq<u32>,
) -> Map<Address, int>
    decreases percentages.len(),
{
    if percentages.len() == 0 || winners.len() == 0 {
        table
    } else {
        credit(
            shared_out(table, pool, winners.drop_last(), percentages.drop_last()),
            winners.last(),
            share(pool, percentages.last()),
        )
    }
}

/// What the rounding of the shares leaves over.
pub open spec fn dust(pool: int, percentages: Seq<u32>) -> int {
    pool - share_sum(pool, percentages)
}

/// The table after the pool was shared out and the dust went to the first
/// winner.
pub open spec fn distributed(
    table: Map<Address, int>,
    pool: int,
    winners: Seq<Address>,
    percentages: Seq<u32>,
) -> Map<Address, int> {
    let shared = shared_out(table, pool, winners, percentages);
    if dust(pool, percentages) > 0 && winners.len() > 0 {
        credit(shared, winners[0], dust(pool, percentages))
    } else {
        shared
    }
}

/// Whether no balance leaves its range while the pool is shared out.
pub open spec fn distribution_fits(
    table: Map<Address, int>,
    pool: int,
    winners: Seq<Address>,
    percentages: Seq<u32>,
) -> bool {
    &&& forall|i: int|
        0 <= i < percentages.len() ==> share_fits(table, pool, winners, percentages, i)
    &&& fits_i128(dust(pool, percentages))
    &&& dust(pool, percentages) > 0 && winners.len() > 0 ==> fits_i128(
        balance(shared_out(table, pool, winners, percentages), winners[0]) + dust(
            pool,
            percentages,
        ),
    )
}

/// Whether crediting the share of the given number stays in range.
pub open spec fn share_fits(
    table: Map<Address, int>,
    pool: int,
    winners: Seq<Address>,
    percentages: Seq<u32>,
    i: int,
) -> bool {
    &&& fits_i128(pool * percentages[i])
    &&& fits_i128(share_sum(pool, percentages.take(i + 1)))
    &&& fits_i128(
        balance(shared_out(table, pool, winners.take(i), percentages.take(i)), winners[i]) + share(
            pool,
            percentages[i],
        ),
    )
}

pub proof fn lemma_percent_sum_step(percentages: Seq<u32>, i: int)
    requires
        0 <= i < percentages.len(),
    ensures
        percent_sum(percentages.take(i + 1)) == percent_sum(percentages.take(i)) + percentages[i],
{
    assert(percentages.take(i + 1).drop_last() =~= percentages.take(i));
}

/// A sum of percentages is at least the sum of the first few.
pub proof fn lemma_percent_sum_grows(percentages: Seq<u32>, i: int)
    requires
        0 <= i <= percentages.len(),
    ensures
        0 <= percent_sum(percentages.take(i)) <= percent_sum(percentages),
    decreases percentages.len() + percentages.len() - i,
{
    if i == percentages.len() {
        assert(percentages.take(i) =~= percentages);
        if i > 0 {
            lemma_percent_sum_grows(percentages.drop_last(), i - 1);
        }
    } else {
        lemma_percent_sum_step(percentages, i);
        lemma_percent_sum_grows(percentages, i + 1);
        lemma_percent_sum_grows(percentages.take(i), i);
    }
}

/// How crediting one more share extends what was shared out before.
pub proof fn lemma_share_step(
    table: Map<Address, int>,
    pool: int,
    winners: Seq<Address>,
    percentages: Seq<u32>,
    i: int,
)
    requires
        winners.len() == percentages.len(),
        0 <= i < percentages.len(),
    ensures
        share_sum(pool, percentages.take(i + 1)) == share_sum(pool, percentages.take(i)) + share(
            pool,
            percentages[i],
        ),
        shared_out(table, pool, winners.take(i + 1), percentages.take(i + 1)) == credit(
            shared_out(table, pool, winners.take(i), percentages.take(i)),
            winners[i],
            share(pool, percentages[i]),
        ),
{
    assert(percentages.take(i + 1).drop_last() =~= percentages.take(i));
    assert(winners.take(i + 1).drop_last() =~= winners.take(i));
}

/// Sharing a pool out raises the sum of a table by the shares.
pub proof fn lemma_shared_out_total(
    table: Map<Address, int>,
    pool: int,
    winners: Seq<Address>,
    percentages: Seq<u32>,
)
    requires
        table.dom().finite(),
        winners.len() == percentages.len(),
    ensures
        shared_out(table, pool, winners, percentages).dom().finite(),
        total(shared_out(table, pool, winners, percentages)) == total(table) + share_sum(
            pool,
            percentages,
        ),
    decreases percentages.len(),
{
    if percentages.len() > 0 {
        lemma_shared_out_total(table, pool, winners.drop_last(), percentages.drop_last());
        lemma_total_credit(
            shared_out(table, pool, winners.drop_last(), percentages.drop_last()),
            winners.last(),
            share(pool, percentages.last()),
        );
    }
}

impl ContractModel {
    /// The state of a contract of which nothing was written yet.
    pub open spec fn blank() -> Self {
        ContractModel {
            token: None,
            game_counter: None,
            max_stake: None,
            admin: None,
            admin_key: None,
            treasury: None,
            treasury_address: None,
            fee_bips: None,
            k_factor: None,
            games: Map::empty(),
            escrow: Map::empty(),
            balances: Map::empty(),
            nonces: Map::empty(),
            ratings: Map::empty(),
            effects: Seq::empty(),
        }
    }

    // Settings and their defaults.

    pub open spec fn counter(self) -> u64 {
        match self.game_counter {
            Some(n) => n,
            None => 0,
        }
    }

    pub open spec fn stake_limit(self) -> i128 {
        match self.max_stake {
            Some(limit) => limit,
            None => 1000,
        }
    }

    pub open spec fn fee_rate(self) -> u32 {
        match self.fee_bips {
            Some(bips) => bips,
            None => 0,
        }
    }

    pub open spec fn k(self) -> u32 {
        match self.k_factor {
            Some(k) => k,
            None => 32,
        }
    }

    pub open spec fn treasury_reserve(self) -> i128 {
        match self.treasury {
            Some(amount) => amount,
            None => 0,
        }
    }

    pub open spec fn nonce_used(self, nonce: u64) -> bool {
        self.nonces.contains_key(nonce) && self.nonces[nonce]
    }

    /// The state after somebody was asked to authorise the call.
    pub open spec fn asking(self, by: Address) -> Self {
        ContractModel { effects: self.effects.push(Effect::Authorisation { by }), ..self }
    }

    // Creating and joining.

    /// Why a new game is refused before the network is asked for anything, if
    /// it is.
    pub open spec fn create_game_refusal(self, wager_amount: i128) -> Option<ContractError> {
        if wager_amount > self.stake_limit() {
            Some(ContractError::StakeLimitExceeded)
        } else {
            None
        }
    }

    pub open spec fn create_game_fits(
        self,
        player1: Address,
        wager_amount: i128,
        token_balance: i128,
    ) -> bool {
        self.create_game_refusal(wager_amount) is None ==> {
            &&& self.token is Some
            &&& token_balance >= wager_amount ==> {
                &&& self.counter() < u64::MAX
                &&& fits_i128(balance(self.escrow, player1) + wager_amount)
            }
        }
    }

    /// The game that a player opens.
    pub open spec fn opened_game(
        self,
        player1: Address,
        wager_amount: i128,
        sequence: u32,
    ) -> GameModel {
        GameModel {
            id: (self.counter() + 1) as u64,
            player1,
            player2: None,
            state: GameState::Created,
            wager_amount,
            current_turn: 1,
            moves: Seq::empty(),
            created_at: sequence as u64,
            winner: None,
        }
    }

    pub open spec fn create_game(
        self,
        player1: Address,
        wager_amount: i128,
        token_balance: i128,
        sequence: u32,
    ) -> (Result<u64, ContractError>, Self) {
        match self.create_game_refusal(wager_amount) {
            Some(e) => (Err(e), self),
            None => if token_balance < wager_amount {
                (Err(ContractError::InsufficientFunds), self.asking(player1))
            } else {
                let game = self.opened_game(player1, wager_amount, sequence);
                (
                    Ok(game.id),
                    ContractModel {
                        game_counter: Some(game.id),
                        games: self.games.insert(game.id, game),
                        escrow: credit(self.escrow, player1, wager_amount as int),
                        effects: self.asking(player1).effects.push(
                            Effect::Deposit { from: player1, amount: wager_amount },
                        ),
                        ..self
                    },
                )
            },
        }
    }

    /// Why joining a game is refused before the network is asked for anything,
    /// if it is.
    pub open spec fn join_game_refusal(self, game_id: u64, player2: Address) -> Option<
        ContractError,
    > {
        if !self.games.contains_key(game_id) {
            Some(ContractError::GameNotFound)
        } else {
            let game = self.games[game_id];
            if game.state != GameState::Created {
                Some(ContractError::GameAlreadyCompleted)
            } else if game.player2 is Some {
                Some(ContractError::GameFull)
            } else if game.player1 == player2 {
                Some(ContractError::AlreadyJoined)
            } else if game.wager_amount > self.stake_limit() {
                Some(ContractError::StakeLimitExceeded)
            } else {
                None
            }
        }
    }

    pub open spec fn join_game_fits(
        self,
        game_id: u64,
        player2: Address,
        token_balance: i128,
    ) -> bool {
        self.join_game_refusal(game_id, player2) is None ==> {
            &&& self.token is Some
            &&& token_balance >= self.games[game_id].wager_amount ==> fits_i128(
                balance(self.escrow, player2) + self.games[game_id].wager_amount,
            )
        }
    }

    pub open spec fn join_game(self, game_id: u64, player2: Address, token_balance: i128) -> (
        Result<(), ContractError>,
        Self,
    ) {
        match self.join_game_refusal(game_id, player2) {
            Some(e) => (Err(e), self),
            None => {
                let game = self.games[game_id];
                if token_balance < game.wager_amount {
                    (Err(ContractError::InsufficientFunds), self.asking(player2))
                } else {
                    (
                        Ok(()),
                        ContractModel {
                            games: self.games.insert(
                                game_id,
                                GameModel {
                                    player2: Some(player2),
                                    state: GameState::InProgress,
                                    current_turn: 1,
                                    ..game
                                },
                            ),
                            escrow: credit(self.escrow, player2, game.wager_amount as int),
                            effects: self.asking(player2).effects.push(
                                Effect::Deposit { from: player2, amount: game.wager_amount },
                            ),
                            ..self
                        },
                    )
                }
            },
        }
    }

    // Playing.

    /// Why a move is refused, if it is.
    pub open spec fn move_refusal(
        self,
        game_id: u64,
        player: Address,
        move_data: Seq<u32>,
    ) -> Option<ContractError> {
        if !self.games.contains_key(game_id) {
            Some(ContractError::GameNotFound)
        } else {
            let game = self.games[game_id];
            if game.state != GameState::InProgress {
                Some(ContractError::GameNotInProgress)
            } else if game.seat(player) is None {
                Some(ContractError::NotPlayer)
            } else if game.seat(player) != Some(game.current_turn) {
                Some(ContractError::NotYourTurn)
            } else if move_data.len() == 0 {
                Some(ContractError::InvalidMove)
            } else {
                None
            }
        }
    }

    pub open spec fn submit_move(
        self,
        game_id: u64,
        player: Address,
        move_data: Seq<u32>,
        sequence: u32,
    ) -> (Result<(), ContractError>, Self) {
        match self.move_refusal(game_id, player, move_data) {
            Some(e) => (Err(e), self),
            None => {
                let game = self.games[game_id];
                let made = MoveModel { player, move_data, timestamp: sequence as u64 };
                (
                    Ok(()),
                    ContractModel {
                        games: self.games.insert(
                            game_id,
                            GameModel {
                                moves: game.moves.push(made),
                                current_turn: if game.current_turn == 1 { 2 } else { 1 },
                                ..game
                            },
                        ),
                        ..self
                    },
                )
            },
        }
    }

    // Ending a game.

    /// Why a player cannot end the game, if so.
    pub open spec fn ending_refusal(self, game_id: u64, player: Address) -> Option<ContractError> {
        if !self.games.contains_key(game_id) {
            Some(ContractError::GameNotFound)
        } else if self.games[game_id].state != GameState::InProgress {
            Some(ContractError::GameNotInProgress)
        } else if !self.games[game_id].has_player(player) {
            Some(ContractError::NotPlayer)
        } else {
            None
        }
    }

    /// The escrow after each player's stake was taken out.
    pub open spec fn stakes_returned(self, game: GameModel) -> Map<Address, int> {
        let first = credit(self.escrow, game.player1, -game.wager_amount);
        match game.player2 {
            Some(player2) => credit(first, player2, -game.wager_amount),
            None => first,
        }
    }

    pub open spec fn draw_payout_fits(self, game: GameModel) -> bool {
        &&& self.token is Some
        &&& fits_i128(balance(self.escrow, game.player1) - game.wager_amount)
        &&& game.player2 matches Some(player2) ==> fits_i128(
            balance(credit(self.escrow, game.player1, -game.wager_amount), player2)
                - game.wager_amount,
        )
    }

    /// Both stakes leave the escrow and go back to the players.
    pub open spec fn process_draw_payout(self, game: GameModel) -> Self {
        let to_first = self.effects.push(
            Effect::Withdrawal { to: game.player1, amount: game.wager_amount },
        );
        ContractModel {
            escrow: self.stakes_returned(game),
            effects: match game.player2 {
                Some(player2) => to_first.push(
                    Effect::Withdrawal { to: player2, amount: game.wager_amount },
                ),
                None => to_first,
            },
            ..self
        }
    }

    pub open spec fn claim_draw_fits(self, game_id: u64, player: Address) -> bool {
        self.ending_refusal(game_id, player) is None ==> self.draw_payout_fits(self.games[game_id])
    }

    pub open spec fn claim_draw(self, game_id: u64, player: Address) -> (
        Result<(), ContractError>,
        Self,
    ) {
        match self.ending_refusal(game_id, player) {
            Some(e) => (Err(e), self),
            None => {
                let game = GameModel { state: GameState::Drawn, ..self.games[game_id] };
                (
                    Ok(()),
                    ContractModel {
                        games: self.games.insert(game_id, game),
                        ..self.process_draw_payout(game)
                    },
                )
            },
        }
    }

    /// Both stakes together.
    pub open spec fn pool(game: GameModel) -> int {
        game.wager_amount * 2
    }

    /// The protocol's part of a pool: so many thousandths of it, rounded toward
    /// zero, where there is a treasury to take them.
    pub open spec fn fee(self, pool: int) -> int {
        if self.treasury_address is Some && self.fee_rate() > 0 {
            trunc_div(pool * self.fee_rate(), 1000)
        } else {
            0
        }
    }

    /// The winner's part of a pool.
    pub open spec fn prize(self, pool: int) -> int {
        pool - self.fee(pool)
    }

    /// The escrow after both stakes were taken out and the winner and the
    /// treasury were credited with their parts.
    pub open spec fn settled(self, game: GameModel, winner: Address) -> Map<Address, int> {
        let pool = Self::pool(game);
        let with_prize = credit(self.stakes_returned(game), winner, self.prize(pool));
        match self.treasury_address {
            Some(treasury) if self.fee(pool) > 0 => credit(with_prize, treasury, self.fee(pool)),
            _ => with_prize,
        }
    }

    pub open spec fn payout_fits_game(self, game: GameModel, winner: Address) -> bool {
        let pool = Self::pool(game);
        let first = credit(self.escrow, game.player1, -game.wager_amount);
        &&& fits_i128(pool)
        &&& self.treasury_address is Some && self.fee_rate() > 0 ==> {
            &&& fits_i128(pool * self.fee_rate())
            &&& fits_i128(self.prize(pool))
        }
        &&& fits_i128(balance(self.escrow, game.player1) - game.wager_amount)
        &&& game.player2 matches Some(player2) ==> {
            &&& fits_i128(balance(first, player2) - game.wager_amount)
            &&& fits_i128(balance(self.stakes_returned(game), winner) + self.prize(pool))
            &&& self.treasury_address matches Some(treasury) ==> self.fee(pool) > 0 ==> fits_i128(
                balance(
                    credit(self.stakes_returned(game), winner, self.prize(pool)),
                    treasury,
                ) + self.fee(pool),
            )
            &&& self.token is Some
        }
    }

    /// The pool goes to the winner, less the protocol's fee.
    pub open spec fn process_payout(self, game: GameModel, winner: Address) -> (
        Result<(), ContractError>,
        Self,
    ) {
        let pool = Self::pool(game);
        let to_winner = self.effects.push(
            Effect::Withdrawal { to: winner, amount: self.prize(pool) as i128 },
        );
        match game.player2 {
            None => (Err(ContractError::GameFull), self),
            Some(_) => (
                Ok(()),
                ContractModel {
                    escrow: self.settled(game, winner),
                    effects: match self.treasury_address {
                        Some(treasury) if self.fee(pool) > 0 => to_winner.push(
                            Effect::Withdrawal { to: treasury, amount: self.fee(pool) as i128 },
                        ),
                        _ => to_winner,
                    },
                    ..self
                },
            ),
        }
    }

    pub open spec fn forfeit_fits(self, game_id: u64, player: Address) -> bool {
        self.ending_refusal(game_id, player) is None ==> {
            self.games[game_id].opponent(player) matches Some(winner) ==> self.payout_fits_game(
                self.games[game_id],
                winner,
            )
        }
    }

    pub open spec fn forfeit(self, game_id: u64, player: Address) -> (
        Result<(), ContractError>,
        Self,
    ) {
        match self.ending_refusal(game_id, player) {
            Some(e) => (Err(e), self),
            None => match self.games[game_id].opponent(player) {
                None => (Err(ContractError::GameFull), self),
                Some(winner) => {
                    let game = GameModel {
                        state: GameState::Forfeited,
                        winner: Some(winner),
                        ..self.games[game_id]
                    };
                    let (answer, settled) = self.process_payout(game, winner);
                    match answer {
                        Err(e) => (Err(e), self),
                        Ok(()) => (
                            Ok(()),
                            ContractModel { games: self.games.insert(game_id, game), ..settled },
                        ),
                    }
                },
            },
        }
    }

    /// Why the prize of a completed game is not paid to an address, if so.
    pub open spec fn payout_refusal(self, game_id: u64, winner: Address) -> Option<ContractError> {
        if !self.games.contains_key(game_id) {
            Some(ContractError::GameNotFound)
        } else if self.games[game_id].state != GameState::Completed {
            Some(ContractError::GameNotInProgress)
        } else if self.games[game_id].winner != Some(winner) {
            Some(ContractError::NotPlayer)
        } else {
            None
        }
    }

    pub open spec fn payout_fits(self, game_id: u64, winner: Address) -> bool {
        self.payout_refusal(game_id, winner) is None ==> self.payout_fits_game(
            self.games[game_id],
            winner,
        )
    }

    pub open spec fn payout(self, game_id: u64, winner: Address) -> (
        Result<(), ContractError>,
        Self,
    ) {
        match self.payout_refusal(game_id, winner) {
            Some(e) => (Err(e), self),
            None => self.process_payout(self.games[game_id], winner),
        }
    }

    /// Why a tournament payout is refused before anybody is asked to authorise
    /// it, if it is.
    pub open spec fn sharing_refusal(self, game_id: u64) -> Option<ContractError> {
        if !self.games.contains_key(game_id) {
            Some(ContractError::GameNotFound)
        } else if self.games[game_id].state != GameState::Completed {
            Some(ContractError::GameNotInProgress)
        } else {
            None
        }
    }

    /// Why a tournament payout is refused, if it is.
    pub open spec fn tournament_refusal(
        self,
        game_id: u64,
        winners: Seq<Address>,
        percentages: Seq<u32>,
    ) -> Option<ContractError> {
        match self.sharing_refusal(game_id) {
            Some(e) => Some(e),
            None => {
                let game = self.games[game_id];
                if winners.len() != percentages.len() {
                    Some(ContractError::MismatchedLengths)
                } else if percent_sum(percentages) != 100 {
                    Some(ContractError::InvalidPercentage)
                } else if balance(self.escrow, game.player1) < game.wager_amount {
                    Some(ContractError::InsufficientFunds)
                } else {
                    match game.player2 {
                        Some(player2) if balance(self.escrow, player2) < game.wager_amount => Some(
                            ContractError::InsufficientFunds,
                        ),
                        _ => None,
                    }
                }
            },
        }
    }

    /// What a tournament shares out: the stakes of those who take part.
    pub open spec fn tournament_pool(game: GameModel) -> int {
        if game.player2 is Some {
            game.wager_amount * 2
        } else {
            game.wager_amount as int
        }
    }

    /// The escrow after the stakes of a tournament were taken out.
    pub open spec fn tournament_stakes_out(self, game: GameModel) -> Map<Address, int> {
        let first = self.escrow.insert(
            game.player1,
            balance(self.escrow, game.player1) - game.wager_amount,
        );
        match game.player2 {
            Some(player2) => first.insert(
                player2,
                balance(self.escrow, player2) - game.wager_amount,
            ),
            None => first,
        }
    }

    pub open spec fn payout_tournament_fits(
        self,
        game_id: u64,
        winners: Seq<Address>,
        percentages: Seq<u32>,
    ) -> bool {
        let game = self.games[game_id];
        let pool = Self::tournament_pool(game);
        &&& self.sharing_refusal(game_id) is None && winners.len() == percentages.len()
            ==> percent_sum(percentages) <= u32::MAX
        &&& self.tournament_refusal(game_id, winners, percentages) is None ==> {
            &&& fits_i128(pool)
            &&& fits_i128(balance(self.escrow, game.player1) - game.wager_amount)
            &&& game.player2 matches Some(player2) ==> fits_i128(
                balance(self.escrow, player2) - game.wager_amount,
            )
            &&& distribution_fits(
                self.tournament_stakes_out(game),
                pool,
                winners,
                percentages,
            )
        }
    }

    pub open spec fn payout_tournament(
        self,
        game_id: u64,
        winners: Seq<Address>,
        percentages: Seq<u32>,
    ) -> (Result<(), ContractError>, Self) {
        let game = self.games[game_id];
        match self.tournament_refusal(game_id, winners, percentages) {
            Some(e) => (
                Err(e),
                if self.sharing_refusal(game_id) is None {
                    self.asking(game.player1)
                } else {
                    self
                },
            ),
            None => {
                (
                    Ok(()),
                    ContractModel {
                        escrow: distributed(
                            self.tournament_stakes_out(game),
                            Self::tournament_pool(game),
                            winners,
                            percentages,
                        ),
                        ..self.asking(game.player1)
                    },
                )
            },
        }
    }

    // Administration.

    pub open spec fn initialize_token(self, admin: Address, token_contract: Address) -> Self {
        ContractModel { token: Some(token_contract), ..self.asking(admin) }
    }

    pub open spec fn initialize_puzzle_rewards_allowed(
        self,
        admin_public_key: Seq<u8>,
        treasury_amount: i128,
        fee_bips: u32,
    ) -> bool {
        &&& self.admin is None
        &&& admin_public_key.len() == 32
        &&& treasury_amount >= 0
        &&& fee_bips <= 1000
    }

    pub open spec fn initialize_puzzle_rewards(
        self,
        admin: Address,
        admin_public_key: Seq<u8>,
        treasury_amount: i128,
        fee_bips: u32,
        treasury_address: Address,
    ) -> Self {
        ContractModel {
            admin: Some(admin),
            admin_key: Some(admin_public_key),
            treasury: Some(treasury_amount),
            fee_bips: Some(fee_bips),
            treasury_address: Some(treasury_address),
            max_stake: Some(1000),
            ..self.asking(admin)
        }
    }

    pub open spec fn set_max_stake(self, new_limit: i128) -> Self {
        ContractModel { max_stake: Some(new_limit), ..self }
    }

    pub open spec fn configure_fees(
        self,
        admin: Address,
        fee_bips: u32,
        treasury_address: Address,
    ) -> Self {
        ContractModel {
            fee_bips: Some(fee_bips),
            treasury_address: Some(treasury_address),
            ..self.asking(admin)
        }
    }

    pub open spec fn upgrade_admin(self, admin: Address) -> Self {
        ContractModel { admin: Some(admin), ..self.asking(admin) }
    }

    pub open spec fn initialize_elo_system(self, admin: Address, k_factor: u32) -> Self {
        ContractModel { k_factor: Some(k_factor), ..self.asking(admin) }
    }

    // Puzzle rewards.

    /// Whether the backend signed the claim.
    pub open spec fn claim_signed(
        self,
        recipient: Address,
        reward_amount: i128,
        nonce: u64,
        signature: Seq<u8>,
    ) -> bool {
        ed25519_accepts(
            self.admin_key.unwrap(),
            claim_digest(recipient, reward_amount, nonce),
            signature,
        )
    }

    /// Whether the treasury covers the reward and no balance leaves its range.
    pub open spec fn reward_fits(self, recipient: Address, reward_amount: i128) -> bool {
        &&& self.treasury_reserve() >= reward_amount
        &&& fits_i128(self.treasury_reserve() - reward_amount)
        &&& fits_i128(balance(self.balances, recipient) + reward_amount)
    }

    /// A reward moves from the treasury to the recipient, and its nonce is
    /// used up.
    pub open spec fn rewarded(self, recipient: Address, reward_amount: i128, nonce: u64) -> Self {
        ContractModel {
            nonces: self.nonces.insert(nonce, true),
            treasury: Some((self.treasury_reserve() - reward_amount) as i128),
            balances: credit(self.balances, recipient, reward_amount as int),
            effects: self.effects.push(Effect::RewardClaimed { recipient, amount: reward_amount }),
            ..self
        }
    }

    /// A claim, given what the signature check said. A claim that is neither a
    /// replay nor signed has no answer.
    pub open spec fn claim_with_verdict(
        self,
        recipient: Address,
        reward_amount: i128,
        nonce: u64,
        accepted: bool,
    ) -> (Option<Result<(), ContractError>>, Self) {
        if self.nonce_used(nonce) {
            (Some(Err(ContractError::Unauthorized)), self)
        } else if !accepted {
            (None, self)
        } else {
            (Some(Ok(())), self.rewarded(recipient, reward_amount, nonce))
        }
    }

    // Ratings.

    pub open spec fn register_player(self, player: Address, sequence: u32) -> (
        PlayerRating,
        Self,
    ) {
        match found(self.ratings, player) {
            Some(rating) => (rating, self.asking(player)),
            None => {
                let rating = fresh_rating(player, sequence);
                (
                    rating,
                    ContractModel {
                        ratings: self.ratings.insert(player, rating),
                        effects: self.asking(player).effects.push(
                            Effect::PlayerRegistered { player, rating: 1200 },
                        ),
                        ..self
                    },
                )
            },
        }
    }

    /// Why a result is not taken, if so.
    pub open spec fn rating_refusal(
        self,
        player1: Address,
        player2: Address,
        result: u32,
    ) -> Option<ContractError> {
        if result < 1 || result > 3 {
            Some(ContractError::InvalidMove)
        } else if !self.ratings.contains_key(player1) || !self.ratings.contains_key(player2) {
            Some(ContractError::RatingNotFound)
        } else {
            None
        }
    }

    /// What the first player's rating changes by; `result` is seen from their
    /// side.
    pub open spec fn change_of(self, player: Address, other: Address, result: u32) -> int {
        change_against(
            self.ratings[player].rating as int,
            self.ratings[other].rating as int,
            result,
            self.k(),
        )
    }

    /// Whether the products behind a change stay in range.
    pub open spec fn change_fits(self, player: Address, other: Address, result: u32) -> bool {
        fits_i32(
            signed32(self.k()) * (first_score(result) - expected_score(
                self.ratings[player].rating as int,
                self.ratings[other].rating as int,
            )),
        )
    }

    pub open spec fn update_ratings_fits(
        self,
        player1: Address,
        player2: Address,
        result: u32,
    ) -> bool {
        self.rating_refusal(player1, player2, result) is None ==> {
            &&& self.change_fits(player1, player2, result)
            &&& self.change_fits(player2, player1, mirrored(result))
            &&& game_fits(
                self.ratings[player1],
                result,
                self.change_of(player1, player2, result),
            )
            &&& game_fits(
                self.ratings[player2],
                mirrored(result),
                self.change_of(player2, player1, mirrored(result)),
            )
        }
    }

    pub open spec fn update_ratings(
        self,
        player1: Address,
        player2: Address,
        result: u32,
        sequence: u32,
    ) -> (Result<(PlayerRating, PlayerRating), ContractError>, Self) {
        match self.rating_refusal(player1, player2, result) {
            Some(e) => (Err(e), self),
            None => {
                let rating1 = after_game(
                    self.ratings[player1],
                    result,
                    self.change_of(player1, player2, result),
                    sequence,
                );
                let rating2 = after_game(
                    self.ratings[player2],
                    mirrored(result),
                    self.change_of(player2, player1, mirrored(result)),
                    sequence,
                );
                (
                    Ok((rating1, rating2)),
                    ContractModel {
                        ratings: self.ratings.insert(player1, rating1).insert(player2, rating2),
                        effects: self.effects.push(
                            Effect::RatingsUpdated {
                                player1,
                                rating1: rating1.rating,
                                player2,
                                rating2: rating2.rating,
                            },
                        ),
                        ..self
                    },
                )
            },
        }
    }
}

} // verus!
