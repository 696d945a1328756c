//! The game contract: its state and its calls.
//!
//! A call works on the state alone. What only the network knows (a token
//! balance, the ledger sequence) is an argument; what the network has to do
//! (demand an authorisation, move tokens, publish an event) is left in
//! `effects`, in order. Companions whose names end in `_refusal` say whether a
//! call is refused before the network is asked for anything. Those whose names
//! end in `_fits` say whether a call stays within the ranges of its integers
//! and finds the settings that it cannot do without.

use vstd::prelude::*;

use crate::address::{is_address, Address};
use crate::arith::{fits_i128, fits_i32, signed32, to_signed32};
use crate::claim::claim_is_signed;
use crate::error::ContractError;
use crate::game::{ChessMove, Game, GameState};
use crate::ledger::balance;
use crate::model::{
    distribution_fits, lemma_percent_sum_grows, lemma_percent_sum_step, lemma_share_step,
    percent_sum, share_fits, share_sum, shared_out, ContractModel, Effect,
};
use crate::rating::{
    after_game, change_against, expected_score, first_score, game_fits, mirrored, rating_change,
    PlayerRating,
};
use crate::soundness::{
    claim_draw_keeps, claim_keeps, configure_fees_keeps, create_game_keeps, forfeit_keeps,
    initialize_elo_system_keeps, initialize_puzzle_rewards_keeps, initialize_token_keeps,
    join_game_keeps, payout_keeps, payout_tournament_keeps, register_player_keeps,
    set_max_stake_keeps, submit_move_keeps, update_ratings_keeps, upgrade_admin_keeps,
};
use crate::store::{found, GameBook, Ledger, NonceBook, RatingBook};

verus! {

/// The state of the contract. A setting that was never written is `None`.
pub struct GameContract {
    pub token: Option<Address>,
    pub game_counter: Option<u64>,
    pub max_stake: Option<i128>,
    pub admin: Option<Address>,
    pub admin_key: Option<Vec<u8>>,
    pub treasury: Option<i128>,
    pub treasury_address: Option<Address>,
    /// The protocol's fee in thousandths.
    pub fee_bips: Option<u32>,
    pub k_factor: Option<u32>,
    pub games: GameBook,
    pub escrow: Ledger,
    pub balances: Ledger,
    pub nonces: NonceBook,
    pub ratings: RatingBook,
    pub effects: Vec<Effect>,
}

impl View for GameContract {
    type V = ContractModel;

    open spec fn view(&self) -> ContractModel {
        ContractModel {
            token: self.token,
            game_counter: self.game_counter,
            max_stake: self.max_stake,
            admin: self.admin,
            admin_key: match self.admin_key {
                Some(key) => Some(key@),
                None => None,
            },
            treasury: self.treasury,
            treasury_address: self.treasury_address,
            fee_bips: self.fee_bips,
            k_factor: self.k_factor,
            games: self.games@,
            escrow: self.escrow@,
            balances: self.balances@,
            nonces: self.nonces@,
            ratings: self.ratings@,
            effects: self.effects@,
        }
    }
}

impl GameContract {
    /// A contract of which nothing was written yet.
    pub fn new(env: &soroban_sdk::Env) -> (contract: GameContract)
        ensures
            contract@ == ContractModel::blank(),
            contract@.wf(),
    {
        GameContract {
            token: None,
            game_counter: None,
            max_stake: None,
            admin: None,
            admin_key: None,
            treasury: None,
            treasury_address: None,
            fee_bips: None,
            k_factor: None,
            games: GameBook::new(env),
            escrow: Ledger::new(env),
            balances: Ledger::new(env),
            nonces: NonceBook::new(env),
            ratings: RatingBook::new(env),
            effects: Vec::new(),
        }
    }

    /// Hands over what the network was asked for.
    pub fn take_effects(&mut self) -> (effects: Vec<Effect>)
        ensures
            effects@ == old(self)@.effects,
            final(self)@ == (ContractModel { effects: Seq::empty(), ..old(self)@ }),
            old(self)@.keeps(final(self)@),
    {
        let mut effects: Vec<Effect> = Vec::new();
        std::mem::swap(&mut effects, &mut self.effects);
        effects
    }

    fn counter(&self) -> (n: u64)
        ensures
            n == self@.counter(),
    {
        match self.game_counter {
            Some(n) => n,
            None => 0,
        }
    }

    fn stake_limit(&self) -> (limit: i128)
        ensures
            limit == self@.stake_limit(),
    {
        match self.max_stake {
            Some(limit) => limit,
            None => 1000,
        }
    }

    fn fee_rate(&self) -> (bips: u32)
        ensures
            bips == self@.fee_rate(),
    {
        match self.fee_bips {
            Some(bips) => bips,
            None => 0,
        }
    }

    fn k(&self) -> (k: u32)
        ensures
            k == self@.k(),
    {
        match self.k_factor {
            Some(k) => k,
            None => 32,
        }
    }

    /// Demands an authorisation of the call.
    fn ask(&mut self, by: Address)
        ensures
            final(self)@ == old(self)@.asking(by),
    {
        self.effects.push(Effect::Authorisation { by });
    }

    /// Names the token that stakes are paid in. The token can be named once,
    /// and `admin` has to authorise that.
    pub fn initialize_token(&mut self, admin: Address, token_contract: Address)
        requires
            old(self)@.token is None,
        ensures
            final(self)@ == old(self)@.initialize_token(admin, token_contract),
            old(self)@.keeps(final(self)@),
    {
        proof {
            initialize_token_keeps(self@, admin, token_contract);
        }
        self.ask(admin);
        self.token = Some(token_contract);
    }

    /// The token that stakes are paid in.
    pub fn token_contract_address(&self) -> (token: Address)
        requires
            self@.token is Some,
        ensures
            Some(token) == self@.token,
    {
        self.token.unwrap()
    }

    // Creating and joining.

    /// Why a new game is refused before the network is asked for anything, if
    /// it is.
    pub fn create_game_refusal(&self, wager_amount: i128) -> (refusal: Option<ContractError>)
        ensures
            refusal == self@.create_game_refusal(wager_amount),
    {
        if wager_amount > self.stake_limit() {
            return Some(ContractError::StakeLimitExceeded);
        }
        None
    }

    /// Whether opening the game finds a token and stays in range.
    pub fn create_game_fits(&self, player1: Address, wager_amount: i128, token_balance: i128) -> (
    fits: bool)
        ensures
            fits == self@.create_game_fits(player1, wager_amount, token_balance),
    {
        if self.create_game_refusal(wager_amount).is_some() {
            return true;
        }
        if self.token.is_none() {
            return false;
        }
        if token_balance < wager_amount {
            return true;
        }
        self.counter() < u64::MAX && self.escrow.balance(player1).checked_add(
            wager_amount,
        ).is_some()
    }

    /// Opens a game: `player1` authorises it, stakes the wager and waits for an
    /// opponent. `token_balance` is what `player1` holds of the token, `sequence` the
    /// current ledger sequence.
    pub fn create_game(
        &mut self,
        player1: Address,
        wager_amount: i128,
        token_balance: i128,
        sequence: u32,
    ) -> (answer: Result<u64, ContractError>)
        requires
            old(self)@.create_game_fits(player1, wager_amount, token_balance),
        ensures
            answer == old(self)@.create_game(player1, wager_amount, token_balance, sequence).0,
            final(self)@ == old(self)@.create_game(
                player1,
                wager_amount,
                token_balance,
                sequence,
            ).1,
            old(self)@.keeps(final(self)@),
    {
        proof {
            create_game_keeps(self@, player1, wager_amount, token_balance, sequence);
        }
        if let Some(e) = self.create_game_refusal(wager_amount) {
            return Err(e);
        }
        self.ask(player1);
        if token_balance < wager_amount {
            return Err(ContractError::InsufficientFunds);
        }
        self.effects.push(Effect::Deposit { from: player1, amount: wager_amount });

        let game_counter: u64 = self.counter() + 1;
        self.game_counter = Some(game_counter);
        let game = Game {
            id: game_counter,
            player1,
            player2: None,
            state: GameState::Created,
            wager_amount,
            current_turn: 1,
            moves: Vec::new(),
            created_at: sequence as u64,
            winner: None,
        };
        assert(game@ == old(self)@.opened_game(player1, wager_amount, sequence));
        self.games.set(game_counter, game);

        let current_escrow = self.escrow.balance(player1);
        self.escrow.set(player1, current_escrow + wager_amount);
        Ok(game_counter)
    }

    /// Why joining a game is refused before the network is asked for anything,
    /// if it is.
    pub fn join_game_refusal(&self, game_id: u64, player2: Address) -> (refusal: Option<
        ContractError,
    >)
        ensures
            refusal == self@.join_game_refusal(game_id, player2),
    {
        let game = match self.games.get(game_id) {
            Some(game) => game,
            None => return Some(ContractError::GameNotFound),
        };
        if game.state != GameState::Created {
            return Some(ContractError::GameAlreadyCompleted);
        }
        if game.player2.is_some() {
            return Some(ContractError::GameFull);
        }
        if game.player1 == player2 {
            return Some(ContractError::AlreadyJoined);
        }
        if game.wager_amount > self.stake_limit() {
            return Some(ContractError::StakeLimitExceeded);
        }
        None
    }

    /// Whether joining the game finds a token and stays in range.
    pub fn join_game_fits(&self, game_id: u64, player2: Address, token_balance: i128) -> (fits:
        bool)
        ensures
            fits == self@.join_game_fits(game_id, player2, token_balance),
    {
        if self.join_game_refusal(game_id, player2).is_some() {
            return true;
        }
        if self.token.is_none() {
            return false;
        }
        match self.games.get(game_id) {
            Some(game) => token_balance < game.wager_amount || self.escrow.balance(
                player2,
            ).checked_add(game.wager_amount).is_some(),
            None => true,
        }
    }

    /// Takes the second seat of a game: `player2` authorises it and stakes the
    /// wager, and the game begins. `token_balance` is what `player2` holds of the token.
    pub fn join_game(&mut self, game_id: u64, player2: Address, token_balance: i128) -> (answer:
        Result<(), ContractError>)
        requires
            old(self)@.join_game_fits(game_id, player2, token_balance),
        ensures
            answer == old(self)@.join_game(game_id, player2, token_balance).0,
            final(self)@ == old(self)@.join_game(game_id, player2, token_balance).1,
            old(self)@.keeps(final(self)@),
    {
        proof {
            join_game_keeps(self@, game_id, player2, token_balance);
        }
        if let Some(e) = self.join_game_refusal(game_id, player2) {
            return Err(e);
        }
        let mut game = match self.games.get(game_id) {
            Some(game) => game,
            None => return Err(ContractError::GameNotFound),
        };
        self.ask(player2);
        if token_balance < game.wager_amount {
            return Err(ContractError::InsufficientFunds);
        }
        let wager_amount = game.wager_amount;
        self.effects.push(Effect::Deposit { from: player2, amount: wager_amount });

        game.player2 = Some(player2);
        game.state = GameState::InProgress;
        game.current_turn = 1;

        let current_escrow = self.escrow.balance(player2);
        self.escrow.set(player2, current_escrow + wager_amount);

        self.games.set(game_id, game);
        Ok(())
    }

    // Playing.

    /// Makes a move in a running game. `sequence` is the current ledger
    /// sequence.
    pub fn submit_move(
        &mut self,
        game_id: u64,
        player: Address,
        move_data: Vec<u32>,
        sequence: u32,
    ) -> (answer: Result<(), ContractError>)
        ensures
            answer == old(self)@.submit_move(game_id, player, move_data@, sequence).0,
            final(self)@ == old(self)@.submit_move(game_id, player, move_data@, sequence).1,
            old(self)@.keeps(final(self)@),
    {
        proof {
            submit_move_keeps(self@, game_id, player, move_data@, sequence);
        }
        let mut game = match self.games.get(game_id) {
            Some(game) => game,
            None => return Err(ContractError::GameNotFound),
        };
        if game.state != GameState::InProgress {
            return Err(ContractError::GameNotInProgress);
        }
        let player_num: u32 = if player == game.player1 {
            1
        } else if is_address(game.player2, player) {
            2
        } else {
            return Err(ContractError::NotPlayer);
        };
        if player_num != game.current_turn {
            return Err(ContractError::NotYourTurn);
        }
        if move_data.len() == 0 {
            return Err(ContractError::InvalidMove);
        }
        let ghost before = game@;
        let chess_move = ChessMove { player, move_data, timestamp: sequence as u64 };
        let ghost made = chess_move@;
        game.moves.push(chess_move);
        game.current_turn = if game.current_turn == 1 {
            2
        } else {
            1
        };
        assert(game@.moves =~= before.moves.push(made));

        self.games.set(game_id, game);
        Ok(())
    }

    // Ending a game.

    /// The running game that a player may end, or why they may not.
    fn game_to_end(&self, game_id: u64, player: Address) -> (game: Result<Game, ContractError>)
        ensures
            match game {
                Ok(g) => {
                    &&& self@.ending_refusal(game_id, player) is None
                    &&& g@ == self@.games[game_id]
                },
                Err(e) => self@.ending_refusal(game_id, player) == Some(e),
            },
    {
        let game = match self.games.get(game_id) {
            Some(game) => game,
            None => return Err(ContractError::GameNotFound),
        };
        if game.state != GameState::InProgress {
            return Err(ContractError::GameNotInProgress);
        }
        if player != game.player1 && !is_address(game.player2, player) {
            return Err(ContractError::NotPlayer);
        }
        Ok(game)
    }

    /// Whether returning both stakes finds a token and stays in range.
    fn draw_payout_fits(&self, game: &Game) -> (fits: bool)
        ensures
            fits == self@.draw_payout_fits(game@),
    {
        if self.token.is_none() {
            return false;
        }
        let mut escrow = self.escrow.duplicate();
        match escrow.balance(game.player1).checked_sub(game.wager_amount) {
            Some(left) => escrow.set(game.player1, left),
            None => return false,
        }
        match game.player2 {
            Some(player2) => escrow.balance(player2).checked_sub(game.wager_amount).is_some(),
            None => true,
        }
    }

    /// Returns both stakes of a drawn game.
    fn process_draw_payout(&mut self, game: &Game)
        requires
            old(self)@.draw_payout_fits(game@),
        ensures
            final(self)@ == old(self)@.process_draw_payout(game@),
    {
        self.effects.push(Effect::Withdrawal { to: game.player1, amount: game.wager_amount });
        let player1_escrow = self.escrow.balance(game.player1);
        self.escrow.set(game.player1, player1_escrow - game.wager_amount);

        if let Some(player2) = game.player2 {
            self.effects.push(Effect::Withdrawal { to: player2, amount: game.wager_amount });
            let player2_escrow = self.escrow.balance(player2);
            self.escrow.set(player2, player2_escrow - game.wager_amount);
        }
    }

    /// Whether the draw finds a token and stays in range.
    pub fn claim_draw_fits(&self, game_id: u64, player: Address) -> (fits: bool)
        ensures
            fits == self@.claim_draw_fits(game_id, player),
    {
        match self.game_to_end(game_id, player) {
            Ok(game) => self.draw_payout_fits(&game),
            Err(_) => true,
        }
    }

    /// Ends a running game as a draw; both players get their stakes back.
    pub fn claim_draw(&mut self, game_id: u64, player: Address) -> (answer: Result<
        (),
        ContractError,
    >)
        requires
            old(self)@.claim_draw_fits(game_id, player),
        ensures
            answer == old(self)@.claim_draw(game_id, player).0,
            final(self)@ == old(self)@.claim_draw(game_id, player).1,
            old(self)@.keeps(final(self)@),
    {
        proof {
            claim_draw_keeps(self@, game_id, player);
        }
        let mut game = match self.game_to_end(game_id, player) {
            Ok(game) => game,
            Err(e) => return Err(e),
        };
        game.state = GameState::Drawn;
        self.process_draw_payout(&game);

        self.games.set(game_id, game);
        Ok(())
    }

    /// The protocol's fee and the winner's prize, or `None` where they leave
    /// their range.
    fn split_pool(&self, pool: i128) -> (parts: Option<(i128, i128)>)
        ensures
            parts is Some <==> (self@.treasury_address is Some && self@.fee_rate() > 0 ==> {
                &&& fits_i128(pool * self@.fee_rate())
                &&& fits_i128(self@.prize(pool as int))
            }),
            parts matches Some((prize, fee)) ==> {
                &&& prize == self@.prize(pool as int)
                &&& fee == self@.fee(pool as int)
            },
    {
        let fee_bips = self.fee_rate();
        if self.treasury_address.is_some() && fee_bips > 0 {
            let fee: i128 = match pool.checked_mul(fee_bips as i128) {
                Some(scaled) => scaled / 1000,
                None => return None,
            };
            match pool.checked_sub(fee) {
                Some(prize) => Some((prize, fee)),
                None => None,
            }
        } else {
            Some((pool, 0))
        }
    }

    /// Whether paying the pool to the winner finds a token and stays in range.
    fn payout_fits_game(&self, game: &Game, winner: Address) -> (fits: bool)
        ensures
            fits == self@.payout_fits_game(game@, winner),
    {
        let pool: i128 = match game.wager_amount.checked_mul(2) {
            Some(pool) => pool,
            None => return false,
        };
        let (prize, fee): (i128, i128) = match self.split_pool(pool) {
            Some(parts) => parts,
            None => return false,
        };
        let mut escrow = self.escrow.duplicate();
        match escrow.balance(game.player1).checked_sub(game.wager_amount) {
            Some(left) => escrow.set(game.player1, left),
            None => return false,
        }
        let player2 = match game.player2 {
            Some(player2) => player2,
            None => return true,
        };
        match escrow.balance(player2).checked_sub(game.wager_amount) {
            Some(left) => escrow.set(player2, left),
            None => return false,
        }
        match escrow.balance(winner).checked_add(prize) {
            Some(sum) => escrow.set(winner, sum),
            None => return false,
        }
        if let Some(treasury) = self.treasury_address {
            if fee > 0 && escrow.balance(treasury).checked_add(fee).is_none() {
                return false;
            }
        }
        self.token.is_some()
    }

    /// Pays the pool of a game to its winner, less the protocol's fee. For a
    /// pool of 1000 and a fee of 20 thousandths the treasury gets 20 and the
    /// winner 980.
    fn process_payout(&mut self, game: &Game, winner: Address) -> (answer: Result<
        (),
        ContractError,
    >)
        requires
            old(self)@.payout_fits_game(game@, winner),
        ensures
            answer == old(self)@.process_payout(game@, winner).0,
            final(self)@ == old(self)@.process_payout(game@, winner).1,
    {
        let player2 = match game.player2 {
            Some(player2) => player2,
            None => return Err(ContractError::GameFull),
        };
        let total_pool: i128 = game.wager_amount * 2;
        let fee_bips = self.fee_rate();
        let (payout, fee): (i128, i128) = if self.treasury_address.is_some() && fee_bips > 0 {
            let fee: i128 = (total_pool * fee_bips as i128) / 1000;
            (total_pool - fee, fee)
        } else {
            (total_pool, 0)
        };

        let player1_escrow = self.escrow.balance(game.player1);
        self.escrow.set(game.player1, player1_escrow - game.wager_amount);
        let player2_escrow = self.escrow.balance(player2);
        self.escrow.set(player2, player2_escrow - game.wager_amount);

        let winner_escrow = self.escrow.balance(winner);
        self.escrow.set(winner, winner_escrow + payout);
        self.effects.push(Effect::Withdrawal { to: winner, amount: payout });

        if fee > 0 {
            if let Some(treasury) = self.treasury_address {
                let treasury_escrow = self.escrow.balance(treasury);
                self.escrow.set(treasury, treasury_escrow + fee);
                self.effects.push(Effect::Withdrawal { to: treasury, amount: fee });
            }
        }
        Ok(())
    }

    /// Whether giving up the game finds a token and stays in range.
    pub fn forfeit_fits(&self, game_id: u64, player: Address) -> (fits: bool)
        ensures
            fits == self@.forfeit_fits(game_id, player),
    {
        let game = match self.game_to_end(game_id, player) {
            Ok(game) => game,
            Err(_) => return true,
        };
        let winner = if player == game.player1 {
            match game.player2 {
                Some(player2) => player2,
                None => return true,
            }
        } else {
            game.player1
        };
        self.payout_fits_game(&game, winner)
    }

    /// Gives up a running game; the other player wins the pool.
    pub fn forfeit(&mut self, game_id: u64, player: Address) -> (answer: Result<
        (),
        ContractError,
    >)
        requires
            old(self)@.forfeit_fits(game_id, player),
        ensures
            answer == old(self)@.forfeit(game_id, player).0,
            final(self)@ == old(self)@.forfeit(game_id, player).1,
            old(self)@.keeps(final(self)@),
    {
        proof {
            forfeit_keeps(self@, game_id, player);
        }
        let mut game = match self.game_to_end(game_id, player) {
            Ok(game) => game,
            Err(e) => return Err(e),
        };
        let winner = if player == game.player1 {
            match game.player2 {
                Some(player2) => player2,
                None => return Err(ContractError::GameFull),
            }
        } else {
            game.player1
        };
        game.state = GameState::Forfeited;
        game.winner = Some(winner);
        match self.process_payout(&game, winner) {
            Ok(()) => {},
            Err(e) => return Err(e),
        }

        self.games.set(game_id, game);
        Ok(())
    }

    /// The completed game whose prize goes to the winner, or why it does not.
    fn game_to_pay(&self, game_id: u64, winner: Address) -> (game: Result<Game, ContractError>)
        ensures
            match game {
                Ok(g) => {
                    &&& self@.payout_refusal(game_id, winner) is None
                    &&& g@ == self@.games[game_id]
                },
                Err(e) => self@.payout_refusal(game_id, winner) == Some(e),
            },
    {
        let game = match self.games.get(game_id) {
            Some(game) => game,
            None => return Err(ContractError::GameNotFound),
        };
        if game.state != GameState::Completed {
            return Err(ContractError::GameNotInProgress);
        }
        if !is_address(game.winner, winner) {
            return Err(ContractError::NotPlayer);
        }
        Ok(game)
    }

    /// Whether paying the winner on record finds a token and stays in range.
    pub fn payout_fits(&self, game_id: u64, winner: Address) -> (fits: bool)
        ensures
            fits == self@.payout_fits(game_id, winner),
    {
        match self.game_to_pay(game_id, winner) {
            Ok(game) => self.payout_fits_game(&game, winner),
            Err(_) => true,
        }
    }

    /// Pays the pool of a completed game to the winner on record.
    pub fn payout(&mut self, game_id: u64, winner: Address) -> (answer: Result<
        (),
        ContractError,
    >)
        requires
            old(self)@.payout_fits(game_id, winner),
        ensures
            answer == old(self)@.payout(game_id, winner).0,
            final(self)@ == old(self)@.payout(game_id, winner).1,
            old(self)@.keeps(final(self)@),
    {
        proof {
            payout_keeps(self@, game_id, winner);
        }
        match self.game_to_pay(game_id, winner) {
            Ok(game) => self.process_payout(&game, winner),
            Err(e) => Err(e),
        }
    }

    // Lookups.

    /// The game of the given number.
    pub fn get_game(&self, game_id: u64) -> (answer: Result<Game, ContractError>)
        ensures
            match answer {
                Ok(game) => self@.games.contains_key(game_id) && game@ == self@.games[game_id],
                Err(e) => !self@.games.contains_key(game_id) && e == ContractError::GameNotFound,
            },
    {
        match self.games.get(game_id) {
            Some(game) => Ok(game),
            None => Err(ContractError::GameNotFound),
        }
    }

    /// All games by number.
    pub fn get_all_games(&self) -> (games: GameBook)
        ensures
            games@ == self@.games,
    {
        self.games.duplicate()
    }

    // Administration.

    /// Sets up the puzzle rewards and the protocol's fee. This can be done
    /// once, and `admin` has to authorise it.
    ///
    /// * `admin_public_key` - the 32-byte Ed25519 key of the backend that signs claims
    /// * `treasury_amount` - what the treasury holds for rewards
    /// * `fee_bips` - the protocol's fee in thousandths (20 is 2 %)
    /// * `treasury_address` - who receives the fee
    pub fn initialize_puzzle_rewards(
        &mut self,
        admin: Address,
        admin_public_key: Vec<u8>,
        treasury_amount: i128,
        fee_bips: u32,
        treasury_address: Address,
    )
        requires
            old(self)@.initialize_puzzle_rewards_allowed(
                admin_public_key@,
                treasury_amount,
                fee_bips,
            ),
        ensures
            final(self)@ == old(self)@.initialize_puzzle_rewards(
                admin,
                admin_public_key@,
                treasury_amount,
                fee_bips,
                treasury_address,
            ),
            old(self)@.keeps(final(self)@),
    {
        proof {
            initialize_puzzle_rewards_keeps(
                self@,
                admin,
                admin_public_key@,
                treasury_amount,
                fee_bips,
                treasury_address,
            );
        }
        self.ask(admin);
        self.admin = Some(admin);
        self.admin_key = Some(admin_public_key);
        self.treasury = Some(treasury_amount);
        self.fee_bips = Some(fee_bips);
        self.treasury_address = Some(treasury_address);
        self.max_stake = Some(1000);
    }

    /// Sets the highest wager that a game may have.
    pub fn set_max_stake(&mut self, new_limit: i128)
        ensures
            final(self)@ == old(self)@.set_max_stake(new_limit),
            old(self)@.keeps(final(self)@),
    {
        proof {
            set_max_stake_keeps(self@, new_limit);
        }
        self.max_stake = Some(new_limit);
    }

    /// Sets the protocol's fee and who receives it. Only the administrator may,
    /// and has to authorise it.
    pub fn configure_fees(&mut self, admin: Address, fee_bips: u32, treasury_address: Address)
        requires
            old(self)@.admin == Some(admin),
            fee_bips <= 1000,
        ensures
            final(self)@ == old(self)@.configure_fees(admin, fee_bips, treasury_address),
            old(self)@.keeps(final(self)@),
    {
        proof {
            configure_fees_keeps(self@, admin, fee_bips, treasury_address);
        }
        self.ask(admin);
        self.fee_bips = Some(fee_bips);
        self.treasury_address = Some(treasury_address);
    }

    /// Names the administrator of a contract that has a signing key but no
    /// administrator yet. `admin` has to authorise it.
    pub fn upgrade_admin(&mut self, admin: Address)
        requires
            old(self)@.admin is None,
            old(self)@.admin_key is Some,
        ensures
            final(self)@ == old(self)@.upgrade_admin(admin),
            old(self)@.keeps(final(self)@),
    {
        proof {
            upgrade_admin_keeps(self@, admin);
        }
        self.ask(admin);
        self.admin = Some(admin);
    }

    // Tournaments.

    /// The completed game that a tournament payout is about, or why there is
    /// none.
    fn completed_game(&self, game_id: u64) -> (game: Result<Game, ContractError>)
        ensures
            match game {
                Ok(g) => {
                    &&& self@.sharing_refusal(game_id) is None
                    &&& g@ == self@.games[game_id]
                },
                Err(e) => self@.sharing_refusal(game_id) == Some(e),
            },
    {
        let game = match self.games.get(game_id) {
            Some(game) => game,
            None => return Err(ContractError::GameNotFound),
        };
        if game.state != GameState::Completed {
            return Err(ContractError::GameNotInProgress);
        }
        Ok(game)
    }

    /// The sum of the percentages, or `None` where it leaves its range.
    fn sum_percentages(percentages: &Vec<u32>) -> (sum: Option<u32>)
        ensures
            match sum {
                Some(n) => n == percent_sum(percentages@),
                None => percent_sum(percentages@) > u32::MAX,
            },
    {
        let mut total_percentage: u32 = 0;
        let mut i: usize = 0;
        while i < percentages.len()
            invariant
                i <= percentages@.len(),
                total_percentage == percent_sum(percentages@.take(i as int)),
            decreases percentages@.len() - i,
        {
            proof {
                lemma_percent_sum_step(percentages@, i as int);
            }
            match total_percentage.checked_add(percentages[i]) {
                Some(sum) => {
                    total_percentage = sum;
                },
                None => {
                    proof {
                        lemma_percent_sum_grows(percentages@, i + 1);
                    }
                    return None;
                },
            }
            i = i + 1;
        }
        assert(percentages@.take(i as int) =~= percentages@);
        Some(total_percentage)
    }

    /// Why a tournament payout is refused, if it is.
    fn tournament_refusal(
        &self,
        game_id: u64,
        winners: &Vec<Address>,
        percentages: &Vec<u32>,
    ) -> (refusal: Option<ContractError>)
        ensures
            refusal == self@.tournament_refusal(game_id, winners@, percentages@),
    {
        let game = match self.completed_game(game_id) {
            Ok(game) => game,
            Err(e) => return Some(e),
        };
        if winners.len() != percentages.len() {
            return Some(ContractError::MismatchedLengths);
        }
        match Self::sum_percentages(percentages) {
            Some(100) => {},
            _ => return Some(ContractError::InvalidPercentage),
        }
        if self.escrow.balance(game.player1) < game.wager_amount {
            return Some(ContractError::InsufficientFunds);
        }
        if let Some(player2) = game.player2 {
            if self.escrow.balance(player2) < game.wager_amount {
                return Some(ContractError::InsufficientFunds);
            }
        }
        None
    }

    /// Whether no balance leaves its range while the pool is shared out of the
    /// given table.
    fn distribution_fits(
        staked: &Ledger,
        pool: i128,
        winners: &Vec<Address>,
        percentages: &Vec<u32>,
    ) -> (fits: bool)
        requires
            winners@.len() == percentages@.len(),
        ensures
            fits == distribution_fits(staked@, pool as int, winners@, percentages@),
    {
        let ghost table = staked@;
        let mut escrow = staked.duplicate();
        let mut given: i128 = 0;
        let mut i: usize = 0;
        proof {
            assert(winners@.take(0) =~= Seq::<Address>::empty());
            assert(percentages@.take(0) =~= Seq::<u32>::empty());
        }
        while i < winners.len()
            invariant
                table == staked@,
                winners@.len() == percentages@.len(),
                i <= winners@.len(),
                escrow@ == shared_out(
                    table,
                    pool as int,
                    winners@.take(i as int),
                    percentages@.take(i as int),
                ),
                given == share_sum(pool as int, percentages@.take(i as int)),
                forall|j: int|
                    0 <= j < i ==> share_fits(table, pool as int, winners@, percentages@, j),
            decreases winners@.len() - i,
        {
            proof {
                lemma_share_step(table, pool as int, winners@, percentages@, i as int);
            }
            let part: i128 = match pool.checked_mul(percentages[i] as i128) {
                Some(scaled) => scaled / 100,
                None => {
                    assert(!share_fits(table, pool as int, winners@, percentages@, i as int));
                    return false;
                },
            };
            match given.checked_add(part) {
                Some(sum) => {
                    given = sum;
                },
                None => {
                    assert(!share_fits(table, pool as int, winners@, percentages@, i as int));
                    return false;
                },
            }
            match escrow.balance(winners[i]).checked_add(part) {
                Some(sum) => escrow.set(winners[i], sum),
                None => {
                    assert(!share_fits(table, pool as int, winners@, percentages@, i as int));
                    return false;
                },
            }
            i = i + 1;
        }
        proof {
            assert(winners@.take(i as int) =~= winners@);
            assert(percentages@.take(i as int) =~= percentages@);
        }
        match pool.checked_sub(given) {
            Some(remainder) => remainder <= 0 || winners.len() == 0 || escrow.balance(
                winners[0],
            ).checked_add(remainder).is_some(),
            None => false,
        }
    }

    /// Whether sharing out the pool stays in range.
    pub fn payout_tournament_fits(
        &self,
        game_id: u64,
        winners: &Vec<Address>,
        percentages: &Vec<u32>,
    ) -> (fits: bool)
        ensures
            fits == self@.payout_tournament_fits(game_id, winners@, percentages@),
    {
        let game = match self.completed_game(game_id) {
            Ok(game) => game,
            Err(_) => return true,
        };
        if winners.len() != percentages.len() {
            return true;
        }
        if Self::sum_percentages(percentages).is_none() {
            return false;
        }
        if self.tournament_refusal(game_id, winners, percentages).is_some() {
            return true;
        }
        let mut escrow = self.escrow.duplicate();
        let mut pool: i128 = game.wager_amount;
        match self.escrow.balance(game.player1).checked_sub(game.wager_amount) {
            Some(left) => escrow.set(game.player1, left),
            None => return false,
        }
        if let Some(player2) = game.player2 {
            match self.escrow.balance(player2).checked_sub(game.wager_amount) {
                Some(left) => escrow.set(player2, left),
                None => return false,
            }
            match game.wager_amount.checked_mul(2) {
                Some(both) => {
                    pool = both;
                },
                None => return false,
            }
        }
        Self::distribution_fits(&escrow, pool, winners, percentages)
    }

    /// Shares the pool of a completed game out to several winners by
    /// percentage. What the rounding leaves over goes to the first of them. The
    /// game's first player has to authorise it.
    pub fn payout_tournament(
        &mut self,
        game_id: u64,
        winners: &Vec<Address>,
        percentages: &Vec<u32>,
    ) -> (answer: Result<(), ContractError>)
        requires
            old(self)@.payout_tournament_fits(game_id, winners@, percentages@),
        ensures
            answer == old(self)@.payout_tournament(game_id, winners@, percentages@).0,
            final(self)@ == old(self)@.payout_tournament(game_id, winners@, percentages@).1,
            old(self)@.keeps(final(self)@),
    {
        proof {
            payout_tournament_keeps(self@, game_id, winners@, percentages@);
        }
        let game = match self.completed_game(game_id) {
            Ok(game) => game,
            Err(e) => return Err(e),
        };
        let refusal = self.tournament_refusal(game_id, winners, percentages);
        self.ask(game.player1);
        if let Some(e) = refusal {
            return Err(e);
        }
        let player1_escrow = self.escrow.balance(game.player1);
        let mut player2_escrow: i128 = 0;
        let mut total_pool: i128 = game.wager_amount;
        if let Some(player2) = game.player2 {
            player2_escrow = self.escrow.balance(player2);
            total_pool = game.wager_amount * 2;
        }

        // The stakes leave the escrow before anybody is credited.
        self.escrow.set(game.player1, player1_escrow - game.wager_amount);
        if let Some(player2) = game.player2 {
            self.escrow.set(player2, player2_escrow - game.wager_amount);
        }

        let ghost table = self.escrow@;
        let ghost staked = self@;
        let mut distributed: i128 = 0;
        let mut i: usize = 0;
        proof {
            assert(table =~= old(self)@.tournament_stakes_out(game@));
            assert(winners@.take(0) =~= Seq::<Address>::empty());
            assert(percentages@.take(0) =~= Seq::<u32>::empty());
        }
        while i < winners.len()
            invariant
                winners@.len() == percentages@.len(),
                i <= winners@.len(),
                distribution_fits(table, total_pool as int, winners@, percentages@),
                self@ == (ContractModel {
                    escrow: shared_out(
                        table,
                        total_pool as int,
                        winners@.take(i as int),
                        percentages@.take(i as int),
                    ),
                    ..staked
                }),
                distributed == share_sum(total_pool as int, percentages@.take(i as int)),
            decreases winners@.len() - i,
        {
            proof {
                lemma_share_step(table, total_pool as int, winners@, percentages@, i as int);
                assert(share_fits(table, total_pool as int, winners@, percentages@, i as int));
            }
            let winner = winners[i];
            let percentage = percentages[i];
            let payout_amount: i128 = (total_pool * percentage as i128) / 100;
            distributed = distributed + payout_amount;
            let winner_escrow = self.escrow.balance(winner);
            self.escrow.set(winner, winner_escrow + payout_amount);
            i = i + 1;
        }
        proof {
            assert(winners@.take(i as int) =~= winners@);
            assert(percentages@.take(i as int) =~= percentages@);
        }

        let remainder: i128 = total_pool - distributed;
        if remainder > 0 && winners.len() > 0 {
            let first_winner = winners[0];
            let winner_escrow = self.escrow.balance(first_winner);
            self.escrow.set(first_winner, winner_escrow + remainder);
        }
        Ok(())
    }

    // Puzzle rewards.

    /// Whether the treasury covers the reward and no balance leaves its range.
    pub fn reward_fits(&self, recipient: Address, reward_amount: i128) -> (fits: bool)
        ensures
            fits == self@.reward_fits(recipient, reward_amount),
    {
        let treasury = self.treasury_balance();
        treasury >= reward_amount && treasury.checked_sub(reward_amount).is_some()
            && self.balances.balance(recipient).checked_add(reward_amount).is_some()
    }

    /// Settles a claim, given what the signature check said of it. A used nonce
    /// is answered first; a claim that was not accepted has no answer and
    /// changes nothing.
    pub fn claim_with_verdict(
        &mut self,
        recipient: Address,
        reward_amount: i128,
        nonce: u64,
        accepted: bool,
    ) -> (answer: Option<Result<(), ContractError>>)
        requires
            accepted && !old(self)@.nonce_used(nonce) ==> old(self)@.reward_fits(
                recipient,
                reward_amount,
            ),
        ensures
            answer == old(self)@.claim_with_verdict(recipient, reward_amount, nonce, accepted).0,
            final(self)@ == old(self)@.claim_with_verdict(
                recipient,
                reward_amount,
                nonce,
                accepted,
            ).1,
            old(self)@.keeps(final(self)@),
    {
        proof {
            claim_keeps(self@, recipient, reward_amount, nonce, accepted);
        }
        if self.nonces.is_used(nonce) {
            return Some(Err(ContractError::Unauthorized));
        }
        if !accepted {
            return None;
        }
        self.nonces.mark_used(nonce);

        let treasury = self.treasury_balance();
        self.treasury = Some(treasury - reward_amount);

        let prev_balance = self.balances.balance(recipient);
        self.balances.set(recipient, prev_balance + reward_amount);

        self.effects.push(Effect::RewardClaimed { recipient, amount: reward_amount });
        Some(Ok(()))
    }

    /// Pays a puzzle reward that the backend signed: the amount moves from the
    /// treasury to the recipient's reward balance and the nonce is used up. A
    /// nonce that was used before is answered with `Unauthorized`.
    pub fn claim_puzzle_reward(
        &mut self,
        recipient: Address,
        reward_amount: i128,
        nonce: u64,
        signature: &[u8; 64],
    ) -> (answer: Result<(), ContractError>)
        requires
            old(self)@.admin_key matches Some(key) && key.len() == 32,
            !old(self)@.nonce_used(nonce) ==> {
                &&& old(self)@.claim_signed(recipient, reward_amount, nonce, signature@)
                &&& old(self)@.reward_fits(recipient, reward_amount)
            },
        ensures
            Some(answer) == old(self)@.claim_with_verdict(
                recipient,
                reward_amount,
                nonce,
                true,
            ).0,
            final(self)@ == old(self)@.claim_with_verdict(
                recipient,
                reward_amount,
                nonce,
                true,
            ).1,
            old(self)@.keeps(final(self)@),
    {
        proof {
            claim_keeps(self@, recipient, reward_amount, nonce, true);
        }
        if self.nonces.is_used(nonce) {
            return Err(ContractError::Unauthorized);
        }
        let accepted = match &self.admin_key {
            Some(key) => claim_is_signed(key, recipient, reward_amount, nonce, signature),
            None => false,
        };
        match self.claim_with_verdict(recipient, reward_amount, nonce, accepted) {
            Some(answer) => answer,
            None => Err(ContractError::Unauthorized),
        }
    }

    /// Pays a puzzle reward like `claim_puzzle_reward` where that can be done.
    /// Where there is no signing key, the signature is not valid or the
    /// treasury does not cover the reward, the answer is `None` and nothing
    /// changes.
    pub fn try_claim_puzzle_reward(
        &mut self,
        recipient: Address,
        reward_amount: i128,
        nonce: u64,
        signature: &[u8; 64],
    ) -> (answer: Option<Result<(), ContractError>>)
        ensures
            answer is Some <==> {
                &&& old(self)@.admin_key matches Some(key) && key.len() == 32
                &&& old(self)@.nonce_used(nonce) || {
                    &&& old(self)@.claim_signed(recipient, reward_amount, nonce, signature@)
                    &&& old(self)@.reward_fits(recipient, reward_amount)
                }
            },
            answer is Some ==> {
                &&& answer == old(self)@.claim_with_verdict(
                    recipient,
                    reward_amount,
                    nonce,
                    true,
                ).0
                &&& final(self)@ == old(self)@.claim_with_verdict(
                    recipient,
                    reward_amount,
                    nonce,
                    true,
                ).1
            },
            answer is None ==> final(self)@ == old(self)@,
            old(self)@.keeps(final(self)@),
    {
        let signed = match &self.admin_key {
            Some(key) if key.len() == 32 => self.nonces.is_used(nonce) || claim_is_signed(
                key,
                recipient,
                reward_amount,
                nonce,
                signature,
            ),
            _ => false,
        };
        if !signed {
            return None;
        }
        if !self.nonces.is_used(nonce) && !self.reward_fits(recipient, reward_amount) {
            return None;
        }
        Some(self.claim_puzzle_reward(recipient, reward_amount, nonce, signature))
    }

    /// The puzzle-reward balance of an address.
    pub fn reward_balance(&self, address: Address) -> (amount: i128)
        ensures
            amount == balance(self@.balances, address),
    {
        self.balances.balance(address)
    }

    /// What the treasury holds for rewards.
    pub fn treasury_balance(&self) -> (amount: i128)
        ensures
            amount == self@.treasury_reserve(),
    {
        match self.treasury {
            Some(amount) => amount,
            None => 0,
        }
    }

    // Ratings.

    /// Sets the K-factor of the rating system. Only the administrator may, and
    /// has to authorise it.
    pub fn initialize_elo_system(&mut self, admin: Address, k_factor: u32)
        requires
            old(self)@.admin == Some(admin),
            1 <= k_factor <= 100,
        ensures
            final(self)@ == old(self)@.initialize_elo_system(admin, k_factor),
            old(self)@.keeps(final(self)@),
    {
        proof {
            initialize_elo_system_keeps(self@, admin, k_factor);
        }
        self.ask(admin);
        self.k_factor = Some(k_factor);
    }

    /// Registers a player at the starting rating of 1200, or returns the rating
    /// of a player who is registered. `player` has to authorise it. `sequence`
    /// is the current ledger sequence.
    pub fn register_player(&mut self, player: Address, sequence: u32) -> (rating: PlayerRating)
        ensures
            rating == old(self)@.register_player(player, sequence).0,
            final(self)@ == old(self)@.register_player(player, sequence).1,
            old(self)@.keeps(final(self)@),
    {
        proof {
            register_player_keeps(self@, player, sequence);
        }
        self.ask(player);
        if let Some(rating) = self.ratings.get(player) {
            return rating;
        }
        let new_rating = PlayerRating {
            address: player,
            rating: 1200,
            games_played: 0,
            wins: 0,
            losses: 0,
            draws: 0,
            highest_rating: 1200,
            last_updated: sequence as u64,
        };
        self.ratings.set(player, new_rating);
        self.effects.push(Effect::PlayerRegistered { player, rating: 1200 });
        new_rating
    }

    /// The score of a player under a result, in ten-thousandths; `result` is
    /// seen from this player's side.
    fn score(result: u32) -> (score: i32)
        ensures
            score == first_score(result),
    {
        match result {
            1 => 10000,
            2 => 0,
            _ => 5000,
        }
    }

    /// The same result, seen from the other side.
    fn mirror(result: u32) -> (other: u32)
        ensures
            other == mirrored(result),
    {
        match result {
            1 => 2,
            2 => 1,
            _ => result,
        }
    }

    /// Whether a player's record takes the result of one more game.
    fn result_fits(&self, own: &PlayerRating, other: &PlayerRating, result: u32) -> (fits: bool)
        requires
            1 <= result <= 3,
        ensures
            fits == {
                &&& fits_i32(
                    signed32(self@.k()) * (first_score(result) - expected_score(
                        own.rating as int,
                        other.rating as int,
                    )),
                )
                &&& game_fits(
                    *own,
                    result,
                    change_against(own.rating as int, other.rating as int, result, self@.k()),
                )
            },
    {
        let expected = Self::calculate_expected_score_scaled(own.rating, other.rating);
        let score = Self::score(result);
        if to_signed32(self.k()).checked_mul(score - expected).is_none() {
            return false;
        }
        let change = Self::calculate_rating_change_scaled(expected, score, self.k());
        own.rating.checked_add(change).is_some() && own.games_played < u32::MAX && (result != 1
            || own.wins < u32::MAX) && (result != 2 || own.losses < u32::MAX) && (result != 3
            || own.draws < u32::MAX)
    }

    /// Whether both records take the result and no rating leaves its range.
    pub fn update_ratings_fits(&self, player1: Address, player2: Address, result: u32) -> (fits:
        bool)
        ensures
            fits == self@.update_ratings_fits(player1, player2, result),
    {
        if result < 1 || result > 3 {
            return true;
        }
        match (self.ratings.get(player1), self.ratings.get(player2)) {
            (Some(rating1), Some(rating2)) => self.result_fits(&rating1, &rating2, result)
                && self.result_fits(&rating2, &rating1, Self::mirror(result)),
            _ => true,
        }
    }

    /// The record of a player after a game; `result` is seen from this player's
    /// side.
    fn record_result(own: PlayerRating, result: u32, change: i32, sequence: u32) -> (after:
        PlayerRating)
        requires
            1 <= result <= 3,
            game_fits(own, result, change as int),
        ensures
            after == after_game(own, result, change as int, sequence),
    {
        let mut after = own;
        after.rating = after.rating + change;
        if after.rating > after.highest_rating {
            after.highest_rating = after.rating;
        }
        after.games_played = after.games_played + 1;
        match result {
            1 => {
                after.wins = after.wins + 1;
            },
            2 => {
                after.losses = after.losses + 1;
            },
            _ => {
                after.draws = after.draws + 1;
            },
        }
        after.last_updated = sequence as u64;
        after
    }

    /// Takes the result of a game into the ratings of both players: 1 when
    /// `player1` won, 2 when `player2` won, 3 for a draw. Each rating changes
    /// by `K * (S - E)`. `sequence` is the current ledger sequence.
    pub fn update_ratings(
        &mut self,
        player1: Address,
        player2: Address,
        result: u32,
        sequence: u32,
    ) -> (answer: Result<(PlayerRating, PlayerRating), ContractError>)
        requires
            old(self)@.update_ratings_fits(player1, player2, result),
        ensures
            answer == old(self)@.update_ratings(player1, player2, result, sequence).0,
            final(self)@ == old(self)@.update_ratings(player1, player2, result, sequence).1,
            old(self)@.keeps(final(self)@),
    {
        proof {
            update_ratings_keeps(self@, player1, player2, result, sequence);
        }
        if result < 1 || result > 3 {
            return Err(ContractError::InvalidMove);
        }
        let k_factor = self.k();
        let rating1 = match self.ratings.get(player1) {
            Some(rating) => rating,
            None => return Err(ContractError::RatingNotFound),
        };
        let rating2 = match self.ratings.get(player2) {
            Some(rating) => rating,
            None => return Err(ContractError::RatingNotFound),
        };
        let mirrored_result = Self::mirror(result);

        let expected1 = Self::calculate_expected_score_scaled(rating1.rating, rating2.rating);
        let expected2 = Self::calculate_expected_score_scaled(rating2.rating, rating1.rating);
        let change1 = Self::calculate_rating_change_scaled(
            expected1,
            Self::score(result),
            k_factor,
        );
        let change2 = Self::calculate_rating_change_scaled(
            expected2,
            Self::score(mirrored_result),
            k_factor,
        );
        let after1 = Self::record_result(rating1, result, change1, sequence);
        let after2 = Self::record_result(rating2, mirrored_result, change2, sequence);

        self.ratings.set(player1, after1);
        self.ratings.set(player2, after2);
        self.effects.push(
            Effect::RatingsUpdated {
                player1,
                rating1: after1.rating,
                player2,
                rating2: after2.rating,
            },
        );
        Ok((after1, after2))
    }

    /// The rating of a registered player.
    pub fn get_player_rating(&self, player: Address) -> (answer: Result<
        PlayerRating,
        ContractError,
    >)
        ensures
            answer == match found(self@.ratings, player) {
                Some(rating) => Ok(rating),
                None => Err::<PlayerRating, ContractError>(ContractError::RatingNotFound),
            },
    {
        match self.ratings.get(player) {
            Some(rating) => Ok(rating),
            None => Err(ContractError::RatingNotFound),
        }
    }

    /// The score that a player rated `rating_a` is expected to make against one
    /// rated `rating_b`, in ten-thousandths: 5000 between equals and linear in
    /// the difference until it is held at 900 or 9100.
    pub fn calculate_expected_score_scaled(rating_a: i32, rating_b: i32) -> (expected: i32)
        ensures
            expected == expected_score(rating_a as int, rating_b as int),
            900 <= expected <= 9100,
    {
        let rating_diff: i64 = rating_b as i64 - rating_a as i64;
        let expected: i64 = 5000 - (rating_diff * 10000 / 800);
        if expected < 900 {
            900
        } else if expected > 9100 {
            9100
        } else {
            expected as i32
        }
    }

    /// What a rating changes by: `K * (S - E)`, with both scores in
    /// ten-thousandths, rounded toward zero.
    pub fn calculate_rating_change_scaled(
        expected_scaled: i32,
        actual_score: i32,
        k_factor: u32,
    ) -> (change: i32)
        requires
            fits_i32(actual_score - expected_scaled),
            fits_i32(signed32(k_factor) * (actual_score - expected_scaled)),
        ensures
            change == rating_change(
                expected_scaled as int,
                actual_score as int,
                signed32(k_factor),
            ),
    {
        let diff: i32 = actual_score - expected_scaled;
        (to_signed32(k_factor) * diff) / 10000
    }
}

} // verus!
