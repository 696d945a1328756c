//! Calls as values, and what holds over any sequence of them.

use vstd::prelude::*;

use crate::address::Address;
use crate::model::ContractModel;
use crate::soundness::{
    blank_is_wf, claim_draw_keeps, claim_keeps, configure_fees_keeps, create_game_keeps,
    evolves_is_reflexive, evolves_is_transitive, forfeit_keeps, initialize_elo_system_keeps,
    initialize_puzzle_rewards_keeps, initialize_token_keeps, join_game_keeps, payout_keeps,
    payout_tournament_keeps, register_player_keeps, set_max_stake_keeps, submit_move_keeps,
    update_ratings_keeps, upgrade_admin_keeps,
};

verus! {

/// A call with its arguments.
pub enum Call {
    TakeEffects,
    InitializeToken { admin: Address, token_contract: Address },
    CreateGame { player1: Address, wager_amount: i128, token_balance: i128, sequence: u32 },
    JoinGame { game_id: u64, player2: Address, token_balance: i128 },
    SubmitMove { game_id: u64, player: Address, move_data: Seq<u32>, sequence: u32 },
    ClaimDraw { game_id: u64, player: Address },
    Forfeit { game_id: u64, player: Address },
    Payout { game_id: u64, winner: Address },
    PayoutTournament { game_id: u64, winners: Seq<Address>, percentages: Seq<u32> },
    InitializePuzzleRewards {
        admin: Address,
        admin_public_key: Seq<u8>,
        treasury_amount: i128,
        fee_bips: u32,
        treasury_address: Address,
    },
    SetMaxStake { new_limit: i128 },
    ConfigureFees { admin: Address, fee_bips: u32, treasury_address: Address },
    UpgradeAdmin { admin: Address },
    ClaimPuzzleReward { recipient: Address, reward_amount: i128, nonce: u64, accepted: bool },
    InitializeEloSystem { admin: Address, k_factor: u32 },
    RegisterPlayer { player: Address, sequence: u32 },
    UpdateRatings { player1: Address, player2: Address, result: u32, sequence: u32 },
}

impl ContractModel {
    /// Whether a call may be made: what its function requires.
    pub open spec fn admits(self, call: Call) -> bool {
        match call {
            Call::TakeEffects => true,
            Call::InitializeToken { admin, token_contract } => self.token is None,
            Call::CreateGame { player1, wager_amount, token_balance, sequence } =>
                self.create_game_fits(player1, wager_amount, token_balance),
            Call::JoinGame { game_id, player2, token_balance } => self.join_game_fits(
                game_id,
                player2,
                token_balance,
            ),
            Call::SubmitMove { game_id, player, move_data, sequence } => true,
            Call::ClaimDraw { game_id, player } => self.claim_draw_fits(game_id, player),
            Call::Forfeit { game_id, player } => self.forfeit_fits(game_id, player),
            Call::Payout { game_id, winner } => self.payout_fits(game_id, winner),
            Call::PayoutTournament { game_id, winners, percentages } =>
                self.payout_tournament_fits(game_id, winners, percentages),
            Call::InitializePuzzleRewards {
                admin,
                admin_public_key,
                treasury_amount,
                fee_bips,
                treasury_address,
            } => self.initialize_puzzle_rewards_allowed(
                admin_public_key,
                treasury_amount,
                fee_bips,
            ),
            Call::SetMaxStake { new_limit } => true,
            Call::ConfigureFees { admin, fee_bips, treasury_address } => self.admin == Some(admin)
                && fee_bips <= 1000,
            Call::UpgradeAdmin { admin } => self.admin is None && self.admin_key is Some,
            Call::ClaimPuzzleReward { recipient, reward_amount, nonce, accepted } => accepted
                && !self.nonce_used(nonce) ==> self.reward_fits(recipient, reward_amount),
            Call::InitializeEloSystem { admin, k_factor } => self.admin == Some(admin) && 1
                <= k_factor <= 100,
            Call::RegisterPlayer { player, sequence } => true,
            Call::UpdateRatings { player1, player2, result, sequence } =>
                self.update_ratings_fits(player1, player2, result),
        }
    }

    /// The state that a call leaves behind.
    pub open spec fn after(self, call: Call) -> Self {
        match call {
            Call::TakeEffects => ContractModel { effects: Seq::empty(), ..self },
            Call::InitializeToken { admin, token_contract } => self.initialize_token(
                admin,
                token_contract,
            ),
            Call::CreateGame { player1, wager_amount, token_balance, sequence } =>
                self.create_game(player1, wager_amount, token_balance, sequence).1,
            Call::JoinGame { game_id, player2, token_balance } => self.join_game(
                game_id,
                player2,
                token_balance,
            ).1,
            Call::SubmitMove { game_id, player, move_data, sequence } => self.submit_move(
                game_id,
                player,
                move_data,
                sequence,
            ).1,
            Call::ClaimDraw { game_id, player } => self.claim_draw(game_id, player).1,
            Call::Forfeit { game_id, player } => self.forfeit(game_id, player).1,
            Call::Payout { game_id, winner } => self.payout(game_id, winner).1,
            Call::PayoutTournament { game_id, winners, percentages } => self.payout_tournament(
                game_id,
                winners,
                percentages,
            ).1,
            Call::InitializePuzzleRewards {
                admin,
                admin_public_key,
                treasury_amount,
                fee_bips,
                treasury_address,
            } => self.initialize_puzzle_rewards(
                admin,
                admin_public_key,
                treasury_amount,
                fee_bips,
                treasury_address,
            ),
            Call::SetMaxStake { new_limit } => self.set_max_stake(new_limit),
            Call::ConfigureFees { admin, fee_bips, treasury_address } => self.configure_fees(
                admin,
                fee_bips,
                treasury_address,
            ),
            Call::UpgradeAdmin { admin } => self.upgrade_admin(admin),
            Call::ClaimPuzzleReward { recipient, reward_amount, nonce, accepted } =>
                self.claim_with_verdict(recipient, reward_amount, nonce, accepted).1,
            Call::InitializeEloSystem { admin, k_factor } => self.initialize_elo_system(
                admin,
                k_factor,
            ),
            Call::RegisterPlayer { player, sequence } => self.register_player(
                player,
                sequence,
            ).1,
            Call::UpdateRatings { player1, player2, result, sequence } => self.update_ratings(
                player1,
                player2,
                result,
                sequence,
            ).1,
        }
    }

    /// The number of the game that a call opens, if it opens one.
    pub open spec fn opened_by(self, call: Call) -> Option<u64> {
        match call {
            Call::CreateGame { player1, wager_amount, token_balance, sequence } =>
                match self.create_game(player1, wager_amount, token_balance, sequence).0 {
                    Ok(id) => Some(id),
                    Err(_) => None,
                },
            _ => None,
        }
    }

    /// The state after a sequence of calls.
    pub open spec fn after_all(self, calls: Seq<Call>) -> Self
        decreases calls.len(),
    {
        if calls.len() == 0 {
            self
        } else {
            self.after_all(calls.drop_last()).after(calls.last())
        }
    }

    /// Whether each call of a sequence may be made when its turn comes.
    pub open spec fn admits_all(self, calls: Seq<Call>) -> bool
        decreases calls.len(),
    {
        calls.len() > 0 ==> {
            &&& self.admits_all(calls.drop_last())
            &&& self.after_all(calls.drop_last()).admits(calls.last())
        }
    }

    /// How many games a sequence of calls opens.
    pub open spec fn games_opened(self, calls: Seq<Call>) -> nat
        decreases calls.len(),
    {
        if calls.len() == 0 {
            0
        } else {
            self.games_opened(calls.drop_last()) + if self.after_all(
                calls.drop_last(),
            ).opened_by(calls.last()) is Some {
                1nat
            } else {
                0nat
            }
        }
    }
}

/// Every call leads from a good state to a good one and undoes nothing.
pub proof fn every_call_keeps(s: ContractModel, call: Call)
    requires
        s.admits(call),
    ensures
        s.keeps(s.after(call)),
{
    match call {
        Call::TakeEffects => {},
        Call::InitializeToken { admin, token_contract } => initialize_token_keeps(
            s,
            admin,
            token_contract,
        ),
        Call::CreateGame { player1, wager_amount, token_balance, sequence } => create_game_keeps(
            s,
            player1,
            wager_amount,
            token_balance,
            sequence,
        ),
        Call::JoinGame { game_id, player2, token_balance } => join_game_keeps(
            s,
            game_id,
            player2,
            token_balance,
        ),
        Call::SubmitMove { game_id, player, move_data, sequence } => submit_move_keeps(
            s,
            game_id,
            player,
            move_data,
            sequence,
        ),
        Call::ClaimDraw { game_id, player } => claim_draw_keeps(s, game_id, player),
        Call::Forfeit { game_id, player } => forfeit_keeps(s, game_id, player),
        Call::Payout { game_id, winner } => payout_keeps(s, game_id, winner),
        Call::PayoutTournament { game_id, winners, percentages } => payout_tournament_keeps(
            s,
            game_id,
            winners,
            percentages,
        ),
        Call::InitializePuzzleRewards {
            admin,
            admin_public_key,
            treasury_amount,
            fee_bips,
            treasury_address,
        } => initialize_puzzle_rewards_keeps(
            s,
            admin,
            admin_public_key,
            treasury_amount,
            fee_bips,
            treasury_address,
        ),
        Call::SetMaxStake { new_limit } => set_max_stake_keeps(s, new_limit),
        Call::ConfigureFees { admin, fee_bips, treasury_address } => configure_fees_keeps(
            s,
            admin,
            fee_bips,
            treasury_address,
        ),
        Call::UpgradeAdmin { admin } => upgrade_admin_keeps(s, admin),
        Call::ClaimPuzzleReward { recipient, reward_amount, nonce, accepted } => claim_keeps(
            s,
            recipient,
            reward_amount,
            nonce,
            accepted,
        ),
        Call::InitializeEloSystem { admin, k_factor } => initialize_elo_system_keeps(
            s,
            admin,
            k_factor,
        ),
        Call::RegisterPlayer { player, sequence } => register_player_keeps(s, player, sequence),
        Call::UpdateRatings { player1, player2, result, sequence } => update_ratings_keeps(
            s,
            player1,
            player2,
            result,
            sequence,
        ),
    }
}

/// Any sequence of calls leads from a good state to a good one and undoes
/// nothing.
pub proof fn every_run_keeps(s: ContractModel, calls: Seq<Call>)
    requires
        s.admits_all(calls),
    ensures
        s.keeps(s.after_all(calls)),
    decreases calls.len(),
{
    if calls.len() == 0 {
        evolves_is_reflexive(s);
    } else {
        let before = s.after_all(calls.drop_last());
        every_run_keeps(s, calls.drop_last());
        every_call_keeps(before, calls.last());
        if s.wf() {
            evolves_is_transitive(s, before, s.after_all(calls));
        }
    }
}

/// Whatever was called on a blank contract, its state is good.
pub proof fn every_reached_state_is_wf(calls: Seq<Call>)
    requires
        ContractModel::blank().admits_all(calls),
    ensures
        ContractModel::blank().after_all(calls).wf(),
{
    blank_is_wf();
    every_run_keeps(ContractModel::blank(), calls);
}

/// The counter moves only when a game is opened, and then by one, to the number
/// of that game.
pub proof fn only_new_games_are_counted(s: ContractModel, call: Call)
    requires
        s.admits(call),
    ensures
        match s.opened_by(call) {
            Some(id) => id == s.counter() + 1 && s.after(call).counter() == id,
            None => s.after(call).counter() == s.counter(),
        },
{
    match call {
        Call::CreateGame { player1, wager_amount, token_balance, sequence } => {
            assert(s.after(call) == s.create_game(
                player1,
                wager_amount,
                token_balance,
                sequence,
            ).1);
        },
        Call::JoinGame { game_id, player2, token_balance } => {
            assert(s.after(call) == s.join_game(game_id, player2, token_balance).1);
        },
        Call::SubmitMove { game_id, player, move_data, sequence } => {
            assert(s.after(call) == s.submit_move(game_id, player, move_data, sequence).1);
        },
        Call::ClaimDraw { game_id, player } => {
            assert(s.after(call) == s.claim_draw(game_id, player).1);
        },
        Call::Forfeit { game_id, player } => {
            assert(s.after(call) == s.forfeit(game_id, player).1);
        },
        Call::Payout { game_id, winner } => {
            assert(s.after(call) == s.payout(game_id, winner).1);
        },
        Call::PayoutTournament { game_id, winners, percentages } => {
            assert(s.after(call) == s.payout_tournament(game_id, winners, percentages).1);
        },
        Call::RegisterPlayer { player, sequence } => {
            assert(s.after(call) == s.register_player(player, sequence).1);
        },
        Call::UpdateRatings { player1, player2, result, sequence } => {
            assert(s.after(call) == s.update_ratings(player1, player2, result, sequence).1);
        },
        _ => {},
    }
}

/// The counter of a contract that was blank is the number of games that were
/// opened on it, and the next game that is opened gets the next number: the
/// n-th game gets number n.
pub proof fn games_are_numbered_in_order(calls: Seq<Call>, call: Call)
    requires
        ContractModel::blank().admits_all(calls.push(call)),
    ensures
        ({
            let s = ContractModel::blank().after_all(calls);
            let opened = ContractModel::blank().games_opened(calls);
            &&& s.counter() == opened
            &&& s.opened_by(call) matches Some(id) ==> id == opened + 1
        }),
    decreases calls.len(),
{
    assert(calls.push(call).drop_last() =~= calls);
    let s = ContractModel::blank().after_all(calls);
    only_new_games_are_counted(s, call);
    if calls.len() > 0 {
        let earlier = calls.drop_last();
        assert(earlier.push(calls.last()) =~= calls);
        games_are_numbered_in_order(earlier, calls.last());
        only_new_games_are_counted(ContractModel::blank().after_all(earlier), calls.last());
    }
}

} // verus!
