//! What holds of every state of the contract, and what no call ever undoes.

use vstd::prelude::*;

use crate::address::Address;
use crate::game::{GameModel, GameState};
use crate::ledger::{balance, credit, lemma_total_credit, lemma_total_insert};
use crate::model::{dust, lemma_shared_out_total, shared_out, ContractModel};
use crate::rating::PlayerRating;

verus! {

/// Whether a game may turn into another: it keeps its number, its first player,
/// its stake and its date, fills its second seat at most once and only adds
/// moves; once it has ended it does not change.
pub open spec fn game_evolves(before: GameModel, after: GameModel) -> bool {
    &&& after.id == before.id
    &&& after.player1 == before.player1
    &&& after.wager_amount == before.wager_amount
    &&& after.created_at == before.created_at
    &&& before.player2 is Some ==> after.player2 == before.player2
    &&& before.moves.is_prefix_of(after.moves)
    &&& before.is_over() || before.state == GameState::Completed ==> after == before
}

/// Whether a rating may turn into another: it belongs to the same player, its
/// best value never falls and no game is forgotten.
pub open spec fn rating_evolves(before: PlayerRating, after: PlayerRating) -> bool {
    &&& after.address == before.address
    &&& after.highest_rating >= before.highest_rating
    &&& after.games_played >= before.games_played
}

impl ContractModel {
    /// What holds of every state that calls lead to.
    pub open spec fn wf(self) -> bool {
        &&& self.escrow.dom().finite()
        &&& self.balances.dom().finite()
        &&& self.games.dom().finite()
        &&& forall|id: u64| #[trigger]
            self.games.contains_key(id) ==> {
                &&& 1 <= id <= self.counter()
                &&& self.games[id].id == id
                &&& self.games[id].wf()
            }
        &&& forall|player: Address| #[trigger]
            self.ratings.contains_key(player) ==> {
                &&& self.ratings[player].address == player
                &&& self.ratings[player].wf()
            }
        &&& self.fee_rate() <= 1000
        &&& 1 <= self.k() <= 100
        &&& self.treasury_reserve() >= 0
        &&& self.admin_key matches Some(key) ==> key.len() == 32
        &&& self.admin is Some ==> self.admin_key is Some
    }

    /// What no call undoes: the token and the administrator stay once they are
    /// named, the counter never falls, games and players never vanish, and a
    /// used nonce stays used.
    pub open spec fn evolves(self, next: Self) -> bool {
        &&& self.token is Some ==> next.token == self.token
        &&& self.admin is Some ==> next.admin == self.admin && next.admin_key == self.admin_key
        &&& self.counter() <= next.counter()
        &&& forall|id: u64| #[trigger]
            self.games.contains_key(id) ==> {
                &&& next.games.contains_key(id)
                &&& game_evolves(self.games[id], next.games[id])
            }
        &&& forall|player: Address| #[trigger]
            self.ratings.contains_key(player) ==> {
                &&& next.ratings.contains_key(player)
                &&& rating_evolves(self.ratings[player], next.ratings[player])
            }
        &&& forall|nonce: u64| #[trigger] self.nonce_used(nonce) ==> next.nonce_used(nonce)
    }

    /// Whether a call leads from a good state to a good one and undoes nothing.
    pub open spec fn keeps(self, next: Self) -> bool {
        self.wf() ==> next.wf() && self.evolves(next)
    }
}

/// A state evolves into itself.
pub proof fn evolves_is_reflexive(s: ContractModel)
    ensures
        s.evolves(s),
{
}

/// What holds step by step holds over any number of calls.
pub proof fn evolves_is_transitive(s: ContractModel, t: ContractModel, u: ContractModel)
    requires
        s.evolves(t),
        t.evolves(u),
    ensures
        s.evolves(u),
{
    assert forall|id: u64| #[trigger] s.games.contains_key(id) implies u.games.contains_key(id)
        && game_evolves(s.games[id], u.games[id]) by {
        assert(t.games.contains_key(id));
        let before = s.games[id].moves;
        let after = u.games[id].moves;
        assert(before =~= after.subrange(0, before.len() as int));
    }
    assert forall|player: Address| #[trigger] s.ratings.contains_key(player) implies
        u.ratings.contains_key(player) && rating_evolves(s.ratings[player], u.ratings[player]) by {
        assert(t.ratings.contains_key(player));
    }
}

/// A blank contract is in a good state.
pub proof fn blank_is_wf()
    ensures
        ContractModel::blank().wf(),
{
}

/// Replacing one game by what it may turn into keeps the state good.
proof fn lemma_game_replaced(s: ContractModel, t: ContractModel, id: u64, game: GameModel)
    requires
        s.wf(),
        s.games.contains_key(id),
        game.wf(),
        game_evolves(s.games[id], game),
        t == (ContractModel {
            games: s.games.insert(id, game),
            escrow: t.escrow,
            effects: t.effects,
            ..s
        }),
        t.escrow.dom().finite(),
    ensures
        t.wf(),
        s.evolves(t),
{
    assert forall|i: u64| #[trigger] s.games.contains_key(i) implies t.games.contains_key(i)
        && game_evolves(s.games[i], t.games[i]) by {
        if i != id {
            assert(t.games[i] == s.games[i]);
        }
    }
}

/// Opening a game leads from a good state to a good one and undoes nothing.
pub proof fn create_game_keeps(
    s: ContractModel,
    player1: Address,
    wager_amount: i128,
    token_balance: i128,
    sequence: u32,
)
    requires
        s.create_game_fits(player1, wager_amount, token_balance),
    ensures
        s.keeps(s.create_game(player1, wager_amount, token_balance, sequence).1),
{
    if s.wf() {
        let t = s.create_game(player1, wager_amount, token_balance, sequence).1;
        lemma_total_credit(s.escrow, player1, wager_amount as int);
        assert forall|i: u64| #[trigger] s.games.contains_key(i) implies t.games.contains_key(i)
            && game_evolves(s.games[i], t.games[i]) by {
            assert(t.games[i] == s.games[i]);
        }
    }
}

/// Joining a game leads from a good state to a good one and undoes nothing.
pub proof fn join_game_keeps(
    s: ContractModel,
    game_id: u64,
    player2: Address,
    token_balance: i128,
)
    ensures
        s.keeps(s.join_game(game_id, player2, token_balance).1),
{
    let (answer, t) = s.join_game(game_id, player2, token_balance);
    if s.wf() && answer is Ok {
        lemma_total_credit(s.escrow, player2, s.games[game_id].wager_amount as int);
        lemma_game_replaced(s, t, game_id, t.games[game_id]);
    }
}

/// A move leads from a good state to a good one and undoes nothing.
pub proof fn submit_move_keeps(
    s: ContractModel,
    game_id: u64,
    player: Address,
    move_data: Seq<u32>,
    sequence: u32,
)
    ensures
        s.keeps(s.submit_move(game_id, player, move_data, sequence).1),
{
    let (answer, t) = s.submit_move(game_id, player, move_data, sequence);
    if s.wf() && answer is Ok {
        let before = s.games[game_id];
        let after = t.games[game_id];
        assert(before.wf());
        assert(before.moves =~= after.moves.subrange(0, before.moves.len() as int));
        assert forall|i: int| 0 <= i < after.moves.len() implies after.mover(i) == Some(
            (#[trigger] after.moves[i]).player,
        ) && after.moves[i].move_data.len() > 0 by {
            if i < before.moves.len() {
                assert(after.moves[i] == before.moves[i]);
            }
        }
        lemma_game_replaced(s, t, game_id, after);
    }
}

proof fn lemma_stakes_returned_finite(s: ContractModel, game: GameModel)
    requires
        s.escrow.dom().finite(),
    ensures
        s.stakes_returned(game).dom().finite(),
{
    let first = credit(s.escrow, game.player1, -game.wager_amount);
    lemma_total_credit(s.escrow, game.player1, -game.wager_amount);
    if let Some(player2) = game.player2 {
        lemma_total_credit(first, player2, -game.wager_amount);
    }
}

proof fn lemma_settled_finite(s: ContractModel, game: GameModel, winner: Address)
    requires
        s.escrow.dom().finite(),
    ensures
        s.settled(game, winner).dom().finite(),
{
    let pool = ContractModel::pool(game);
    lemma_stakes_returned_finite(s, game);
    lemma_total_credit(s.stakes_returned(game), winner, s.prize(pool));
    if let Some(treasury) = s.treasury_address {
        lemma_total_credit(
            credit(s.stakes_returned(game), winner, s.prize(pool)),
            treasury,
            s.fee(pool),
        );
    }
}

/// A draw leads from a good state to a good one and undoes nothing.
pub proof fn claim_draw_keeps(s: ContractModel, game_id: u64, player: Address)
    ensures
        s.keeps(s.claim_draw(game_id, player).1),
{
    let (answer, t) = s.claim_draw(game_id, player);
    if s.wf() && answer is Ok {
        lemma_stakes_returned_finite(s, t.games[game_id]);
        lemma_game_replaced(s, t, game_id, t.games[game_id]);
    }
}

/// Giving up a game leads from a good state to a good one and undoes nothing.
pub proof fn forfeit_keeps(s: ContractModel, game_id: u64, player: Address)
    ensures
        s.keeps(s.forfeit(game_id, player).1),
{
    let (answer, t) = s.forfeit(game_id, player);
    if s.wf() && answer is Ok {
        let winner = s.games[game_id].opponent(player).unwrap();
        lemma_settled_finite(s, t.games[game_id], winner);
        lemma_game_replaced(s, t, game_id, t.games[game_id]);
    }
}

/// Paying the prize of a completed game leads from a good state to a good
/// one and undoes nothing.
pub proof fn payout_keeps(s: ContractModel, game_id: u64, winner: Address)
    ensures
        s.keeps(s.payout(game_id, winner).1),
{
    if s.wf() && s.payout_refusal(game_id, winner) is None {
        lemma_settled_finite(s, s.games[game_id], winner);
    }
}

/// Sharing out the pool of a completed game leads from a good state to a
/// good one and undoes nothing.
pub proof fn payout_tournament_keeps(
    s: ContractModel,
    game_id: u64,
    winners: Seq<Address>,
    percentages: Seq<u32>,
)
    ensures
        s.keeps(s.payout_tournament(game_id, winners, percentages).1),
{
    if s.wf() && s.tournament_refusal(game_id, winners, percentages) is None {
        let game = s.games[game_id];
        let first_left = balance(s.escrow, game.player1) - game.wager_amount;
        lemma_total_insert(s.escrow, game.player1, first_left);
        if let Some(player2) = game.player2 {
            lemma_total_insert(
                s.escrow.insert(game.player1, first_left),
                player2,
                balance(s.escrow, player2) - game.wager_amount,
            );
        }
        let table = s.tournament_stakes_out(game);
        let pool = ContractModel::tournament_pool(game);
        lemma_shared_out_total(table, pool, winners, percentages);
        if winners.len() > 0 {
            lemma_total_credit(
                shared_out(table, pool, winners, percentages),
                winners[0],
                dust(pool, percentages),
            );
        }
    }
}

/// Naming the token leads from a good state to a good one and undoes nothing.
pub proof fn initialize_token_keeps(s: ContractModel, admin: Address, token_contract: Address)
    requires
        s.token is None,
    ensures
        s.keeps(s.initialize_token(admin, token_contract)),
{
}

/// Setting up the puzzle rewards leads from a good state to a good one and
/// undoes nothing.
pub proof fn initialize_puzzle_rewards_keeps(
    s: ContractModel,
    admin: Address,
    admin_public_key: Seq<u8>,
    treasury_amount: i128,
    fee_bips: u32,
    treasury_address: Address,
)
    requires
        s.initialize_puzzle_rewards_allowed(admin_public_key, treasury_amount, fee_bips),
    ensures
        s.keeps(
            s.initialize_puzzle_rewards(
                admin,
                admin_public_key,
                treasury_amount,
                fee_bips,
                treasury_address,
            ),
        ),
{
}

/// Setting the stake limit leads from a good state to a good one and undoes
/// nothing.
pub proof fn set_max_stake_keeps(s: ContractModel, new_limit: i128)
    ensures
        s.keeps(s.set_max_stake(new_limit)),
{
}

/// Setting the fee leads from a good state to a good one and undoes nothing.
pub proof fn configure_fees_keeps(
    s: ContractModel,
    admin: Address,
    fee_bips: u32,
    treasury_address: Address,
)
    requires
        fee_bips <= 1000,
    ensures
        s.keeps(s.configure_fees(admin, fee_bips, treasury_address)),
{
}

/// Naming the administrator leads from a good state to a good one and undoes
/// nothing.
pub proof fn upgrade_admin_keeps(s: ContractModel, admin: Address)
    requires
        s.admin is None,
        s.admin_key is Some,
    ensures
        s.keeps(s.upgrade_admin(admin)),
{
}

/// Setting the K-factor leads from a good state to a good one and undoes
/// nothing.
pub proof fn initialize_elo_system_keeps(s: ContractModel, admin: Address, k_factor: u32)
    requires
        1 <= k_factor <= 100,
    ensures
        s.keeps(s.initialize_elo_system(admin, k_factor)),
{
}

/// A reward claim leads from a good state to a good one and undoes nothing.
pub proof fn claim_keeps(
    s: ContractModel,
    recipient: Address,
    reward_amount: i128,
    nonce: u64,
    accepted: bool,
)
    requires
        accepted && !s.nonce_used(nonce) ==> s.reward_fits(recipient, reward_amount),
    ensures
        s.keeps(s.claim_with_verdict(recipient, reward_amount, nonce, accepted).1),
{
    if s.wf() {
        lemma_total_credit(s.balances, recipient, reward_amount as int);
    }
}

/// Registering a player leads from a good state to a good one and undoes
/// nothing.
pub proof fn register_player_keeps(s: ContractModel, player: Address, sequence: u32)
    ensures
        s.keeps(s.register_player(player, sequence).1),
{
}

/// Taking a result into the ratings leads from a good state to a good one
/// and undoes nothing.
pub proof fn update_ratings_keeps(
    s: ContractModel,
    player1: Address,
    player2: Address,
    result: u32,
    sequence: u32,
)
    requires
        s.update_ratings_fits(player1, player2, result),
    ensures
        s.keeps(s.update_ratings(player1, player2, result, sequence).1),
{
}

} // verus!
