//! The tables of the contract, held in the host's ordered maps.
//!
//! The host keeps a map as an immutable object and hands out handles to it, so
//! what a handle leads to never changes; `set` moves the handle to a new
//! object. The host does not hold an entry of a map to the types of the map,
//! and a lookup fails on one that does not convert. So each table keeps its map
//! to itself: it starts empty, and only entries of its types are written.
//!
//! Like every host function, those called here end the whole invocation when
//! its metering budget is spent.

use soroban_sdk::{EnvBase, IntoVal, TryIntoVal, Val};
use vstd::prelude::*;

use crate::address::Address;
use crate::game::{
    game_of, record_of, record_round_trip, record_view, ChessMove, Game, GameModel, GameRecord,
    RecordModel,
};
use crate::rating::PlayerRating;

verus! {

/// An address as a key of a host map.
pub type AddressKey = (bool, u128, u128);

pub type StoredMove = (AddressKey, soroban_sdk::Vec<u32>, u64);

/// A game as an entry of a host map: a record whose lists are the host's.
pub type StoredGame = (
    u64,
    AddressKey,
    Option<AddressKey>,
    u32,
    i128,
    u32,
    soroban_sdk::Vec<StoredMove>,
    u64,
    Option<AddressKey>,
);

/// A rating as an entry of a host map: the values of its fields, in order.
pub type StoredRating = (AddressKey, i32, u32, u32, u32, u32, i32, u64);

/// The host environment.
#[verifier::external_type_specification]
#[verifier::external_body]
pub struct ExEnv(soroban_sdk::Env);

/// The host's ordered map.
#[verifier::external_type_specification]
#[verifier::external_body]
#[verifier::reject_recursive_types(K)]
#[verifier::reject_recursive_types(V)]
pub struct ExMap<K, V>(soroban_sdk::Map<K, V>);

/// The host's list.
#[verifier::external_type_specification]
#[verifier::external_body]
#[verifier::reject_recursive_types(T)]
pub struct ExVec<T>(soroban_sdk::Vec<T>);

/// What a map of balances holds.
pub uninterp spec fn balances_held(entries: soroban_sdk::Map<AddressKey, i128>) -> Map<
    Address,
    i128,
>;

/// Whether every entry of a map of balances converts to an address and an amount.
pub uninterp spec fn balances_typed(entries: soroban_sdk::Map<AddressKey, i128>) -> bool;

/// What a map of nonces holds.
pub uninterp spec fn nonces_held(entries: soroban_sdk::Map<u64, bool>) -> Map<u64, bool>;

/// Whether every entry of a map of nonces converts to a number and a flag.
pub uninterp spec fn nonces_typed(entries: soroban_sdk::Map<u64, bool>) -> bool;

/// What a map of ratings holds.
pub uninterp spec fn ratings_held(entries: soroban_sdk::Map<AddressKey, StoredRating>) -> Map<
    Address,
    PlayerRating,
>;

/// Whether every entry of a map of ratings converts to an address and a rating.
pub uninterp spec fn ratings_typed(entries: soroban_sdk::Map<AddressKey, StoredRating>) -> bool;

/// What a map of games holds.
pub uninterp spec fn games_held(entries: soroban_sdk::Map<u64, StoredGame>) -> Map<
    u64,
    RecordModel,
>;

/// Whether every entry of a map of games converts to a number and a game, down
/// to the last move of its lists.
pub uninterp spec fn games_typed(entries: soroban_sdk::Map<u64, StoredGame>) -> bool;

/// What looking up a key gives.
pub open spec fn found<K, V>(held: Map<K, V>, key: K) -> Option<V> {
    if held.contains_key(key) {
        Some(held[key])
    } else {
        None
    }
}

/// `soroban_sdk::Map::new`: the new map holds nothing, so no entry fails to
/// convert.
#[verifier::external_body]
fn new_balances(env: &soroban_sdk::Env) -> (entries: soroban_sdk::Map<AddressKey, i128>)
    ensures
        balances_held(entries).is_empty(),
        balances_typed(entries),
{
    soroban_sdk::Map::new(env)
}

/// `soroban_sdk::Map::get`: the value held under the key, if there is one. The
/// call fails on a value that does not convert, which the condition leaves out.
#[verifier::external_body]
fn get_balance(entries: &soroban_sdk::Map<AddressKey, i128>, address: Address) -> (amount: Option<
    i128,
>)
    requires
        balances_typed(*entries),
    ensures
        amount == found(balances_held(*entries), address),
{
    entries.get((address.is_contract, address.hi, address.lo))
}

/// `soroban_sdk::Map::set`: the value stands under the key, in place of any
/// other; the other entries stay. The new entry is of the map's types.
#[verifier::external_body]
fn set_balance(
    entries: &mut soroban_sdk::Map<AddressKey, i128>,
    address: Address,
    amount: i128,
)
    ensures
        balances_held(*final(entries)) == balances_held(*old(entries)).insert(address, amount),
        balances_typed(*old(entries)) ==> balances_typed(*final(entries)),
{
    entries.set((address.is_contract, address.hi, address.lo), amount)
}

/// `soroban_sdk::Map::clone`: another handle to the same entries.
#[verifier::external_body]
fn clone_balances(entries: &soroban_sdk::Map<AddressKey, i128>) -> (copy: soroban_sdk::Map<
    AddressKey,
    i128,
>)
    ensures
        balances_held(copy) == balances_held(*entries),
        balances_typed(copy) == balances_typed(*entries),
{
    entries.clone()
}

/// `soroban_sdk::Map::new`: the new map holds nothing, so no entry fails to
/// convert.
#[verifier::external_body]
fn new_nonces(env: &soroban_sdk::Env) -> (entries: soroban_sdk::Map<u64, bool>)
    ensures
        nonces_held(entries).is_empty(),
        nonces_typed(entries),
{
    soroban_sdk::Map::new(env)
}

/// `soroban_sdk::Map::get`: the value held under the key, if there is one. The
/// call fails on a value that does not convert, which the condition leaves out.
#[verifier::external_body]
fn get_nonce(entries: &soroban_sdk::Map<u64, bool>, nonce: u64) -> (used: Option<bool>)
    requires
        nonces_typed(*entries),
    ensures
        used == found(nonces_held(*entries), nonce),
{
    entries.get(nonce)
}

/// `soroban_sdk::Map::set`: the value stands under the key, in place of any
/// other; the other entries stay. The new entry is of the map's types.
#[verifier::external_body]
fn set_nonce(entries: &mut soroban_sdk::Map<u64, bool>, nonce: u64, used: bool)
    ensures
        nonces_held(*final(entries)) == nonces_held(*old(entries)).insert(nonce, used),
        nonces_typed(*old(entries)) ==> nonces_typed(*final(entries)),
{
    entries.set(nonce, used)
}

/// `soroban_sdk::Map::clone`: another handle to the same entries.
#[verifier::external_body]
fn clone_nonces(entries: &soroban_sdk::Map<u64, bool>) -> (copy: soroban_sdk::Map<u64, bool>)
    ensures
        nonces_held(copy) == nonces_held(*entries),
        nonces_typed(copy) == nonces_typed(*entries),
{
    entries.clone()
}

/// `soroban_sdk::Map::new`: the new map holds nothing, so no entry fails to
/// convert.
#[verifier::external_body]
fn new_ratings(env: &soroban_sdk::Env) -> (entries: soroban_sdk::Map<AddressKey, StoredRating>)
    ensures
        ratings_held(entries).is_empty(),
        ratings_typed(entries),
{
    soroban_sdk::Map::new(env)
}

/// `soroban_sdk::Map::get`: the value held under the key, if there is one. The
/// call fails on a value that does not convert, which the condition leaves out.
#[verifier::external_body]
fn get_rating(
    entries: &soroban_sdk::Map<AddressKey, StoredRating>,
    player: Address,
) -> (rating: Option<PlayerRating>)
    requires
        ratings_typed(*entries),
    ensures
        rating == found(ratings_held(*entries), player),
{
    entries.get((player.is_contract, player.hi, player.lo)).map(|r| PlayerRating {
        address: Address { is_contract: r.0.0, hi: r.0.1, lo: r.0.2 },
        rating: r.1,
        games_played: r.2,
        wins: r.3,
        losses: r.4,
        draws: r.5,
        highest_rating: r.6,
        last_updated: r.7,
    })
}

/// `soroban_sdk::Map::set`: the value stands under the key, in place of any
/// other; the other entries stay. The new entry is of the map's types.
#[verifier::external_body]
fn set_rating(
    entries: &mut soroban_sdk::Map<AddressKey, StoredRating>,
    player: Address,
    r: PlayerRating,
)
    ensures
        ratings_held(*final(entries)) == ratings_held(*old(entries)).insert(player, r),
        ratings_typed(*old(entries)) ==> ratings_typed(*final(entries)),
{
    let address = (r.address.is_contract, r.address.hi, r.address.lo);
    entries.set(
        (player.is_contract, player.hi, player.lo),
        (
            address,
            r.rating,
            r.games_played,
            r.wins,
            r.losses,
            r.draws,
            r.highest_rating,
            r.last_updated,
        ),
    )
}

/// `soroban_sdk::Map::clone`: another handle to the same entries.
#[verifier::external_body]
fn clone_ratings(entries: &soroban_sdk::Map<AddressKey, StoredRating>) -> (copy: soroban_sdk::Map<
    AddressKey,
    StoredRating,
>)
    ensures
        ratings_held(copy) == ratings_held(*entries),
        ratings_typed(copy) == ratings_typed(*entries),
{
    entries.clone()
}

/// `soroban_sdk::Map::new`: the new map holds nothing, so no entry fails to
/// convert.
#[verifier::external_body]
fn new_games(env: &soroban_sdk::Env) -> (entries: soroban_sdk::Map<u64, StoredGame>)
    ensures
        games_held(entries).is_empty(),
        games_typed(entries),
{
    soroban_sdk::Map::new(env)
}

/// `soroban_sdk::Map::get`: the value held under the key, if there is one. The
/// call fails on a value that does not convert, which the condition leaves out.
#[verifier::external_body]
fn get_game(entries: &soroban_sdk::Map<u64, StoredGame>, id: u64) -> (record: Option<GameRecord>)
    requires
        games_typed(*entries),
    ensures
        record is Some <==> games_held(*entries).contains_key(id),
        record matches Some(r) ==> record_view(r) == games_held(*entries)[id],
{
    let address = |a: AddressKey| Address { is_contract: a.0, hi: a.1, lo: a.2 };
    entries.get(id).map(|r| {
        let moves = r.6.iter().map(|m| ChessMove {
            player: address(m.0),
            move_data: m.1.iter().collect(),
            timestamp: m.2,
        }).collect();
        (r.0, address(r.1), r.2.map(address), r.3, r.4, r.5, moves, r.7, r.8.map(address))
    })
}

/// `soroban_sdk::Map::set`: the value stands under the key, in place of any
/// other; the other entries stay. The new entry is of the map's types. The
/// lists of the game become host lists, each in one call of
/// `soroban_sdk::EnvBase::vec_new_from_slice`.
#[verifier::external_body]
fn set_game(entries: &mut soroban_sdk::Map<u64, StoredGame>, id: u64, r: GameRecord)
    ensures
        games_held(*final(entries)) == games_held(*old(entries)).insert(id, record_view(r)),
        games_typed(*old(entries)) ==> games_typed(*final(entries)),
{
    let env = entries.env();
    let key = |a: Address| (a.is_contract, a.hi, a.lo);
    let list = |vals: Vec<Val>| env.vec_new_from_slice(&vals).unwrap().to_val();
    let moves = list(r.6.into_iter().map(|m| {
        let move_data = list(m.move_data.into_iter().map(|n| n.into_val(env)).collect());
        (key(m.player), move_data, m.timestamp).into_val(env)
    }).collect()).try_into_val(env).unwrap();
    entries.set(id, (r.0, key(r.1), r.2.map(key), r.3, r.4, r.5, moves, r.7, r.8.map(key)))
}

/// `soroban_sdk::Map::clone`: another handle to the same entries.
#[verifier::external_body]
fn clone_games(entries: &soroban_sdk::Map<u64, StoredGame>) -> (copy: soroban_sdk::Map<
    u64,
    StoredGame,
>)
    ensures
        games_held(copy) == games_held(*entries),
        games_typed(copy) == games_typed(*entries),
{
    entries.clone()
}

/// `soroban_sdk::Map::keys`: the keys of the map, in ascending order. A key
/// that does not convert is left out by the condition.
#[verifier::external_body]
fn game_ids(entries: &soroban_sdk::Map<u64, StoredGame>) -> (ids: Vec<u64>)
    requires
        games_typed(*entries),
    ensures
        forall|id: u64| ids@.contains(id) <==> games_held(*entries).contains_key(id),
        forall|i: int, j: int| 0 <= i < j < ids@.len() ==> ids@[i] < ids@[j],
{
    entries.keys().iter().collect()
}

/// A table of balances by address.
pub struct Ledger {
    entries: soroban_sdk::Map<AddressKey, i128>,
}

impl View for Ledger {
    type V = Map<Address, int>;

    closed spec fn view(&self) -> Map<Address, int> {
        balances_held(self.entries).map_values(|amount: i128| amount as int)
    }
}

impl Ledger {
    #[verifier::type_invariant]
    spec fn typed(self) -> bool {
        balances_typed(self.entries)
    }

    /// A table without entries.
    pub fn new(env: &soroban_sdk::Env) -> (ledger: Ledger)
        ensures
            ledger@ == Map::<Address, int>::empty(),
    {
        let ledger = Ledger { entries: new_balances(env) };
        assert(ledger@ =~= Map::<Address, int>::empty());
        ledger
    }

    /// The balance of an address; zero where it has none.
    pub fn balance(&self, address: Address) -> (amount: i128)
        ensures
            amount == crate::ledger::balance(self@, address),
    {
        proof {
            use_type_invariant(&*self);
        }
        match get_balance(&self.entries, address) {
            Some(amount) => amount,
            None => 0,
        }
    }

    /// Writes the balance of an address.
    pub fn set(&mut self, address: Address, amount: i128)
        ensures
            final(self)@ == old(self)@.insert(address, amount as int),
    {
        proof {
            use_type_invariant(&*self);
        }
        let mut entries = clone_balances(&self.entries);
        set_balance(&mut entries, address, amount);
        self.entries = entries;
        assert(self@ =~= old(self)@.insert(address, amount as int));
    }

    /// A copy that can be written without touching this table.
    pub fn duplicate(&self) -> (copy: Ledger)
        ensures
            copy@ == self@,
    {
        proof {
            use_type_invariant(&*self);
        }
        Ledger { entries: clone_balances(&self.entries) }
    }
}

/// The nonces that were used.
pub struct NonceBook {
    entries: soroban_sdk::Map<u64, bool>,
}

impl View for NonceBook {
    type V = Map<u64, bool>;

    closed spec fn view(&self) -> Map<u64, bool> {
        nonces_held(self.entries)
    }
}

impl NonceBook {
    #[verifier::type_invariant]
    spec fn typed(self) -> bool {
        nonces_typed(self.entries)
    }

    /// A book in which no nonce is used.
    pub fn new(env: &soroban_sdk::Env) -> (book: NonceBook)
        ensures
            book@ == Map::<u64, bool>::empty(),
    {
        let book = NonceBook { entries: new_nonces(env) };
        assert(book@ =~= Map::<u64, bool>::empty());
        book
    }

    pub fn is_used(&self, nonce: u64) -> (used: bool)
        ensures
            used == (self@.contains_key(nonce) && self@[nonce]),
    {
        proof {
            use_type_invariant(&*self);
        }
        match get_nonce(&self.entries, nonce) {
            Some(used) => used,
            None => false,
        }
    }

    pub fn mark_used(&mut self, nonce: u64)
        ensures
            final(self)@ == old(self)@.insert(nonce, true),
    {
        proof {
            use_type_invariant(&*self);
        }
        let mut entries = clone_nonces(&self.entries);
        set_nonce(&mut entries, nonce, true);
        self.entries = entries;
    }
}

/// The ratings of registered players.
pub struct RatingBook {
    entries: soroban_sdk::Map<AddressKey, StoredRating>,
}

impl View for RatingBook {
    type V = Map<Address, PlayerRating>;

    closed spec fn view(&self) -> Map<Address, PlayerRating> {
        ratings_held(self.entries)
    }
}

impl RatingBook {
    #[verifier::type_invariant]
    spec fn typed(self) -> bool {
        ratings_typed(self.entries)
    }

    /// A book without players.
    pub fn new(env: &soroban_sdk::Env) -> (book: RatingBook)
        ensures
            book@ == Map::<Address, PlayerRating>::empty(),
    {
        let book = RatingBook { entries: new_ratings(env) };
        assert(book@ =~= Map::<Address, PlayerRating>::empty());
        book
    }

    pub fn get(&self, player: Address) -> (rating: Option<PlayerRating>)
        ensures
            rating == found(self@, player),
    {
        proof {
            use_type_invariant(&*self);
        }
        get_rating(&self.entries, player)
    }

    pub fn set(&mut self, player: Address, rating: PlayerRating)
        ensures
            final(self)@ == old(self)@.insert(player, rating),
    {
        proof {
            use_type_invariant(&*self);
        }
        let mut entries = clone_ratings(&self.entries);
        set_rating(&mut entries, player, rating);
        self.entries = entries;
    }
}

/// The games of the contract by number.
pub struct GameBook {
    entries: soroban_sdk::Map<u64, StoredGame>,
}

impl View for GameBook {
    type V = Map<u64, GameModel>;

    closed spec fn view(&self) -> Map<u64, GameModel> {
        games_held(self.entries).map_values(|r: RecordModel| game_of(r))
    }
}

impl GameBook {
    #[verifier::type_invariant]
    spec fn typed(self) -> bool {
        games_typed(self.entries)
    }

    /// A book without games.
    pub fn new(env: &soroban_sdk::Env) -> (book: GameBook)
        ensures
            book@ == Map::<u64, GameModel>::empty(),
    {
        let book = GameBook { entries: new_games(env) };
        assert(book@ =~= Map::<u64, GameModel>::empty());
        book
    }

    pub fn get(&self, id: u64) -> (game: Option<Game>)
        ensures
            game is Some <==> self@.contains_key(id),
            game matches Some(g) ==> g@ == self@[id],
    {
        proof {
            use_type_invariant(&*self);
        }
        match get_game(&self.entries, id) {
            Some(record) => Some(Game::from_record(record)),
            None => None,
        }
    }

    pub fn set(&mut self, id: u64, game: Game)
        ensures
            final(self)@ == old(self)@.insert(id, game@),
    {
        proof {
            use_type_invariant(&*self);
            record_round_trip(game@);
        }
        let ghost model = game@;
        let mut entries = clone_games(&self.entries);
        set_game(&mut entries, id, game.into_record());
        self.entries = entries;
        assert(self@ =~= old(self)@.insert(id, model));
    }

    /// The numbers of the games, in ascending order.
    pub fn ids(&self) -> (ids: Vec<u64>)
        ensures
            forall|id: u64| ids@.contains(id) <==> self@.contains_key(id),
            forall|i: int, j: int| 0 <= i < j < ids@.len() ==> ids@[i] < ids@[j],
    {
        proof {
            use_type_invariant(&*self);
        }
        game_ids(&self.entries)
    }

    /// A copy that can be written without touching this book.
    pub fn duplicate(&self) -> (copy: GameBook)
        ensures
            copy@ == self@,
    {
        proof {
            use_type_invariant(&*self);
        }
        GameBook { entries: clone_games(&self.entries) }
    }
}

} // verus!
