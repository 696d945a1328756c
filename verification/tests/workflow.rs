//! Whole workflows: staking, reward claims and ratings.

use ed25519_dalek::{Signer, SigningKey};
use game_contract::address::Address;
use game_contract::contract::GameContract;
use game_contract::error::ContractError;
use game_contract::model::Effect;
use rand::rngs::OsRng;
use soroban_sdk::xdr::ScAddress;
use soroban_sdk::{Bytes, Env, TryFromVal};

/// The token of the tests: who holds how much of it.
struct Token {
    holdings: Vec<(Address, i128)>,
    contract: Address,
}

impl Token {
    fn new(contract: Address) -> Token {
        Token { holdings: Vec::new(), contract }
    }

    fn balance(&self, address: Address) -> i128 {
        self.holdings.iter().find(|h| h.0 == address).map_or(0, |h| h.1)
    }

    fn mint(&mut self, address: Address, amount: i128) {
        match self.holdings.iter_mut().find(|h| h.0 == address) {
            Some(h) => h.1 += amount,
            None => self.holdings.push((address, amount)),
        }
    }

    fn transfer(&mut self, from: Address, to: Address, amount: i128) {
        assert!(self.balance(from) >= amount, "not enough tokens");
        self.mint(from, -amount);
        self.mint(to, amount);
    }

    /// Carries out what the contract asked for.
    fn carry_out(&mut self, contract: &mut GameContract) {
        for effect in contract.take_effects() {
            match effect {
                Effect::Deposit { from, amount } => self.transfer(from, self.contract, amount),
                Effect::Withdrawal { to, amount } => self.transfer(self.contract, to, amount),
                _ => {}
            }
        }
    }

    fn create_game(&mut self, contract: &mut GameContract, player: Address, wager: i128) -> u64 {
        let held = self.balance(player);
        assert!(contract.create_game_fits(player, wager, held));
        let id = contract.create_game(player, wager, held, 1).unwrap();
        self.carry_out(contract);
        id
    }

    fn join_game(&mut self, contract: &mut GameContract, id: u64, player: Address) {
        let held = self.balance(player);
        assert!(contract.join_game_fits(id, player, held));
        contract.join_game(id, player, held).unwrap();
        self.carry_out(contract);
    }

    fn forfeit(&mut self, contract: &mut GameContract, id: u64, player: Address) {
        assert!(contract.forfeit_fits(id, player));
        contract.forfeit(id, player).unwrap();
        self.carry_out(contract);
    }
}

fn address(n: u128) -> Address {
    Address::contract(0x5eed, n)
}

/// Builds and signs the message of a claim with the SDK's own types.
fn sign_payload(
    env: &Env,
    signing_key: &SigningKey,
    recipient: Address,
    reward_amount: i128,
    nonce: u64,
) -> [u8; 64] {
    let mut id = [0u8; 32];
    id[..16].copy_from_slice(&recipient.hi.to_be_bytes());
    id[16..].copy_from_slice(&recipient.lo.to_be_bytes());
    let contract = ScAddress::Contract(soroban_sdk::xdr::Hash(id));
    let sdk_address = soroban_sdk::Address::try_from_val(env, &contract).unwrap();
    let text = sdk_address.to_string();
    let mut text_bytes = vec![0u8; text.len() as usize];
    text.copy_into_slice(&mut text_bytes);

    let mut payload = Bytes::from_slice(env, &text_bytes);
    payload.append(&Bytes::from_slice(env, &(reward_amount as i64).to_le_bytes()));
    payload.append(&Bytes::from_slice(env, &nonce.to_le_bytes()));
    let digest = env.crypto().sha256(&payload).to_array();
    signing_key.sign(&digest).to_bytes()
}

/// A contract with puzzle rewards, and the key that signs claims.
fn setup(env: &Env, treasury_amount: i128) -> (GameContract, SigningKey) {
    let mut contract = GameContract::new(env);
    let signing_key = SigningKey::generate(&mut OsRng);
    let admin_key = signing_key.verifying_key().to_bytes().to_vec();
    contract.initialize_puzzle_rewards(address(1), admin_key, treasury_amount, 0, address(2));
    (contract, signing_key)
}

/// A pool of 10 with a fee of 2 %: the fee is rounded down to nothing.
#[test]
fn test_fee_redirection_2_percent() {
    let env = Env::default();
    let (admin, player1, player2, treasury_addr) = (address(1), address(2), address(3), address(4));
    let mut token = Token::new(address(99));
    token.mint(player1, 1_000);
    token.mint(player2, 1_000);

    let mut contract = GameContract::new(&env);
    contract.initialize_token(admin, address(50));
    contract.initialize_puzzle_rewards(admin, vec![0u8; 32], 0, 20, treasury_addr);

    let wager: i128 = 5;
    let game_id = token.create_game(&mut contract, player1, wager);
    token.join_game(&mut contract, game_id, player2);
    token.forfeit(&mut contract, game_id, player1);

    let player2_balance = token.balance(player2);
    let treasury_balance = token.balance(treasury_addr);
    assert_eq!(player2_balance + treasury_balance, 1_000 + wager);
}

/// A pool of 1000 with a fee of 2 %: 20 to the treasury, 980 to the winner.
#[test]
fn test_fee_redirection_2_percent_large() {
    let env = Env::default();
    let (admin, player1, player2, treasury_addr) = (address(1), address(2), address(3), address(4));
    let mut token = Token::new(address(99));
    token.mint(player1, 1_000);
    token.mint(player2, 1_000);

    let mut contract = GameContract::new(&env);
    contract.initialize_token(admin, address(50));
    contract.initialize_puzzle_rewards(admin, vec![0u8; 32], 0, 20, treasury_addr);
    contract.set_max_stake(1_000);

    let wager: i128 = 500;
    let game_id = token.create_game(&mut contract, player1, wager);
    token.join_game(&mut contract, game_id, player2);
    token.forfeit(&mut contract, game_id, player1);

    assert_eq!(token.balance(player2), 1_480);
    assert_eq!(token.balance(treasury_addr), 20);
}

/// Without a fee the winner receives the whole pool.
#[test]
fn test_usdc_staking_workflow() {
    let env = Env::default();
    let (admin, player1, player2) = (address(1), address(2), address(3));
    let mut token = Token::new(address(99));
    token.mint(player1, 1_000);
    token.mint(player2, 1_000);

    let mut contract = GameContract::new(&env);
    contract.initialize_token(admin, address(50));

    let initial_wager: i128 = 100;
    let game_id = token.create_game(&mut contract, player1, initial_wager);
    token.join_game(&mut contract, game_id, player2);
    token.forfeit(&mut contract, game_id, player1);

    assert_eq!(token.balance(player2), 1_100);
}

/// A valid signature: the reward moves from the treasury to the recipient.
#[test]
fn test_claim_puzzle_reward_valid_sig() {
    let env = Env::default();
    let (mut contract, signing_key) = setup(&env, 10_000);
    let recipient = address(7);
    let reward_amount: i128 = 500;
    let nonce: u64 = 1;

    let sig = sign_payload(&env, &signing_key, recipient, reward_amount, nonce);
    contract.claim_puzzle_reward(recipient, reward_amount, nonce, &sig).unwrap();

    assert_eq!(contract.reward_balance(recipient), reward_amount);
    assert_eq!(contract.treasury_balance(), 10_000 - reward_amount);
}

/// An invalid signature fails.
#[test]
#[should_panic]
fn test_claim_puzzle_reward_invalid_sig() {
    let env = Env::default();
    let (mut contract, _signing_key) = setup(&env, 10_000);
    let recipient = address(7);

    let wrong_key = SigningKey::generate(&mut OsRng);
    let bad_sig = sign_payload(&env, &wrong_key, recipient, 500, 1);

    let _ = contract.try_claim_puzzle_reward(recipient, 500, 1, &bad_sig).unwrap();
}

/// A nonce can be used once.
#[test]
fn test_claim_puzzle_reward_replay_rejected() {
    let env = Env::default();
    let (mut contract, signing_key) = setup(&env, 10_000);
    let recipient = address(7);
    let reward_amount: i128 = 300;
    let nonce: u64 = 42;

    let sig = sign_payload(&env, &signing_key, recipient, reward_amount, nonce);
    contract.claim_puzzle_reward(recipient, reward_amount, nonce, &sig).unwrap();

    let sig2 = sign_payload(&env, &signing_key, recipient, reward_amount, nonce);
    let result = contract.try_claim_puzzle_reward(recipient, reward_amount, nonce, &sig2);
    assert_eq!(result, Some(Err(ContractError::Unauthorized)));
}

#[test]
fn test_register_player() {
    let env = Env::default();
    let mut contract = GameContract::new(&env);
    contract.initialize_puzzle_rewards(address(1), vec![0u8; 32], 0, 0, address(2));

    let player = address(7);
    let rating = contract.register_player(player, 1);

    assert_eq!(rating.rating, 1200);
    assert_eq!(rating.games_played, 0);
    assert_eq!(rating.highest_rating, 1200);
}

#[test]
fn test_update_ratings_player1_wins() {
    let env = Env::default();
    let admin = address(1);
    let mut contract = GameContract::new(&env);
    contract.initialize_puzzle_rewards(admin, vec![0u8; 32], 0, 0, address(2));
    contract.initialize_elo_system(admin, 32);

    let (player1, player2) = (address(7), address(8));
    contract.register_player(player1, 1);
    contract.register_player(player2, 1);

    assert!(contract.update_ratings_fits(player1, player2, 1));
    let (rating1, rating2) = contract.update_ratings(player1, player2, 1, 1).unwrap();

    assert!(rating1.rating > 1200);
    assert!(rating2.rating < 1200);
    assert_eq!(rating1.wins, 1);
    assert_eq!(rating2.losses, 1);
    assert_eq!(rating1.games_played, 1);
    assert_eq!(rating2.games_played, 1);
}

#[test]
fn test_update_ratings_draw() {
    let env = Env::default();
    let admin = address(1);
    let mut contract = GameContract::new(&env);
    contract.initialize_puzzle_rewards(admin, vec![0u8; 32], 0, 0, address(2));
    contract.initialize_elo_system(admin, 32);

    let (player1, player2) = (address(7), address(8));
    contract.register_player(player1, 1);
    contract.register_player(player2, 1);

    assert!(contract.update_ratings_fits(player1, player2, 3));
    let (rating1, rating2) = contract.update_ratings(player1, player2, 3, 1).unwrap();

    assert_eq!(rating1.draws, 1);
    assert_eq!(rating2.draws, 1);
    assert_eq!(rating1.games_played, 1);
    assert_eq!(rating2.games_played, 1);
}

#[test]
fn test_get_player_rating() {
    let env = Env::default();
    let mut contract = GameContract::new(&env);
    contract.initialize_puzzle_rewards(address(1), vec![0u8; 32], 0, 0, address(2));

    let player = address(7);
    contract.register_player(player, 1);

    let rating = contract.get_player_rating(player).unwrap();
    assert_eq!(rating.rating, 1200);
    assert_eq!(rating.address, player);
}
