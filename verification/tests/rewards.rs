//! Administration and puzzle rewards.

use ed25519_dalek::{Signer, SigningKey};
use game_contract::address::Address;
use game_contract::claim::{claim_is_signed, claim_payload, reward_digest};
use game_contract::contract::GameContract;
use game_contract::error::ContractError;
use game_contract::model::Effect;
use soroban_sdk::Env;

fn address(n: u128) -> Address {
    Address::account(3, n)
}

fn key() -> SigningKey {
    SigningKey::from_bytes(&[9u8; 32])
}

fn sign(recipient: Address, amount: i128, nonce: u64) -> [u8; 64] {
    key().sign(&reward_digest(recipient, amount, nonce)).to_bytes()
}

fn with_treasury(env: &Env, amount: i128) -> GameContract {
    let mut contract = GameContract::new(env);
    let admin_key = key().verifying_key().to_bytes().to_vec();
    contract.initialize_puzzle_rewards(address(1), admin_key, amount, 20, address(2));
    contract
}

#[test]
fn payload_is_text_then_amount_then_nonce() {
    let text = vec![b'G'; 56];
    let message = claim_payload(&text, 500, 0x0102_0304_0506_0708);
    assert_eq!(message.len(), 72);
    assert_eq!(message[..56], text[..]);
    assert_eq!(message[56..64], [0xf4, 1, 0, 0, 0, 0, 0, 0]);
    assert_eq!(message[64..], [8, 7, 6, 5, 4, 3, 2, 1]);
}

#[test]
fn payload_keeps_the_low_half_of_the_amount() {
    let message = claim_payload(&vec![], -2, 0);
    assert_eq!(message[..8], [0xfe, 0xff, 0xff, 0xff, 0xff, 0xff, 0xff, 0xff]);
    assert_eq!(claim_payload(&vec![], (1i128 << 64) + 3, 5), claim_payload(&vec![], 3, 5));
    assert_ne!(claim_payload(&vec![], 3, 5), claim_payload(&vec![], 5, 3));
}

#[test]
fn digest_of_an_account_claim() {
    // Of GAAAAAAAAAAAAAAAAAAAAAAAAAAQAAAAAAAAAAAAAAAAAAAAAAAAF6GV.
    assert_eq!(
        reward_digest(Address::account(1, 2), 500, 7),
        vec![
            0x8f, 0x44, 0xc2, 0xa2, 0x05, 0x49, 0xcf, 0x47, 0x2a, 0x74, 0xf3, 0xd0, 0x5b, 0xde,
            0x20, 0x06, 0x92, 0xd3, 0x07, 0x85, 0xd9, 0x8a, 0x38, 0x23, 0xeb, 0x83, 0x65, 0xed,
            0x7a, 0x18, 0xa6, 0xbe,
        ]
    );
}

#[test]
fn digest_of_a_contract_claim() {
    // Of CAAAAAAAAAAAAAAAAAAAAAAAAAAQAAAAAAAAAAAAAAAAAAAAAAAAE2DM.
    assert_eq!(
        reward_digest(Address::contract(1, 2), 500, 7),
        vec![
            0x7a, 0x77, 0xd5, 0x0c, 0x55, 0x45, 0xac, 0xf6, 0x18, 0xc6, 0x8f, 0xe5, 0xd2, 0x85,
            0x0d, 0x2a, 0x16, 0x3c, 0x93, 0x3b, 0x41, 0x1a, 0x09, 0x76, 0xf3, 0x5a, 0x54, 0x59,
            0xb1, 0xf6, 0x99, 0x04,
        ]
    );
}

#[test]
fn signature_is_bound_to_the_claim() {
    let public = key().verifying_key().to_bytes().to_vec();
    let signature = sign(address(5), 500, 7);
    assert!(claim_is_signed(&public, address(5), 500, 7, &signature));
    assert!(!claim_is_signed(&public, address(6), 500, 7, &signature));
    assert!(!claim_is_signed(&public, address(5), 501, 7, &signature));
    assert!(!claim_is_signed(&public, address(5), 500, 8, &signature));
    assert!(!claim_is_signed(&vec![9u8; 32], address(5), 500, 7, &signature));
    let mut broken = signature;
    broken[0] ^= 1;
    assert!(!claim_is_signed(&public, address(5), 500, 7, &broken));
}

#[test]
fn signed_claim_is_paid() {
    let env = Env::default();
    let mut contract = with_treasury(&env, 1_000);
    contract.take_effects();
    let recipient = address(5);
    assert_eq!(
        contract.try_claim_puzzle_reward(recipient, 400, 7, &sign(recipient, 400, 7)),
        Some(Ok(()))
    );
    assert_eq!(
        contract.claim_puzzle_reward(recipient, 500, 8, &sign(recipient, 500, 8)),
        Ok(())
    );
    assert_eq!(contract.reward_balance(recipient), 900);
    assert_eq!(contract.treasury_balance(), 100);
    assert_eq!(
        contract.take_effects(),
        vec![
            Effect::RewardClaimed { recipient, amount: 400 },
            Effect::RewardClaimed { recipient, amount: 500 },
        ]
    );
}

#[test]
fn unsigned_claim_changes_nothing() {
    let env = Env::default();
    let mut contract = with_treasury(&env, 1_000);
    contract.take_effects();
    let recipient = address(5);
    let signature = sign(recipient, 400, 7);
    assert_eq!(contract.try_claim_puzzle_reward(recipient, 401, 7, &signature), None);
    assert_eq!(contract.treasury_balance(), 1_000);
    assert_eq!(contract.reward_balance(recipient), 0);
    assert!(!contract.nonces.is_used(7));
    assert!(contract.take_effects().is_empty());
}

#[test]
fn claim_without_key_or_cover_has_no_answer() {
    let env = Env::default();
    let recipient = address(5);
    let mut blank = GameContract::new(&env);
    assert_eq!(
        blank.try_claim_puzzle_reward(recipient, 400, 7, &sign(recipient, 400, 7)),
        None
    );
    let mut contract = with_treasury(&env, 399);
    assert!(!contract.reward_fits(recipient, 400));
    assert!(contract.reward_fits(recipient, 399));
    assert_eq!(
        contract.try_claim_puzzle_reward(recipient, 400, 7, &sign(recipient, 400, 7)),
        None
    );
    assert!(!contract.nonces.is_used(7));
    contract.balances.set(recipient, i128::MAX);
    assert!(!contract.reward_fits(recipient, 1));
}

#[test]
fn replayed_nonce_is_refused_however_it_is_signed() {
    let env = Env::default();
    let mut contract = with_treasury(&env, 1_000);
    let recipient = address(5);
    let first = sign(recipient, 10, 7);
    assert_eq!(contract.try_claim_puzzle_reward(recipient, 10, 7, &first), Some(Ok(())));
    let refused = Some(Err(ContractError::Unauthorized));
    assert_eq!(contract.try_claim_puzzle_reward(recipient, 10, 7, &first), refused);
    let other = sign(address(6), 20, 7);
    assert_eq!(contract.try_claim_puzzle_reward(address(6), 20, 7, &other), refused);
    assert_eq!(contract.try_claim_puzzle_reward(address(6), 20, 7, &[0u8; 64]), refused);
    assert_eq!(
        contract.claim_puzzle_reward(recipient, 10, 7, &first),
        Err(ContractError::Unauthorized)
    );
    assert_eq!(contract.treasury_balance(), 990);
    assert_eq!(contract.reward_balance(address(6)), 0);
}

#[test]
fn verdict_decides_a_fresh_claim() {
    let env = Env::default();
    let mut contract = with_treasury(&env, 1_000);
    assert_eq!(contract.claim_with_verdict(address(5), 10, 7, false), None);
    assert!(!contract.nonces.is_used(7));
    assert_eq!(contract.claim_with_verdict(address(5), 10, 7, true), Some(Ok(())));
    assert!(contract.nonces.is_used(7));
    assert_eq!(
        contract.claim_with_verdict(address(5), 10, 7, false),
        Some(Err(ContractError::Unauthorized))
    );
    assert_eq!(contract.reward_balance(address(5)), 10);
}

#[test]
fn settings_are_written_and_authorised() {
    let env = Env::default();
    let mut contract = GameContract::new(&env);
    contract.initialize_token(address(1), address(9));
    assert_eq!(contract.token_contract_address(), address(9));
    contract.set_max_stake(5);
    contract.initialize_puzzle_rewards(address(1), vec![4u8; 32], 77, 1_000, address(2));
    assert_eq!(contract.create_game_refusal(1_000), None);
    assert_eq!(contract.admin, Some(address(1)));
    assert_eq!(contract.admin_key, Some(vec![4u8; 32]));
    assert_eq!(contract.treasury_balance(), 77);
    assert_eq!(contract.fee_bips, Some(1_000));
    assert_eq!(contract.treasury_address, Some(address(2)));
    contract.configure_fees(address(1), 30, address(3));
    assert_eq!(contract.fee_bips, Some(30));
    assert_eq!(contract.treasury_address, Some(address(3)));
    contract.initialize_elo_system(address(1), 100);
    assert_eq!(contract.k_factor, Some(100));
    let asked = Effect::Authorisation { by: address(1) };
    assert_eq!(contract.take_effects(), vec![asked, asked, asked, asked]);
}

#[test]
fn administrator_can_be_named_later() {
    let env = Env::default();
    let mut contract = with_treasury(&env, 0);
    contract.take_effects();
    contract.admin = None;
    contract.upgrade_admin(address(8));
    assert_eq!(contract.admin, Some(address(8)));
    assert_eq!(contract.take_effects(), vec![Effect::Authorisation { by: address(8) }]);
}

#[test]
fn error_codes_are_fixed() {
    let errors = [
        ContractError::GameNotFound,
        ContractError::NotYourTurn,
        ContractError::GameNotInProgress,
        ContractError::InvalidMove,
        ContractError::InsufficientFunds,
        ContractError::AlreadyJoined,
        ContractError::GameFull,
        ContractError::NotPlayer,
        ContractError::GameAlreadyCompleted,
        ContractError::DrawNotAvailable,
        ContractError::ForfeitNotAllowed,
        ContractError::InvalidPercentage,
        ContractError::MismatchedLengths,
        ContractError::Unauthorized,
        ContractError::StakeLimitExceeded,
        ContractError::RatingNotFound,
    ];
    for (i, error) in errors.iter().enumerate() {
        assert_eq!(error.code(), i as u32 + 1);
    }
}
