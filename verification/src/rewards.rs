//! What the settings of the contract and reward claims come to.

use vstd::bytes::spec_u64_from_le_bytes;
use vstd::prelude::*;

use crate::address::Address;
use crate::claim::{
    address_text, claim_is_bound_to_its_message, ed25519_accepts, sha256_digest,
};
use crate::contract::GameContract;
use crate::error::ContractError;
use crate::ledger::balance;
use crate::model::{ContractModel, Effect};

verus! {

/// The state of a contract is seen as it stands in its fields.
pub proof fn state_is_seen_as_it_stands(contract: GameContract)
    ensures
        contract@.token == contract.token,
        contract@.game_counter == contract.game_counter,
        contract@.max_stake == contract.max_stake,
        contract@.admin == contract.admin,
        contract@.admin_key is Some <==> contract.admin_key is Some,
        contract.admin_key matches Some(key) ==> contract@.admin_key == Some(key@),
        contract@.treasury == contract.treasury,
        contract@.treasury_address == contract.treasury_address,
        contract@.fee_bips == contract.fee_bips,
        contract@.k_factor == contract.k_factor,
        contract@.games == contract.games@,
        contract@.escrow == contract.escrow@,
        contract@.balances == contract.balances@,
        contract@.nonces == contract.nonces@,
        contract@.ratings == contract.ratings@,
        contract@.effects == contract.effects@,
{
}

/// Of a blank contract no setting is written, every table is empty and nothing
/// was asked of the network.
pub proof fn blank_contract_holds_nothing(id: u64, address: Address)
    ensures
        ({
            let s = ContractModel::blank();
            &&& s.token is None
            &&& s.game_counter is None
            &&& s.max_stake is None
            &&& s.admin is None
            &&& s.admin_key is None
            &&& s.treasury is None
            &&& s.treasury_address is None
            &&& s.fee_bips is None
            &&& s.k_factor is None
            &&& !s.games.contains_key(id)
            &&& !s.escrow.contains_key(address)
            &&& !s.balances.contains_key(address)
            &&& !s.nonces.contains_key(id)
            &&& !s.ratings.contains_key(address)
            &&& s.effects.len() == 0
        }),
{
}

/// A setting that was written is the one that counts. Where none was, games are
/// counted from zero, the stake limit is 1000, there is no fee, the K-factor is
/// 32 and the treasury is empty.
pub proof fn written_settings_count(s: ContractModel, nonce: u64)
    ensures
        s.game_counter matches Some(count) ==> s.counter() == count,
        s.game_counter is None ==> s.counter() == 0,
        s.max_stake matches Some(limit) ==> s.stake_limit() == limit,
        s.max_stake is None ==> s.stake_limit() == 1000,
        s.fee_bips matches Some(bips) ==> s.fee_rate() == bips,
        s.fee_bips is None ==> s.fee_rate() == 0,
        s.k_factor matches Some(k) ==> s.k() == k,
        s.k_factor is None ==> s.k() == 32,
        s.treasury matches Some(amount) ==> s.treasury_reserve() == amount,
        s.treasury is None ==> s.treasury_reserve() == 0,
        s.nonce_used(nonce) <==> s.nonces.contains_key(nonce) && s.nonces[nonce],
{
}

/// Each call that sets something writes exactly what it was given and leaves the
/// rest. All but the stake limit demand the authorisation of the administrator
/// who is named.
pub proof fn settings_are_written_as_given(
    s: ContractModel,
    admin: Address,
    address: Address,
    key: Seq<u8>,
    amount: i128,
    number: u32,
)
    ensures
        ({
            let asked = s.effects + seq![Effect::Authorisation { by: admin }];
            &&& s.initialize_token(admin, address) == (ContractModel {
                token: Some(address),
                effects: asked,
                ..s
            })
            &&& s.initialize_puzzle_rewards(admin, key, amount, number, address) == (
            ContractModel {
                admin: Some(admin),
                admin_key: Some(key),
                treasury: Some(amount),
                fee_bips: Some(number),
                treasury_address: Some(address),
                max_stake: Some(1000),
                effects: asked,
                ..s
            })
            &&& s.set_max_stake(amount) == (ContractModel { max_stake: Some(amount), ..s })
            &&& s.configure_fees(admin, number, address) == (ContractModel {
                fee_bips: Some(number),
                treasury_address: Some(address),
                effects: asked,
                ..s
            })
            &&& s.upgrade_admin(admin) == (ContractModel {
                admin: Some(admin),
                effects: asked,
                ..s
            })
            &&& s.initialize_elo_system(admin, number) == (ContractModel {
                k_factor: Some(number),
                effects: asked,
                ..s
            })
        }),
{
    assert(s.asking(admin).effects =~= s.effects + seq![Effect::Authorisation { by: admin }]);
}

/// The rewards can be set up exactly where there is no administrator, with a key
/// of 32 bytes, a treasury that is not negative and a fee of at most the whole
/// pool.
pub proof fn rewards_are_set_up_once(s: ContractModel, key: Seq<u8>, amount: i128, fee_bips: u32)
    ensures
        s.initialize_puzzle_rewards_allowed(key, amount, fee_bips) <==> s.admin is None
            && key.len() == 32 && amount >= 0 && fee_bips <= 1000,
{
}

/// The limit that was set last is the one that new games are held to.
pub proof fn set_limit_governs_new_games(
    s: ContractModel,
    limit: i128,
    player: Address,
    wager_amount: i128,
    token_balance: i128,
    sequence: u32,
)
    ensures
        s.set_max_stake(limit).create_game(player, wager_amount, token_balance, sequence).0 is Ok
            <==> wager_amount <= limit && wager_amount <= token_balance,
{
}

/// A claim whose nonce was used is answered with `Unauthorized`; another one
/// that was not accepted has no answer; neither changes anything. A fresh claim
/// that was accepted is paid: its nonce is used up, the treasury falls by the
/// amount, the recipient's balance rises by it, and the payment is announced.
/// Nothing else changes.
pub proof fn fresh_accepted_claim_is_paid(
    s: ContractModel,
    recipient: Address,
    reward_amount: i128,
    nonce: u64,
    accepted: bool,
    other: Address,
)
    ensures
        ({
            let (answer, t) = s.claim_with_verdict(recipient, reward_amount, nonce, accepted);
            let used = s.nonces.contains_key(nonce) && s.nonces[nonce];
            let reserve: int = match s.treasury {
                Some(amount) => amount as int,
                None => 0,
            };
            &&& used ==> answer == Some(Err::<(), ContractError>(ContractError::Unauthorized))
            &&& !used && !accepted ==> answer is None
            &&& used || !accepted ==> t == s
            &&& !used && accepted ==> {
                &&& answer == Some(Ok::<(), ContractError>(()))
                &&& t == (ContractModel {
                    nonces: s.nonces.insert(nonce, true),
                    treasury: t.treasury,
                    balances: t.balances,
                    effects: s.effects.push(
                        Effect::RewardClaimed { recipient, amount: reward_amount },
                    ),
                    ..s
                })
                &&& i128::MIN <= reserve - reward_amount <= i128::MAX ==> t.treasury == Some(
                    (reserve - reward_amount) as i128,
                )
                &&& balance(t.balances, recipient) == balance(s.balances, recipient)
                    + reward_amount
                &&& other != recipient ==> balance(t.balances, other) == balance(s.balances, other)
            }
        }),
{
}

/// A reward can be paid exactly when the treasury covers it and both balances
/// stay in range.
pub proof fn reward_needs_a_covering_treasury(
    s: ContractModel,
    recipient: Address,
    reward_amount: i128,
)
    ensures
        ({
            let reserve: int = match s.treasury {
                Some(amount) => amount as int,
                None => 0,
            };
            s.reward_fits(recipient, reward_amount) <==> {
                &&& reward_amount <= reserve
                &&& reserve - reward_amount <= i128::MAX
                &&& i128::MIN <= balance(s.balances, recipient) + reward_amount <= i128::MAX
            }
        }),
{
}

/// A claim is signed exactly when the signature is valid under the key of the
/// contract for the digest of the message that spells the claim out: the text
/// form of the recipient, then eight little-endian bytes of the amount in two's
/// complement, then eight of the nonce.
pub proof fn signature_covers_the_claim(
    s: ContractModel,
    key: Seq<u8>,
    recipient: Address,
    reward_amount: i128,
    nonce: u64,
    signature: Seq<u8>,
    message: Seq<u8>,
)
    requires
        s.admin_key == Some(key),
        ({
            let text = address_text(recipient.is_contract, recipient.hi, recipient.lo);
            let n = text.len() as int;
            &&& message.len() == n + 16
            &&& message.subrange(0, n) == text
            &&& spec_u64_from_le_bytes(message.subrange(n, n + 8)) == reward_amount as int
                % 0x1_0000_0000_0000_0000
            &&& spec_u64_from_le_bytes(message.subrange(n + 8, n + 16)) == nonce
        }),
    ensures
        s.claim_signed(recipient, reward_amount, nonce, signature) <==> ed25519_accepts(
            key,
            sha256_digest(message),
            signature,
        ),
{
    claim_is_bound_to_its_message(recipient, reward_amount, nonce, message);
}

} // verus!
