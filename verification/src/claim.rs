//! What a reward claim signs, and the checks on its signature.

use soroban_env_host::Env as HostFunctions;
use soroban_env_host::EnvBase;
use soroban_sdk::TryFromVal;
use vstd::bytes::{
    lemma_auto_spec_u64_to_from_le_bytes, spec_u64_from_le_bytes, spec_u64_to_le_bytes,
    u64_to_le_bytes,
};
use vstd::prelude::*;

use crate::address::Address;
use crate::arith::{low64, low_half_keeps_small_numbers, to_low64};

verus! {

/// The text form of an address, as bytes.
pub uninterp spec fn address_text(is_contract: bool, hi: u128, lo: u128) -> Seq<u8>;

/// The SHA-256 digest of a message.
pub uninterp spec fn sha256_digest(message: Seq<u8>) -> Seq<u8>;

/// Whether a signature is a valid Ed25519 signature of the message under the
/// key.
pub uninterp spec fn ed25519_accepts(
    key: Seq<u8>,
    message: Seq<u8>,
    signature: Seq<u8>,
) -> bool;

/// `soroban_sdk::Address::to_string` of an account: its text form, a base-32
/// string of 56 characters over a version byte, the 32 bytes of the identifier
/// and a two-byte checksum.
#[verifier::external_body]
fn account_text(hi: u128, lo: u128) -> (text: Vec<u8>)
    ensures
        text@ == address_text(false, hi, lo),
        text@.len() == 56,
{
    let env = soroban_sdk::Env::default();
    let id: [u8; 32] = [hi.to_be_bytes(), lo.to_be_bytes()].concat().try_into().unwrap();
    let key = soroban_sdk::xdr::PublicKey::PublicKeyTypeEd25519(soroban_sdk::xdr::Uint256(id));
    let account = soroban_sdk::xdr::ScAddress::Account(soroban_sdk::xdr::AccountId(key));
    let string = soroban_sdk::Address::try_from_val(&env, &account).unwrap().to_string();
    let mut text = vec![0u8; string.len() as usize];
    string.copy_into_slice(&mut text);
    text
}

/// `soroban_sdk::Address::to_string` of a contract: its text form, of the same
/// make and length as that of an account.
#[verifier::external_body]
fn contract_text(hi: u128, lo: u128) -> (text: Vec<u8>)
    ensures
        text@ == address_text(true, hi, lo),
        text@.len() == 56,
{
    let env = soroban_sdk::Env::default();
    let id: [u8; 32] = [hi.to_be_bytes(), lo.to_be_bytes()].concat().try_into().unwrap();
    let contract = soroban_sdk::xdr::ScAddress::Contract(soroban_sdk::xdr::Hash(id));
    let string = soroban_sdk::Address::try_from_val(&env, &contract).unwrap().to_string();
    let mut text = vec![0u8; string.len() as usize];
    string.copy_into_slice(&mut text);
    text
}

/// `soroban_sdk::crypto::Crypto::sha256`: the 32-byte digest of the message.
/// The bound keeps the message well inside the budget of a fresh host.
#[verifier::external_body]
fn sha256(message: &Vec<u8>) -> (digest: Vec<u8>)
    requires
        message@.len() <= 1024,
    ensures
        digest@ == sha256_digest(message@),
        digest@.len() == 32,
{
    let env = soroban_sdk::Env::default();
    env.crypto().sha256(&soroban_sdk::Bytes::from_slice(&env, message)).to_array().to_vec()
}

/// `soroban_env_host`'s `verify_sig_ed25519`, the host function behind
/// `soroban_sdk::crypto::Crypto::ed25519_verify`: succeeds exactly on a valid
/// signature under a valid key. The lengths are those of a public key, a
/// digest and a signature.
#[verifier::external_body]
fn ed25519_verify(key: &Vec<u8>, message: &Vec<u8>, signature: &[u8; 64]) -> (accepted: bool)
    requires
        key@.len() == 32,
        message@.len() == 32,
    ensures
        accepted == ed25519_accepts(key@, message@, signature@),
{
    let host = soroban_env_host::Host::default();
    let key = host.bytes_new_from_slice(key).unwrap();
    let message = host.bytes_new_from_slice(message).unwrap();
    let signature = host.bytes_new_from_slice(signature).unwrap();
    host.verify_sig_ed25519(key, message, signature).is_ok()
}

/// The message behind a claim, before it is hashed: the recipient's text form,
/// then the low 64 bits of the amount and the nonce, both little-endian.
pub open spec fn payload(recipient_text: Seq<u8>, reward_amount: i128, nonce: u64) -> Seq<u8> {
    recipient_text + spec_u64_to_le_bytes(low64(reward_amount)) + spec_u64_to_le_bytes(nonce)
}

/// The digest that the backend signs for a claim.
pub open spec fn claim_digest(recipient: Address, reward_amount: i128, nonce: u64) -> Seq<u8> {
    sha256_digest(
        payload(
            address_text(recipient.is_contract, recipient.hi, recipient.lo),
            reward_amount,
            nonce,
        ),
    )
}

/// Builds the message of a claim from the recipient's text form.
pub fn claim_payload(recipient_text: &Vec<u8>, reward_amount: i128, nonce: u64) -> (message: Vec<
    u8,
>)
    ensures
        message@ == payload(recipient_text@, reward_amount, nonce),
{
    let mut message: Vec<u8> = Vec::new();
    message.extend_from_slice(recipient_text.as_slice());
    let amount_le = u64_to_le_bytes(to_low64(reward_amount));
    message.extend_from_slice(amount_le.as_slice());
    let nonce_le = u64_to_le_bytes(nonce);
    message.extend_from_slice(nonce_le.as_slice());
    assert(message@ =~= payload(recipient_text@, reward_amount, nonce));
    message
}

/// The digest that the backend signs for a claim.
pub fn reward_digest(recipient: Address, reward_amount: i128, nonce: u64) -> (digest: Vec<u8>)
    ensures
        digest@ == claim_digest(recipient, reward_amount, nonce),
        digest@.len() == 32,
{
    let text = if recipient.is_contract {
        contract_text(recipient.hi, recipient.lo)
    } else {
        account_text(recipient.hi, recipient.lo)
    };
    let message = claim_payload(&text, reward_amount, nonce);
    proof {
        lemma_auto_spec_u64_to_from_le_bytes();
    }
    sha256(&message)
}

/// Whether the signature of a claim is valid under the given key.
pub fn claim_is_signed(
    key: &Vec<u8>,
    recipient: Address,
    reward_amount: i128,
    nonce: u64,
    signature: &[u8; 64],
) -> (accepted: bool)
    requires
        key@.len() == 32,
    ensures
        accepted == ed25519_accepts(
            key@,
            claim_digest(recipient, reward_amount, nonce),
            signature@,
        ),
{
    let digest = reward_digest(recipient, reward_amount, nonce);
    ed25519_verify(key, &digest, signature)
}

/// A signed message is bound to one recipient text, one nonce and one value of
/// the amount's low 64 bits.
pub proof fn payload_is_injective(
    text1: Seq<u8>,
    amount1: i128,
    nonce1: u64,
    text2: Seq<u8>,
    amount2: i128,
    nonce2: u64,
)
    requires
        payload(text1, amount1, nonce1) == payload(text2, amount2, nonce2),
    ensures
        text1 == text2,
        low64(amount1) == low64(amount2),
        nonce1 == nonce2,
{
    lemma_auto_spec_u64_to_from_le_bytes();
    let m1 = payload(text1, amount1, nonce1);
    let m2 = payload(text2, amount2, nonce2);
    let n = m1.len() as int;
    let a1 = spec_u64_to_le_bytes(low64(amount1));
    let a2 = spec_u64_to_le_bytes(low64(amount2));
    let b1 = spec_u64_to_le_bytes(nonce1);
    let b2 = spec_u64_to_le_bytes(nonce2);
    assert(text1.len() == n - 16 && text2.len() == n - 16);
    assert(m1.subrange(0, n - 16) =~= text1);
    assert(m2.subrange(0, n - 16) =~= text2);
    assert(m1.subrange(n - 16, n - 8) =~= a1);
    assert(m2.subrange(n - 16, n - 8) =~= a2);
    assert(m1.subrange(n - 8, n) =~= b1);
    assert(m2.subrange(n - 8, n) =~= b2);
    assert(spec_u64_from_le_bytes(a1) == low64(amount1));
    assert(spec_u64_from_le_bytes(b1) == nonce1);
}

/// The message of a claim is the recipient's text, then eight bytes that read
/// little-endian as the amount modulo 2^64, then eight that read as the nonce.
/// Every amount of a signed 64-bit integer is read back from its bytes: as it
/// stands, or with 2^64 taken off where it is negative.
pub proof fn message_spells_out_the_claim(text: Seq<u8>, reward_amount: i128, nonce: u64)
    ensures
        ({
            let message = payload(text, reward_amount, nonce);
            let n = text.len() as int;
            let read = spec_u64_from_le_bytes(message.subrange(n, n + 8)) as int;
            &&& message.len() == n + 16
            &&& message.subrange(0, n) == text
            &&& read == reward_amount as int % 0x1_0000_0000_0000_0000
            &&& 0 <= reward_amount <= i64::MAX ==> read == reward_amount
            &&& i64::MIN <= reward_amount < 0 ==> read - 0x1_0000_0000_0000_0000 == reward_amount
            &&& spec_u64_from_le_bytes(message.subrange(n + 8, n + 16)) == nonce
        }),
{
    lemma_auto_spec_u64_to_from_le_bytes();
    low_half_keeps_small_numbers(reward_amount);
    let message = payload(text, reward_amount, nonce);
    let n = text.len() as int;
    assert(message.subrange(0, n) =~= text);
    assert(message.subrange(n, n + 8) =~= spec_u64_to_le_bytes(low64(reward_amount)));
    assert(message.subrange(n + 8, n + 16) =~= spec_u64_to_le_bytes(nonce));
}

/// Claims of different amounts, each a signed 64-bit integer, have different
/// messages, and so do claims with different nonces.
pub proof fn different_claims_have_different_messages(
    text: Seq<u8>,
    amount1: i128,
    nonce1: u64,
    amount2: i128,
    nonce2: u64,
)
    requires
        i64::MIN <= amount1 <= i64::MAX,
        i64::MIN <= amount2 <= i64::MAX,
        amount1 != amount2 || nonce1 != nonce2,
    ensures
        payload(text, amount1, nonce1) != payload(text, amount2, nonce2),
{
    message_spells_out_the_claim(text, amount1, nonce1);
    message_spells_out_the_claim(text, amount2, nonce2);
}

/// What is hashed for a claim is the one message that spells it out.
pub proof fn claim_is_bound_to_its_message(
    recipient: Address,
    reward_amount: i128,
    nonce: u64,
    message: Seq<u8>,
)
    requires
        ({
            let text = address_text(recipient.is_contract, recipient.hi, recipient.lo);
            let n = text.len() as int;
            &&& message.len() == n + 16
            &&& message.subrange(0, n) == text
            &&& spec_u64_from_le_bytes(message.subrange(n, n + 8)) == reward_amount as int
                % 0x1_0000_0000_0000_0000
            &&& spec_u64_from_le_bytes(message.subrange(n + 8, n + 16)) == nonce
        }),
    ensures
        claim_digest(recipient, reward_amount, nonce) == sha256_digest(message),
{
    lemma_auto_spec_u64_to_from_le_bytes();
    let text = address_text(recipient.is_contract, recipient.hi, recipient.lo);
    let n = text.len() as int;
    let spelled = payload(text, reward_amount, nonce);
    message_spells_out_the_claim(text, reward_amount, nonce);
    let amount_bytes = message.subrange(n, n + 8);
    let nonce_bytes = message.subrange(n + 8, n + 16);
    assert(spec_u64_to_le_bytes(spec_u64_from_le_bytes(amount_bytes)) == amount_bytes);
    assert(spec_u64_to_le_bytes(spec_u64_from_le_bytes(nonce_bytes)) == nonce_bytes);
    assert(message =~= message.subrange(0, n) + amount_bytes + nonce_bytes);
    assert(spelled =~= spelled.subrange(0, n) + spelled.subrange(n, n + 8) + spelled.subrange(
        n + 8,
        n + 16,
    ));
    assert(spec_u64_to_le_bytes(spec_u64_from_le_bytes(spelled.subrange(n, n + 8)))
        == spelled.subrange(n, n + 8));
    assert(spec_u64_to_le_bytes(spec_u64_from_le_bytes(spelled.subrange(n + 8, n + 16)))
        == spelled.subrange(n + 8, n + 16));
}

} // verus!
