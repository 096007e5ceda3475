//! Hashing and XDR encoding, both done by the Soroban host, and the two
//! digests the contracts build from them: the metadata digest that keys
//! duplicate detection and the maintenance record hash that links the
//! hash chain.
use soroban_sdk::xdr::{AccountId, ContractId, PublicKey, ScAddress, ToXdr, Uint256};
use soroban_sdk::TryFromVal;
use vstd::prelude::*;

use crate::address::{Address, AddressKind};
use crate::symbol::{valid_symbol, Symbol};

verus! {

/// The Soroban environment: the host that hashes and encodes values. Like
/// every host call, the calls below abort when the invocation's resource
/// budget runs out; their contracts speak of the calls that return.
#[verifier::external_type_specification]
#[verifier::external_body]
pub struct ExEnv(soroban_sdk::Env);

/// The SHA-256 digest of `data`, as the Soroban host computes it.
pub uninterp spec fn sha256_of(data: Seq<u8>) -> Seq<u8>;

/// `v` as 4 big-endian bytes.
pub open spec fn be32(v: u32) -> Seq<u8> {
    seq![
        (v / 0x100_0000) as u8,
        ((v / 0x1_0000) % 0x100) as u8,
        ((v / 0x100) % 0x100) as u8,
        (v % 0x100) as u8,
    ]
}

/// `v` as 8 big-endian bytes.
pub open spec fn be64(v: u64) -> Seq<u8> {
    be32((v / 0x1_0000_0000) as u32) + be32((v % 0x1_0000_0000) as u32)
}

/// The XDR discriminant of the `ScVal` variant with type code `code`: a
/// 4-byte big-endian integer.
pub open spec fn scval_tag(code: u8) -> Seq<u8> {
    seq![0u8, 0u8, 0u8, code]
}

/// The ScVal XDR encoding of a `u64`: the `U64` tag (5), then the value in
/// 8 big-endian bytes.
pub open spec fn u64_xdr(value: u64) -> Seq<u8> {
    scval_tag(5) + be64(value)
}

/// The ScVal XDR encoding of a `u32`: the `U32` tag (3), then the value in
/// 4 big-endian bytes.
pub open spec fn u32_xdr(value: u32) -> Seq<u8> {
    scval_tag(3) + be32(value)
}

/// The ScVal XDR encoding of a symbol with the given (ASCII) text: the
/// `Symbol` tag (15), the length in 4 big-endian bytes, the characters'
/// bytes, and zeros up to a multiple of 4.
pub open spec fn symbol_xdr(text: Seq<char>) -> Seq<u8> {
    scval_tag(15) + be32(text.len() as u32) + text.map_values(|c: char| c as u8) + Seq::new(
        ((4 - text.len() % 4) % 4) as nat,
        |i: int| 0u8,
    )
}

/// The ScVal XDR encoding of a contract string with the given text: the
/// `String` tag, the UTF-8 bytes' length, the bytes and padding.
pub uninterp spec fn string_xdr(text: Seq<char>) -> Seq<u8>;

/// The ScVal XDR encoding of an address with the 32-byte `key`: the
/// `Address` tag (18), then the address type (1 for a contract, followed
/// by the contract id; 0 for an account, followed by the ed25519 key type
/// 0 and the key).
pub open spec fn address_xdr(is_contract: bool, key: Seq<u8>) -> Seq<u8> {
    scval_tag(18) + if is_contract {
        seq![0u8, 0u8, 0u8, 1u8] + key
    } else {
        seq![0u8, 0u8, 0u8, 0u8] + seq![0u8, 0u8, 0u8, 0u8] + key
    }
}

/// The ScVal XDR encoding of a 32-byte value (`BytesN<32>`): the `Bytes`
/// tag (13), the length 32 in 4 big-endian bytes, then the bytes (32 is a
/// multiple of 4, so there is no padding).
pub open spec fn hash_xdr(bytes: Seq<u8>) -> Seq<u8> {
    scval_tag(13) + be32(32) + bytes
}

/// `Crypto::sha256` of `soroban_sdk`: the host's SHA-256 of `data`, a 32-byte
/// digest. Claimed: the digest is `sha256_of(data)`; nothing else is claimed of it.
#[verifier::external_body]
fn sha256(env: &soroban_sdk::Env, data: &[u8]) -> (digest: [u8; 32])
    ensures
        digest@ == sha256_of(data@),
{
    env.crypto().sha256(&soroban_sdk::Bytes::from_slice(env, data)).to_array()
}

/// `ToXdr::to_xdr` of `soroban_sdk` on a `u64`. Claimed: the bytes are `u64_xdr(value)`.
#[verifier::external_body]
fn encode_u64(env: &soroban_sdk::Env, value: u64) -> (bytes: Vec<u8>)
    ensures
        bytes@ == u64_xdr(value),
{
    value.to_xdr(env).iter().collect()
}

/// `ToXdr::to_xdr` of `soroban_sdk` on a `u32`. Claimed: the bytes are `u32_xdr(value)`.
#[verifier::external_body]
fn encode_u32(env: &soroban_sdk::Env, value: u32) -> (bytes: Vec<u8>)
    ensures
        bytes@ == u32_xdr(value),
{
    value.to_xdr(env).iter().collect()
}

/// `Symbol::new` then `ToXdr::to_xdr` of `soroban_sdk`. `Symbol::new` panics on
/// text that is not a valid symbol, which `requires` leaves out. Claimed: the
/// bytes are `symbol_xdr(text)`.
#[verifier::external_body]
fn encode_symbol(env: &soroban_sdk::Env, text: &str) -> (bytes: Vec<u8>)
    requires
        valid_symbol(text@),
    ensures
        bytes@ == symbol_xdr(text@),
{
    soroban_sdk::Symbol::new(env, text).to_xdr(env).iter().collect()
}

/// `String::from_str` then `ToXdr::to_xdr` of `soroban_sdk`. Claimed: the bytes
/// are `string_xdr(text)`.
#[verifier::external_body]
fn encode_string(env: &soroban_sdk::Env, text: &str) -> (bytes: Vec<u8>)
    ensures
        bytes@ == string_xdr(text@),
{
    soroban_sdk::String::from_str(env, text).to_xdr(env).iter().collect()
}

/// `Address::try_from_val` from an `ScAddress`, then `ToXdr::to_xdr`, of
/// `soroban_sdk`. Claimed: the bytes are `address_xdr` of the address's kind and key.
#[verifier::external_body]
fn encode_address(env: &soroban_sdk::Env, address: &Address) -> (bytes: Vec<u8>)
    ensures
        bytes@ == address_xdr(address.kind == AddressKind::Contract, address.key@),
{
    let sc = match address.kind {
        AddressKind::Account => ScAddress::Account(
            AccountId(PublicKey::PublicKeyTypeEd25519(Uint256(address.key))),
        ),
        AddressKind::Contract => ScAddress::Contract(ContractId(soroban_sdk::xdr::Hash(address.key))),
    };
    soroban_sdk::Address::try_from_val(env, &sc).unwrap().to_xdr(env).iter().collect()
}

/// `BytesN::from_array` then `ToXdr::to_xdr` of `soroban_sdk`. Claimed: the
/// bytes are `hash_xdr(bytes)`.
#[verifier::external_body]
fn encode_hash(env: &soroban_sdk::Env, bytes: &[u8; 32]) -> (encoded: Vec<u8>)
    ensures
        encoded@ == hash_xdr(bytes@),
{
    soroban_sdk::BytesN::from_array(env, bytes).to_xdr(env).iter().collect()
}

/// The digest that keys duplicate detection: SHA-256 of the XDR of the
/// metadata string.
pub open spec fn metadata_digest(metadata: Seq<char>) -> Seq<u8> {
    sha256_of(string_xdr(metadata))
}

/// Computes the metadata digest of `metadata`.
pub fn hash_metadata(env: &soroban_sdk::Env, metadata: &String) -> (digest: [u8; 32])
    ensures
        digest@ == metadata_digest(metadata@),
{
    let encoded = encode_string(env, metadata.as_str());
    sha256(env, encoded.as_slice())
}

/// The chain hash of a maintenance record: SHA-256 over the XDR of the asset
/// id, task type, engineer, timestamp, position in the history (`nonce`) and
/// the previous record's hash, concatenated in that order. The notes are not
/// part of it.
#[verifier::opaque]
pub open spec fn record_hash(
    asset_id: u64,
    task_type: Seq<char>,
    engineer: Address,
    timestamp: u64,
    nonce: u32,
    prev_hash: Seq<u8>,
) -> Seq<u8> {
    sha256_of(
        u64_xdr(asset_id) + symbol_xdr(task_type) + address_xdr(
            engineer.kind == AddressKind::Contract,
            engineer.key@,
        ) + u64_xdr(timestamp) + u32_xdr(nonce) + hash_xdr(prev_hash),
    )
}

/// Computes a maintenance record's chain hash (see `record_hash`).
pub fn compute_record_hash(
    env: &soroban_sdk::Env,
    asset_id: u64,
    task_type: &Symbol,
    engineer: &Address,
    timestamp: u64,
    nonce: u32,
    prev_hash: &[u8; 32],
) -> (hash: [u8; 32])
    ensures
        hash@ == record_hash(asset_id, task_type@, *engineer, timestamp, nonce, prev_hash@),
{
    let mut bytes = encode_u64(env, asset_id);
    let mut part = encode_symbol(env, task_type.as_str());
    bytes.append(&mut part);
    let mut part = encode_address(env, engineer);
    bytes.append(&mut part);
    let mut part = encode_u64(env, timestamp);
    bytes.append(&mut part);
    let mut part = encode_u32(env, nonce);
    bytes.append(&mut part);
    let mut part = encode_hash(env, prev_hash);
    bytes.append(&mut part);
    proof {
        reveal(record_hash);
    }
    sha256(env, bytes.as_slice())
}

/// The all-zero hash that the first record of a history links back to.
pub open spec fn is_zero_hash(h: [u8; 32]) -> bool {
    forall|i: int| 0 <= i < 32 ==> h[i] == 0
}

/// Returns the all-zero hash.
pub fn zero_hash() -> (h: [u8; 32])
    ensures
        is_zero_hash(h),
{
    [0u8; 32]
}

} // verus!
