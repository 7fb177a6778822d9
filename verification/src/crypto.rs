//! The cryptographic primitives this library consumes.
//!
//! Nothing here is proved. Each function hands plain bytes to an outside
//! implementation and gives plain bytes back; what the rest of the library
//! knows of a result is only that it is the named function of the arguments.

use cosmrs::tendermint::PublicKey as RawPublicKey;
use k256::ecdsa::signature::Signer;
use k256::ecdsa::Signature;
use k256::ecdsa::SigningKey;
use k256::ecdsa::VerifyingKey;
use k256::elliptic_curve::rand_core::OsRng;
use rust_base58::FromBase58;
use rust_base58::ToBase58;
use sha2::Digest;
use std::str::FromStr;
use vstd::prelude::*;

verus! {

/// The SHA-256 digest of a byte string.
pub uninterp spec fn sha256_digest(data: Seq<u8>) -> Seq<u8>;

/// The base58 text (Bitcoin alphabet) of a byte string.
pub uninterp spec fn base58_text(data: Seq<u8>) -> Seq<char>;

/// The bytes that a base58 text stands for, where it is base58 at all.
pub uninterp spec fn base58_bytes(text: Seq<char>) -> Option<Seq<u8>>;

/// The compressed secp256k1 public key of a secret scalar, where the bytes
/// are a usable scalar.
pub uninterp spec fn public_key_for(secret: Seq<u8>) -> Option<Seq<u8>>;

/// Whether the bytes are the SEC1 form of a point on secp256k1.
pub uninterp spec fn is_curve_point(public_key: Seq<u8>) -> bool;

/// The ECDSA signature (fixed 64-byte form, nonce by RFC 6979) that a secret
/// scalar gives on a message, where the scalar is usable.
pub uninterp spec fn signature_for(secret: Seq<u8>, message: Seq<u8>) -> Option<Seq<u8>>;

/// The bech32 account address of a public key under a prefix.
pub uninterp spec fn address_for(public_key: Seq<u8>, prefix: Seq<char>) -> Option<Seq<char>>;

/// The bytes that a bech32 account address carries.
pub uninterp spec fn address_payload(address: Seq<char>) -> Option<Seq<u8>>;

/// `sha2::Sha256::digest`: the result is the SHA-256 digest of `data`.
#[verifier::external_body]
pub(crate) fn sha256(data: &[u8]) -> (digest: Vec<u8>)
    ensures
        digest@ == sha256_digest(data@),
{
    sha2::Sha256::digest(data).to_vec()
}

/// `rust_base58::ToBase58::to_base58`: the result is the base58 text of
/// `data`.
#[verifier::external_body]
pub(crate) fn base58_encode(data: &[u8]) -> (text: String)
    ensures
        text@ == base58_text(data@),
{
    data.to_base58()
}

/// `rust_base58::FromBase58::from_base58`: the bytes that `text` stands for,
/// or nothing where it holds a character outside the alphabet.
#[verifier::external_body]
pub(crate) fn base58_decode(text: &str) -> (data: Option<Vec<u8>>)
    ensures
        match data {
            Some(bytes) => base58_bytes(text@) == Some(bytes@),
            None => base58_bytes(text@).is_none(),
        },
{
    text.from_base58().ok()
}

/// `k256::ecdsa::SigningKey::from_slice`, then the SEC1 compressed form of
/// its verifying key: the public key of `secret`, or nothing where `secret`
/// is not a usable scalar.
#[verifier::external_body]
pub(crate) fn secp256k1_public_key(secret: &[u8]) -> (public_key: Option<Vec<u8>>)
    ensures
        match public_key {
            Some(bytes) => public_key_for(secret@) == Some(bytes@),
            None => public_key_for(secret@).is_none(),
        },
{
    let key = SigningKey::from_slice(secret).ok()?;
    Some(key.verifying_key().to_sec1_bytes().to_vec())
}

/// `k256::ecdsa::VerifyingKey::from_sec1_bytes`: whether it accepts the
/// bytes.
#[verifier::external_body]
pub(crate) fn secp256k1_point_ok(public_key: &[u8]) -> (ok: bool)
    ensures
        ok == is_curve_point(public_key@),
{
    VerifyingKey::from_sec1_bytes(public_key).is_ok()
}

/// `k256::ecdsa::SigningKey::try_sign` with the key made from `secret`: the
/// signature over exactly `message`, or nothing where the key or the
/// signing fails.
#[verifier::external_body]
pub(crate) fn secp256k1_sign(secret: &[u8], message: &[u8]) -> (signature: Option<Vec<u8>>)
    ensures
        match signature {
            Some(bytes) => signature_for(secret@, message@) == Some(bytes@),
            None => signature_for(secret@, message@).is_none(),
        },
{
    let key = SigningKey::from_slice(secret).ok()?;
    let signature: Signature = key.try_sign(message).ok()?;
    Some(signature.to_vec())
}

/// `cosmrs::crypto::PublicKey::account_id`: the bech32 address of the public
/// key under `prefix`, or nothing where the key or the prefix is refused.
#[verifier::external_body]
pub(crate) fn account_address(public_key: &[u8], prefix: &str) -> (address: Option<String>)
    ensures
        match address {
            Some(text) => address_for(public_key@, prefix@) == Some(text@),
            None => address_for(public_key@, prefix@).is_none(),
        },
{
    let raw = RawPublicKey::from_raw_secp256k1(public_key)?;
    let id = cosmrs::crypto::PublicKey::from(raw).account_id(prefix).ok()?;
    Some(id.to_string())
}

/// `cosmrs::AccountId::from_str`, then `to_bytes`: the bytes the address
/// carries, or nothing where it is not a bech32 account address.
#[verifier::external_body]
pub(crate) fn account_address_bytes(address: &str) -> (payload: Option<Vec<u8>>)
    ensures
        match payload {
            Some(bytes) => address_payload(address@) == Some(bytes@),
            None => address_payload(address@).is_none(),
        },
{
    let id = cosmrs::AccountId::from_str(address).ok()?;
    Some(id.to_bytes())
}

/// `k256::ecdsa::SigningKey::random` over the operating system's generator:
/// fresh secret bytes. Nothing is promised of them.
#[verifier::external_body]
pub(crate) fn random_secret() -> (secret: Vec<u8>) {
    SigningKey::random(&mut OsRng).to_bytes().to_vec()
}

} // verus!
