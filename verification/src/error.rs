//! The failures this library reports.

use vstd::prelude::*;

verus! {

/// Every way an operation of this library can fail.
///
/// Validation errors are raised before any outside work is asked for and are
/// never retried; storage errors come from the vault and the pool registry;
/// transport and trust errors come out of a read once every known node has
/// been tried; chain rejections carry what the chain said.
#[derive(Clone, Debug, PartialEq, Eq)]
pub enum LedgerError {
    /// An alias was empty.
    InvalidAlias,
    /// A mnemonic was empty.
    InvalidMnemonic,
    /// A block height does not fit the chain's signed 64-bit representation.
    InvalidHeight,
    /// A public key is not base58 text of a compressed secp256k1 point.
    InvalidPublicKey,
    /// A denomination breaks the chain's naming rule.
    InvalidDenom,
    /// A chain identifier breaks the chain's naming rule.
    InvalidChainId,
    /// An account address is not bech32.
    InvalidAddress,
    /// A pool's runtime settings are unusable.
    InvalidConfig,
    /// The alias is already taken.
    DuplicateAlias,
    /// No key is stored under the alias.
    KeyNotFound,
    /// No pool configuration is stored under the alias.
    PoolNotFound,
    /// The pool is already open.
    PoolAlreadyOpen,
    /// The pool is open and so cannot be deleted.
    PoolStillOpen,
    /// The pool is not open.
    PoolNotOpen,
    /// The protocol version is none that the pool speaks.
    IncompatibleProtocolVersion,
    /// No key could be derived from the given secret material.
    KeyDerivationFailure,
    /// The signer refused the payload or the stored key.
    SigningFailure,
    /// The number of signatures differs from the number of declared signers.
    SignerCountMismatch,
    /// The outside encoder refused the transaction.
    EncodingFailure,
    /// Response bytes do not decode as the expected message.
    MalformedResponse,
    /// No node answered.
    QueryUnreachable,
    /// Nodes answered, but no answer could be verified.
    ProofInvalid,
    /// The chain refused the transaction; `code` and `log` are its words.
    BroadcastRejected { code: u32, log: String },
    /// No commit confirmation arrived in time.
    BroadcastTimeout,
    /// An internal invariant did not hold.
    InternalError,
}

} // verus!
