//! `create-nym`: writes a named record to the ledger.
//!
//! The command runs in three steps around two visits to the pool. `begin`
//! reads the parameters and says which account to read. `sign` takes the
//! account that was read, builds the transaction with the account's current
//! number and sequence, signs it, and hands out the envelope to broadcast.
//! `finish` takes what the broadcast came to. The sequence is never kept
//! from one run to the next: a run that the chain rejects is started anew.

use vstd::prelude::*;
use crate::client::BroadcastResult;
use crate::client::QueryResult;
use crate::commands::get_opt_str_param;
use crate::commands::get_str_param;
use crate::commands::parse_u64;
use crate::commands::parsed_u64;
use crate::commands::required;
use crate::commands::optional;
use crate::commands::CommandContext;
use crate::commands::CommandError;
use crate::commands::CommandMetadata;
use crate::commands::CommandParams;
use crate::crypto::address_payload;
use crate::crypto::signature_for;
use crate::error::LedgerError;
use crate::keys::description;
use crate::messages::create_nym_bytes;
use crate::messages::parse_response;
use crate::messages::parsed_account;
use crate::messages::parsed_nym_created;
use crate::messages::MsgCreateNym;
use crate::messages::Response;
use crate::messages::ResponseKind;
use crate::messages::MSG_CREATE_NYM_TYPE_URL;
use crate::tx::account_store_key;
use crate::tx::assemble_envelope;
use crate::tx::build_query_account;
use crate::tx::build_signing_payload;
use crate::tx::envelope_encoding;
use crate::tx::payload_for;
use crate::tx::Message;
use crate::tx::PayloadInputs;
use crate::tx::QueryRequest;
use crate::tx::SignedTransaction;
use crate::tx::ACCOUNT_STORE_PATH;

verus! {

/// The description of the command: its name, what it does, its parameters
/// in the order in which they are read, and examples of its use.
pub fn new() -> (metadata: CommandMetadata)
    ensures
        metadata.name == "create-nym",
        metadata.help == "Create nym.",
        metadata.params@ == seq![
            required("did", "DID of identity presented in Ledger"),
            required("verkey", "Verification key"),
            required("key_alias", "Alias of key"),
            required("max_coin", "Max amount coins for transaction"),
            required("max_gas", "Max amount gas for transaction"),
            required("denom", "Denom is currency for transaction"),
            optional("timeout_height", "Height block of blockchain"),
            optional("role", "Role of identity."),
            optional("memo", "Memo is optional param. It has any arbitrary memo to be added to the transaction"),
        ],
        metadata.examples@ == seq![
            "cheqd-ledger create-nym did=my_did verkey=my_verkey key_alias=my_key max_coin=500 max_gas=10000000 denom=cheq timeout_height=20000 role=role memo=memo",
        ],
{
    let metadata = CommandMetadata::build("create-nym", "Create nym.")
        .add_required_param("did", "DID of identity presented in Ledger")
        .add_required_param("verkey", "Verification key")
        .add_required_param("key_alias", "Alias of key")
        .add_required_param("max_coin", "Max amount coins for transaction")
        .add_required_param("max_gas", "Max amount gas for transaction")
        .add_required_param("denom", "Denom is currency for transaction")
        .add_optional_param("timeout_height", "Height block of blockchain")
        .add_optional_param("role", "Role of identity.")
        .add_optional_param("memo", "Memo is optional param. It has any arbitrary memo to be added to the transaction")
        .add_example("cheqd-ledger create-nym did=my_did verkey=my_verkey key_alias=my_key max_coin=500 max_gas=10000000 denom=cheq timeout_height=20000 role=role memo=memo")
        .finalize();
    assert(metadata.params@ =~= seq![
        required("did", "DID of identity presented in Ledger"),
        required("verkey", "Verification key"),
        required("key_alias", "Alias of key"),
        required("max_coin", "Max amount coins for transaction"),
        required("max_gas", "Max amount gas for transaction"),
        required("denom", "Denom is currency for transaction"),
        optional("timeout_height", "Height block of blockchain"),
        optional("role", "Role of identity."),
        optional("memo", "Memo is optional param. It has any arbitrary memo to be added to the transaction"),
    ]);
    assert(metadata.examples@ =~= seq![
        "cheqd-ledger create-nym did=my_did verkey=my_verkey key_alias=my_key max_coin=500 max_gas=10000000 denom=cheq timeout_height=20000 role=role memo=memo",
    ]);
    metadata
}

/// A run of the command between its steps.
#[derive(Clone, Debug, PartialEq, Eq)]
pub struct CreateNym {
    pub pool_alias: String,
    pub chain_id: String,
    pub key_alias: String,
    pub public_key: String,
    pub message: Message,
    pub max_gas: u64,
    pub max_coin: u64,
    pub denom: String,
    pub timeout_height: u64,
    pub memo: String,
}

/// The value of an optional text parameter: empty where it was not given.
pub open spec fn text_or_empty(value: Option<Seq<char>>) -> Seq<char> {
    match value {
        Some(text) => text,
        None => Seq::empty(),
    }
}

/// The first reason, in the order in which the parameters are read, for
/// which the parameters alone stop the command.
pub open spec fn parameter_refusal(params: &CommandParams) -> Option<CommandError> {
    if params.lookup("did"@).is_none() {
        Some(CommandError::MissingParameter("did"))
    } else if params.lookup("verkey"@).is_none() {
        Some(CommandError::MissingParameter("verkey"))
    } else if params.lookup("key_alias"@).is_none() {
        Some(CommandError::MissingParameter("key_alias"))
    } else if params.lookup("max_coin"@).is_none() {
        Some(CommandError::MissingParameter("max_coin"))
    } else if parsed_u64(params.lookup("max_coin"@).unwrap()).is_none() {
        Some(CommandError::InvalidParameter("max_coin"))
    } else if params.lookup("max_gas"@).is_none() {
        Some(CommandError::MissingParameter("max_gas"))
    } else if parsed_u64(params.lookup("max_gas"@).unwrap()).is_none() {
        Some(CommandError::InvalidParameter("max_gas"))
    } else if params.lookup("denom"@).is_none() {
        Some(CommandError::MissingParameter("denom"))
    } else if params.lookup("timeout_height"@).is_none() || parsed_u64(
        params.lookup("timeout_height"@).unwrap(),
    ).is_none() {
        Some(CommandError::InvalidParameter("timeout_height"))
    } else {
        None
    }
}

/// The first reason for which the command stops before anything is asked
/// of the pool: a parameter, then the pool, then the wallet, then the key,
/// then the key's address.
pub open spec fn refusal(ctx: &CommandContext, params: &CommandParams) -> Option<CommandError> {
    if parameter_refusal(params).is_some() {
        parameter_refusal(params)
    } else if ctx.connected().is_none() {
        Some(CommandError::NoPool)
    } else if ctx.wallet.is_none() {
        Some(CommandError::NoWallet)
    } else if !ctx.wallet.unwrap().contains(params.lookup("key_alias"@).unwrap()) {
        Some(CommandError::Ledger(LedgerError::KeyNotFound))
    } else if address_payload(
        ctx.wallet.unwrap().key_of(params.lookup("key_alias"@).unwrap()).address,
    ).is_none() {
        Some(CommandError::Ledger(LedgerError::InvalidAddress))
    } else {
        None
    }
}

/// Reads the parameters and says what to ask the connected pool first: the
/// proven read of the signer's account.
///
/// The run that comes back holds the message to send, made of the `did`,
/// the `verkey` and the `role` given, with the signer's address as its
/// creator and the pool's alias as its alias, and the fee bounds, the
/// timeout height and the memo as given. The command stops with the first
/// reason that [`refusal`] names, and only then.
pub fn begin(ctx: &CommandContext, params: &CommandParams) -> (started: Result<
    (CreateNym, QueryRequest),
    CommandError,
>)
    ensures
        match started {
            Err(e) => refusal(ctx, params) == Some(e),
            Ok((run, request)) => {
                let key = ctx.wallet.unwrap().key_of(params.lookup("key_alias"@).unwrap());
                let pool = ctx.pools.config_of(ctx.connected().unwrap());
                &&& refusal(ctx, params).is_none()
                &&& run.pool_alias@ == ctx.connected().unwrap()
                &&& run.chain_id@ == pool.chain_id@
                &&& run.key_alias@ == params.lookup("key_alias"@).unwrap()
                &&& run.public_key@ == description(key).pub_key
                &&& run.message.type_url@ == MSG_CREATE_NYM_TYPE_URL@
                &&& run.message.value@ == create_nym_bytes(
                    key.address,
                    ctx.connected().unwrap(),
                    params.lookup("verkey"@).unwrap(),
                    params.lookup("did"@).unwrap(),
                    text_or_empty(params.lookup("role"@)),
                )
                &&& Some(run.max_coin) == parsed_u64(params.lookup("max_coin"@).unwrap())
                &&& Some(run.max_gas) == parsed_u64(params.lookup("max_gas"@).unwrap())
                &&& run.denom@ == params.lookup("denom"@).unwrap()
                &&& Some(run.timeout_height) == parsed_u64(
                    params.lookup("timeout_height"@).unwrap(),
                )
                &&& run.memo@ == text_or_empty(params.lookup("memo"@))
                &&& request.path@ == ACCOUNT_STORE_PATH@
                &&& request.data@ == account_store_key(address_payload(key.address).unwrap())
                &&& request.prove
            },
        },
{
    let did = match get_str_param("did", params) {
        Ok(v) => v,
        Err(e) => {
            return Err(e);
        },
    };
    let verkey = match get_str_param("verkey", params) {
        Ok(v) => v,
        Err(e) => {
            return Err(e);
        },
    };
    let key_alias = match get_str_param("key_alias", params) {
        Ok(v) => v,
        Err(e) => {
            return Err(e);
        },
    };
    let max_coin_text = match get_str_param("max_coin", params) {
        Ok(v) => v,
        Err(e) => {
            return Err(e);
        },
    };
    let max_coin = match parse_u64(max_coin_text.as_str()) {
        Some(v) => v,
        None => {
            return Err(CommandError::InvalidParameter("max_coin"));
        },
    };
    let max_gas_text = match get_str_param("max_gas", params) {
        Ok(v) => v,
        Err(e) => {
            return Err(e);
        },
    };
    let max_gas = match parse_u64(max_gas_text.as_str()) {
        Some(v) => v,
        None => {
            return Err(CommandError::InvalidParameter("max_gas"));
        },
    };
    let denom = match get_str_param("denom", params) {
        Ok(v) => v,
        Err(e) => {
            return Err(e);
        },
    };
    let timeout_height = match get_opt_str_param("timeout_height", params) {
        None => {
            return Err(CommandError::InvalidParameter("timeout_height"));
        },
        Some(text) => match parse_u64(text.as_str()) {
            Some(v) => v,
            None => {
                return Err(CommandError::InvalidParameter("timeout_height"));
            },
        },
    };
    let role = match get_opt_str_param("role", params) {
        Some(text) => text.clone(),
        None => String::new(),
    };
    let memo = match get_opt_str_param("memo", params) {
        Some(text) => text.clone(),
        None => String::new(),
    };
    assert(parameter_refusal(params).is_none());
    let pool = match ctx.ensure_connected_pool() {
        Ok(pool) => pool,
        Err(e) => {
            return Err(e);
        },
    };
    let pool_alias = match &ctx.connected_pool {
        Some(alias) => alias.clone(),
        None => {
            return Err(CommandError::NoPool);
        },
    };
    let vault = match &ctx.wallet {
        Some(vault) => vault,
        None => {
            return Err(CommandError::NoWallet);
        },
    };
    let info = match vault.describe(key_alias.as_str()) {
        Ok(info) => info,
        Err(e) => {
            return Err(CommandError::Ledger(e));
        },
    };
    let message = MsgCreateNym {
        creator: info.account_id.clone(),
        alias: pool_alias.clone(),
        verkey: verkey.clone(),
        did: did.clone(),
        role,
    }.to_message();
    let request = match build_query_account(info.account_id.as_str()) {
        Ok(request) => request,
        Err(e) => {
            return Err(CommandError::Ledger(e));
        },
    };
    let run = CreateNym {
        pool_alias,
        chain_id: pool.chain_id.clone(),
        key_alias: key_alias.clone(),
        public_key: info.pub_key,
        message,
        max_gas,
        max_coin,
        denom: denom.clone(),
        timeout_height,
        memo,
    };
    Ok((run, request))
}

/// The account number and the sequence in the stored value of an account
/// query.
pub open spec fn numbers_in(value: Seq<u8>) -> Result<(u64, u64), CommandError> {
    if value.len() == 0 {
        Err(CommandError::NoAccount)
    } else {
        match parsed_account(value) {
            Some(a) => Ok((a.account_number, a.sequence)),
            None => Err(CommandError::Ledger(LedgerError::MalformedResponse)),
        }
    }
}

impl CreateNym {
    /// What goes into the signing payload of this run for an account with
    /// the given number and sequence.
    pub open spec fn inputs(&self, account_number: u64, sequence: u64) -> PayloadInputs {
        PayloadInputs {
            chain_id: self.chain_id@,
            signer_public_key: self.public_key@,
            type_url: self.message.type_url@,
            value: self.message.value@,
            account_number,
            sequence,
            max_gas: self.max_gas,
            max_coin_amount: self.max_coin,
            max_coin_denom: self.denom@,
            timeout_height: self.timeout_height,
            memo: self.memo@,
        }
    }

    /// Takes the account that was read and hands out the signed transaction
    /// to broadcast.
    ///
    /// The account number and the sequence are those just read, never
    /// values kept from before. The payload is built from them and this
    /// run, signed as it is by the run's key, and put with the one
    /// signature into the envelope. The step fails with the read's failure,
    /// with `NoAccount` on an empty value, with `MalformedResponse` on bytes
    /// that are no account, with whatever refuses the payload, with
    /// `NoWallet`, `KeyNotFound` or `SigningFailure` from the signing, and
    /// with `EncodingFailure` from the envelope, in this order.
    pub fn sign(&self, ctx: &CommandContext, answer: Result<QueryResult, LedgerError>) -> (signed:
        Result<SignedTransaction, CommandError>)
        ensures
            match answer {
                Err(failure) => signed == Err::<SignedTransaction, CommandError>(
                    CommandError::Ledger(failure),
                ),
                Ok(read) => match numbers_in(read.response.value@) {
                    Err(e) => signed == Err::<SignedTransaction, CommandError>(e),
                    Ok((number, sequence)) => match payload_for(self.inputs(number, sequence)) {
                        Err(e) => signed == Err::<SignedTransaction, CommandError>(
                            CommandError::Ledger(e),
                        ),
                        Ok(payload) => match ctx.wallet {
                            None => signed == Err::<SignedTransaction, CommandError>(
                                CommandError::NoWallet,
                            ),
                            Some(vault) => if !vault.contains(self.key_alias@) {
                                signed == Err::<SignedTransaction, CommandError>(
                                    CommandError::Ledger(LedgerError::KeyNotFound),
                                )
                            } else {
                                match signature_for(
                                    vault.key_of(self.key_alias@).secret,
                                    payload.bytes,
                                ) {
                                    None => signed == Err::<SignedTransaction, CommandError>(
                                        CommandError::Ledger(LedgerError::SigningFailure),
                                    ),
                                    Some(signature) => match envelope_encoding(
                                        payload.body_bytes,
                                        payload.auth_info_bytes,
                                        seq![signature],
                                    ) {
                                        None => signed == Err::<SignedTransaction, CommandError>(
                                            CommandError::Ledger(LedgerError::EncodingFailure),
                                        ),
                                        Some(bytes) => {
                                            &&& signed.is_ok()
                                            &&& signed.unwrap().bytes@ == bytes
                                            &&& signed.unwrap().body_bytes@ == payload.body_bytes
                                            &&& signed.unwrap().auth_info_bytes@
                                                == payload.auth_info_bytes
                                            &&& signed.unwrap().signatures@.len() == 1
                                            &&& signed.unwrap().signatures@[0]@ == signature
                                        },
                                    },
                                }
                            },
                        },
                    },
                },
            },
    {
        let read = match answer {
            Ok(read) => read,
            Err(failure) => {
                return Err(CommandError::Ledger(failure));
            },
        };
        if read.response.value.len() == 0 {
            return Err(CommandError::NoAccount);
        }
        let account = match parse_response(ResponseKind::Account, read.response.value.as_slice()) {
            Ok(Response::Account(account)) => account,
            Ok(_) => {
                return Err(CommandError::Ledger(LedgerError::MalformedResponse));
            },
            Err(e) => {
                return Err(CommandError::Ledger(e));
            },
        };
        let payload = match build_signing_payload(
            self.chain_id.as_str(),
            self.public_key.as_str(),
            &self.message,
            account.account_number,
            account.sequence,
            self.max_gas,
            self.max_coin,
            self.denom.as_str(),
            self.timeout_height,
            self.memo.as_str(),
        ) {
            Ok(payload) => payload,
            Err(e) => {
                return Err(CommandError::Ledger(e));
            },
        };
        let vault = match &ctx.wallet {
            Some(vault) => vault,
            None => {
                return Err(CommandError::NoWallet);
            },
        };
        let signature = match vault.sign(self.key_alias.as_str(), payload.bytes().as_slice()) {
            Ok(signature) => signature,
            Err(e) => {
                return Err(CommandError::Ledger(e));
            },
        };
        let mut signatures: Vec<Vec<u8>> = Vec::new();
        let ghost one = signature@;
        signatures.push(signature);
        proof {
            assert(crate::tx::signature_list(signatures@) =~= seq![one]);
        }
        match assemble_envelope(&payload, signatures) {
            Ok(tx) => Ok(tx),
            Err(e) => Err(CommandError::Ledger(e)),
        }
    }
}

/// Takes what the broadcast came to and gives the number of the record that
/// was created.
///
/// A failed broadcast fails the command with the broadcast's failure, a
/// rejection by the chain with what the chain said; nothing is sent again.
/// Result data that holds no record number fails it with
/// `MalformedResponse`.
pub fn finish(outcome: Result<BroadcastResult, LedgerError>) -> (result: Result<u64, CommandError>)
    ensures
        match outcome {
            Err(failure) => result == Err::<u64, CommandError>(CommandError::Ledger(failure)),
            Ok(committed) => match parsed_nym_created(committed.data@) {
                Some(id) => result == Ok::<u64, CommandError>(id),
                None => result == Err::<u64, CommandError>(
                    CommandError::Ledger(LedgerError::MalformedResponse),
                ),
            },
        },
{
    match outcome {
        Err(failure) => Err(CommandError::Ledger(failure)),
        Ok(committed) => match parse_response(ResponseKind::NymCreated, committed.data.as_slice()) {
            Ok(Response::NymCreated(id)) => Ok(id),
            Ok(_) => Err(CommandError::Ledger(LedgerError::MalformedResponse)),
            Err(e) => Err(CommandError::Ledger(e)),
        },
    }
}

} // verus!
