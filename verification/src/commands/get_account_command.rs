//! `get-account`: reads an account from the connected pool.

use vstd::prelude::*;
use crate::client::QueryResult;
use crate::commands::get_str_param;
use crate::commands::required;
use crate::commands::CommandContext;
use crate::commands::CommandError;
use crate::commands::CommandMetadata;
use crate::commands::CommandParams;
use crate::crypto::address_payload;
use crate::error::LedgerError;
use crate::messages::account_model;
use crate::messages::parse_response;
use crate::messages::parsed_account;
use crate::messages::Account;
use crate::messages::Response;
use crate::messages::ResponseKind;
use crate::tx::account_store_key;
use crate::tx::build_query_account;
use crate::tx::QueryRequest;
use crate::tx::ACCOUNT_STORE_PATH;

verus! {

/// The description of the command: its name, what it does, its parameters
/// in the order in which they are read, and examples of its use.
pub fn new() -> (metadata: CommandMetadata)
    ensures
        metadata.name == "get-account",
        metadata.help == "Query cheqd account.",
        metadata.params@ == seq![
            required("address", "Address of account"),
        ],
        metadata.examples@ == seq![
            "cheqd-ledger get-account address=cosmos1mhl8w0xvdl3r6xf67utnqna77q0vjqgzenk7yv",
        ],
{
    let metadata = CommandMetadata::build("get-account", "Query cheqd account.")
        .add_required_param("address", "Address of account")
        .add_example("cheqd-ledger get-account address=cosmos1mhl8w0xvdl3r6xf67utnqna77q0vjqgzenk7yv")
        .finalize();
    assert(metadata.params@ =~= seq![
        required("address", "Address of account"),
    ]);
    assert(metadata.examples@ =~= seq![
        "cheqd-ledger get-account address=cosmos1mhl8w0xvdl3r6xf67utnqna77q0vjqgzenk7yv",
    ]);
    metadata
}

/// Says what to ask the connected pool: the proven read of the account at
/// the address given as `address`.
///
/// Fails with `MissingParameter` where no address was given, with `NoPool`
/// where no open pool is connected, and with `InvalidAddress` where the
/// address is not an account address.
pub fn execute(ctx: &CommandContext, params: &CommandParams) -> (result: Result<
    QueryRequest,
    CommandError,
>)
    ensures
        match result {
            Ok(request) => {
                &&& params.lookup("address"@) matches Some(address)
                &&& ctx.connected().is_some()
                &&& address_payload(address) matches Some(payload)
                &&& request.path@ == ACCOUNT_STORE_PATH@
                &&& request.data@ == account_store_key(payload)
                &&& request.prove
            },
            Err(e) => match params.lookup("address"@) {
                None => e == CommandError::MissingParameter("address"),
                Some(address) => if ctx.connected().is_none() {
                    e == CommandError::NoPool
                } else {
                    address_payload(address).is_none() && e == CommandError::Ledger(
                        LedgerError::InvalidAddress,
                    )
                },
            },
        },
{
    let address = match get_str_param("address", params) {
        Ok(address) => address,
        Err(e) => {
            return Err(e);
        },
    };
    match ctx.ensure_connected_pool() {
        Ok(_) => {},
        Err(e) => {
            return Err(e);
        },
    }
    match build_query_account(address.as_str()) {
        Ok(request) => Ok(request),
        Err(e) => Err(CommandError::Ledger(e)),
    }
}

/// What the stored value of an account query holds: no account where the
/// value is empty, else the account that the bytes are.
pub open spec fn account_in(value: Seq<u8>) -> Option<Option<crate::messages::AccountModel>> {
    if value.len() == 0 {
        Some(None)
    } else {
        match parsed_account(value) {
            Some(a) => Some(Some(a)),
            None => None,
        }
    }
}

/// Reads the account out of what the pool returned.
///
/// A failed read fails the command with the read's failure. An empty value
/// means that the ledger knows no such account. Anything else must be the
/// bytes of an account, or the command fails with `MalformedResponse`.
pub fn complete(answer: Result<QueryResult, LedgerError>) -> (result: Result<
    Option<Account>,
    CommandError,
>)
    ensures
        match answer {
            Err(failure) => result == Err::<Option<Account>, CommandError>(
                CommandError::Ledger(failure),
            ),
            Ok(read) => match account_in(read.response.value@) {
                Some(account) => result.is_ok() && account_model(result.unwrap()) == account,
                None => result == Err::<Option<Account>, CommandError>(
                    CommandError::Ledger(LedgerError::MalformedResponse),
                ),
            },
        },
{
    match answer {
        Err(failure) => Err(CommandError::Ledger(failure)),
        Ok(read) => {
            if read.response.value.len() == 0 {
                return Ok(None);
            }
            match parse_response(ResponseKind::Account, read.response.value.as_slice()) {
                Ok(Response::Account(account)) => Ok(Some(account)),
                Ok(_) => Err(CommandError::Ledger(LedgerError::MalformedResponse)),
                Err(e) => Err(CommandError::Ledger(e)),
            }
        },
    }
}

} // verus!
