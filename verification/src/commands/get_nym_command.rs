//! `get-nym`: reads a named record from the connected pool.

use vstd::prelude::*;
use crate::client::QueryResult;
use crate::commands::get_str_param;
use crate::commands::parse_u64;
use crate::commands::parsed_u64;
use crate::commands::required;
use crate::commands::CommandContext;
use crate::commands::CommandError;
use crate::commands::CommandMetadata;
use crate::commands::CommandParams;
use crate::error::LedgerError;
use crate::messages::parse_response;
use crate::messages::parsed_nym;
use crate::messages::Nym;
use crate::messages::Response;
use crate::messages::ResponseKind;
use crate::tx::build_query_get_nym;
use crate::tx::nym_store_key;
use crate::tx::QueryRequest;
use crate::tx::NYM_STORE_PATH;

verus! {

/// The description of the command: its name, what it does, its parameters
/// in the order in which they are read, and examples of its use.
pub fn new() -> (metadata: CommandMetadata)
    ensures
        metadata.name == "get-nym",
        metadata.help == "Get nym from Ledger.",
        metadata.params@ == seq![
            required("id", "Unique identifier for NYM"),
        ],
        metadata.examples@ == seq![
            "cheqd-ledger get-nym id=0",
        ],
{
    let metadata = CommandMetadata::build("get-nym", "Get nym from Ledger.")
        .add_required_param("id", "Unique identifier for NYM")
        .add_example("cheqd-ledger get-nym id=0")
        .finalize();
    assert(metadata.params@ =~= seq![
        required("id", "Unique identifier for NYM"),
    ]);
    assert(metadata.examples@ =~= seq![
        "cheqd-ledger get-nym id=0",
    ]);
    metadata
}

/// Says what to ask the connected pool: the proven read of the named record
/// whose number is given as `id`.
///
/// Fails with `MissingParameter` where no id was given, with
/// `InvalidParameter` where it is no unsigned integer, and with `NoPool`
/// where no open pool is connected.
pub fn execute(ctx: &CommandContext, params: &CommandParams) -> (result: Result<
    QueryRequest,
    CommandError,
>)
    ensures
        match result {
            Ok(request) => {
                &&& params.lookup("id"@) matches Some(text)
                &&& parsed_u64(text) matches Some(id)
                &&& ctx.connected().is_some()
                &&& request.path@ == NYM_STORE_PATH@
                &&& request.data@ == nym_store_key(id)
                &&& request.prove
            },
            Err(e) => match params.lookup("id"@) {
                None => e == CommandError::MissingParameter("id"),
                Some(text) => if parsed_u64(text).is_none() {
                    e == CommandError::InvalidParameter("id")
                } else {
                    ctx.connected().is_none() && e == CommandError::NoPool
                },
            },
        },
{
    let text = match get_str_param("id", params) {
        Ok(text) => text,
        Err(e) => {
            return Err(e);
        },
    };
    let id = match parse_u64(text.as_str()) {
        Some(id) => id,
        None => {
            return Err(CommandError::InvalidParameter("id"));
        },
    };
    match ctx.ensure_connected_pool() {
        Ok(_) => {},
        Err(e) => {
            return Err(e);
        },
    }
    Ok(build_query_get_nym(id))
}

/// Reads the named record out of what the pool returned.
///
/// A failed read fails the command with the read's failure; bytes that are
/// no named record fail it with `MalformedResponse`.
pub fn complete(answer: Result<QueryResult, LedgerError>) -> (result: Result<Nym, CommandError>)
    ensures
        match answer {
            Err(failure) => result == Err::<Nym, CommandError>(CommandError::Ledger(failure)),
            Ok(read) => match parsed_nym(read.response.value@) {
                Some(nym) => result.is_ok() && result.unwrap()@ == nym,
                None => result == Err::<Nym, CommandError>(
                    CommandError::Ledger(LedgerError::MalformedResponse),
                ),
            },
        },
{
    match answer {
        Err(failure) => Err(CommandError::Ledger(failure)),
        Ok(read) => match parse_response(ResponseKind::Nym, read.response.value.as_slice()) {
            Ok(Response::Nym(nym)) => Ok(nym),
            Ok(_) => Err(CommandError::Ledger(LedgerError::MalformedResponse)),
            Err(e) => Err(CommandError::Ledger(e)),
        },
    }
}

} // verus!
