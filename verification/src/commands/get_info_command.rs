//! `get-info`: shows the public description of one key.

use vstd::prelude::*;
use crate::commands::get_str_param;
use crate::commands::required;
use crate::commands::CommandContext;
use crate::commands::CommandError;
use crate::commands::CommandMetadata;
use crate::commands::CommandParams;
use crate::error::LedgerError;
use crate::keys::description;
use crate::keys::KeyInfo;

verus! {

/// The description of the command: its name, what it does, its parameters
/// in the order in which they are read, and examples of its use.
pub fn new() -> (metadata: CommandMetadata)
    ensures
        metadata.name == "get-info",
        metadata.help == "Get info about key.",
        metadata.params@ == seq![
            required("alias", "Alias of key."),
        ],
        metadata.examples@ == seq![
            "cheqd-keys get-info alias=my_key",
        ],
{
    let metadata = CommandMetadata::build("get-info", "Get info about key.")
        .add_required_param("alias", "Alias of key.")
        .add_example("cheqd-keys get-info alias=my_key")
        .finalize();
    assert(metadata.params@ =~= seq![
        required("alias", "Alias of key."),
    ]);
    assert(metadata.examples@ =~= seq![
        "cheqd-keys get-info alias=my_key",
    ]);
    metadata
}

/// Gives the public description of the key stored under the alias given as
/// `alias`.
///
/// Fails with `NoWallet` where no wallet is open, with `MissingParameter`
/// where no alias was given, and with `KeyNotFound` where the wallet holds
/// no such key.
pub fn execute(ctx: &CommandContext, params: &CommandParams) -> (result: Result<
    KeyInfo,
    CommandError,
>)
    ensures
        match result {
            Ok(info) => {
                &&& ctx.wallet matches Some(vault)
                &&& params.lookup("alias"@) matches Some(alias)
                &&& vault.contains(alias)
                &&& info@ == description(vault.key_of(alias))
            },
            Err(e) => match ctx.wallet {
                None => e == CommandError::NoWallet,
                Some(vault) => match params.lookup("alias"@) {
                    None => e == CommandError::MissingParameter("alias"),
                    Some(alias) => !vault.contains(alias) && e == CommandError::Ledger(
                        LedgerError::KeyNotFound,
                    ),
                },
            },
        },
{
    let vault = match &ctx.wallet {
        Some(vault) => vault,
        None => {
            return Err(CommandError::NoWallet);
        },
    };
    let alias = match get_str_param("alias", params) {
        Ok(alias) => alias,
        Err(e) => {
            return Err(e);
        },
    };
    match vault.describe(alias.as_str()) {
        Ok(info) => Ok(info),
        Err(e) => Err(CommandError::Ledger(e)),
    }
}

} // verus!
