//! `get-list-keys`: lists the public descriptions of all keys of the open
//! wallet.

use vstd::prelude::*;
use crate::commands::CommandContext;
use crate::commands::CommandError;
use crate::commands::CommandMetadata;
use crate::commands::CommandParams;
use crate::commands::ParamMetadata;
use crate::keys::description;
use crate::keys::KeyInfo;

verus! {

/// The description of the command: its name, what it does, its parameters
/// in the order in which they are read, and examples of its use.
pub fn new() -> (metadata: CommandMetadata)
    ensures
        metadata.name == "get-list-keys",
        metadata.help == "Get list keys of current wallet.",
        metadata.params@ == Seq::<ParamMetadata>::empty(),
        metadata.examples@ == seq![
            "cheqd-keys get-list-keys",
        ],
{
    let metadata = CommandMetadata::build("get-list-keys", "Get list keys of current wallet.")
        .add_example("cheqd-keys get-list-keys")
        .finalize();
    assert(metadata.params@ =~= Seq::<ParamMetadata>::empty());
    assert(metadata.examples@ =~= seq![
        "cheqd-keys get-list-keys",
    ]);
    metadata
}

/// Gives the public descriptions of all keys, in the order in which they
/// were stored. Fails with `NoWallet`, and only so, where no wallet is
/// open. Parameters are not looked at.
pub fn execute(ctx: &CommandContext, params: &CommandParams) -> (result: Result<
    Vec<KeyInfo>,
    CommandError,
>)
    ensures
        match result {
            Ok(infos) => {
                &&& ctx.wallet matches Some(vault)
                &&& infos@.len() == vault.keys().len()
                &&& forall|i: int|
                    0 <= i < infos@.len() ==> (#[trigger] infos@[i])@ == description(vault.keys()[i])
            },
            Err(e) => ctx.wallet.is_none() && e == CommandError::NoWallet,
        },
{
    match &ctx.wallet {
        Some(vault) => Ok(vault.list_all()),
        None => Err(CommandError::NoWallet),
    }
}

} // verus!
