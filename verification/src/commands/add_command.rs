//! `add`: adds a key to the open wallet, from a mnemonic where one is given
//! and from fresh randomness otherwise.

use vstd::prelude::*;
use crate::commands::get_opt_str_param;
use crate::commands::get_str_param;
use crate::commands::required;
use crate::commands::optional;
use crate::commands::CommandContext;
use crate::commands::CommandError;
use crate::commands::CommandMetadata;
use crate::commands::CommandParams;
use crate::error::LedgerError;
use crate::keys::derived;
use crate::keys::description;
use crate::keys::mnemonic_secret;
use crate::keys::KeyInfo;
use crate::keys::KeyVault;
use crate::keys::SeedSource;

verus! {

/// The description of the command: its name, what it does, its parameters
/// in the order in which they are read, and examples of its use.
pub fn new() -> (metadata: CommandMetadata)
    ensures
        metadata.name == "add",
        metadata.help == "Add key to wallet.",
        metadata.params@ == seq![
            required("alias", "Alias of key."),
            optional("mnemonic", "Mnemonic phrase for creation key."),
        ],
        metadata.examples@ == seq![
            "cheqd-keys add alias=my_key",
            "cheqd-keys add alias=my_key mnemonic=my_mnemonic",
        ],
{
    let metadata = CommandMetadata::build("add", "Add key to wallet.")
        .add_required_param("alias", "Alias of key.")
        .add_optional_param("mnemonic", "Mnemonic phrase for creation key.")
        .add_example("cheqd-keys add alias=my_key")
        .add_example("cheqd-keys add alias=my_key mnemonic=my_mnemonic")
        .finalize();
    assert(metadata.params@ =~= seq![
        required("alias", "Alias of key."),
        optional("mnemonic", "Mnemonic phrase for creation key."),
    ]);
    assert(metadata.examples@ =~= seq![
        "cheqd-keys add alias=my_key",
        "cheqd-keys add alias=my_key mnemonic=my_mnemonic",
    ]);
    metadata
}

/// Whether two contexts hold the same wallet, or both none.
pub open spec fn same_wallet(a: Option<KeyVault>, b: Option<KeyVault>) -> bool {
    match (a, b) {
        (Some(x), Some(y)) => x.same_as(&y),
        (None, None) => true,
        _ => false,
    }
}

/// Adds a key under the alias given as `alias` and gives its public
/// description.
///
/// Fails with `NoWallet` where no wallet is open, with `MissingParameter`
/// where no alias was given, with `InvalidAlias` on an empty alias, with
/// `DuplicateAlias` where the alias is taken, with `InvalidMnemonic` on an
/// empty mnemonic, and with `KeyDerivationFailure` where the secret derives
/// no key: with a mnemonic that is exactly where the mnemonic's secret
/// derives none, so every other mnemonic under a free alias gives a key. A
/// failed command leaves the wallet as it was; pools are never touched.
pub fn execute(ctx: &mut CommandContext, params: &CommandParams) -> (result: Result<
    KeyInfo,
    CommandError,
>)
    ensures
        final(ctx).pools == old(ctx).pools,
        final(ctx).connected_pool == old(ctx).connected_pool,
        old(ctx).wallet.is_none() ==> result == Err::<KeyInfo, CommandError>(CommandError::NoWallet),
        old(ctx).wallet.is_some() && params.lookup("alias"@).is_none() ==> result == Err::<
            KeyInfo,
            CommandError,
        >(CommandError::MissingParameter("alias")),
        match result {
            Ok(info) => {
                &&& old(ctx).wallet matches Some(before)
                &&& final(ctx).wallet matches Some(after)
                &&& params.lookup("alias"@) matches Some(alias)
                &&& alias.len() > 0
                &&& !before.contains(alias)
                &&& after.aliases() == before.aliases().push(alias)
                &&& after.contains(alias)
                &&& info@ == description(after.key_of(alias))
                &&& after.keys() == before.keys().push(after.key_of(alias))
                &&& params.lookup("mnemonic"@) matches Some(phrase) ==> derived(
                    alias,
                    mnemonic_secret(phrase),
                ) == Some(after.key_of(alias))
            },
            Err(e) => {
                &&& same_wallet(final(ctx).wallet, old(ctx).wallet)
                &&& match old(ctx).wallet {
                    None => e == CommandError::NoWallet,
                    Some(before) => match params.lookup("alias"@) {
                        None => e == CommandError::MissingParameter("alias"),
                        Some(alias) => if alias.len() == 0 {
                            e == CommandError::Ledger(LedgerError::InvalidAlias)
                        } else if before.contains(alias) {
                            e == CommandError::Ledger(LedgerError::DuplicateAlias)
                        } else {
                            match params.lookup("mnemonic"@) {
                                Some(phrase) => if phrase.len() == 0 {
                                    e == CommandError::Ledger(LedgerError::InvalidMnemonic)
                                } else {
                                    e == CommandError::Ledger(LedgerError::KeyDerivationFailure)
                                        && derived(alias, mnemonic_secret(phrase)).is_none()
                                },
                                None => e == CommandError::Ledger(
                                    LedgerError::KeyDerivationFailure,
                                ),
                            }
                        },
                    },
                }
            },
        },
{
    let mut vault = match ctx.wallet.take() {
        Some(vault) => vault,
        None => {
            return Err(CommandError::NoWallet);
        },
    };
    let alias = match get_str_param("alias", params) {
        Ok(alias) => alias,
        Err(e) => {
            ctx.wallet = Some(vault);
            return Err(e);
        },
    };
    let seed = match get_opt_str_param("mnemonic", params) {
        Some(phrase) => SeedSource::Mnemonic(phrase.clone()),
        None => SeedSource::Random,
    };
    let created = vault.create(alias.as_str(), &seed);
    let result = match created {
        Ok(key) => Ok(key.info()),
        Err(e) => Err(CommandError::Ledger(e)),
    };
    ctx.wallet = Some(vault);
    result
}

} // verus!
