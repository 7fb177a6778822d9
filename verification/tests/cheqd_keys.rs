use cheqd_ledger::commands::add_command;
use cheqd_ledger::commands::get_info_command;
use cheqd_ledger::commands::get_list_keys_command;
use cheqd_ledger::commands::CommandContext;
use cheqd_ledger::commands::CommandError;
use cheqd_ledger::commands::CommandParams;
use cheqd_ledger::commands::ParamMetadata;
use cheqd_ledger::error::LedgerError;
use cheqd_ledger::keys::KeyVault;
use cheqd_ledger::keys::SeedSource;
use k256::ecdsa::signature::Verifier;
use sha2::Digest;

const KEY_ALIAS: &str = "key_alias";
const MNEMONIC: &str = "mnemonic";
const KEY_ALIAS_WITH_BALANCE: &str = "alice";
const MNEMONIC_WITH_BALANCE: &str = "alice";

fn setup_with_wallet() -> CommandContext {
    let mut ctx = CommandContext::new();
    ctx.wallet = Some(KeyVault::new());
    ctx
}

fn setup_with_wallet_and_key() -> CommandContext {
    let mut ctx = setup_with_wallet();
    let mut params = CommandParams::new();
    params.insert("alias", KEY_ALIAS_WITH_BALANCE.to_string());
    params.insert("mnemonic", MNEMONIC_WITH_BALANCE.to_string());
    add_command::execute(&mut ctx, &params).unwrap();
    ctx
}

fn tear_down_with_wallet(ctx: CommandContext) {
    drop(ctx);
}

#[test]
fn add_random() {
    let mut ctx = setup_with_wallet();
    {
        let cmd = add_command::new();
        assert_eq!(cmd.name, "add");
        let mut params = CommandParams::new();
        params.insert("alias", KEY_ALIAS.to_string());
        add_command::execute(&mut ctx, &params).unwrap();
    }
    tear_down_with_wallet(ctx);
}

#[test]
fn add_from_mnemonic() {
    let mut ctx = setup_with_wallet();
    {
        let cmd = add_command::new();
        assert_eq!(cmd.params.len(), 2);
        let mut params = CommandParams::new();
        params.insert("alias", KEY_ALIAS.to_string());
        params.insert("mnemonic", MNEMONIC.to_string());
        add_command::execute(&mut ctx, &params).unwrap();
    }
    tear_down_with_wallet(ctx);
}

#[test]
fn get_info() {
    let ctx = setup_with_wallet_and_key();
    {
        let cmd = get_info_command::new();
        assert_eq!(cmd.name, "get-info");
        let mut params = CommandParams::new();
        params.insert("alias", KEY_ALIAS_WITH_BALANCE.to_string());
        get_info_command::execute(&ctx, &params).unwrap();
    }
    tear_down_with_wallet(ctx);
}

#[test]
fn get_list_keys() {
    let ctx = setup_with_wallet_and_key();
    {
        let cmd = get_list_keys_command::new();
        assert_eq!(cmd.name, "get-list-keys");
        let params = CommandParams::new();
        get_list_keys_command::execute(&ctx, &params).unwrap();
    }
    tear_down_with_wallet(ctx);
}

#[test]
fn add_without_wallet_fails() {
    let mut ctx = CommandContext::new();
    let mut params = CommandParams::new();
    params.insert("alias", KEY_ALIAS.to_string());
    assert_eq!(add_command::execute(&mut ctx, &params), Err(CommandError::NoWallet));
}

#[test]
fn add_without_alias_fails() {
    let mut ctx = setup_with_wallet();
    let params = CommandParams::new();
    assert_eq!(
        add_command::execute(&mut ctx, &params),
        Err(CommandError::MissingParameter("alias"))
    );
    assert_eq!(ctx.wallet.as_ref().unwrap().list_all().len(), 0);
}

#[test]
fn add_twice_is_duplicate_and_keeps_first_key() {
    let mut ctx = setup_with_wallet_and_key();
    let first = ctx.wallet.as_ref().unwrap().describe("alice").unwrap();
    let mut params = CommandParams::new();
    params.insert("alias", "alice".to_string());
    params.insert("mnemonic", "another phrase".to_string());
    for _ in 0..3 {
        assert_eq!(
            add_command::execute(&mut ctx, &params),
            Err(CommandError::Ledger(LedgerError::DuplicateAlias))
        );
        assert_eq!(ctx.wallet.as_ref().unwrap().describe("alice").unwrap(), first);
        assert_eq!(ctx.wallet.as_ref().unwrap().list_all().len(), 1);
    }
    params.insert("mnemonic", String::new());
    assert_eq!(
        add_command::execute(&mut ctx, &params),
        Err(CommandError::Ledger(LedgerError::DuplicateAlias))
    );
}

#[test]
fn get_info_of_unknown_key_fails() {
    let ctx = setup_with_wallet_and_key();
    let mut params = CommandParams::new();
    params.insert("alias", "bob".to_string());
    assert_eq!(
        get_info_command::execute(&ctx, &params),
        Err(CommandError::Ledger(LedgerError::KeyNotFound))
    );
    assert_eq!(
        get_info_command::execute(&ctx, &CommandParams::new()),
        Err(CommandError::MissingParameter("alias"))
    );
    assert_eq!(
        get_list_keys_command::execute(&CommandContext::new(), &params),
        Err(CommandError::NoWallet)
    );
}

#[test]
fn get_info_matches_what_add_returned() {
    let mut ctx = setup_with_wallet();
    let mut params = CommandParams::new();
    params.insert("alias", "carol".to_string());
    params.insert("mnemonic", "carol's phrase".to_string());
    let added = add_command::execute(&mut ctx, &params).unwrap();
    assert_eq!(added.alias, "carol");
    let shown = get_info_command::execute(&ctx, &params).unwrap();
    assert_eq!(added, shown);
    let listed = get_list_keys_command::execute(&ctx, &params).unwrap();
    assert_eq!(listed, vec![shown]);
}

#[test]
fn mnemonic_fixes_address_and_public_key_across_vaults() {
    let mut first = KeyVault::new();
    let mut second = KeyVault::new();
    let seed = SeedSource::Mnemonic("alice".to_string());
    let a = first.create("alice", &seed).unwrap();
    let b = second.create("someone else", &seed).unwrap();
    assert_eq!(a.address(), b.address());
    assert_eq!(a.public_key(), b.public_key());
    let loaded = second.load("someone else").unwrap();
    assert_eq!(loaded.address(), a.address());
    assert_eq!(loaded.public_key(), a.public_key());
    assert_eq!(loaded.alias(), "someone else");
    let other = first.create("bob", &SeedSource::Mnemonic("bob".to_string())).unwrap();
    assert_ne!(other.address(), a.address());
}

#[test]
fn key_of_mnemonic_is_the_key_of_its_digest() {
    let mut vault = KeyVault::new();
    let key = vault.create("alice", &SeedSource::Mnemonic("alice".to_string())).unwrap();
    let secret = sha2::Sha256::digest(b"alice").to_vec();
    assert_eq!(
        secret,
        vec![
            0x2b, 0xd8, 0x06, 0xc9, 0x7f, 0x0e, 0x00, 0xaf, 0x1a, 0x1f, 0xc3, 0x32, 0x8f, 0xa7,
            0x63, 0xa9, 0x26, 0x97, 0x23, 0xc8, 0xdb, 0x8f, 0xac, 0x4f, 0x93, 0xaf, 0x71, 0xdb,
            0x18, 0x6d, 0x6e, 0x90
        ]
    );
    let signing = k256::ecdsa::SigningKey::from_slice(&secret).unwrap();
    let expected_public = signing.verifying_key().to_sec1_bytes().to_vec();
    assert_eq!(key.public_key(), &expected_public);
    assert_eq!(expected_public.len(), 33);
    let expected_address = cosmrs::crypto::PublicKey::from(*signing.verifying_key())
        .account_id("cosmos")
        .unwrap()
        .to_string();
    assert_eq!(key.address(), &expected_address);
    assert!(key.address().starts_with("cosmos1"));
    let info = key.info();
    assert_eq!(info.account_id, expected_address);
    assert_eq!(rust_base58::FromBase58::from_base58(info.pub_key.as_str()).unwrap(), expected_public);
    assert_ne!(info.pub_key.as_bytes(), expected_public.as_slice());

    let mut other = KeyVault::new();
    let same = other.create_from_secret("x", secret).unwrap();
    assert_eq!(same.public_key(), key.public_key());
}

#[test]
fn random_keys_differ() {
    let mut vault = KeyVault::new();
    let a = vault.create("a", &SeedSource::Random).unwrap();
    let b = vault.create("b", &SeedSource::Random).unwrap();
    assert_ne!(a.public_key(), b.public_key());
    assert_eq!(vault.list_all().len(), 2);
    assert_eq!(vault.list_all()[0].alias, "a");
    assert_eq!(vault.list_all()[1].alias, "b");
}

#[test]
fn create_rejects_bad_input() {
    let mut vault = KeyVault::new();
    assert_eq!(
        vault.create("", &SeedSource::Random).err(),
        Some(LedgerError::InvalidAlias)
    );
    assert_eq!(
        vault.create("a", &SeedSource::Mnemonic(String::new())).err(),
        Some(LedgerError::InvalidMnemonic)
    );
    assert_eq!(
        vault.create_from_secret("a", vec![0u8; 32]).err(),
        Some(LedgerError::KeyDerivationFailure)
    );
    assert_eq!(
        vault.create_from_secret("a", vec![1u8; 40]).err(),
        Some(LedgerError::KeyDerivationFailure)
    );
    assert_eq!(vault.list_all().len(), 0);
    assert_eq!(vault.load("a").err(), Some(LedgerError::KeyNotFound));
    assert_eq!(vault.describe("a").err(), Some(LedgerError::KeyNotFound));
}

#[test]
fn sign_covers_exactly_the_payload() {
    let mut vault = KeyVault::new();
    let key = vault.create("alice", &SeedSource::Mnemonic("alice".to_string())).unwrap();
    let payload = b"bytes to sign".to_vec();
    let signature = vault.sign("alice", &payload).unwrap();
    assert_eq!(signature.len(), 64);
    assert_ne!(signature, payload);
    assert_eq!(vault.sign("alice", &payload).unwrap(), signature);
    let verifying = k256::ecdsa::VerifyingKey::from_sec1_bytes(key.public_key()).unwrap();
    let parsed = k256::ecdsa::Signature::from_slice(&signature).unwrap();
    assert!(verifying.verify(&payload, &parsed).is_ok());
    assert!(verifying.verify(b"bytes to sigm", &parsed).is_err());
    assert_eq!(vault.sign("bob", &payload), Err(LedgerError::KeyNotFound));
    assert_eq!(vault.list_all().len(), 1);
}

#[test]
fn key_commands_describe_their_parameters() {
    let add = add_command::new();
    assert_eq!(add.name, "add");
    assert_eq!(add.help, "Add key to wallet.");
    assert_eq!(
        add.params,
        vec![
            ParamMetadata { name: "alias", help: "Alias of key.", required: true },
            ParamMetadata {
                name: "mnemonic",
                help: "Mnemonic phrase for creation key.",
                required: false
            },
        ]
    );
    assert_eq!(add.examples.len(), 2);
    let info = get_info_command::new();
    assert_eq!(
        info.params,
        vec![ParamMetadata { name: "alias", help: "Alias of key.", required: true }]
    );
    assert_eq!(info.examples, vec!["cheqd-keys get-info alias=my_key"]);
    let list = get_list_keys_command::new();
    assert!(list.params.is_empty());
    assert_eq!(list.examples, vec!["cheqd-keys get-list-keys"]);
}

#[test]
fn empty_mnemonic_is_refused_under_a_free_alias() {
    let mut ctx = setup_with_wallet();
    let mut params = CommandParams::new();
    params.insert("alias", "fresh".to_string());
    params.insert("mnemonic", String::new());
    assert_eq!(
        add_command::execute(&mut ctx, &params),
        Err(CommandError::Ledger(LedgerError::InvalidMnemonic))
    );
    params.insert("alias", String::new());
    assert_eq!(
        add_command::execute(&mut ctx, &params),
        Err(CommandError::Ledger(LedgerError::InvalidAlias))
    );
    assert_eq!(ctx.wallet.as_ref().unwrap().list_all().len(), 0);
}
