use cheqd_ledger::client::broadcast_outcome;
use cheqd_ledger::client::BroadcastEvent;
use cheqd_ledger::client::BroadcastResult;
use cheqd_ledger::client::TxOutcome;
use cheqd_ledger::error::LedgerError;
use cheqd_ledger::keys::KeyVault;
use cheqd_ledger::keys::SeedSource;
use cheqd_ledger::tx::assemble_envelope;
use cheqd_ledger::tx::build_query_account;
use cheqd_ledger::tx::build_query_get_nym;
use cheqd_ledger::tx::build_signing_payload;
use cheqd_ledger::tx::valid_chain_id;
use cheqd_ledger::tx::valid_denom;
use cheqd_ledger::tx::Message;
use cheqd_ledger::tx::SigningPayload;
use cheqd_ledger::wire::encode;
use cheqd_ledger::wire::Field;
use cheqd_ledger::wire::WireValue;
use std::str::FromStr;

fn signer() -> (KeyVault, String) {
    let mut vault = KeyVault::new();
    let key = vault.create("alice", &SeedSource::Mnemonic("alice".to_string())).unwrap();
    let public = key.info().pub_key;
    (vault, public)
}

fn message() -> Message {
    Message { type_url: "/cheqdid.cheqdnode.cheqd.MsgCreateNym".to_string(), value: vec![1, 2, 3] }
}

fn payload(
    public: &str,
    account_number: u64,
    sequence: u64,
    timeout: u64,
    memo: &str,
) -> Result<SigningPayload, LedgerError> {
    build_signing_payload(
        "cheqd-testnet",
        public,
        &message(),
        account_number,
        sequence,
        300000,
        100,
        "cheq",
        timeout,
        memo,
    )
}

#[test]
fn payload_is_the_sign_doc_of_the_chain_library() {
    let (vault, public) = signer();
    let built = payload(&public, 11, 7, 1000, "memo").unwrap();

    let key_bytes = vault.load("alice").unwrap().public_key().clone();
    let verifying = k256::ecdsa::VerifyingKey::from_sec1_bytes(&key_bytes).unwrap();
    let height = cosmrs::tendermint::block::Height::try_from(1000u64).unwrap();
    let any = cosmrs::Any {
        type_url: "/cheqdid.cheqdnode.cheqd.MsgCreateNym".to_string(),
        value: vec![1, 2, 3],
    };
    let body = cosmrs::tx::Body::new(vec![any], "memo", height);
    let signer_info = cosmrs::tx::SignerInfo::single_direct(Some(verifying.into()), 7);
    let coin = cosmrs::Coin { denom: cosmrs::Denom::from_str("cheq").unwrap(), amount: 100 };
    let auth_info = signer_info.auth_info(cosmrs::tx::Fee::from_amount_and_gas(coin, 300000u64));
    let chain_id = cosmrs::tendermint::chain::Id::try_from("cheqd-testnet").unwrap();
    let sign_doc = cosmrs::tx::SignDoc::new(&body, &auth_info, &chain_id, 11).unwrap();

    assert_eq!(built.body_bytes(), &sign_doc.body_bytes);
    assert_eq!(built.auth_info_bytes(), &sign_doc.auth_info_bytes);
    assert_eq!(built.bytes(), &sign_doc.into_bytes().unwrap());
    assert_eq!(built.signers(), 1);
    assert!(built.bytes().len() > built.body_bytes().len() + built.auth_info_bytes().len());
}

#[test]
fn payload_is_deterministic_and_sensitive_to_every_input() {
    let (_, public) = signer();
    let base = payload(&public, 11, 7, 1000, "memo").unwrap();
    assert_eq!(payload(&public, 11, 7, 1000, "memo").unwrap().bytes(), base.bytes());
    assert_ne!(payload(&public, 10, 7, 1000, "memo").unwrap().bytes(), base.bytes());
    assert_ne!(payload(&public, 11, 6, 1000, "memo").unwrap().bytes(), base.bytes());
    assert_ne!(payload(&public, 11, 7, 1001, "memo").unwrap().bytes(), base.bytes());
    assert_ne!(payload(&public, 11, 7, 1000, "memp").unwrap().bytes(), base.bytes());
    let other_chain = build_signing_payload(
        "cheqd-testneu", &public, &message(), 11, 7, 300000, 100, "cheq", 1000, "memo",
    )
    .unwrap();
    assert_ne!(other_chain.bytes(), base.bytes());
    let other_gas = build_signing_payload(
        "cheqd-testnet", &public, &message(), 11, 7, 300001, 100, "cheq", 1000, "memo",
    )
    .unwrap();
    assert_ne!(other_gas.bytes(), base.bytes());
    let other_coin = build_signing_payload(
        "cheqd-testnet", &public, &message(), 11, 7, 300000, 101, "cheq", 1000, "memo",
    )
    .unwrap();
    assert_ne!(other_coin.bytes(), base.bytes());
    let other_denom = build_signing_payload(
        "cheqd-testnet", &public, &message(), 11, 7, 300000, 100, "cher", 1000, "memo",
    )
    .unwrap();
    assert_ne!(other_denom.bytes(), base.bytes());
    let mut changed = message();
    changed.value[0] ^= 1;
    let other_message = build_signing_payload(
        "cheqd-testnet", &public, &changed, 11, 7, 300000, 100, "cheq", 1000, "memo",
    )
    .unwrap();
    assert_ne!(other_message.bytes(), base.bytes());
}

#[test]
fn empty_memo_and_zero_values_are_accepted() {
    let (_, public) = signer();
    let plain = payload(&public, 0, 0, 0, "").unwrap();
    assert_eq!(payload(&public, 0, 0, 0, "").unwrap().bytes(), plain.bytes());
    assert_ne!(payload(&public, 0, 0, 0, " ").unwrap().bytes(), plain.bytes());
    assert_ne!(payload(&public, 0, 0, 1, "").unwrap().bytes(), plain.bytes());
    let tx = assemble_envelope(&plain, vec![vec![9u8; 64]]).unwrap();
    let read = cosmrs::Tx::from_bytes(&tx.bytes).unwrap();
    assert_eq!(read.body.memo, "");
    assert_eq!(read.body.timeout_height.value(), 0);
    assert_eq!(read.auth_info.signer_infos[0].sequence, 0);
}

#[test]
fn payload_rejects_bad_input() {
    let (_, public) = signer();
    assert_eq!(
        payload(&public, 1, 1, 0x8000_0000_0000_0000, "").err(),
        Some(LedgerError::InvalidHeight)
    );
    assert_eq!(payload(&public, 1, 1, u64::MAX, "").err(), Some(LedgerError::InvalidHeight));
    assert!(payload(&public, 1, 1, 0x7fff_ffff_ffff_ffff, "").is_ok());
    assert_eq!(
        payload("not base58 0OIl", 1, 1, u64::MAX, "").err(),
        Some(LedgerError::InvalidHeight)
    );
    assert_eq!(
        payload("not base58 0OIl", 1, 1, 10, "").err(),
        Some(LedgerError::InvalidPublicKey)
    );
    assert_eq!(payload("3yZe7d", 1, 1, 10, "").err(), Some(LedgerError::InvalidPublicKey));
    assert_eq!(payload("", 1, 1, 10, "").err(), Some(LedgerError::InvalidPublicKey));
    let bad_denom = build_signing_payload(
        "cheqd-testnet", &public, &message(), 1, 1, 10, 10, "ab", 10, "",
    );
    assert_eq!(bad_denom.err(), Some(LedgerError::InvalidDenom));
    let bad_chain = build_signing_payload("", &public, &message(), 1, 1, 10, 10, "cheq", 10, "");
    assert_eq!(bad_chain.err(), Some(LedgerError::InvalidChainId));
    let both = build_signing_payload("", &public, &message(), 1, 1, 10, 10, "c", 10, "");
    assert_eq!(both.err(), Some(LedgerError::InvalidDenom));
}

#[test]
fn naming_rules_are_those_of_the_chain_library() {
    let long = "a".repeat(128);
    let too_long = "a".repeat(129);
    let fifty = "c".repeat(50);
    let fifty_one = "c".repeat(51);
    for denom in [
        "cheq", "abc", "ab", "", "a/b:c.d_e-f", "ibc/9F53D255F5", "has space", "ché", "CHEQ",
        "a+b", long.as_str(), too_long.as_str(), "12", "123",
    ] {
        assert_eq!(valid_denom(denom), cosmrs::Denom::from_str(denom).is_ok(), "{}", denom);
    }
    for id in [
        "cheqd-testnet", "", "a", "gaia_9000.x", "has space", "slash/", "ché", fifty.as_str(),
        fifty_one.as_str(), "UPPER-1", "colon:",
    ] {
        assert_eq!(
            valid_chain_id(id),
            cosmrs::tendermint::chain::Id::try_from(id).is_ok(),
            "{}",
            id
        );
    }
    assert!(valid_denom("cheq"));
    assert!(!valid_denom("ab"));
    assert!(valid_chain_id("cheqd-testnet"));
    assert!(!valid_chain_id(""));
}

#[test]
fn envelope_carries_what_was_signed() {
    let (vault, public) = signer();
    let built = payload(&public, 11, 7, 1000, "memo").unwrap();
    let signature = vault.sign("alice", built.bytes()).unwrap();
    let tx = assemble_envelope(&built, vec![signature.clone()]).unwrap();
    assert_eq!(&tx.body_bytes, built.body_bytes());
    assert_eq!(&tx.auth_info_bytes, built.auth_info_bytes());
    assert_eq!(tx.signatures, vec![signature.clone()]);

    let read = cosmrs::Tx::from_bytes(&tx.bytes).unwrap();
    assert_eq!(read.body.memo, "memo");
    assert_eq!(read.body.timeout_height.value(), 1000);
    assert_eq!(read.body.messages.len(), 1);
    assert_eq!(read.body.messages[0].value, vec![1, 2, 3]);
    assert_eq!(read.auth_info.signer_infos.len(), 1);
    assert_eq!(read.auth_info.signer_infos[0].sequence, 7);
    assert_eq!(read.auth_info.fee.gas_limit, 300000);
    assert_eq!(read.auth_info.fee.amount[0].amount, 100);
    assert_eq!(read.signatures, vec![signature.clone()]);

    let key_bytes = vault.load("alice").unwrap().public_key().clone();
    let verifying = k256::ecdsa::VerifyingKey::from_sec1_bytes(&key_bytes).unwrap();
    let parsed = k256::ecdsa::Signature::from_slice(&signature).unwrap();
    let sign_doc = cosmrs::tx::SignDoc {
        body_bytes: tx.body_bytes.clone(),
        auth_info_bytes: tx.auth_info_bytes.clone(),
        chain_id: "cheqd-testnet".to_string(),
        account_number: 11,
    };
    assert!(k256::ecdsa::signature::Verifier::verify(
        &verifying,
        &sign_doc.into_bytes().unwrap(),
        &parsed
    )
    .is_ok());
}

#[test]
fn envelope_needs_one_signature_per_signer() {
    let (_, public) = signer();
    let built = payload(&public, 11, 7, 1000, "memo").unwrap();
    assert_eq!(
        assemble_envelope(&built, Vec::new()).err(),
        Some(LedgerError::SignerCountMismatch)
    );
    assert_eq!(
        assemble_envelope(&built, vec![vec![1], vec![2]]).err(),
        Some(LedgerError::SignerCountMismatch)
    );
    assert!(assemble_envelope(&built, vec![vec![1]]).is_ok());
}

#[test]
fn account_query_is_the_store_key() {
    let request = build_query_account("cosmos1mhl8w0xvdl3r6xf67utnqna77q0vjqgzenk7yv").unwrap();
    assert_eq!(request.path, "/store/acc/key");
    assert!(request.prove);
    assert_eq!(request.height, None);
    let id = cosmrs::AccountId::from_str("cosmos1mhl8w0xvdl3r6xf67utnqna77q0vjqgzenk7yv").unwrap();
    let mut expected = vec![1u8];
    expected.extend_from_slice(&id.to_bytes());
    assert_eq!(request.data, expected);
    assert_eq!(request.data.len(), 21);
    assert_eq!(build_query_account("not an address").err(), Some(LedgerError::InvalidAddress));
    assert_eq!(build_query_account("").err(), Some(LedgerError::InvalidAddress));
}

#[test]
fn nym_query_is_the_store_key() {
    let request = build_query_get_nym(9999999);
    assert_eq!(request.path, "/store/cheqd/key");
    let mut expected = b"Nym-value-".to_vec();
    expected.extend_from_slice(&9999999u64.to_be_bytes());
    assert_eq!(request.data, expected);
    assert_eq!(&request.data[10..], &[0, 0, 0, 0, 0, 0x98, 0x96, 0x7f]);
    assert_eq!(&build_query_get_nym(u64::MAX).data[10..], &[0xff; 8]);
    assert_eq!(&build_query_get_nym(0).data[10..], &[0; 8]);
    assert_eq!(
        &build_query_get_nym(0x0102030405060708).data[10..],
        &[1, 2, 3, 4, 5, 6, 7, 8]
    );
}

#[test]
fn broadcast_outcomes() {
    let fine = TxOutcome { code: 0, log: String::new(), data: vec![8, 1] };
    assert_eq!(broadcast_outcome(BroadcastEvent::TimedOut), Err(LedgerError::BroadcastTimeout));
    assert_eq!(
        broadcast_outcome(BroadcastEvent::Committed {
            check_tx: TxOutcome { code: 0, log: String::new(), data: Vec::new() },
            deliver_tx: fine.clone(),
            height: 12,
        }),
        Ok(BroadcastResult { height: 12, data: vec![8, 1] })
    );
    assert_eq!(
        broadcast_outcome(BroadcastEvent::Committed {
            check_tx: TxOutcome { code: 32, log: "account sequence mismatch".to_string(), data: Vec::new() },
            deliver_tx: TxOutcome { code: 5, log: "later".to_string(), data: Vec::new() },
            height: 0,
        }),
        Err(LedgerError::BroadcastRejected { code: 32, log: "account sequence mismatch".to_string() })
    );
    assert_eq!(
        broadcast_outcome(BroadcastEvent::Committed {
            check_tx: TxOutcome { code: 0, log: "ok".to_string(), data: Vec::new() },
            deliver_tx: TxOutcome { code: 13, log: "insufficient fee".to_string(), data: vec![1] },
            height: 12,
        }),
        Err(LedgerError::BroadcastRejected { code: 13, log: "insufficient fee".to_string() })
    );
}

fn bytes_field(number: u32, bytes: &[u8]) -> Field {
    Field { number, value: WireValue::Bytes(bytes.to_vec()) }
}

#[test]
fn body_and_signed_bytes_are_numbered_fields() {
    let (vault, public) = signer();
    let built = payload(&public, 11, 7, 1000, "memo").unwrap();
    let wrapped = encode(&vec![
        bytes_field(1, b"/cheqdid.cheqdnode.cheqd.MsgCreateNym"),
        bytes_field(2, &[1, 2, 3]),
    ]);
    let body = encode(&vec![
        bytes_field(1, &wrapped),
        bytes_field(2, b"memo"),
        Field { number: 3, value: WireValue::Varint(1000) },
    ]);
    assert_eq!(built.body_bytes(), &body);
    let signed = encode(&vec![
        bytes_field(1, &body),
        bytes_field(2, built.auth_info_bytes()),
        bytes_field(3, b"cheqd-testnet"),
        Field { number: 4, value: WireValue::Varint(11) },
    ]);
    assert_eq!(built.bytes(), &signed);

    let plain = payload(&public, 0, 0, 0, "").unwrap();
    let plain_body = encode(&vec![bytes_field(1, &wrapped)]);
    assert_eq!(plain.body_bytes(), &plain_body);
    let plain_signed = encode(&vec![
        bytes_field(1, &plain_body),
        bytes_field(2, plain.auth_info_bytes()),
        bytes_field(3, b"cheqd-testnet"),
    ]);
    assert_eq!(plain.bytes(), &plain_signed);

    let empty_message = Message { type_url: String::new(), value: Vec::new() };
    let bare = build_signing_payload(
        "c", &public, &empty_message, 0, 0, 0, 0, "cheq", 0, "",
    )
    .unwrap();
    assert_eq!(bare.body_bytes(), &vec![0x0a, 0x00]);

    let signature = vault.sign("alice", built.bytes()).unwrap();
    let tx = assemble_envelope(&built, vec![signature.clone()]).unwrap();
    let envelope = encode(&vec![
        bytes_field(1, &body),
        bytes_field(2, built.auth_info_bytes()),
        bytes_field(3, &signature),
    ]);
    assert_eq!(tx.bytes, envelope);
    let unsigned = assemble_envelope(&built, vec![Vec::new()]).unwrap();
    let with_empty = encode(&vec![
        bytes_field(1, &body),
        bytes_field(2, built.auth_info_bytes()),
        bytes_field(3, &[]),
    ]);
    assert_eq!(unsigned.bytes, with_empty);
}
