use cheqd_ledger::coin::Coin;
use cheqd_ledger::error::LedgerError;
use cheqd_ledger::messages::build_query;
use cheqd_ledger::messages::build_query_account_without_proof;
use cheqd_ledger::messages::QueryKind;
use cheqd_ledger::messages::encode_response;
use cheqd_ledger::messages::parse_response;
use cheqd_ledger::messages::Account;
use cheqd_ledger::messages::MsgCreateNym;
use cheqd_ledger::messages::Nym;
use cheqd_ledger::messages::Response;
use cheqd_ledger::messages::ResponseKind;
use cheqd_ledger::wire::decode;
use cheqd_ledger::wire::encode;
use cheqd_ledger::wire::take_varint;
use cheqd_ledger::wire::write_varint;
use cheqd_ledger::wire::Field;
use cheqd_ledger::wire::WireValue;
use cosmrs::proto::traits::Message;

fn varint_of(v: u64) -> Vec<u8> {
    let mut out = Vec::new();
    write_varint(&mut out, v);
    out
}

#[test]
fn varint_known_values() {
    assert_eq!(varint_of(0), vec![0x00]);
    assert_eq!(varint_of(1), vec![0x01]);
    assert_eq!(varint_of(127), vec![0x7f]);
    assert_eq!(varint_of(128), vec![0x80, 0x01]);
    assert_eq!(varint_of(300), vec![0xac, 0x02]);
    assert_eq!(
        varint_of(u64::MAX),
        vec![0xff, 0xff, 0xff, 0xff, 0xff, 0xff, 0xff, 0xff, 0xff, 0x01]
    );
}

#[test]
fn varint_reads_back() {
    for v in [0u64, 1, 127, 128, 255, 256, 300, 16383, 16384, 1 << 32, u64::MAX - 1, u64::MAX] {
        let mut bytes = vec![0xaa, 0xbb];
        write_varint(&mut bytes, v);
        let end = bytes.len();
        bytes.push(0x05);
        assert_eq!(take_varint(&bytes, 2), Some((v, end)));
    }
}

#[test]
fn varint_rejects_bad_input() {
    assert_eq!(take_varint(&[], 0), None);
    assert_eq!(take_varint(&[0x01], 1), None);
    assert_eq!(take_varint(&[0x01], 7), None);
    assert_eq!(take_varint(&[0x80], 0), None);
    assert_eq!(take_varint(&[0x80, 0x80], 0), None);
    assert_eq!(
        take_varint(&[0xff, 0xff, 0xff, 0xff, 0xff, 0xff, 0xff, 0xff, 0xff, 0x02], 0),
        None
    );
    assert_eq!(
        take_varint(&[0x80, 0x80, 0x80, 0x80, 0x80, 0x80, 0x80, 0x80, 0x80, 0x80, 0x00], 0),
        None
    );
    assert_eq!(take_varint(&[0x80, 0x00], 0), Some((0, 2)));
}

#[test]
fn fields_round_trip() {
    let fields = vec![
        Field { number: 1, value: WireValue::Bytes(b"abc".to_vec()) },
        Field { number: 2, value: WireValue::Varint(150) },
        Field { number: 0x1fff_ffff, value: WireValue::Bytes(Vec::new()) },
        Field { number: 2, value: WireValue::Varint(0) },
    ];
    let bytes = encode(&fields);
    assert_eq!(&bytes[..8], &[0x0a, 0x03, b'a', b'b', b'c', 0x10, 0x96, 0x01]);
    assert_eq!(decode(&bytes), Some(fields));
    assert_eq!(decode(&[]), Some(Vec::new()));
}

#[test]
fn decode_rejects_malformed() {
    assert_eq!(decode(&[0x0a]), None);
    assert_eq!(decode(&[0x0a, 0x05, 0x01]), None);
    assert_eq!(decode(&[0x00, 0x01]), None);
    assert_eq!(decode(&[0x10]), None);
    assert_eq!(decode(&[0x0b]), None);
    assert_eq!(decode(&[0x0c]), None);
    assert_eq!(decode(&[0x0e, 0x00]), None);
    assert_eq!(decode(&[0x09, 0, 0, 0, 0, 0, 0, 0]), None);
    assert_eq!(decode(&[0x0d, 0, 0, 0]), None);
    assert_eq!(decode(&[0x01, 0, 0, 0, 0, 0, 0, 0, 0]), None);
}

#[test]
fn fixed_width_fields_are_passed_over() {
    assert_eq!(decode(&[0x09, 1, 2, 3, 4, 5, 6, 7, 8]), Some(Vec::new()));
    assert_eq!(decode(&[0x0d, 1, 2, 3, 4]), Some(Vec::new()));
    assert_eq!(cheqd_ledger::wire::skip_field(&[0x09, 1, 2, 3, 4, 5, 6, 7, 8], 0), Some(9));
    assert_eq!(cheqd_ledger::wire::skip_field(&[0x10, 0x0d, 1, 2, 3, 4, 5], 1), Some(6));
    assert_eq!(cheqd_ledger::wire::skip_field(&[0x10, 0x01], 0), None);
    let mut bytes = vec![0x4d, 0xde, 0xad, 0xbe, 0xef];
    bytes.extend_from_slice(&sample_account().to_base_bytes());
    bytes.extend_from_slice(&[0x51, 9, 9, 9, 9, 9, 9, 9, 9]);
    assert_eq!(Account::from_base_bytes(&bytes), Some(sample_account()));
    let known = cosmrs::proto::cosmos::auth::v1beta1::BaseAccount::decode(bytes.as_slice()).unwrap();
    assert_eq!(known.address, sample_account().address);
    assert_eq!(known.sequence, 7);
    assert_eq!(
        decode(&[0x08, 0x01, 0x0d, 1, 2, 3, 4, 0x12, 0x01, 0x07]),
        Some(vec![
            Field { number: 1, value: WireValue::Varint(1) },
            Field { number: 2, value: WireValue::Bytes(vec![7]) },
        ])
    );
}

fn sample_account() -> Account {
    Account {
        address: "cosmos1mhl8w0xvdl3r6xf67utnqna77q0vjqgzenk7yv".to_string(),
        account_number: 11,
        sequence: 7,
    }
}

fn sample_nym() -> Nym {
    Nym {
        creator: "cosmos1mhl8w0xvdl3r6xf67utnqna77q0vjqgzenk7yv".to_string(),
        id: 9999999,
        alias: "testnet".to_string(),
        verkey: "verkey".to_string(),
        did: "did".to_string(),
        role: "TRUSTEE".to_string(),
    }
}

#[test]
fn every_response_kind_round_trips() {
    let responses = vec![
        Response::Account(sample_account()),
        Response::Account(Account { address: String::new(), account_number: 0, sequence: 0 }),
        Response::Account(Account { address: "é".to_string(), account_number: u64::MAX, sequence: 0 }),
        Response::AccountReply(Some(sample_account())),
        Response::AccountReply(Some(Account {
            address: String::new(),
            account_number: 0,
            sequence: 0,
        })),
        Response::AccountReply(None),
        Response::Nym(sample_nym()),
        Response::Nym(Nym {
            creator: String::new(),
            id: 0,
            alias: String::new(),
            verkey: String::new(),
            did: String::new(),
            role: String::new(),
        }),
        Response::NymCreated(0),
        Response::NymCreated(42),
        Response::NymCreated(u64::MAX),
    ];
    for response in responses {
        let kind = match &response {
            Response::Account(_) => ResponseKind::Account,
            Response::AccountReply(_) => ResponseKind::AccountReply,
            Response::Nym(_) => ResponseKind::Nym,
            Response::NymCreated(_) => ResponseKind::NymCreated,
        };
        let bytes = encode_response(&response);
        assert_eq!(parse_response(kind, &bytes), Ok(response));
    }
}

#[test]
fn malformed_response_is_its_own_error() {
    assert_eq!(
        parse_response(ResponseKind::Account, &[0xff]),
        Err(LedgerError::MalformedResponse)
    );
    assert_eq!(
        parse_response(ResponseKind::Nym, &[0x0a, 0x02, 0xc3, 0x28]),
        Err(LedgerError::MalformedResponse)
    );
    assert_eq!(
        parse_response(ResponseKind::NymCreated, &[0x08]),
        Err(LedgerError::MalformedResponse)
    );
    assert_eq!(
        parse_response(ResponseKind::AccountReply, &[0x0a, 0x01, 0xff]),
        Err(LedgerError::MalformedResponse)
    );
    let wrong_type = cosmrs::Any { type_url: "/other.Type".to_string(), value: Vec::new() };
    assert_eq!(
        parse_response(ResponseKind::Account, &wrong_type.encode_to_vec()),
        Err(LedgerError::MalformedResponse)
    );
    assert_eq!(
        parse_response(ResponseKind::Account, &[]),
        Err(LedgerError::MalformedResponse)
    );
}

#[test]
fn account_bytes_are_those_of_the_chain_library() {
    let account = sample_account();
    let base = cosmrs::proto::cosmos::auth::v1beta1::BaseAccount {
        address: account.address.clone(),
        pub_key: None,
        account_number: account.account_number,
        sequence: account.sequence,
    };
    assert_eq!(account.to_base_bytes(), base.encode_to_vec());
    let any = cosmrs::Any {
        type_url: "/cosmos.auth.v1beta1.BaseAccount".to_string(),
        value: base.encode_to_vec(),
    };
    assert_eq!(account.to_bytes(), any.encode_to_vec());
    let reply = cosmrs::proto::cosmos::auth::v1beta1::QueryAccountResponse { account: Some(any) };
    assert_eq!(
        encode_response(&Response::AccountReply(Some(account.clone()))),
        reply.encode_to_vec()
    );
    let empty = cosmrs::proto::cosmos::auth::v1beta1::QueryAccountResponse { account: None };
    assert_eq!(encode_response(&Response::AccountReply(None)), empty.encode_to_vec());

    let fresh = Account { address: account.address.clone(), account_number: 0, sequence: 0 };
    let fresh_base = cosmrs::proto::cosmos::auth::v1beta1::BaseAccount {
        address: fresh.address.clone(),
        pub_key: None,
        account_number: 0,
        sequence: 0,
    };
    assert_eq!(fresh.to_base_bytes(), fresh_base.encode_to_vec());
}

#[test]
fn account_with_public_key_is_read() {
    let base = cosmrs::proto::cosmos::auth::v1beta1::BaseAccount {
        address: "cosmos1abc".to_string(),
        pub_key: Some(cosmrs::Any {
            type_url: "/cosmos.crypto.secp256k1.PubKey".to_string(),
            value: vec![0x0a, 0x01, 0x02],
        }),
        account_number: 3,
        sequence: 9,
    };
    assert_eq!(
        Account::from_base_bytes(&base.encode_to_vec()),
        Some(Account { address: "cosmos1abc".to_string(), account_number: 3, sequence: 9 })
    );
}

#[test]
fn account_request_is_that_of_the_chain_library() {
    let request = build_query_account_without_proof("cosmos1abc");
    assert_eq!(request.path, "/cosmos.auth.v1beta1.Query/Account");
    let expected = cosmrs::proto::cosmos::auth::v1beta1::QueryAccountRequest {
        address: "cosmos1abc".to_string(),
    };
    assert_eq!(request.data, expected.encode_to_vec());
    assert_eq!(request.height, None);
    assert!(request.prove);
}

#[test]
fn coin_round_trips_and_matches_the_chain_library() {
    let coin = Coin::new("cheq".to_string(), "100".to_string());
    assert_eq!(coin.denom, "cheq");
    assert_eq!(coin.amount, "100");
    let bytes = coin.to_proto_bytes();
    let expected = cosmrs::proto::cosmos::base::v1beta1::Coin {
        denom: "cheq".to_string(),
        amount: "100".to_string(),
    };
    assert_eq!(bytes, expected.encode_to_vec());
    assert_eq!(Coin::from_proto_bytes(&bytes), Some(coin));
    assert_eq!(
        Coin::from_proto_bytes(&[]),
        Some(Coin::new(String::new(), String::new()))
    );
    assert_eq!(Coin::from_proto_bytes(&[0x0a, 0x01, 0xff]), None);
}

#[test]
fn create_nym_message_bytes() {
    let message = MsgCreateNym {
        creator: "c".to_string(),
        alias: "a".to_string(),
        verkey: "v".to_string(),
        did: "d".to_string(),
        role: String::new(),
    }
    .to_message();
    assert_eq!(message.type_url, "/cheqdid.cheqdnode.cheqd.MsgCreateNym");
    assert_eq!(
        message.value,
        vec![0x0a, 0x01, b'c', 0x12, 0x01, b'a', 0x1a, 0x01, b'v', 0x22, 0x01, b'd']
    );
}

#[test]
fn build_query_covers_every_kind() {
    let address = "cosmos1mhl8w0xvdl3r6xf67utnqna77q0vjqgzenk7yv".to_string();
    let proven = build_query(&QueryKind::Account(address.clone())).unwrap();
    assert_eq!(proven, cheqd_ledger::tx::build_query_account(&address).unwrap());
    assert_eq!(proven.path, "/store/acc/key");
    let plain = build_query(&QueryKind::AccountWithoutProof(address.clone())).unwrap();
    assert_eq!(plain, build_query_account_without_proof(&address));
    assert_ne!(plain.data, proven.data);
    let nym = build_query(&QueryKind::Nym(5)).unwrap();
    assert_eq!(nym, cheqd_ledger::tx::build_query_get_nym(5));
    assert_eq!(
        build_query(&QueryKind::Account("x".to_string())),
        Err(LedgerError::InvalidAddress)
    );
    assert!(build_query(&QueryKind::AccountWithoutProof("x".to_string())).is_ok());
    assert_eq!(build_query(&QueryKind::Nym(5)), build_query(&QueryKind::Nym(5)));
}
