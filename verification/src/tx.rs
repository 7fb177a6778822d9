//! The transaction pipeline: from a ledger message and an account's current
//! numbers to the bytes that are signed, and from those and the signatures
//! to the envelope that is broadcast.
//!
//! The byte encodings of the transaction body, of the signer and fee
//! information, of the signing document and of the envelope are those of the
//! chain's own client library. This module validates what goes in, fixes
//! which bytes go where, and keeps the signed bytes and the broadcast bytes
//! built from the same parts.

use cosmrs::proto::cosmos::tx::v1beta1::TxRaw;
use cosmrs::proto::traits::MessageExt;
use cosmrs::tendermint::block::Height;
use cosmrs::tx::Body;
use cosmrs::tx::Fee;
use cosmrs::tx::SignDoc;
use cosmrs::tx::SignerInfo;
use k256::ecdsa::VerifyingKey;
use vstd::prelude::*;
use vstd::utf8::encode_utf8;
use vstd::utf8::is_ascii_chars;
use crate::bytes::copy_bytes;
use crate::crypto::account_address_bytes;
use crate::crypto::address_payload;
use crate::crypto::base58_bytes;
use crate::crypto::base58_decode;
use crate::crypto::is_curve_point;
use crate::crypto::secp256k1_point_ok;
use crate::error::LedgerError;
use crate::messages::any_bytes;
use crate::messages::bytes_or_empty;
use crate::messages::last_bytes;
use crate::messages::last_number;
use crate::messages::last_text;
use crate::messages::lemma_after_bytes;
use crate::messages::lemma_after_number;
use crate::messages::lemma_any_back;
use crate::messages::lemma_text_back;
use crate::messages::text_fits;
use crate::messages::with_bytes;
use crate::messages::with_message;
use crate::messages::with_number;
use crate::messages::with_text;
use crate::text::ascii_bytes;
use crate::text::is_alphanumeric;
use crate::text::text_bytes;
use crate::wire::decoded;
use crate::wire::fields_bytes;
use crate::wire::lemma_decode_encode;
use crate::wire::valid_fields;
use crate::wire::FieldModel;

verus! {

/// The store path under which accounts are kept.
pub const ACCOUNT_STORE_PATH: &'static str = "/store/acc/key";

/// The query service path for accounts.
pub const ACCOUNT_QUERY_PATH: &'static str = "/cosmos.auth.v1beta1.Query/Account";

/// The store path under which named records are kept.
pub const NYM_STORE_PATH: &'static str = "/store/cheqd/key";

/// The key prefix of named records in their store.
pub const NYM_KEY_PREFIX: &'static str = "Nym-value-";

/// The greatest height the chain can represent.
pub const MAX_HEIGHT: u64 = 0x7fff_ffff_ffff_ffff;

/// A read request as the transport carries it.
#[derive(Clone, Debug, PartialEq, Eq)]
pub struct QueryRequest {
    pub path: String,
    pub data: Vec<u8>,
    pub height: Option<u64>,
    pub prove: bool,
}

/// A ledger message: a type name and the message's own bytes.
#[derive(Clone, Debug, PartialEq, Eq)]
pub struct Message {
    pub type_url: String,
    pub value: Vec<u8>,
}

/// The eight bytes of `v`, most significant first.
pub open spec fn be64(v: u64) -> Seq<u8> {
    seq![
        (v / 0x100_0000_0000_0000) as u8,
        (v / 0x1_0000_0000_0000 % 256) as u8,
        (v / 0x100_0000_0000 % 256) as u8,
        (v / 0x1_0000_0000 % 256) as u8,
        (v / 0x100_0000 % 256) as u8,
        (v / 0x1_0000 % 256) as u8,
        (v / 0x100 % 256) as u8,
        (v % 256) as u8,
    ]
}

/// The data of a proven account query: the store key of the account.
pub open spec fn account_store_key(payload: Seq<u8>) -> Seq<u8> {
    seq![1u8] + payload
}

/// The data of a proven named-record query: the store key of the record.
pub open spec fn nym_store_key(id: u64) -> Seq<u8> {
    encode_utf8(NYM_KEY_PREFIX@) + be64(id)
}

/// Builds the proven read of the account at `address`: the account store's
/// path, and as data the store key, one byte `1` followed by the bytes the
/// address carries. Fails with `InvalidAddress` exactly where the address
/// is not a bech32 account address.
pub fn build_query_account(address: &str) -> (built: Result<QueryRequest, LedgerError>)
    ensures
        match built {
            Ok(request) => {
                &&& address_payload(address@) matches Some(payload)
                &&& request.path@ == ACCOUNT_STORE_PATH@
                &&& request.data@ == account_store_key(payload)
                &&& request.height.is_none()
                &&& request.prove
            },
            Err(e) => address_payload(address@).is_none() && e == LedgerError::InvalidAddress,
        },
{
    let payload = match account_address_bytes(address) {
        Some(bytes) => bytes,
        None => {
            return Err(LedgerError::InvalidAddress);
        },
    };
    let mut data: Vec<u8> = Vec::new();
    data.push(1u8);
    crate::bytes::append_bytes(&mut data, payload.as_slice());
    assert(data@ =~= account_store_key(payload@));
    Ok(QueryRequest { path: ACCOUNT_STORE_PATH.to_owned(), data, height: None, prove: true })
}

/// Builds the proven read of the named record `id`: the record store's
/// path, and as data the store key of the record.
pub fn build_query_get_nym(id: u64) -> (request: QueryRequest)
    ensures
        request.path@ == NYM_STORE_PATH@,
        request.data@ == nym_store_key(id),
        request.height.is_none(),
        request.prove,
{
    let mut data: Vec<u8> = text_bytes(NYM_KEY_PREFIX);
    let ghost head = data@;
    data.push((id / 0x100_0000_0000_0000) as u8);
    data.push((id / 0x1_0000_0000_0000 % 256) as u8);
    data.push((id / 0x100_0000_0000 % 256) as u8);
    data.push((id / 0x1_0000_0000 % 256) as u8);
    data.push((id / 0x100_0000 % 256) as u8);
    data.push((id / 0x1_0000 % 256) as u8);
    data.push((id / 0x100 % 256) as u8);
    data.push((id % 256) as u8);
    assert(data@ =~= head + be64(id));
    QueryRequest { path: NYM_STORE_PATH.to_owned(), data, height: None, prove: true }
}

/// A character that a denomination may hold.
pub open spec fn denom_char(c: char) -> bool {
    is_alphanumeric(c) || c == '/' || c == ':' || c == '.' || c == '_' || c == '-'
}

/// The chain's rule for denominations: three to 128 characters, each a
/// letter, a digit or one of `/ : . _ -`.
pub open spec fn denom_ok(denom: Seq<char>) -> bool {
    &&& 3 <= denom.len() <= 128
    &&& forall|i: int| 0 <= i < denom.len() ==> denom_char(#[trigger] denom[i])
}

/// A character that a chain identifier may hold.
pub open spec fn chain_id_char(c: char) -> bool {
    is_alphanumeric(c) || c == '-' || c == '_' || c == '.'
}

/// The chain's rule for chain identifiers: one to 50 characters, each a
/// letter, a digit or one of `- _ .`.
pub open spec fn chain_id_ok(chain_id: Seq<char>) -> bool {
    &&& 1 <= chain_id.len() <= 50
    &&& forall|i: int| 0 <= i < chain_id.len() ==> chain_id_char(#[trigger] chain_id[i])
}

/// Whether `denom` keeps the rule for denominations.
pub fn valid_denom(denom: &str) -> (ok: bool)
    ensures
        ok == denom_ok(denom@),
{
    let bytes = match ascii_bytes(denom) {
        Some(b) => b,
        None => {
            proof {
                let i = choose|i: int|
                    0 <= i < denom@.len() && !('\0' <= #[trigger] denom@[i] <= '\u{7f}');
                assert(!denom_char(denom@[i]));
            }
            return false;
        },
    };
    if bytes.len() < 3 || bytes.len() > 128 {
        return false;
    }
    let mut i: usize = 0;
    while i < bytes.len()
        invariant
            i <= bytes.len(),
            bytes@.len() == denom@.len(),
            is_ascii_chars(denom@),
            forall|j: int| 0 <= j < bytes@.len() ==> #[trigger] bytes@[j] == denom@[j] as u8,
            forall|j: int| 0 <= j < i ==> denom_char(#[trigger] denom@[j]),
        decreases bytes.len() - i,
    {
        let b: u8 = bytes[i];
        let fine: bool = (0x30 <= b && b <= 0x39) || (0x41 <= b && b <= 0x5a) || (0x61 <= b && b
            <= 0x7a) || b == 0x2f || b == 0x3a || b == 0x2e || b == 0x5f || b == 0x2d;
        proof {
            let c = denom@[i as int];
            assert(bytes@[i as int] == c as u8);
            assert('\0' <= c <= '\u{7f}');
            assert(fine == denom_char(c));
        }
        if !fine {
            return false;
        }
        i += 1;
    }
    true
}

/// Whether `chain_id` keeps the rule for chain identifiers.
pub fn valid_chain_id(chain_id: &str) -> (ok: bool)
    ensures
        ok == chain_id_ok(chain_id@),
{
    let bytes = match ascii_bytes(chain_id) {
        Some(b) => b,
        None => {
            proof {
                let i = choose|i: int|
                    0 <= i < chain_id@.len() && !('\0' <= #[trigger] chain_id@[i] <= '\u{7f}');
                assert(!chain_id_char(chain_id@[i]));
            }
            return false;
        },
    };
    if bytes.len() < 1 || bytes.len() > 50 {
        return false;
    }
    let mut i: usize = 0;
    while i < bytes.len()
        invariant
            i <= bytes.len(),
            bytes@.len() == chain_id@.len(),
            is_ascii_chars(chain_id@),
            forall|j: int| 0 <= j < bytes@.len() ==> #[trigger] bytes@[j] == chain_id@[j] as u8,
            forall|j: int| 0 <= j < i ==> chain_id_char(#[trigger] chain_id@[j]),
        decreases bytes.len() - i,
    {
        let b: u8 = bytes[i];
        let fine: bool = (0x30 <= b && b <= 0x39) || (0x41 <= b && b <= 0x5a) || (0x61 <= b && b
            <= 0x7a) || b == 0x2d || b == 0x5f || b == 0x2e;
        proof {
            let c = chain_id@[i as int];
            assert(bytes@[i as int] == c as u8);
            assert('\0' <= c <= '\u{7f}');
            assert(fine == chain_id_char(c));
        }
        if !fine {
            return false;
        }
        i += 1;
    }
    true
}

/// The bytes of a transaction body that holds one message, a memo and a
/// timeout height, where the encoder gives any.
pub uninterp spec fn tx_body_encoding(
    type_url: Seq<char>,
    value: Seq<u8>,
    memo: Seq<char>,
    timeout_height: u64,
) -> Option<Seq<u8>>;

/// The bytes of the signer and fee information of one direct signer, where
/// the encoder gives any.
pub uninterp spec fn auth_info_encoding(
    public_key: Seq<u8>,
    sequence: u64,
    gas_limit: u64,
    amount: u64,
    denom: Seq<char>,
) -> Option<Seq<u8>>;

/// The bytes of a signing document, where the encoder gives any.
pub uninterp spec fn sign_doc_encoding(
    body_bytes: Seq<u8>,
    auth_info_bytes: Seq<u8>,
    chain_id: Seq<char>,
    account_number: u64,
) -> Option<Seq<u8>>;

/// The bytes of a transaction envelope, where the encoder gives any.
pub uninterp spec fn envelope_encoding(
    body_bytes: Seq<u8>,
    auth_info_bytes: Seq<u8>,
    signatures: Seq<Seq<u8>>,
) -> Option<Seq<u8>>;

/// A list of signatures as sequences of bytes.
pub open spec fn signature_list(signatures: Seq<Vec<u8>>) -> Seq<Seq<u8>> {
    Seq::new(signatures.len(), |i: int| signatures[i]@)
}

/// The fields of a transaction body that holds one message: the message
/// under its type name as field 1, the memo as field 2, the timeout height
/// as field 3.
pub open spec fn tx_body_fields(
    type_url: Seq<char>,
    value: Seq<u8>,
    memo: Seq<char>,
    timeout_height: u64,
) -> Seq<FieldModel> {
    with_number(
        with_text(with_message(Seq::empty(), 1, any_bytes(type_url, value)), 2, memo),
        3,
        timeout_height,
    )
}

/// The bytes of a transaction body that holds one message.
pub open spec fn tx_body_bytes(
    type_url: Seq<char>,
    value: Seq<u8>,
    memo: Seq<char>,
    timeout_height: u64,
) -> Seq<u8> {
    fields_bytes(tx_body_fields(type_url, value, memo, timeout_height))
}

/// The fields of a signing document: body bytes, signer and fee bytes,
/// chain identifier, account number, as fields 1 to 4.
pub open spec fn sign_doc_fields(
    body_bytes: Seq<u8>,
    auth_info_bytes: Seq<u8>,
    chain_id: Seq<char>,
    account_number: u64,
) -> Seq<FieldModel> {
    with_number(
        with_text(with_bytes(with_bytes(Seq::empty(), 1, body_bytes), 2, auth_info_bytes), 3, chain_id),
        4,
        account_number,
    )
}

/// The bytes of a signing document.
pub open spec fn sign_doc_bytes(
    body_bytes: Seq<u8>,
    auth_info_bytes: Seq<u8>,
    chain_id: Seq<char>,
    account_number: u64,
) -> Seq<u8> {
    fields_bytes(sign_doc_fields(body_bytes, auth_info_bytes, chain_id, account_number))
}

/// `fs`, then every one of `items` as a field `number`, in order, empty or
/// not.
pub open spec fn with_each(fs: Seq<FieldModel>, number: u32, items: Seq<Seq<u8>>) -> Seq<
    FieldModel,
>
    decreases items.len(),
{
    if items.len() == 0 {
        fs
    } else {
        with_message(with_each(fs, number, items.drop_last()), number, items.last())
    }
}

/// The fields of a transaction envelope: body bytes as field 1, signer and
/// fee bytes as field 2, and every signature as a field 3.
pub open spec fn envelope_fields(
    body_bytes: Seq<u8>,
    auth_info_bytes: Seq<u8>,
    signatures: Seq<Seq<u8>>,
) -> Seq<FieldModel> {
    with_each(with_bytes(with_bytes(Seq::empty(), 1, body_bytes), 2, auth_info_bytes), 3, signatures)
}

/// The bytes of a transaction envelope.
pub open spec fn envelope_bytes(
    body_bytes: Seq<u8>,
    auth_info_bytes: Seq<u8>,
    signatures: Seq<Seq<u8>>,
) -> Seq<u8> {
    fields_bytes(envelope_fields(body_bytes, auth_info_bytes, signatures))
}

/// What a transaction body with one message holds.
pub struct TxBodyModel {
    pub type_url: Seq<char>,
    pub value: Seq<u8>,
    pub memo: Seq<char>,
    pub timeout_height: u64,
}

/// What a signing document holds.
pub struct SignDocModel {
    pub body_bytes: Seq<u8>,
    pub auth_info_bytes: Seq<u8>,
    pub chain_id: Seq<char>,
    pub account_number: u64,
}

/// The body that the bytes hold, read as a body with one message.
pub open spec fn parsed_tx_body(bytes: Seq<u8>) -> Option<TxBodyModel> {
    match decoded(bytes) {
        None => None,
        Some(fs) => match last_bytes(fs, 1) {
            None => None,
            Some(wrapped) => match decoded(wrapped) {
                None => None,
                Some(inner) => match (last_text(inner, 1), last_text(fs, 2)) {
                    (Some(type_url), Some(memo)) => Some(
                        TxBodyModel {
                            type_url,
                            value: bytes_or_empty(inner, 2),
                            memo,
                            timeout_height: last_number(fs, 3),
                        },
                    ),
                    _ => None,
                },
            },
        },
    }
}

/// The signing document that the bytes hold.
pub open spec fn parsed_sign_doc(bytes: Seq<u8>) -> Option<SignDocModel> {
    match decoded(bytes) {
        None => None,
        Some(fs) => match last_text(fs, 3) {
            None => None,
            Some(chain_id) => Some(
                SignDocModel {
                    body_bytes: bytes_or_empty(fs, 1),
                    auth_info_bytes: bytes_or_empty(fs, 2),
                    chain_id,
                    account_number: last_number(fs, 4),
                },
            ),
        },
    }
}

/// Every part of the body is short enough for a length prefix.
pub open spec fn tx_body_fits(b: TxBodyModel) -> bool {
    &&& text_fits(b.type_url)
    &&& b.value.len() <= u64::MAX
    &&& any_bytes(b.type_url, b.value).len() <= u64::MAX
    &&& text_fits(b.memo)
}

/// Every part of the signing document is short enough for a length prefix.
pub open spec fn sign_doc_fits(d: SignDocModel) -> bool {
    &&& d.body_bytes.len() <= u64::MAX
    &&& d.auth_info_bytes.len() <= u64::MAX
    &&& text_fits(d.chain_id)
}

/// Reading the bytes of a transaction body gives the message, the memo and
/// the timeout height back.
pub proof fn lemma_tx_body_back(b: TxBodyModel)
    requires
        tx_body_fits(b),
    ensures
        parsed_tx_body(tx_body_bytes(b.type_url, b.value, b.memo, b.timeout_height)) == Some(b),
{
    let wrapped = any_bytes(b.type_url, b.value);
    let f0 = Seq::<FieldModel>::empty();
    let f1 = with_message(f0, 1, wrapped);
    let f2 = with_text(f1, 2, b.memo);
    let f3 = with_number(f2, 3, b.timeout_height);
    lemma_any_back(b.type_url, b.value);
    lemma_text_back(b.memo);
    assert forall|k: u32| 1 <= k <= 3 implies {
        &&& last_bytes(f1, k) == if k == 1 {
            Some(wrapped)
        } else {
            None
        }
        &&& last_number(f1, k) == 0
        &&& last_bytes(f2, k) == if k == 2 && encode_utf8(b.memo).len() != 0 {
            Some(encode_utf8(b.memo))
        } else {
            last_bytes(f1, k)
        }
        &&& last_number(f2, k) == 0
        &&& last_bytes(f3, k) == last_bytes(f2, k)
        &&& last_number(f3, k) == if k == 3 {
            b.timeout_height
        } else {
            0
        }
    } by {
        lemma_after_bytes(f0, 1, wrapped, k);
        lemma_after_bytes(f1, 2, encode_utf8(b.memo), k);
        lemma_after_number(f2, 3, b.timeout_height, k);
    }
    assert(valid_fields(f3));
    lemma_decode_encode(f3);
    assert(last_text(f3, 2) == Some(b.memo));
}

/// Reading the bytes of a signing document gives its four parts back.
pub proof fn lemma_sign_doc_back(d: SignDocModel)
    requires
        sign_doc_fits(d),
    ensures
        parsed_sign_doc(
            sign_doc_bytes(d.body_bytes, d.auth_info_bytes, d.chain_id, d.account_number),
        ) == Some(d),
{
    let f0 = Seq::<FieldModel>::empty();
    let f1 = with_bytes(f0, 1, d.body_bytes);
    let f2 = with_bytes(f1, 2, d.auth_info_bytes);
    let f3 = with_text(f2, 3, d.chain_id);
    let f4 = with_number(f3, 4, d.account_number);
    lemma_text_back(d.chain_id);
    assert forall|k: u32| 1 <= k <= 4 implies {
        &&& last_bytes(f1, k) == if k == 1 && d.body_bytes.len() != 0 {
            Some(d.body_bytes)
        } else {
            None
        }
        &&& last_number(f1, k) == 0
        &&& last_bytes(f2, k) == if k == 2 && d.auth_info_bytes.len() != 0 {
            Some(d.auth_info_bytes)
        } else {
            last_bytes(f1, k)
        }
        &&& last_number(f2, k) == 0
        &&& last_bytes(f3, k) == if k == 3 && encode_utf8(d.chain_id).len() != 0 {
            Some(encode_utf8(d.chain_id))
        } else {
            last_bytes(f2, k)
        }
        &&& last_number(f3, k) == 0
        &&& last_bytes(f4, k) == last_bytes(f3, k)
        &&& last_number(f4, k) == if k == 4 {
            d.account_number
        } else {
            0
        }
    } by {
        lemma_after_bytes(f0, 1, d.body_bytes, k);
        lemma_after_bytes(f1, 2, d.auth_info_bytes, k);
        lemma_after_bytes(f2, 3, encode_utf8(d.chain_id), k);
        lemma_after_number(f3, 4, d.account_number, k);
    }
    assert(valid_fields(f4));
    lemma_decode_encode(f4);
    assert(last_text(f4, 3) == Some(d.chain_id));
    assert(bytes_or_empty(f4, 1) =~= d.body_bytes);
    assert(bytes_or_empty(f4, 2) =~= d.auth_info_bytes);
}

/// The bytes that are signed for a message, a memo, a timeout height, a
/// chain and an account, over given signer and fee bytes: the signing
/// document over the body of the message.
pub open spec fn signed_bytes(
    type_url: Seq<char>,
    value: Seq<u8>,
    memo: Seq<char>,
    timeout_height: u64,
    auth_info_bytes: Seq<u8>,
    chain_id: Seq<char>,
    account_number: u64,
) -> Seq<u8> {
    sign_doc_bytes(
        tx_body_bytes(type_url, value, memo, timeout_height),
        auth_info_bytes,
        chain_id,
        account_number,
    )
}

/// Two transaction bodies that differ in the message, the memo or the
/// timeout height differ in their bytes.
pub proof fn lemma_tx_body_bytes_differ(a: TxBodyModel, b: TxBodyModel)
    requires
        tx_body_fits(a),
        tx_body_fits(b),
        a != b,
    ensures
        tx_body_bytes(a.type_url, a.value, a.memo, a.timeout_height) != tx_body_bytes(
            b.type_url,
            b.value,
            b.memo,
            b.timeout_height,
        ),
{
    lemma_tx_body_back(a);
    lemma_tx_body_back(b);
}

/// Two signing documents that differ in the body bytes, the signer and fee
/// bytes, the chain identifier or the account number differ in their bytes.
pub proof fn lemma_sign_doc_bytes_differ(a: SignDocModel, b: SignDocModel)
    requires
        sign_doc_fits(a),
        sign_doc_fits(b),
        a != b,
    ensures
        sign_doc_bytes(a.body_bytes, a.auth_info_bytes, a.chain_id, a.account_number)
            != sign_doc_bytes(b.body_bytes, b.auth_info_bytes, b.chain_id, b.account_number),
{
    lemma_sign_doc_back(a);
    lemma_sign_doc_back(b);
}

/// The bytes that are signed change with every input that is written into
/// them by this library's own rule: two payloads that differ in the type or
/// the bytes of the message, in the memo, in the timeout height, in the
/// chain identifier, in the account number, or in their signer and fee
/// bytes, differ in the bytes that are signed. What the signer and fee
/// bytes are for a public key, a sequence and a fee is the outside
/// encoder's matter and is not covered.
pub proof fn lemma_signed_bytes_differ(
    a: TxBodyModel,
    a_auth: Seq<u8>,
    a_chain: Seq<char>,
    a_account: u64,
    b: TxBodyModel,
    b_auth: Seq<u8>,
    b_chain: Seq<char>,
    b_account: u64,
)
    requires
        tx_body_fits(a),
        tx_body_fits(b),
        tx_body_bytes(a.type_url, a.value, a.memo, a.timeout_height).len() <= u64::MAX,
        tx_body_bytes(b.type_url, b.value, b.memo, b.timeout_height).len() <= u64::MAX,
        a_auth.len() <= u64::MAX,
        b_auth.len() <= u64::MAX,
        text_fits(a_chain),
        text_fits(b_chain),
        a != b || a_auth != b_auth || a_chain != b_chain || a_account != b_account,
    ensures
        signed_bytes(a.type_url, a.value, a.memo, a.timeout_height, a_auth, a_chain, a_account)
            != signed_bytes(
            b.type_url,
            b.value,
            b.memo,
            b.timeout_height,
            b_auth,
            b_chain,
            b_account,
        ),
{
    let body_a = tx_body_bytes(a.type_url, a.value, a.memo, a.timeout_height);
    let body_b = tx_body_bytes(b.type_url, b.value, b.memo, b.timeout_height);
    if a != b {
        lemma_tx_body_bytes_differ(a, b);
    }
    lemma_sign_doc_bytes_differ(
        SignDocModel {
            body_bytes: body_a,
            auth_info_bytes: a_auth,
            chain_id: a_chain,
            account_number: a_account,
        },
        SignDocModel {
            body_bytes: body_b,
            auth_info_bytes: b_auth,
            chain_id: b_chain,
            account_number: b_account,
        },
    );
}

/// Whatever the signatures are, the body bytes and the signer and fee bytes
/// can be read back out of an envelope as they went in.
pub proof fn lemma_envelope_carries_parts(
    body_bytes: Seq<u8>,
    auth_info_bytes: Seq<u8>,
    signatures: Seq<Seq<u8>>,
)
    requires
        body_bytes.len() <= u64::MAX,
        auth_info_bytes.len() <= u64::MAX,
        forall|i: int| 0 <= i < signatures.len() ==> (#[trigger] signatures[i]).len() <= u64::MAX,
    ensures
        decoded(envelope_bytes(body_bytes, auth_info_bytes, signatures)) == Some(
            envelope_fields(body_bytes, auth_info_bytes, signatures),
        ),
        bytes_or_empty(envelope_fields(body_bytes, auth_info_bytes, signatures), 1) == body_bytes,
        bytes_or_empty(envelope_fields(body_bytes, auth_info_bytes, signatures), 2)
            == auth_info_bytes,
{
    let f0 = Seq::<FieldModel>::empty();
    let f1 = with_bytes(f0, 1, body_bytes);
    let f2 = with_bytes(f1, 2, auth_info_bytes);
    lemma_after_bytes(f0, 1, body_bytes, 1);
    lemma_after_bytes(f0, 1, body_bytes, 2);
    lemma_after_bytes(f1, 2, auth_info_bytes, 1);
    lemma_after_bytes(f1, 2, auth_info_bytes, 2);
    assert(valid_fields(f2));
    lemma_with_each(f2, signatures);
    lemma_decode_encode(envelope_fields(body_bytes, auth_info_bytes, signatures));
    assert(bytes_or_empty(f2, 1) =~= body_bytes);
    assert(bytes_or_empty(f2, 2) =~= auth_info_bytes);
}

proof fn lemma_with_each(fs: Seq<FieldModel>, items: Seq<Seq<u8>>)
    requires
        valid_fields(fs),
        forall|i: int| 0 <= i < items.len() ==> (#[trigger] items[i]).len() <= u64::MAX,
    ensures
        valid_fields(with_each(fs, 3, items)),
        last_bytes(with_each(fs, 3, items), 1) == last_bytes(fs, 1),
        last_bytes(with_each(fs, 3, items), 2) == last_bytes(fs, 2),
    decreases items.len(),
{
    if items.len() > 0 {
        let earlier = with_each(fs, 3, items.drop_last());
        assert forall|i: int| 0 <= i < items.drop_last().len() implies (
        #[trigger] items.drop_last()[i]).len() <= u64::MAX by {
            assert(items.drop_last()[i] == items[i]);
        }
        lemma_with_each(fs, items.drop_last());
        lemma_after_bytes(earlier, 3, items.last(), 1);
        lemma_after_bytes(earlier, 3, items.last(), 2);
        let now = with_each(fs, 3, items);
        assert(items.last() == items[items.len() - 1]);
        assert forall|i: int| 0 <= i < now.len() implies crate::wire::valid_field(
            #[trigger] now[i],
        ) by {
            if i < earlier.len() {
                assert(now[i] == earlier[i]);
            }
        }
    }
}

/// `cosmrs::tx::Body::into_bytes` on the body that `Body::new` makes of one
/// message, the memo and the height: the body's bytes, or nothing where
/// the height or the encoder refuses. The bytes are the body's fields in
/// the order of their numbers, each left out where it is empty or zero.
#[verifier::external_body]
fn encode_tx_body(type_url: &str, value: &[u8], memo: &str, timeout_height: u64) -> (bytes: Option<
    Vec<u8>,
>)
    ensures
        match bytes {
            Some(b) => tx_body_encoding(type_url@, value@, memo@, timeout_height) == Some(b@),
            None => tx_body_encoding(type_url@, value@, memo@, timeout_height).is_none(),
        },
        bytes matches Some(b) ==> b@ == tx_body_bytes(type_url@, value@, memo@, timeout_height),
{
    let height = Height::try_from(timeout_height).ok()?;
    let message = cosmrs::Any { type_url: type_url.to_string(), value: value.to_vec() };
    Body::new(vec![message], memo, height).into_bytes().ok()
}

/// `cosmrs::tx::AuthInfo::into_bytes` on what `SignerInfo::single_direct`
/// and `SignerInfo::auth_info` make of the public key, the sequence and a
/// fee of one coin with a gas limit: its bytes, or nothing where the key,
/// the denomination or the encoder refuses.
#[verifier::external_body]
fn encode_auth_info(public_key: &[u8], sequence: u64, gas_limit: u64, amount: u64, denom: &str) -> (bytes:
    Option<Vec<u8>>)
    ensures
        match bytes {
            Some(b) => auth_info_encoding(public_key@, sequence, gas_limit, amount, denom@) == Some(
                b@,
            ),
            None => auth_info_encoding(public_key@, sequence, gas_limit, amount, denom@).is_none(),
        },
{
    let key = VerifyingKey::from_sec1_bytes(public_key).ok()?;
    let signer = SignerInfo::single_direct(Some(key.into()), sequence);
    let coin = cosmrs::Coin { denom: denom.parse().ok()?, amount: amount.into() };
    signer.auth_info(Fee::from_amount_and_gas(coin, gas_limit)).into_bytes().ok()
}

/// `cosmrs::tx::SignDoc::into_bytes` on the document with these four
/// fields: its bytes, or nothing where the encoder refuses. The bytes are
/// the four fields in the order of their numbers, each left out where it is
/// empty or zero.
#[verifier::external_body]
fn encode_sign_doc(body_bytes: &[u8], auth_info_bytes: &[u8], chain_id: &str, account_number: u64) -> (bytes:
    Option<Vec<u8>>)
    ensures
        match bytes {
            Some(b) => sign_doc_encoding(body_bytes@, auth_info_bytes@, chain_id@, account_number)
                == Some(b@),
            None => sign_doc_encoding(
                body_bytes@,
                auth_info_bytes@,
                chain_id@,
                account_number,
            ).is_none(),
        },
        bytes matches Some(b) ==> b@ == sign_doc_bytes(
            body_bytes@,
            auth_info_bytes@,
            chain_id@,
            account_number,
        ),
{
    let document = SignDoc {
        body_bytes: body_bytes.to_vec(),
        auth_info_bytes: auth_info_bytes.to_vec(),
        chain_id: chain_id.to_string(),
        account_number,
    };
    document.into_bytes().ok()
}

/// `cosmrs::tx::Raw::to_bytes` on the raw transaction with these three
/// fields: its bytes, or nothing where the encoder refuses. The bytes are
/// the body bytes and the signer and fee bytes, each left out where empty,
/// and then every signature, empty or not.
#[verifier::external_body]
fn encode_envelope(body_bytes: &[u8], auth_info_bytes: &[u8], signatures: &Vec<Vec<u8>>) -> (bytes:
    Option<Vec<u8>>)
    ensures
        match bytes {
            Some(b) => envelope_encoding(
                body_bytes@,
                auth_info_bytes@,
                signature_list(signatures@),
            ) == Some(b@),
            None => envelope_encoding(
                body_bytes@,
                auth_info_bytes@,
                signature_list(signatures@),
            ).is_none(),
        },
        bytes matches Some(b) ==> b@ == envelope_bytes(
            body_bytes@,
            auth_info_bytes@,
            signature_list(signatures@),
        ),
{
    let raw = TxRaw {
        body_bytes: body_bytes.to_vec(),
        auth_info_bytes: auth_info_bytes.to_vec(),
        signatures: signatures.clone(),
    };
    cosmrs::tx::Raw::from(raw).to_bytes().ok()
}

/// What goes into a signing payload.
pub struct PayloadInputs {
    pub chain_id: Seq<char>,
    pub signer_public_key: Seq<char>,
    pub type_url: Seq<char>,
    pub value: Seq<u8>,
    pub account_number: u64,
    pub sequence: u64,
    pub max_gas: u64,
    pub max_coin_amount: u64,
    pub max_coin_denom: Seq<char>,
    pub timeout_height: u64,
    pub memo: Seq<char>,
}

pub struct PayloadModel {
    pub body_bytes: Seq<u8>,
    pub auth_info_bytes: Seq<u8>,
    pub chain_id: Seq<char>,
    pub account_number: u64,
    pub signers: nat,
    pub bytes: Seq<u8>,
}

/// The first check that the inputs of a signing payload fail, if any: the
/// height, the public key, the denomination, the chain identifier, in that
/// order.
pub open spec fn payload_refusal(inputs: PayloadInputs) -> Option<LedgerError> {
    if inputs.timeout_height > MAX_HEIGHT {
        Some(LedgerError::InvalidHeight)
    } else if base58_bytes(inputs.signer_public_key).is_none() || !is_curve_point(
        base58_bytes(inputs.signer_public_key).unwrap(),
    ) {
        Some(LedgerError::InvalidPublicKey)
    } else if !denom_ok(inputs.max_coin_denom) {
        Some(LedgerError::InvalidDenom)
    } else if !chain_id_ok(inputs.chain_id) {
        Some(LedgerError::InvalidChainId)
    } else {
        None
    }
}

/// The signing payload that the inputs give: the body and the signer and
/// fee information encoded on their own, and the signing document over
/// both with the chain identifier and the account number. It fails with
/// the first check that the inputs fail, and with `EncodingFailure` where
/// the encoder gives no bytes.
pub open spec fn payload_for(inputs: PayloadInputs) -> Result<PayloadModel, LedgerError> {
    match payload_refusal(inputs) {
        Some(e) => Err(e),
        None => {
            let body = tx_body_encoding(
                inputs.type_url,
                inputs.value,
                inputs.memo,
                inputs.timeout_height,
            );
            let auth = auth_info_encoding(
                base58_bytes(inputs.signer_public_key).unwrap(),
                inputs.sequence,
                inputs.max_gas,
                inputs.max_coin_amount,
                inputs.max_coin_denom,
            );
            if body.is_none() || auth.is_none() {
                Err(LedgerError::EncodingFailure)
            } else {
                match sign_doc_encoding(
                    body.unwrap(),
                    auth.unwrap(),
                    inputs.chain_id,
                    inputs.account_number,
                ) {
                    None => Err(LedgerError::EncodingFailure),
                    Some(bytes) => Ok(
                        PayloadModel {
                            body_bytes: body.unwrap(),
                            auth_info_bytes: auth.unwrap(),
                            chain_id: inputs.chain_id,
                            account_number: inputs.account_number,
                            signers: 1,
                            bytes,
                        },
                    ),
                }
            }
        },
    }
}

/// The same inputs give the same outcome, byte for byte: what comes out is
/// a function of what goes in and of nothing else.
pub proof fn lemma_payload_is_deterministic(a: PayloadInputs, b: PayloadInputs)
    requires
        a == b,
    ensures
        payload_for(a) == payload_for(b),
{
}

/// The bytes that are signed, with the parts they were made of.
#[derive(Debug)]
pub struct SigningPayload {
    body_bytes: Vec<u8>,
    auth_info_bytes: Vec<u8>,
    chain_id: String,
    account_number: u64,
    signers: usize,
    bytes: Vec<u8>,
}

impl View for SigningPayload {
    type V = PayloadModel;

    closed spec fn view(&self) -> PayloadModel {
        PayloadModel {
            body_bytes: self.body_bytes@,
            auth_info_bytes: self.auth_info_bytes@,
            chain_id: self.chain_id@,
            account_number: self.account_number,
            signers: self.signers as nat,
            bytes: self.bytes@,
        }
    }
}

impl SigningPayload {
    /// The signed bytes are the signing document over the parts.
    #[verifier::type_invariant]
    pub closed spec fn sealed(&self) -> bool {
        &&& sign_doc_encoding(
            self.body_bytes@,
            self.auth_info_bytes@,
            self.chain_id@,
            self.account_number,
        ) == Some(self.bytes@)
        &&& self.bytes@ == sign_doc_bytes(
            self.body_bytes@,
            self.auth_info_bytes@,
            self.chain_id@,
            self.account_number,
        )
    }

    /// The bytes to sign.
    pub fn bytes(&self) -> (bytes: &Vec<u8>)
        ensures
            bytes@ == self@.bytes,
            sign_doc_encoding(
                self@.body_bytes,
                self@.auth_info_bytes,
                self@.chain_id,
                self@.account_number,
            ) == Some(bytes@),
            bytes@ == sign_doc_bytes(
                self@.body_bytes,
                self@.auth_info_bytes,
                self@.chain_id,
                self@.account_number,
            ),
    {
        proof {
            use_type_invariant(self);
        }
        &self.bytes
    }

    /// The encoded transaction body.
    pub fn body_bytes(&self) -> (bytes: &Vec<u8>)
        ensures
            bytes@ == self@.body_bytes,
    {
        &self.body_bytes
    }

    /// The encoded signer and fee information.
    pub fn auth_info_bytes(&self) -> (bytes: &Vec<u8>)
        ensures
            bytes@ == self@.auth_info_bytes,
    {
        &self.auth_info_bytes
    }

    /// How many signers the payload declares.
    pub fn signers(&self) -> (n: usize)
        ensures
            n == self@.signers,
    {
        self.signers
    }
}

/// Builds the bytes to sign for one message from one signer.
///
/// The inputs are checked before anything is encoded: a timeout height
/// beyond what the chain can represent gives `InvalidHeight`, a public key
/// that is not base58 of a curve point gives `InvalidPublicKey`, then
/// `InvalidDenom` and `InvalidChainId`. The body is the message, the memo
/// and the timeout height written as numbered fields; the bytes to sign are
/// the body bytes, the signer and fee bytes, the chain identifier and the
/// account number written as numbered fields. An empty memo and a timeout
/// height of zero give the bytes that leaving them out gives.
pub fn build_signing_payload(
    chain_id: &str,
    signer_public_key: &str,
    message: &Message,
    account_number: u64,
    sequence: u64,
    max_gas: u64,
    max_coin_amount: u64,
    max_coin_denom: &str,
    timeout_height: u64,
    memo: &str,
) -> (built: Result<SigningPayload, LedgerError>)
    ensures
        match payload_for(
            PayloadInputs {
                chain_id: chain_id@,
                signer_public_key: signer_public_key@,
                type_url: message.type_url@,
                value: message.value@,
                account_number,
                sequence,
                max_gas,
                max_coin_amount,
                max_coin_denom: max_coin_denom@,
                timeout_height,
                memo: memo@,
            },
        ) {
            Ok(model) => built.is_ok() && built.unwrap()@ == model,
            Err(e) => built.is_err() && built.unwrap_err() == e,
        },
        match built {
            Ok(payload) => {
                &&& payload@.body_bytes == tx_body_bytes(
                    message.type_url@,
                    message.value@,
                    memo@,
                    timeout_height,
                )
                &&& payload@.bytes == signed_bytes(
                    message.type_url@,
                    message.value@,
                    memo@,
                    timeout_height,
                    payload@.auth_info_bytes,
                    chain_id@,
                    account_number,
                )
            },
            Err(_) => true,
        },
{
    if timeout_height > MAX_HEIGHT {
        return Err(LedgerError::InvalidHeight);
    }
    let public_key = match base58_decode(signer_public_key) {
        Some(bytes) => bytes,
        None => {
            return Err(LedgerError::InvalidPublicKey);
        },
    };
    if !secp256k1_point_ok(public_key.as_slice()) {
        return Err(LedgerError::InvalidPublicKey);
    }
    if !valid_denom(max_coin_denom) {
        return Err(LedgerError::InvalidDenom);
    }
    if !valid_chain_id(chain_id) {
        return Err(LedgerError::InvalidChainId);
    }
    let body = encode_tx_body(
        message.type_url.as_str(),
        message.value.as_slice(),
        memo,
        timeout_height,
    );
    let auth = encode_auth_info(
        public_key.as_slice(),
        sequence,
        max_gas,
        max_coin_amount,
        max_coin_denom,
    );
    let (body_bytes, auth_info_bytes) = match (body, auth) {
        (Some(b), Some(a)) => (b, a),
        _ => {
            return Err(LedgerError::EncodingFailure);
        },
    };
    let bytes = match encode_sign_doc(
        body_bytes.as_slice(),
        auth_info_bytes.as_slice(),
        chain_id,
        account_number,
    ) {
        Some(bytes) => bytes,
        None => {
            return Err(LedgerError::EncodingFailure);
        },
    };
    Ok(
        SigningPayload {
            body_bytes,
            auth_info_bytes,
            chain_id: chain_id.to_owned(),
            account_number,
            signers: 1,
            bytes,
        },
    )
}

/// A signed transaction, ready to be broadcast.
#[derive(Clone, Debug, PartialEq, Eq)]
pub struct SignedTransaction {
    pub body_bytes: Vec<u8>,
    pub auth_info_bytes: Vec<u8>,
    pub signatures: Vec<Vec<u8>>,
    pub bytes: Vec<u8>,
}

/// Puts the signatures, in signer order, with the parts of the payload that
/// were signed.
///
/// Fails with `SignerCountMismatch` exactly where the number of signatures
/// differs from the number of signers that the payload declares, and with
/// `EncodingFailure` where the encoder gives no bytes. The body and the
/// signer information of the envelope are those of the payload, unchanged.
pub fn assemble_envelope(payload: &SigningPayload, signatures: Vec<Vec<u8>>) -> (assembled: Result<
    SignedTransaction,
    LedgerError,
>)
    ensures
        match assembled {
            Ok(tx) => {
                &&& signatures@.len() == payload@.signers
                &&& tx.body_bytes@ == payload@.body_bytes
                &&& tx.auth_info_bytes@ == payload@.auth_info_bytes
                &&& tx.signatures == signatures
                &&& envelope_encoding(
                    payload@.body_bytes,
                    payload@.auth_info_bytes,
                    signature_list(signatures@),
                ) == Some(tx.bytes@)
                &&& tx.bytes@ == envelope_bytes(
                    payload@.body_bytes,
                    payload@.auth_info_bytes,
                    signature_list(signatures@),
                )
            },
            Err(e) => if signatures@.len() != payload@.signers {
                e == LedgerError::SignerCountMismatch
            } else {
                e == LedgerError::EncodingFailure && envelope_encoding(
                    payload@.body_bytes,
                    payload@.auth_info_bytes,
                    signature_list(signatures@),
                ).is_none()
            },
        },
{
    if signatures.len() != payload.signers {
        return Err(LedgerError::SignerCountMismatch);
    }
    let bytes = match encode_envelope(
        payload.body_bytes.as_slice(),
        payload.auth_info_bytes.as_slice(),
        &signatures,
    ) {
        Some(bytes) => bytes,
        None => {
            return Err(LedgerError::EncodingFailure);
        },
    };
    Ok(
        SignedTransaction {
            body_bytes: copy_bytes(payload.body_bytes.as_slice()),
            auth_info_bytes: copy_bytes(payload.auth_info_bytes.as_slice()),
            signatures,
            bytes,
        },
    )
}

} // verus!
