//! The typed messages of the ledger and their bytes.
//!
//! Every message is a list of numbered fields. A text, a byte string or a
//! number that is empty or zero is left out when writing and read as empty
//! or zero when missing; where a field occurs more than once the last
//! occurrence counts. A field with an unknown number is skipped, and so is
//! a field that carries a number where bytes are expected, or bytes where a
//! number is; fields of a fixed-width kind are passed over by the reader.
//! For every kind of response, reading what was written gives the response
//! back.

use vstd::prelude::*;
use vstd::utf8::decode_utf8;
use vstd::utf8::encode_utf8;
use vstd::utf8::encode_utf8_decode_utf8;
use vstd::utf8::encode_utf8_valid_utf8;
use vstd::utf8::valid_utf8;
use crate::alias_map::same_text;
use crate::bytes::copy_bytes;
use crate::error::LedgerError;
use crate::text::text_bytes;
use crate::text::text_from_utf8;
use crate::tx::Message;
use crate::tx::QueryRequest;
use crate::tx::ACCOUNT_QUERY_PATH;
use crate::wire::decode;
use crate::wire::decoded;
use crate::wire::encode;
use crate::wire::fields_bytes;
use crate::wire::lemma_decode_encode;
use crate::wire::models;
use crate::wire::valid_field;
use crate::wire::valid_fields;
use crate::wire::Field;
use crate::wire::FieldModel;
use crate::wire::ValueModel;
use crate::wire::WireValue;
use crate::wire::MAX_FIELD_NUMBER;

verus! {

/// The type name of a base account.
pub const BASE_ACCOUNT_TYPE_URL: &'static str = "/cosmos.auth.v1beta1.BaseAccount";

/// The type name of the message that creates a named record.
pub const MSG_CREATE_NYM_TYPE_URL: &'static str = "/cheqdid.cheqdnode.cheqd.MsgCreateNym";

/// `fs`, then the number `v` as field `number` unless it is zero.
pub open spec fn with_number(fs: Seq<FieldModel>, number: u32, v: u64) -> Seq<FieldModel> {
    if v == 0 {
        fs
    } else {
        fs.push(FieldModel { number, value: ValueModel::Varint(v) })
    }
}

/// `fs`, then the bytes `b` as field `number` unless there are none.
pub open spec fn with_bytes(fs: Seq<FieldModel>, number: u32, b: Seq<u8>) -> Seq<FieldModel> {
    if b.len() == 0 {
        fs
    } else {
        fs.push(FieldModel { number, value: ValueModel::Bytes(b) })
    }
}

/// `fs`, then the text `t` as field `number` unless it is empty.
pub open spec fn with_text(fs: Seq<FieldModel>, number: u32, t: Seq<char>) -> Seq<FieldModel> {
    with_bytes(fs, number, encode_utf8(t))
}

/// `fs`, then the nested message `b` as field `number`, empty or not.
pub open spec fn with_message(fs: Seq<FieldModel>, number: u32, b: Seq<u8>) -> Seq<FieldModel> {
    fs.push(FieldModel { number, value: ValueModel::Bytes(b) })
}

/// The number in the last field `number` of `fs`; zero where there is none.
pub open spec fn last_number(fs: Seq<FieldModel>, number: u32) -> u64
    decreases fs.len(),
{
    if fs.len() == 0 {
        0
    } else {
        match fs.last().value {
            ValueModel::Varint(v) => if fs.last().number == number {
                v
            } else {
                last_number(fs.drop_last(), number)
            },
            ValueModel::Bytes(_) => last_number(fs.drop_last(), number),
        }
    }
}

/// The bytes in the last field `number` of `fs`, where there is one.
pub open spec fn last_bytes(fs: Seq<FieldModel>, number: u32) -> Option<Seq<u8>>
    decreases fs.len(),
{
    if fs.len() == 0 {
        None
    } else {
        match fs.last().value {
            ValueModel::Bytes(b) => if fs.last().number == number {
                Some(b)
            } else {
                last_bytes(fs.drop_last(), number)
            },
            ValueModel::Varint(_) => last_bytes(fs.drop_last(), number),
        }
    }
}

/// The bytes in the last field `number` of `fs`; none where it is missing.
pub open spec fn bytes_or_empty(fs: Seq<FieldModel>, number: u32) -> Seq<u8> {
    match last_bytes(fs, number) {
        Some(b) => b,
        None => Seq::empty(),
    }
}

/// The text in the last field `number` of `fs`: empty where the field is
/// missing, and none where its bytes are not UTF-8.
pub open spec fn last_text(fs: Seq<FieldModel>, number: u32) -> Option<Seq<char>> {
    let b = bytes_or_empty(fs, number);
    if valid_utf8(b) {
        Some(decode_utf8(b))
    } else {
        None
    }
}

proof fn lemma_lookups_after_push(fs: Seq<FieldModel>, f: FieldModel, number: u32)
    ensures
        last_number(fs.push(f), number) == match f.value {
            ValueModel::Varint(v) => if f.number == number {
                v
            } else {
                last_number(fs, number)
            },
            ValueModel::Bytes(_) => last_number(fs, number),
        },
        last_bytes(fs.push(f), number) == match f.value {
            ValueModel::Bytes(b) => if f.number == number {
                Some(b)
            } else {
                last_bytes(fs, number)
            },
            ValueModel::Varint(_) => last_bytes(fs, number),
        },
{
    assert(fs.push(f).drop_last() =~= fs);
    assert(fs.push(f).last() == f);
}

/// What a lookup finds after a number was added.
pub proof fn lemma_after_number(fs: Seq<FieldModel>, k: u32, v: u64, number: u32)
    ensures
        last_number(with_number(fs, k, v), number) == if k == number && v != 0 {
            v
        } else {
            last_number(fs, number)
        },
        last_bytes(with_number(fs, k, v), number) == last_bytes(fs, number),
{
    lemma_lookups_after_push(fs, FieldModel { number: k, value: ValueModel::Varint(v) }, number);
}

/// What a lookup finds after bytes were added.
pub proof fn lemma_after_bytes(fs: Seq<FieldModel>, k: u32, b: Seq<u8>, number: u32)
    ensures
        last_number(with_bytes(fs, k, b), number) == last_number(fs, number),
        last_bytes(with_bytes(fs, k, b), number) == if k == number && b.len() != 0 {
            Some(b)
        } else {
            last_bytes(fs, number)
        },
        last_number(with_message(fs, k, b), number) == last_number(fs, number),
        last_bytes(with_message(fs, k, b), number) == if k == number {
            Some(b)
        } else {
            last_bytes(fs, number)
        },
{
    lemma_lookups_after_push(fs, FieldModel { number: k, value: ValueModel::Bytes(b) }, number);
}

/// A text that was added under a number that nothing after it uses is read
/// back as it was.
pub proof fn lemma_text_back(t: Seq<char>)
    ensures
        valid_utf8(encode_utf8(t)),
        decode_utf8(encode_utf8(t)) == t,
        valid_utf8(Seq::<u8>::empty()),
        decode_utf8(Seq::<u8>::empty()) == Seq::<char>::empty(),
        encode_utf8(t).len() == 0 ==> t == Seq::<char>::empty(),
{
    encode_utf8_valid_utf8(t);
    encode_utf8_decode_utf8(t);
    encode_utf8_valid_utf8(Seq::<char>::empty());
    encode_utf8_decode_utf8(Seq::<char>::empty());
    assert(encode_utf8(Seq::<char>::empty()) =~= Seq::<u8>::empty());
    if encode_utf8(t).len() == 0 {
        assert(encode_utf8(t) =~= Seq::<u8>::empty());
    }
}

/// Appends the number `v` as field `number` unless it is zero.
pub(crate) fn push_number(fields: &mut Vec<Field>, number: u32, v: u64)
    requires
        1 <= number <= MAX_FIELD_NUMBER,
        valid_fields(models(old(fields)@)),
    ensures
        models(final(fields)@) == with_number(models(old(fields)@), number, v),
        valid_fields(models(final(fields)@)),
{
    if v != 0 {
        let ghost before = models(fields@);
        fields.push(Field { number, value: WireValue::Varint(v) });
        assert(models(fields@) =~= before.push(
            FieldModel { number, value: ValueModel::Varint(v) },
        ));
    }
}

/// Appends the bytes `b` as field `number` unless there are none.
pub(crate) fn push_bytes(fields: &mut Vec<Field>, number: u32, b: Vec<u8>)
    requires
        1 <= number <= MAX_FIELD_NUMBER,
        valid_fields(models(old(fields)@)),
    ensures
        models(final(fields)@) == with_bytes(models(old(fields)@), number, b@),
        valid_fields(models(final(fields)@)),
{
    if b.len() != 0 {
        let ghost before = models(fields@);
        let ghost content = b@;
        fields.push(Field { number, value: WireValue::Bytes(b) });
        assert(models(fields@) =~= before.push(
            FieldModel { number, value: ValueModel::Bytes(content) },
        ));
    }
}

/// Appends the text `t` as field `number` unless it is empty.
pub(crate) fn push_text(fields: &mut Vec<Field>, number: u32, t: &str)
    requires
        1 <= number <= MAX_FIELD_NUMBER,
        valid_fields(models(old(fields)@)),
    ensures
        models(final(fields)@) == with_text(models(old(fields)@), number, t@),
        valid_fields(models(final(fields)@)),
{
    push_bytes(fields, number, text_bytes(t));
}

/// Appends the nested message `b` as field `number`, empty or not.
pub(crate) fn push_message(fields: &mut Vec<Field>, number: u32, b: Vec<u8>)
    requires
        1 <= number <= MAX_FIELD_NUMBER,
        valid_fields(models(old(fields)@)),
    ensures
        models(final(fields)@) == with_message(models(old(fields)@), number, b@),
        valid_fields(models(final(fields)@)),
{
    let ghost before = models(fields@);
    let ghost content = b@;
    let size: usize = b.len();
    fields.push(Field { number, value: WireValue::Bytes(b) });
    proof {
        let added = FieldModel { number, value: ValueModel::Bytes(content) };
        assert(models(fields@) =~= before.push(added));
        assert(content.len() == size);
        assert(valid_field(added));
        assert forall|i: int| 0 <= i < models(fields@).len() implies valid_field(
            #[trigger] models(fields@)[i],
        ) by {
            if i < before.len() {
                assert(models(fields@)[i] == before[i]);
            }
        }
    }
}

/// The number in the last field `number`; zero where there is none.
pub(crate) fn number_in(fields: &Vec<Field>, number: u32) -> (v: u64)
    ensures
        v == last_number(models(fields@), number),
{
    let ghost all = models(fields@);
    let mut i: usize = fields.len();
    assert(all.take(i as int) =~= all);
    while i > 0
        invariant
            i <= fields.len(),
            all == models(fields@),
            last_number(all, number) == last_number(all.take(i as int), number),
        decreases i,
    {
        proof {
            assert(all.take(i as int).drop_last() =~= all.take(i - 1));
            assert(all.take(i as int).last() == fields@[i - 1]@);
        }
        let f = &fields[i - 1];
        match &f.value {
            WireValue::Varint(v) => {
                if f.number == number {
                    return *v;
                }
            },
            WireValue::Bytes(_) => {},
        }
        i -= 1;
    }
    assert(all.take(0).len() == 0);
    0
}

/// The bytes in the last field `number`, where there is one.
pub(crate) fn bytes_in(fields: &Vec<Field>, number: u32) -> (b: Option<&Vec<u8>>)
    ensures
        match b {
            Some(found) => last_bytes(models(fields@), number) == Some(found@),
            None => last_bytes(models(fields@), number).is_none(),
        },
{
    let ghost all = models(fields@);
    let mut i: usize = fields.len();
    assert(all.take(i as int) =~= all);
    while i > 0
        invariant
            i <= fields.len(),
            all == models(fields@),
            last_bytes(all, number) == last_bytes(all.take(i as int), number),
        decreases i,
    {
        proof {
            assert(all.take(i as int).drop_last() =~= all.take(i - 1));
            assert(all.take(i as int).last() == fields@[i - 1]@);
        }
        let f = &fields[i - 1];
        match &f.value {
            WireValue::Bytes(b) => {
                if f.number == number {
                    return Some(b);
                }
            },
            WireValue::Varint(_) => {},
        }
        i -= 1;
    }
    assert(all.take(0).len() == 0);
    None
}

/// The text in the last field `number`: empty where the field is missing,
/// nothing where its bytes are not UTF-8.
pub(crate) fn text_in(fields: &Vec<Field>, number: u32) -> (t: Option<String>)
    ensures
        match t {
            Some(text) => last_text(models(fields@), number) == Some(text@),
            None => last_text(models(fields@), number).is_none(),
        },
{
    match bytes_in(fields, number) {
        Some(b) => text_from_utf8(copy_bytes(b.as_slice())),
        None => text_from_utf8(Vec::new()),
    }
}

/// The bytes in the last field `number`; none where it is missing.
pub(crate) fn bytes_or_empty_in(fields: &Vec<Field>, number: u32) -> (b: Vec<u8>)
    ensures
        b@ == bytes_or_empty(models(fields@), number),
{
    match bytes_in(fields, number) {
        Some(b) => copy_bytes(b.as_slice()),
        None => Vec::new(),
    }
}

/// An account as the ledger keeps it.
#[derive(Clone, Debug, PartialEq, Eq)]
pub struct Account {
    pub address: String,
    pub account_number: u64,
    pub sequence: u64,
}

pub struct AccountModel {
    pub address: Seq<char>,
    pub account_number: u64,
    pub sequence: u64,
}

impl View for Account {
    type V = AccountModel;

    open spec fn view(&self) -> AccountModel {
        AccountModel {
            address: self.address@,
            account_number: self.account_number,
            sequence: self.sequence,
        }
    }
}

/// A named record.
#[derive(Clone, Debug, PartialEq, Eq)]
pub struct Nym {
    pub creator: String,
    pub id: u64,
    pub alias: String,
    pub verkey: String,
    pub did: String,
    pub role: String,
}

pub struct NymModel {
    pub creator: Seq<char>,
    pub id: u64,
    pub alias: Seq<char>,
    pub verkey: Seq<char>,
    pub did: Seq<char>,
    pub role: Seq<char>,
}

impl View for Nym {
    type V = NymModel;

    open spec fn view(&self) -> NymModel {
        NymModel {
            creator: self.creator@,
            id: self.id,
            alias: self.alias@,
            verkey: self.verkey@,
            did: self.did@,
            role: self.role@,
        }
    }
}

/// The kinds of response the pipeline reads.
#[derive(Clone, Copy, Debug, PartialEq, Eq, Structural)]
pub enum ResponseKind {
    /// An account as its store holds it.
    Account,
    /// The answer of the account query service: an account, or none.
    AccountReply,
    /// A named record as its store holds it.
    Nym,
    /// The result of creating a named record: its number.
    NymCreated,
}

/// A response of one of the kinds.
#[derive(Clone, Debug, PartialEq, Eq)]
pub enum Response {
    Account(Account),
    AccountReply(Option<Account>),
    Nym(Nym),
    NymCreated(u64),
}

pub enum ResponseView {
    Account(AccountModel),
    AccountReply(Option<AccountModel>),
    Nym(NymModel),
    NymCreated(u64),
}

/// The model of an account that may be absent.
pub open spec fn account_model(account: Option<Account>) -> Option<AccountModel> {
    match account {
        Some(a) => Some(a@),
        None => None,
    }
}

impl View for Response {
    type V = ResponseView;

    open spec fn view(&self) -> ResponseView {
        match *self {
            Response::Account(a) => ResponseView::Account(a@),
            Response::AccountReply(a) => ResponseView::AccountReply(account_model(a)),
            Response::Nym(n) => ResponseView::Nym(n@),
            Response::NymCreated(id) => ResponseView::NymCreated(id),
        }
    }
}

/// The kind of a response.
pub open spec fn kind_of(r: ResponseView) -> ResponseKind {
    match r {
        ResponseView::Account(_) => ResponseKind::Account,
        ResponseView::AccountReply(_) => ResponseKind::AccountReply,
        ResponseView::Nym(_) => ResponseKind::Nym,
        ResponseView::NymCreated(_) => ResponseKind::NymCreated,
    }
}

pub open spec fn base_account_fields(a: AccountModel) -> Seq<FieldModel> {
    with_number(
        with_number(with_text(Seq::empty(), 1, a.address), 3, a.account_number),
        4,
        a.sequence,
    )
}

/// The bytes of a base account: address, account number, sequence.
pub open spec fn base_account_bytes(a: AccountModel) -> Seq<u8> {
    fields_bytes(base_account_fields(a))
}

pub open spec fn any_fields(type_url: Seq<char>, value: Seq<u8>) -> Seq<FieldModel> {
    with_bytes(with_text(Seq::empty(), 1, type_url), 2, value)
}

/// The bytes of a message wrapped with its type name.
pub open spec fn any_bytes(type_url: Seq<char>, value: Seq<u8>) -> Seq<u8> {
    fields_bytes(any_fields(type_url, value))
}

/// The bytes of an account as its store holds it: a base account wrapped
/// with its type name.
pub open spec fn account_bytes(a: AccountModel) -> Seq<u8> {
    any_bytes(BASE_ACCOUNT_TYPE_URL@, base_account_bytes(a))
}

pub open spec fn account_reply_fields(a: Option<AccountModel>) -> Seq<FieldModel> {
    match a {
        Some(account) => with_message(Seq::empty(), 1, account_bytes(account)),
        None => Seq::empty(),
    }
}

/// The bytes of the account query service's answer.
pub open spec fn account_reply_bytes(a: Option<AccountModel>) -> Seq<u8> {
    fields_bytes(account_reply_fields(a))
}

pub open spec fn nym_fields(n: NymModel) -> Seq<FieldModel> {
    with_text(
        with_text(
            with_text(
                with_text(with_number(with_text(Seq::empty(), 1, n.creator), 2, n.id), 3, n.alias),
                4,
                n.verkey,
            ),
            5,
            n.did,
        ),
        6,
        n.role,
    )
}

/// The bytes of a named record.
pub open spec fn nym_bytes(n: NymModel) -> Seq<u8> {
    fields_bytes(nym_fields(n))
}

/// The bytes of the result of creating a named record.
pub open spec fn nym_created_bytes(id: u64) -> Seq<u8> {
    fields_bytes(with_number(Seq::empty(), 1, id))
}

/// The bytes of a response.
pub open spec fn response_bytes(r: ResponseView) -> Seq<u8> {
    match r {
        ResponseView::Account(a) => account_bytes(a),
        ResponseView::AccountReply(a) => account_reply_bytes(a),
        ResponseView::Nym(n) => nym_bytes(n),
        ResponseView::NymCreated(id) => nym_created_bytes(id),
    }
}

/// The base account that the bytes hold, where they hold one.
pub open spec fn parsed_base_account(bytes: Seq<u8>) -> Option<AccountModel> {
    match decoded(bytes) {
        None => None,
        Some(fs) => match last_text(fs, 1) {
            None => None,
            Some(address) => Some(
                AccountModel {
                    address,
                    account_number: last_number(fs, 3),
                    sequence: last_number(fs, 4),
                },
            ),
        },
    }
}

/// The account that the bytes hold, where they hold a base account under
/// its type name.
pub open spec fn parsed_account(bytes: Seq<u8>) -> Option<AccountModel> {
    match decoded(bytes) {
        None => None,
        Some(fs) => if last_text(fs, 1) == Some(BASE_ACCOUNT_TYPE_URL@) {
            parsed_base_account(bytes_or_empty(fs, 2))
        } else {
            None
        },
    }
}

/// The answer of the account query service that the bytes hold.
pub open spec fn parsed_account_reply(bytes: Seq<u8>) -> Option<Option<AccountModel>> {
    match decoded(bytes) {
        None => None,
        Some(fs) => match last_bytes(fs, 1) {
            None => Some(None),
            Some(inner) => match parsed_account(inner) {
                Some(a) => Some(Some(a)),
                None => None,
            },
        },
    }
}

/// The named record that the bytes hold.
pub open spec fn parsed_nym(bytes: Seq<u8>) -> Option<NymModel> {
    match decoded(bytes) {
        None => None,
        Some(fs) => {
            let creator = last_text(fs, 1);
            let alias = last_text(fs, 3);
            let verkey = last_text(fs, 4);
            let did = last_text(fs, 5);
            let role = last_text(fs, 6);
            if creator.is_none() || alias.is_none() || verkey.is_none() || did.is_none()
                || role.is_none() {
                None
            } else {
                Some(
                    NymModel {
                        creator: creator.unwrap(),
                        id: last_number(fs, 2),
                        alias: alias.unwrap(),
                        verkey: verkey.unwrap(),
                        did: did.unwrap(),
                        role: role.unwrap(),
                    },
                )
            }
        },
    }
}

/// The number of the created record that the bytes hold.
pub open spec fn parsed_nym_created(bytes: Seq<u8>) -> Option<u64> {
    match decoded(bytes) {
        None => None,
        Some(fs) => Some(last_number(fs, 1)),
    }
}

/// The response of the given kind that the bytes hold, where they hold one.
pub open spec fn parsed_response(kind: ResponseKind, bytes: Seq<u8>) -> Option<ResponseView> {
    match kind {
        ResponseKind::Account => match parsed_account(bytes) {
            Some(a) => Some(ResponseView::Account(a)),
            None => None,
        },
        ResponseKind::AccountReply => match parsed_account_reply(bytes) {
            Some(a) => Some(ResponseView::AccountReply(a)),
            None => None,
        },
        ResponseKind::Nym => match parsed_nym(bytes) {
            Some(n) => Some(ResponseView::Nym(n)),
            None => None,
        },
        ResponseKind::NymCreated => match parsed_nym_created(bytes) {
            Some(id) => Some(ResponseView::NymCreated(id)),
            None => None,
        },
    }
}

/// The text is short enough for a length prefix.
pub open spec fn text_fits(t: Seq<char>) -> bool {
    encode_utf8(t).len() <= u64::MAX
}

/// Every part of the account is short enough for a length prefix.
pub open spec fn account_fits(a: AccountModel) -> bool {
    text_fits(a.address) && base_account_bytes(a).len() <= u64::MAX && account_bytes(a).len()
        <= u64::MAX
}

/// Every part of the response is short enough for a length prefix.
pub open spec fn response_fits(r: ResponseView) -> bool {
    match r {
        ResponseView::Account(a) => account_fits(a),
        ResponseView::AccountReply(Some(a)) => account_fits(a),
        ResponseView::AccountReply(None) => true,
        ResponseView::Nym(n) => text_fits(n.creator) && text_fits(n.alias) && text_fits(n.verkey)
            && text_fits(n.did) && text_fits(n.role),
        ResponseView::NymCreated(_) => true,
    }
}

proof fn lemma_base_account_back(a: AccountModel)
    requires
        text_fits(a.address),
    ensures
        valid_fields(base_account_fields(a)),
        parsed_base_account(base_account_bytes(a)) == Some(a),
{
    let f0 = Seq::<FieldModel>::empty();
    let f1 = with_text(f0, 1, a.address);
    let f2 = with_number(f1, 3, a.account_number);
    let f3 = with_number(f2, 4, a.sequence);
    lemma_text_back(a.address);
    lemma_after_bytes(f0, 1, encode_utf8(a.address), 1);
    lemma_after_bytes(f0, 1, encode_utf8(a.address), 3);
    lemma_after_bytes(f0, 1, encode_utf8(a.address), 4);
    lemma_after_number(f1, 3, a.account_number, 1);
    lemma_after_number(f1, 3, a.account_number, 3);
    lemma_after_number(f1, 3, a.account_number, 4);
    lemma_after_number(f2, 4, a.sequence, 1);
    lemma_after_number(f2, 4, a.sequence, 3);
    lemma_after_number(f2, 4, a.sequence, 4);
    assert(valid_fields(f3));
    lemma_decode_encode(f3);
}

/// Reading a wrapped message gives its type name and its bytes back.
pub proof fn lemma_any_back(type_url: Seq<char>, value: Seq<u8>)
    requires
        text_fits(type_url),
        value.len() <= u64::MAX,
    ensures
        valid_fields(any_fields(type_url, value)),
        decoded(any_bytes(type_url, value)) == Some(any_fields(type_url, value)),
        last_text(any_fields(type_url, value), 1) == Some(type_url),
        bytes_or_empty(any_fields(type_url, value), 2) == value,
{
    let f0 = Seq::<FieldModel>::empty();
    let f1 = with_text(f0, 1, type_url);
    let f2 = with_bytes(f1, 2, value);
    lemma_text_back(type_url);
    lemma_after_bytes(f0, 1, encode_utf8(type_url), 1);
    lemma_after_bytes(f0, 1, encode_utf8(type_url), 2);
    lemma_after_bytes(f1, 2, value, 1);
    lemma_after_bytes(f1, 2, value, 2);
    assert(valid_fields(f2));
    lemma_decode_encode(f2);
    if value.len() == 0 {
        assert(value =~= Seq::<u8>::empty());
    }
}

proof fn lemma_account_back(a: AccountModel)
    requires
        account_fits(a),
    ensures
        parsed_account(account_bytes(a)) == Some(a),
{
    lemma_base_account_back(a);
    lemma_text_back(BASE_ACCOUNT_TYPE_URL@);
    reveal_strlit("/cosmos.auth.v1beta1.BaseAccount");
    assert(text_fits(BASE_ACCOUNT_TYPE_URL@)) by {
        vstd::utf8::is_ascii_chars_encode_utf8(BASE_ACCOUNT_TYPE_URL@);
    }
    lemma_any_back(BASE_ACCOUNT_TYPE_URL@, base_account_bytes(a));
}

proof fn lemma_nym_back(n: NymModel)
    requires
        text_fits(n.creator),
        text_fits(n.alias),
        text_fits(n.verkey),
        text_fits(n.did),
        text_fits(n.role),
    ensures
        valid_fields(nym_fields(n)),
        parsed_nym(nym_bytes(n)) == Some(n),
{
    let f0 = Seq::<FieldModel>::empty();
    let f1 = with_text(f0, 1, n.creator);
    let f2 = with_number(f1, 2, n.id);
    let f3 = with_text(f2, 3, n.alias);
    let f4 = with_text(f3, 4, n.verkey);
    let f5 = with_text(f4, 5, n.did);
    let f6 = with_text(f5, 6, n.role);
    lemma_text_back(n.creator);
    lemma_text_back(n.alias);
    lemma_text_back(n.verkey);
    lemma_text_back(n.did);
    lemma_text_back(n.role);
    assert forall|k: u32| 1 <= k <= 6 implies {
        &&& last_bytes(f1, k) == if k == 1 && encode_utf8(n.creator).len() != 0 {
            Some(encode_utf8(n.creator))
        } else {
            None
        }
        &&& last_number(f1, k) == 0
        &&& last_bytes(f2, k) == last_bytes(f1, k)
        &&& last_number(f2, k) == if k == 2 {
            n.id
        } else {
            0
        }
        &&& last_number(f6, k) == last_number(f2, k)
        &&& last_bytes(f3, k) == if k == 3 && encode_utf8(n.alias).len() != 0 {
            Some(encode_utf8(n.alias))
        } else {
            last_bytes(f2, k)
        }
        &&& last_bytes(f4, k) == if k == 4 && encode_utf8(n.verkey).len() != 0 {
            Some(encode_utf8(n.verkey))
        } else {
            last_bytes(f3, k)
        }
        &&& last_bytes(f5, k) == if k == 5 && encode_utf8(n.did).len() != 0 {
            Some(encode_utf8(n.did))
        } else {
            last_bytes(f4, k)
        }
        &&& last_bytes(f6, k) == if k == 6 && encode_utf8(n.role).len() != 0 {
            Some(encode_utf8(n.role))
        } else {
            last_bytes(f5, k)
        }
    } by {
        lemma_after_bytes(f0, 1, encode_utf8(n.creator), k);
        lemma_after_number(f1, 2, n.id, k);
        lemma_after_bytes(f2, 3, encode_utf8(n.alias), k);
        lemma_after_bytes(f3, 4, encode_utf8(n.verkey), k);
        lemma_after_bytes(f4, 5, encode_utf8(n.did), k);
        lemma_after_bytes(f5, 6, encode_utf8(n.role), k);
    }
    assert(valid_fields(f6));
    lemma_decode_encode(f6);
    let fs = nym_fields(n);
    assert(fs == f6);
    assert(last_text(fs, 1) == Some(n.creator));
    assert(last_text(fs, 3) == Some(n.alias));
    assert(last_text(fs, 4) == Some(n.verkey));
    assert(last_text(fs, 5) == Some(n.did));
    assert(last_text(fs, 6) == Some(n.role));
    assert(last_number(fs, 2) == n.id);
}

/// Reading the bytes of a response as its own kind gives the response back.
pub proof fn lemma_parse_encode(r: ResponseView)
    requires
        response_fits(r),
    ensures
        parsed_response(kind_of(r), response_bytes(r)) == Some(r),
{
    match r {
        ResponseView::Account(a) => {
            lemma_account_back(a);
        },
        ResponseView::AccountReply(Some(a)) => {
            lemma_account_back(a);
            let fs = account_reply_fields(Some(a));
            lemma_after_bytes(Seq::empty(), 1, account_bytes(a), 1);
            assert(valid_fields(fs));
            lemma_decode_encode(fs);
        },
        ResponseView::AccountReply(None) => {
            let fs = Seq::<FieldModel>::empty();
            assert(valid_fields(fs));
            lemma_decode_encode(fs);
        },
        ResponseView::Nym(n) => {
            lemma_nym_back(n);
        },
        ResponseView::NymCreated(id) => {
            let fs = with_number(Seq::empty(), 1, id);
            lemma_after_number(Seq::empty(), 1, id, 1);
            assert(valid_fields(fs));
            lemma_decode_encode(fs);
        },
    }
}

impl Account {
    /// The bytes of this account as a base account.
    pub fn to_base_bytes(&self) -> (bytes: Vec<u8>)
        ensures
            bytes@ == base_account_bytes(self@),
    {
        let mut fields: Vec<Field> = Vec::new();
        assert(models(fields@) =~= Seq::<FieldModel>::empty());
        push_text(&mut fields, 1, self.address.as_str());
        push_number(&mut fields, 3, self.account_number);
        push_number(&mut fields, 4, self.sequence);
        encode(&fields)
    }

    /// The bytes of this account as its store holds it.
    pub fn to_bytes(&self) -> (bytes: Vec<u8>)
        ensures
            bytes@ == account_bytes(self@),
    {
        let mut fields: Vec<Field> = Vec::new();
        assert(models(fields@) =~= Seq::<FieldModel>::empty());
        push_text(&mut fields, 1, BASE_ACCOUNT_TYPE_URL);
        push_bytes(&mut fields, 2, self.to_base_bytes());
        encode(&fields)
    }

    /// Reads a base account.
    pub fn from_base_bytes(bytes: &[u8]) -> (account: Option<Account>)
        ensures
            match account {
                Some(a) => parsed_base_account(bytes@) == Some(a@),
                None => parsed_base_account(bytes@).is_none(),
            },
    {
        let fields = match decode(bytes) {
            Some(fields) => fields,
            None => {
                return None;
            },
        };
        let address = match text_in(&fields, 1) {
            Some(address) => address,
            None => {
                return None;
            },
        };
        Some(
            Account {
                address,
                account_number: number_in(&fields, 3),
                sequence: number_in(&fields, 4),
            },
        )
    }

    /// Reads an account as its store holds it.
    pub fn from_bytes(bytes: &[u8]) -> (account: Option<Account>)
        ensures
            match account {
                Some(a) => parsed_account(bytes@) == Some(a@),
                None => parsed_account(bytes@).is_none(),
            },
    {
        let fields = match decode(bytes) {
            Some(fields) => fields,
            None => {
                return None;
            },
        };
        let type_url = match text_in(&fields, 1) {
            Some(t) => t,
            None => {
                return None;
            },
        };
        if !same_text(type_url.as_str(), BASE_ACCOUNT_TYPE_URL) {
            return None;
        }
        let inner = bytes_or_empty_in(&fields, 2);
        Account::from_base_bytes(inner.as_slice())
    }
}

impl Nym {
    /// The bytes of this record.
    pub fn to_bytes(&self) -> (bytes: Vec<u8>)
        ensures
            bytes@ == nym_bytes(self@),
    {
        let mut fields: Vec<Field> = Vec::new();
        assert(models(fields@) =~= Seq::<FieldModel>::empty());
        push_text(&mut fields, 1, self.creator.as_str());
        push_number(&mut fields, 2, self.id);
        push_text(&mut fields, 3, self.alias.as_str());
        push_text(&mut fields, 4, self.verkey.as_str());
        push_text(&mut fields, 5, self.did.as_str());
        push_text(&mut fields, 6, self.role.as_str());
        encode(&fields)
    }

    /// Reads a record.
    pub fn from_bytes(bytes: &[u8]) -> (nym: Option<Nym>)
        ensures
            match nym {
                Some(n) => parsed_nym(bytes@) == Some(n@),
                None => parsed_nym(bytes@).is_none(),
            },
    {
        let fields = match decode(bytes) {
            Some(fields) => fields,
            None => {
                return None;
            },
        };
        let creator = text_in(&fields, 1);
        let alias = text_in(&fields, 3);
        let verkey = text_in(&fields, 4);
        let did = text_in(&fields, 5);
        let role = text_in(&fields, 6);
        match (creator, alias, verkey, did, role) {
            (Some(creator), Some(alias), Some(verkey), Some(did), Some(role)) => Some(
                Nym { creator, id: number_in(&fields, 2), alias, verkey, did, role },
            ),
            _ => None,
        }
    }
}

/// The bytes of a response.
pub fn encode_response(response: &Response) -> (bytes: Vec<u8>)
    ensures
        bytes@ == response_bytes(response@),
{
    match response {
        Response::Account(a) => a.to_bytes(),
        Response::AccountReply(Some(a)) => {
            let mut fields: Vec<Field> = Vec::new();
            assert(models(fields@) =~= Seq::<FieldModel>::empty());
            push_message(&mut fields, 1, a.to_bytes());
            encode(&fields)
        },
        Response::AccountReply(None) => {
            let fields: Vec<Field> = Vec::new();
            assert(models(fields@) =~= Seq::<FieldModel>::empty());
            encode(&fields)
        },
        Response::Nym(n) => n.to_bytes(),
        Response::NymCreated(id) => {
            let mut fields: Vec<Field> = Vec::new();
            assert(models(fields@) =~= Seq::<FieldModel>::empty());
            push_number(&mut fields, 1, *id);
            encode(&fields)
        },
    }
}

/// Reads a response of the given kind from wire bytes.
///
/// Fails with `MalformedResponse`, and with nothing else, exactly where the
/// bytes do not hold a response of that kind.
pub fn parse_response(kind: ResponseKind, bytes: &[u8]) -> (parsed: Result<Response, LedgerError>)
    ensures
        match parsed {
            Ok(r) => parsed_response(kind, bytes@) == Some(r@),
            Err(e) => parsed_response(kind, bytes@).is_none() && e
                == LedgerError::MalformedResponse,
        },
{
    match kind {
        ResponseKind::Account => match Account::from_bytes(bytes) {
            Some(a) => Ok(Response::Account(a)),
            None => Err(LedgerError::MalformedResponse),
        },
        ResponseKind::AccountReply => {
            let fields = match decode(bytes) {
                Some(fields) => fields,
                None => {
                    return Err(LedgerError::MalformedResponse);
                },
            };
            match bytes_in(&fields, 1) {
                None => Ok(Response::AccountReply(None)),
                Some(inner) => match Account::from_bytes(inner.as_slice()) {
                    Some(a) => Ok(Response::AccountReply(Some(a))),
                    None => Err(LedgerError::MalformedResponse),
                },
            }
        },
        ResponseKind::Nym => match Nym::from_bytes(bytes) {
            Some(n) => Ok(Response::Nym(n)),
            None => Err(LedgerError::MalformedResponse),
        },
        ResponseKind::NymCreated => match decode(bytes) {
            Some(fields) => Ok(Response::NymCreated(number_in(&fields, 1))),
            None => Err(LedgerError::MalformedResponse),
        },
    }
}

/// The message that creates a named record.
#[derive(Clone, Debug, PartialEq, Eq)]
pub struct MsgCreateNym {
    pub creator: String,
    pub alias: String,
    pub verkey: String,
    pub did: String,
    pub role: String,
}

/// The bytes of the message that creates a named record.
pub open spec fn create_nym_bytes(
    creator: Seq<char>,
    alias: Seq<char>,
    verkey: Seq<char>,
    did: Seq<char>,
    role: Seq<char>,
) -> Seq<u8> {
    fields_bytes(
        with_text(
            with_text(
                with_text(with_text(with_text(Seq::empty(), 1, creator), 2, alias), 3, verkey),
                4,
                did,
            ),
            5,
            role,
        ),
    )
}

/// The five texts of the message that creates a named record.
pub struct CreateNymModel {
    pub creator: Seq<char>,
    pub alias: Seq<char>,
    pub verkey: Seq<char>,
    pub did: Seq<char>,
    pub role: Seq<char>,
}

/// The message that the bytes hold, where they hold one.
pub open spec fn parsed_create_nym(bytes: Seq<u8>) -> Option<CreateNymModel> {
    match decoded(bytes) {
        None => None,
        Some(fs) => {
            let creator = last_text(fs, 1);
            let alias = last_text(fs, 2);
            let verkey = last_text(fs, 3);
            let did = last_text(fs, 4);
            let role = last_text(fs, 5);
            if creator.is_none() || alias.is_none() || verkey.is_none() || did.is_none()
                || role.is_none() {
                None
            } else {
                Some(
                    CreateNymModel {
                        creator: creator.unwrap(),
                        alias: alias.unwrap(),
                        verkey: verkey.unwrap(),
                        did: did.unwrap(),
                        role: role.unwrap(),
                    },
                )
            }
        },
    }
}

/// Every text of the message is short enough for a length prefix.
pub open spec fn create_nym_fits(m: CreateNymModel) -> bool {
    text_fits(m.creator) && text_fits(m.alias) && text_fits(m.verkey) && text_fits(m.did)
        && text_fits(m.role)
}

/// Reading the bytes of a message that creates a named record gives the
/// message back.
pub proof fn lemma_create_nym_back(m: CreateNymModel)
    requires
        create_nym_fits(m),
    ensures
        parsed_create_nym(create_nym_bytes(m.creator, m.alias, m.verkey, m.did, m.role)) == Some(m),
{
    let f0 = Seq::<FieldModel>::empty();
    let f1 = with_text(f0, 1, m.creator);
    let f2 = with_text(f1, 2, m.alias);
    let f3 = with_text(f2, 3, m.verkey);
    let f4 = with_text(f3, 4, m.did);
    let f5 = with_text(f4, 5, m.role);
    lemma_text_back(m.creator);
    lemma_text_back(m.alias);
    lemma_text_back(m.verkey);
    lemma_text_back(m.did);
    lemma_text_back(m.role);
    assert forall|k: u32| 1 <= k <= 5 implies {
        &&& last_bytes(f1, k) == if k == 1 && encode_utf8(m.creator).len() != 0 {
            Some(encode_utf8(m.creator))
        } else {
            None
        }
        &&& last_bytes(f2, k) == if k == 2 && encode_utf8(m.alias).len() != 0 {
            Some(encode_utf8(m.alias))
        } else {
            last_bytes(f1, k)
        }
        &&& last_bytes(f3, k) == if k == 3 && encode_utf8(m.verkey).len() != 0 {
            Some(encode_utf8(m.verkey))
        } else {
            last_bytes(f2, k)
        }
        &&& last_bytes(f4, k) == if k == 4 && encode_utf8(m.did).len() != 0 {
            Some(encode_utf8(m.did))
        } else {
            last_bytes(f3, k)
        }
        &&& last_bytes(f5, k) == if k == 5 && encode_utf8(m.role).len() != 0 {
            Some(encode_utf8(m.role))
        } else {
            last_bytes(f4, k)
        }
    } by {
        lemma_after_bytes(f0, 1, encode_utf8(m.creator), k);
        lemma_after_bytes(f1, 2, encode_utf8(m.alias), k);
        lemma_after_bytes(f2, 3, encode_utf8(m.verkey), k);
        lemma_after_bytes(f3, 4, encode_utf8(m.did), k);
        lemma_after_bytes(f4, 5, encode_utf8(m.role), k);
    }
    assert(valid_fields(f5));
    lemma_decode_encode(f5);
    assert(last_text(f5, 1) == Some(m.creator));
    assert(last_text(f5, 2) == Some(m.alias));
    assert(last_text(f5, 3) == Some(m.verkey));
    assert(last_text(f5, 4) == Some(m.did));
    assert(last_text(f5, 5) == Some(m.role));
}

/// Two messages that create a named record and differ in any text differ
/// in their bytes.
pub proof fn lemma_create_nym_bytes_differ(a: CreateNymModel, b: CreateNymModel)
    requires
        create_nym_fits(a),
        create_nym_fits(b),
        a != b,
    ensures
        create_nym_bytes(a.creator, a.alias, a.verkey, a.did, a.role) != create_nym_bytes(
            b.creator,
            b.alias,
            b.verkey,
            b.did,
            b.role,
        ),
{
    lemma_create_nym_back(a);
    lemma_create_nym_back(b);
}

/// Two responses of one kind that differ differ in their bytes.
pub proof fn lemma_response_bytes_differ(a: ResponseView, b: ResponseView)
    requires
        response_fits(a),
        response_fits(b),
        kind_of(a) == kind_of(b),
        a != b,
    ensures
        response_bytes(a) != response_bytes(b),
{
    lemma_parse_encode(a);
    lemma_parse_encode(b);
}

impl MsgCreateNym {
    /// This message under its type name, as a transaction carries it.
    pub fn to_message(&self) -> (message: Message)
        ensures
            message.type_url@ == MSG_CREATE_NYM_TYPE_URL@,
            message.value@ == create_nym_bytes(
                self.creator@,
                self.alias@,
                self.verkey@,
                self.did@,
                self.role@,
            ),
    {
        let mut fields: Vec<Field> = Vec::new();
        assert(models(fields@) =~= Seq::<FieldModel>::empty());
        push_text(&mut fields, 1, self.creator.as_str());
        push_text(&mut fields, 2, self.alias.as_str());
        push_text(&mut fields, 3, self.verkey.as_str());
        push_text(&mut fields, 4, self.did.as_str());
        push_text(&mut fields, 5, self.role.as_str());
        Message { type_url: MSG_CREATE_NYM_TYPE_URL.to_owned(), value: encode(&fields) }
    }
}

/// What can be read from the ledger.
#[derive(Clone, Debug, PartialEq, Eq)]
pub enum QueryKind {
    /// The account at an address, from the account store, with proof.
    Account(String),
    /// The account at an address, through the query service.
    AccountWithoutProof(String),
    /// The named record with a number, from the record store, with proof.
    Nym(u64),
}

/// Builds the read request for `kind`. Nothing is asked of anyone: the
/// request is a function of `kind` alone. Fails with `InvalidAddress`
/// exactly where a proven account read is asked for an address that is none.
pub fn build_query(kind: &QueryKind) -> (built: Result<QueryRequest, LedgerError>)
    ensures
        match *kind {
            QueryKind::Account(address) => match built {
                Ok(request) => {
                    &&& crate::crypto::address_payload(address@) matches Some(payload)
                    &&& request.path@ == crate::tx::ACCOUNT_STORE_PATH@
                    &&& request.data@ == crate::tx::account_store_key(payload)
                    &&& request.height.is_none()
                    &&& request.prove
                },
                Err(e) => crate::crypto::address_payload(address@).is_none() && e
                    == LedgerError::InvalidAddress,
            },
            QueryKind::AccountWithoutProof(address) => {
                &&& built matches Ok(request)
                &&& request.path@ == ACCOUNT_QUERY_PATH@
                &&& request.data@ == account_request_bytes(address@)
                &&& request.height.is_none()
                &&& request.prove
            },
            QueryKind::Nym(id) => {
                &&& built matches Ok(request)
                &&& request.path@ == crate::tx::NYM_STORE_PATH@
                &&& request.data@ == crate::tx::nym_store_key(id)
                &&& request.height.is_none()
                &&& request.prove
            },
        },
{
    match kind {
        QueryKind::Account(address) => crate::tx::build_query_account(address.as_str()),
        QueryKind::AccountWithoutProof(address) => Ok(
            build_query_account_without_proof(address.as_str()),
        ),
        QueryKind::Nym(id) => Ok(crate::tx::build_query_get_nym(*id)),
    }
}

/// The data of an account query to the query service: the address as the
/// one field of the request message.
pub open spec fn account_request_bytes(address: Seq<char>) -> Seq<u8> {
    fields_bytes(with_text(Seq::empty(), 1, address))
}

/// Builds the read of the account at `address` through the query service.
/// The address travels as text and is not looked into.
pub fn build_query_account_without_proof(address: &str) -> (request: QueryRequest)
    ensures
        request.path@ == ACCOUNT_QUERY_PATH@,
        request.data@ == account_request_bytes(address@),
        request.height.is_none(),
        request.prove,
{
    let mut fields: Vec<Field> = Vec::new();
    assert(models(fields@) =~= Seq::<FieldModel>::empty());
    push_text(&mut fields, 1, address);
    QueryRequest {
        path: ACCOUNT_QUERY_PATH.to_owned(),
        data: encode(&fields),
        height: None,
        prove: true,
    }
}

} // verus!
