//! The ledger's binary wire format: numbered fields, each a base-128
//! variable-length integer or a length-prefixed byte string.
//!
//! Writing is total; reading accepts exactly the byte strings that are a
//! sequence of fields, and reading what was written gives it back. A field
//! of a fixed-width kind, which no message of the ledger has and the writer
//! never writes, is passed over when reading.

use vstd::prelude::*;
use crate::bytes::append_bytes;
use crate::bytes::copy_bytes;

verus! {

/// The largest field number the format has room for.
pub const MAX_FIELD_NUMBER: u32 = 0x1fff_ffff;

/// What a field carries.
#[derive(Clone, Debug, PartialEq, Eq)]
pub enum WireValue {
    Varint(u64),
    Bytes(Vec<u8>),
}

/// One numbered field of a message.
#[derive(Clone, Debug, PartialEq, Eq)]
pub struct Field {
    pub number: u32,
    pub value: WireValue,
}

/// The mathematical content of a [`WireValue`].
pub enum ValueModel {
    Varint(u64),
    Bytes(Seq<u8>),
}

/// The mathematical content of a [`Field`].
pub struct FieldModel {
    pub number: u32,
    pub value: ValueModel,
}

impl View for WireValue {
    type V = ValueModel;

    open spec fn view(&self) -> ValueModel {
        match *self {
            WireValue::Varint(v) => ValueModel::Varint(v),
            WireValue::Bytes(b) => ValueModel::Bytes(b@),
        }
    }
}

impl View for Field {
    type V = FieldModel;

    open spec fn view(&self) -> FieldModel {
        FieldModel { number: self.number, value: self.value@ }
    }
}

/// The models of a run of fields, in order.
pub open spec fn models(fields: Seq<Field>) -> Seq<FieldModel> {
    Seq::new(fields.len(), |i: int| fields[i]@)
}

/// A field the format can carry: its number is in range and a byte string's
/// length fits the length prefix.
pub open spec fn valid_field(f: FieldModel) -> bool {
    &&& 1 <= f.number <= MAX_FIELD_NUMBER
    &&& match f.value {
        ValueModel::Varint(_) => true,
        ValueModel::Bytes(b) => b.len() <= u64::MAX,
    }
}

pub open spec fn valid_fields(fs: Seq<FieldModel>) -> bool {
    forall|i: int| 0 <= i < fs.len() ==> valid_field(#[trigger] fs[i])
}

/// Base-128 little-endian digits of `v`, every byte but the last with its top
/// bit set.
pub open spec fn varint(v: nat) -> Seq<u8>
    decreases v,
{
    if v < 128 {
        seq![v as u8]
    } else {
        seq![(v % 128 + 128) as u8] + varint(v / 128)
    }
}

/// Reads base-128 digits from position `at`, at most `budget` of them, on top
/// of the value `acc` read so far, where the next digit weighs `scale`.
/// Gives the value and the position after its last byte.
pub open spec fn scan_varint(bytes: Seq<u8>, at: int, acc: nat, scale: nat, budget: nat) -> Option<
    (nat, int),
>
    decreases budget,
{
    if budget == 0 || at < 0 || at >= bytes.len() {
        None
    } else if bytes[at] < 128 {
        Some((acc + scale * (bytes[at] as nat), at + 1))
    } else {
        scan_varint(
            bytes,
            at + 1,
            acc + scale * ((bytes[at] - 128) as nat),
            scale * 128,
            (budget - 1) as nat,
        )
    }
}

/// The variable-length integer at position `at`: at most ten bytes, and a
/// value that fits 64 bits.
pub open spec fn read_varint(bytes: Seq<u8>, at: int) -> Option<(u64, int)> {
    match scan_varint(bytes, at, 0, 1, 10) {
        Some((v, next)) => if v <= u64::MAX {
            Some((v as u64, next))
        } else {
            None
        },
        None => None,
    }
}

/// The bytes of one field: its key, then its payload.
pub open spec fn field_bytes(f: FieldModel) -> Seq<u8> {
    match f.value {
        ValueModel::Varint(v) => varint((f.number * 8) as nat) + varint(v as nat),
        ValueModel::Bytes(b) => varint((f.number * 8 + 2) as nat) + varint(b.len()) + b,
    }
}

/// The bytes of a run of fields, one after the other.
pub open spec fn fields_bytes(fs: Seq<FieldModel>) -> Seq<u8>
    decreases fs.len(),
{
    if fs.len() == 0 {
        Seq::empty()
    } else {
        field_bytes(fs[0]) + fields_bytes(fs.skip(1))
    }
}

/// The field that starts at position `at`, and the position after it.
pub open spec fn read_field(bytes: Seq<u8>, at: int) -> Option<(FieldModel, int)> {
    match read_varint(bytes, at) {
        None => None,
        Some((key, p)) => {
            let number: u64 = key / 8;
            let kind: u64 = key % 8;
            if number < 1 || number > MAX_FIELD_NUMBER {
                None
            } else if kind == 0 {
                match read_varint(bytes, p) {
                    Some((v, q)) => Some(
                        (FieldModel { number: number as u32, value: ValueModel::Varint(v) }, q),
                    ),
                    None => None,
                }
            } else if kind == 2 {
                match read_varint(bytes, p) {
                    Some((len, q)) => if q + len <= bytes.len() {
                        Some(
                            (
                                FieldModel {
                                    number: number as u32,
                                    value: ValueModel::Bytes(bytes.subrange(q, q + len)),
                                },
                                q + len,
                            ),
                        )
                    } else {
                        None
                    },
                    None => None,
                }
            } else {
                None
            }
        },
    }
}

/// Where the field of a fixed-width kind that starts at position `at` ends:
/// after its key such a field carries eight bytes (kind 1) or four (kind 5).
pub open spec fn skipped_field(bytes: Seq<u8>, at: int) -> Option<int> {
    match read_varint(bytes, at) {
        None => None,
        Some((key, p)) => {
            let number: u64 = key / 8;
            let kind: u64 = key % 8;
            if number < 1 || number > MAX_FIELD_NUMBER {
                None
            } else if kind == 1 && p + 8 <= bytes.len() {
                Some(p + 8)
            } else if kind == 5 && p + 4 <= bytes.len() {
                Some(p + 4)
            } else {
                None
            }
        },
    }
}

/// Where the next thing after position `at` ends: a field, or a field of a
/// fixed-width kind that is passed over.
pub open spec fn next_stop(bytes: Seq<u8>, at: int) -> Option<int> {
    match read_field(bytes, at) {
        Some((_, next)) => Some(next),
        None => skipped_field(bytes, at),
    }
}

/// The fields that fill `bytes` from position `at` to its end, in order,
/// without those that are passed over.
pub open spec fn read_fields(bytes: Seq<u8>, at: int) -> Option<Seq<FieldModel>>
    decreases bytes.len() - at,
{
    if at >= bytes.len() {
        if at == bytes.len() {
            Some(Seq::empty())
        } else {
            None
        }
    } else {
        let stop = next_stop(bytes, at);
        if stop.is_none() || stop.unwrap() <= at || stop.unwrap() > bytes.len() {
            None
        } else {
            match read_fields(bytes, stop.unwrap()) {
                Some(rest) => match read_field(bytes, at) {
                    Some((f, _)) => Some(seq![f] + rest),
                    None => Some(rest),
                },
                None => None,
            }
        }
    }
}

/// What reading a whole message gives.
pub open spec fn decoded(bytes: Seq<u8>) -> Option<Seq<FieldModel>> {
    read_fields(bytes, 0)
}

/// `pattern` stands in `bytes` at position `at`.
pub open spec fn occurs(bytes: Seq<u8>, at: int, pattern: Seq<u8>) -> bool {
    &&& 0 <= at
    &&& at + pattern.len() <= bytes.len()
    &&& forall|i: int| 0 <= i < pattern.len() ==> bytes[at + i] == #[trigger] pattern[i]
}

pub open spec fn pow128(e: nat) -> nat
    decreases e,
{
    if e == 0 {
        1
    } else {
        128 * pow128((e - 1) as nat)
    }
}

proof fn lemma_pow128_values()
    ensures
        pow128(0) == 1,
        pow128(1) == 0x80,
        pow128(2) == 0x4000,
        pow128(3) == 0x20_0000,
        pow128(4) == 0x1000_0000,
        pow128(5) == 0x8_0000_0000,
        pow128(6) == 0x400_0000_0000,
        pow128(7) == 0x2_0000_0000_0000,
        pow128(8) == 0x100_0000_0000_0000,
        pow128(9) == 0x8000_0000_0000_0000,
        pow128(10) == 0x40_0000_0000_0000_0000,
{
    reveal_with_fuel(pow128, 11);
}

proof fn lemma_pow128_at_most(e: nat)
    requires
        e <= 10,
    ensures
        1 <= pow128(e) <= 0x40_0000_0000_0000_0000,
{
    lemma_pow128_values();
    if e == 0 {
    } else if e == 1 {
    } else if e == 2 {
    } else if e == 3 {
    } else if e == 4 {
    } else if e == 5 {
    } else if e == 6 {
    } else if e == 7 {
    } else if e == 8 {
    } else if e == 9 {
    } else {
        assert(e == 10);
    }
}

/// A value below `128^e` takes at most `e` bytes.
proof fn lemma_varint_len(v: nat, e: nat)
    requires
        e >= 1,
        v < pow128(e),
    ensures
        1 <= varint(v).len() <= e,
    decreases e,
{
    if v < 128 {
    } else {
        assert(e >= 2) by {
            if e == 1 {
                reveal_with_fuel(pow128, 2);
            }
        }
        assert(v / 128 < pow128((e - 1) as nat));
        lemma_varint_len(v / 128, (e - 1) as nat);
    }
}

/// A 64-bit value takes between one and ten bytes.
pub proof fn lemma_varint_len_u64(v: u64)
    ensures
        1 <= varint(v as nat).len() <= 10,
{
    lemma_pow128_values();
    lemma_varint_len(v as nat, 10);
}

proof fn lemma_scale(scale: nat, digit: nat, rest: nat)
    ensures
        scale * (digit + 128 * rest) == scale * digit + (scale * 128) * rest,
{
    assert(scale * (digit + 128 * rest) == scale * digit + (scale * 128) * rest)
        by (nonlinear_arith);
}

/// Scanning where `varint(v)` stands reads `v` and stops right after it.
proof fn lemma_scan_written(bytes: Seq<u8>, at: int, v: nat, acc: nat, scale: nat, budget: nat)
    requires
        occurs(bytes, at, varint(v)),
        budget >= varint(v).len(),
    ensures
        scan_varint(bytes, at, acc, scale, budget) == Some(
            (acc + scale * v, at + varint(v).len()),
        ),
    decreases v,
{
    let enc = varint(v);
    assert(bytes[at + 0] == enc[0]);
    if v < 128 {
    } else {
        let rest = varint(v / 128);
        assert(enc == seq![(v % 128 + 128) as u8] + rest);
        assert(enc.len() == rest.len() + 1);
        assert(occurs(bytes, at + 1, rest)) by {
            assert forall|i: int| 0 <= i < rest.len() implies bytes[at + 1 + i] == #[trigger] rest[i] by {
                assert(bytes[at + (i + 1)] == enc[i + 1]);
            }
        }
        lemma_scan_written(
            bytes,
            at + 1,
            v / 128,
            acc + scale * ((v % 128) as nat),
            scale * 128,
            (budget - 1) as nat,
        );
        lemma_scale(scale, (v % 128) as nat, v / 128);
        assert(bytes[at] == (v % 128 + 128) as u8);
        assert((bytes[at] - 128) as nat == v % 128);
    }
}

/// Reading where a 64-bit value was written gives the value back.
pub proof fn lemma_read_written_varint(bytes: Seq<u8>, at: int, v: u64)
    requires
        occurs(bytes, at, varint(v as nat)),
    ensures
        read_varint(bytes, at) == Some((v, at + varint(v as nat).len())),
{
    lemma_varint_len_u64(v);
    lemma_scan_written(bytes, at, v as nat, 0, 1, 10);
    assert(1 * (v as nat) == v as nat);
}

/// A scan that succeeds ends inside the input, after where it began.
proof fn lemma_scan_advances(bytes: Seq<u8>, at: int, acc: nat, scale: nat, budget: nat)
    ensures
        scan_varint(bytes, at, acc, scale, budget) matches Some((_, next)) ==> at < next
            <= bytes.len(),
    decreases budget,
{
    if budget == 0 || at < 0 || at >= bytes.len() {
    } else if bytes[at] < 128 {
    } else {
        lemma_scan_advances(
            bytes,
            at + 1,
            acc + scale * ((bytes[at] - 128) as nat),
            scale * 128,
            (budget - 1) as nat,
        );
    }
}

/// A field that reads ends inside the input, after where it began.
pub proof fn lemma_read_field_advances(bytes: Seq<u8>, at: int)
    ensures
        read_field(bytes, at) matches Some((_, next)) ==> 0 <= at < next <= bytes.len(),
{
    lemma_scan_advances(bytes, at, 0, 1, 10);
    match read_varint(bytes, at) {
        None => {},
        Some((key, p)) => {
            lemma_scan_advances(bytes, p, 0, 1, 10);
        },
    }
}

proof fn lemma_occurs_part(bytes: Seq<u8>, at: int, whole: Seq<u8>, from: int, part: Seq<u8>)
    requires
        occurs(bytes, at, whole),
        0 <= from,
        from + part.len() <= whole.len(),
        forall|i: int| 0 <= i < part.len() ==> whole[from + i] == #[trigger] part[i],
    ensures
        occurs(bytes, at + from, part),
{
    assert forall|i: int| 0 <= i < part.len() implies bytes[at + from + i] == #[trigger] part[i] by {
        assert(bytes[at + (from + i)] == whole[from + i]);
    }
}

/// Reading where a valid field was written gives the field back.
pub proof fn lemma_read_written_field(bytes: Seq<u8>, at: int, f: FieldModel)
    requires
        valid_field(f),
        occurs(bytes, at, field_bytes(f)),
    ensures
        read_field(bytes, at) == Some((f, at + field_bytes(f).len())),
{
    let whole = field_bytes(f);
    match f.value {
        ValueModel::Varint(v) => {
            let key: u64 = (f.number * 8) as u64;
            let k = varint(key as nat);
            let p = varint(v as nat);
            assert(whole == k + p);
            lemma_occurs_part(bytes, at, whole, 0, k);
            lemma_read_written_varint(bytes, at, key);
            lemma_occurs_part(bytes, at, whole, k.len() as int, p);
            lemma_read_written_varint(bytes, at + k.len(), v);
            assert(key / 8 == f.number && key % 8 == 0);
        },
        ValueModel::Bytes(b) => {
            let key: u64 = (f.number * 8 + 2) as u64;
            let k = varint(key as nat);
            let len: u64 = b.len() as u64;
            let p = varint(len as nat);
            assert(whole == k + p + b);
            lemma_occurs_part(bytes, at, whole, 0, k);
            lemma_read_written_varint(bytes, at, key);
            lemma_occurs_part(bytes, at, whole, k.len() as int, p);
            lemma_read_written_varint(bytes, at + k.len(), len);
            assert(key / 8 == f.number && key % 8 == 2);
            let q = at + k.len() + p.len();
            assert(bytes.subrange(q, q + len) =~= b) by {
                assert forall|i: int| 0 <= i < b.len() implies bytes[q + i] == b[i] by {
                    assert(bytes[at + (k.len() + p.len() + i)] == whole[k.len() + p.len() + i]);
                }
            }
        },
    }
}

/// Reading from where a run of valid fields was written, up to the end of
/// the input, gives the run back.
pub proof fn lemma_read_written_fields(bytes: Seq<u8>, at: int, fs: Seq<FieldModel>)
    requires
        valid_fields(fs),
        occurs(bytes, at, fields_bytes(fs)),
        at + fields_bytes(fs).len() == bytes.len(),
    ensures
        read_fields(bytes, at) == Some(fs),
    decreases fs.len(),
{
    if fs.len() == 0 {
        assert(fs =~= Seq::empty());
    } else {
        let first = field_bytes(fs[0]);
        let rest = fields_bytes(fs.skip(1));
        assert(fields_bytes(fs) == first + rest);
        lemma_occurs_part(bytes, at, fields_bytes(fs), 0, first);
        lemma_read_written_field(bytes, at, fs[0]);
        lemma_read_field_advances(bytes, at);
        lemma_occurs_part(bytes, at, fields_bytes(fs), first.len() as int, rest);
        assert(valid_fields(fs.skip(1))) by {
            assert forall|i: int| 0 <= i < fs.skip(1).len() implies valid_field(
                #[trigger] fs.skip(1)[i],
            ) by {
                assert(fs.skip(1)[i] == fs[i + 1]);
            }
        }
        lemma_read_written_fields(bytes, at + first.len(), fs.skip(1));
        assert(seq![fs[0]] + fs.skip(1) =~= fs);
    }
}

/// Decoding the encoding of valid fields gives them back.
pub proof fn lemma_decode_encode(fs: Seq<FieldModel>)
    requires
        valid_fields(fs),
    ensures
        decoded(fields_bytes(fs)) == Some(fs),
{
    lemma_read_written_fields(fields_bytes(fs), 0, fs);
}

/// Two runs of valid fields with the same bytes are the same run.
pub proof fn lemma_encoding_injective(a: Seq<FieldModel>, b: Seq<FieldModel>)
    requires
        valid_fields(a),
        valid_fields(b),
        fields_bytes(a) == fields_bytes(b),
    ensures
        a == b,
{
    lemma_decode_encode(a);
    lemma_decode_encode(b);
}

proof fn lemma_fields_bytes_push(fs: Seq<FieldModel>, f: FieldModel)
    ensures
        fields_bytes(fs.push(f)) == fields_bytes(fs) + field_bytes(f),
    decreases fs.len(),
{
    if fs.len() == 0 {
        assert(fs.push(f).skip(1) =~= Seq::empty());
        assert(fields_bytes(fs.push(f)) =~= field_bytes(f) + fields_bytes(Seq::empty()));
        assert(fields_bytes(fs) + field_bytes(f) =~= field_bytes(f));
    } else {
        assert(fs.push(f).skip(1) =~= fs.skip(1).push(f));
        lemma_fields_bytes_push(fs.skip(1), f);
        assert(fs.push(f)[0] == fs[0]);
        assert(field_bytes(fs[0]) + (fields_bytes(fs.skip(1)) + field_bytes(f)) =~= (field_bytes(
            fs[0],
        ) + fields_bytes(fs.skip(1))) + field_bytes(f));
    }
}

/// Appends the variable-length form of `v`.
pub fn write_varint(out: &mut Vec<u8>, v: u64)
    ensures
        final(out)@ == old(out)@ + varint(v as nat),
{
    let ghost before = out@;
    let mut rest: u64 = v;
    while rest >= 128
        invariant
            before + varint(v as nat) == out@ + varint(rest as nat),
        decreases rest,
    {
        let digit: u8 = (rest % 128 + 128) as u8;
        proof {
            assert(varint(rest as nat) == seq![digit] + varint((rest / 128) as nat));
            assert(out@ + (seq![digit] + varint((rest / 128) as nat)) =~= out@.push(digit) + varint(
                (rest / 128) as nat,
            ));
        }
        out.push(digit);
        rest = rest / 128;
    }
    proof {
        assert(varint(rest as nat) == seq![rest as u8]);
        assert(out@ + seq![rest as u8] =~= out@.push(rest as u8));
    }
    out.push(rest as u8);
}

/// Reads the variable-length integer at `at`; gives it and the position
/// after it, or nothing where none stands there.
pub fn take_varint(bytes: &[u8], at: usize) -> (got: Option<(u64, usize)>)
    ensures
        match got {
            Some((v, next)) => read_varint(bytes@, at as int) == Some((v, next as int)),
            None => read_varint(bytes@, at as int).is_none(),
        },
{
    let mut acc: u128 = 0;
    let mut scale: u128 = 1;
    let mut used: usize = 0;
    let mut i: usize = at;
    proof {
        lemma_pow128_values();
    }
    while used < 10 && i < bytes.len()
        invariant
            used <= 10,
            at <= i,
            i == at + used,
            scale == pow128(used as nat),
            acc < scale,
            scan_varint(bytes@, at as int, 0, 1, 10) == scan_varint(
                bytes@,
                i as int,
                acc as nat,
                scale as nat,
                (10 - used) as nat,
            ),
        decreases 10 - used,
    {
        let b: u8 = bytes[i];
        proof {
            lemma_pow128_at_most(used as nat);
            assert(scale * 128 == pow128((used + 1) as nat));
            lemma_pow128_at_most((used + 1) as nat);
        }
        if b < 128 {
            assert(scale * (b as nat) <= scale * 127) by (nonlinear_arith)
                requires
                    b <= 127,
            ;
            let value: u128 = acc + scale * (b as u128);
            if value <= u64::MAX as u128 {
                return Some((value as u64, i + 1));
            } else {
                return None;
            }
        }
        assert(scale * ((b - 128) as nat) <= scale * 127) by (nonlinear_arith)
            requires
                b - 128 <= 127,
                b >= 128,
        ;
        acc = acc + scale * ((b - 128) as u128);
        scale = scale * 128;
        used += 1;
        i += 1;
    }
    None
}

/// Appends one field.
pub fn write_field(out: &mut Vec<u8>, field: &Field)
    requires
        valid_field(field@),
    ensures
        final(out)@ == old(out)@ + field_bytes(field@),
{
    let ghost before = out@;
    match &field.value {
        WireValue::Varint(v) => {
            write_varint(out, (field.number as u64) * 8);
            write_varint(out, *v);
            assert(out@ =~= before + field_bytes(field@));
        },
        WireValue::Bytes(b) => {
            write_varint(out, (field.number as u64) * 8 + 2);
            write_varint(out, b.len() as u64);
            append_bytes(out, b.as_slice());
            assert(out@ =~= before + field_bytes(field@));
        },
    }
}

/// The bytes of a message made of `fields`.
pub fn encode(fields: &Vec<Field>) -> (out: Vec<u8>)
    requires
        valid_fields(models(fields@)),
    ensures
        out@ == fields_bytes(models(fields@)),
        decoded(out@) == Some(models(fields@)),
{
    let ghost all = models(fields@);
    let mut out: Vec<u8> = Vec::new();
    let mut i: usize = 0;
    while i < fields.len()
        invariant
            i <= fields.len(),
            all == models(fields@),
            valid_fields(all),
            out@ == fields_bytes(all.subrange(0, i as int)),
        decreases fields.len() - i,
    {
        proof {
            assert(all[i as int] == fields@[i as int]@);
            assert(valid_field(all[i as int]));
            lemma_fields_bytes_push(all.subrange(0, i as int), all[i as int]);
            assert(all.subrange(0, i as int).push(all[i as int]) =~= all.subrange(0, i + 1));
        }
        write_field(&mut out, &fields[i]);
        i += 1;
    }
    proof {
        assert(all.subrange(0, all.len() as int) =~= all);
        lemma_decode_encode(all);
    }
    out
}

/// Reads the field at `at`; gives it and the position after it.
pub fn take_field(bytes: &[u8], at: usize) -> (got: Option<(Field, usize)>)
    ensures
        match got {
            Some((f, next)) => read_field(bytes@, at as int) == Some((f@, next as int)),
            None => read_field(bytes@, at as int).is_none(),
        },
{
    let (key, p) = match take_varint(bytes, at) {
        Some(pair) => pair,
        None => {
            return None;
        },
    };
    let number: u64 = key / 8;
    let kind: u64 = key % 8;
    if number < 1 || number > MAX_FIELD_NUMBER as u64 {
        return None;
    }
    proof {
        lemma_scan_advances(bytes@, at as int, 0, 1, 10);
        lemma_scan_advances(bytes@, p as int, 0, 1, 10);
    }
    if kind == 0 {
        match take_varint(bytes, p) {
            Some((v, q)) => Some((Field { number: number as u32, value: WireValue::Varint(v) }, q)),
            None => None,
        }
    } else if kind == 2 {
        match take_varint(bytes, p) {
            Some((len, q)) => {
                if len > (bytes.len() - q) as u64 {
                    return None;
                }
                let end: usize = q + len as usize;
                let payload = copy_bytes(vstd::slice::slice_subrange(bytes, q, end));
                Some((Field { number: number as u32, value: WireValue::Bytes(payload) }, end))
            },
            None => None,
        }
    } else {
        None
    }
}

/// Passes over the field of a fixed-width kind at `at`; gives the position
/// after it, or nothing where none stands there.
pub fn skip_field(bytes: &[u8], at: usize) -> (got: Option<usize>)
    ensures
        match got {
            Some(next) => skipped_field(bytes@, at as int) == Some(next as int) && at < next
                <= bytes.len(),
            None => skipped_field(bytes@, at as int).is_none(),
        },
{
    let (key, p) = match take_varint(bytes, at) {
        Some(pair) => pair,
        None => {
            return None;
        },
    };
    let number: u64 = key / 8;
    let kind: u64 = key % 8;
    if number < 1 || number > MAX_FIELD_NUMBER as u64 {
        return None;
    }
    proof {
        lemma_scan_advances(bytes@, at as int, 0, 1, 10);
    }
    let width: usize = if kind == 1 {
        8
    } else if kind == 5 {
        4
    } else {
        return None;
    };
    if bytes.len() - p < width {
        return None;
    }
    Some(p + width)
}

/// Reads a whole message; gives its fields in order, or nothing where the
/// bytes are not a sequence of fields. Fields of a fixed-width kind are
/// passed over.
pub fn decode(bytes: &[u8]) -> (got: Option<Vec<Field>>)
    ensures
        match got {
            Some(fields) => decoded(bytes@) == Some(models(fields@)),
            None => decoded(bytes@).is_none(),
        },
{
    let mut fields: Vec<Field> = Vec::new();
    let mut at: usize = 0;
    while at < bytes.len()
        invariant
            at <= bytes.len(),
            decoded(bytes@) == match read_fields(bytes@, at as int) {
                Some(rest) => Some(models(fields@) + rest),
                None => None,
            },
        decreases bytes.len() - at,
    {
        proof {
            lemma_read_field_advances(bytes@, at as int);
        }
        match take_field(bytes, at) {
            None => {
                match skip_field(bytes, at) {
                    Some(next) => {
                        at = next;
                    },
                    None => {
                        return None;
                    },
                }
            },
            Some((f, next)) => {
                proof {
                    let before = models(fields@);
                    let after = models(fields@.push(f));
                    assert(after =~= before.push(f@));
                    match read_fields(bytes@, next as int) {
                        Some(rest) => {
                            assert(before + (seq![f@] + rest) =~= before.push(f@) + rest);
                        },
                        None => {},
                    }
                }
                fields.push(f);
                at = next;
            },
        }
    }
    proof {
        assert(models(fields@) + Seq::<FieldModel>::empty() =~= models(fields@));
    }
    Some(fields)
}

} // verus!
