//! The canonical binary encoding of records, RLP as the `rlp` crate writes
//! it: each record is a list item whose payload is the concatenation of its
//! fields, each field a string item (text as UTF-8, numbers as minimal
//! big-endian bytes). Items carry a length prefix: one byte for payloads up
//! to 55 bytes, else one byte that gives the width of a big-endian length
//! that follows. The spec functions here state that format; the bytes are
//! written and read by `rlp`.

use vstd::prelude::*;
use vstd::utf8::*;
use crate::storage::bytes_eq;

verus! {

broadcast use vstd::seq_lib::group_seq_properties;

/// 256 to the power `k`.
pub open spec fn pow256(k: nat) -> nat
    decreases k,
{
    if k == 0 {
        1
    } else {
        256 * pow256((k - 1) as nat)
    }
}

/// The minimal big-endian bytes of `n` (none for zero).
pub open spec fn be_bytes(n: nat) -> Seq<u8>
    decreases n,
{
    if n == 0 {
        Seq::empty()
    } else {
        be_bytes(n / 256).push((n % 256) as u8)
    }
}

/// The number that big-endian bytes stand for.
pub open spec fn be_value(b: Seq<u8>) -> nat
    decreases b.len(),
{
    if b.len() == 0 {
        0
    } else {
        be_value(b.drop_last()) * 256 + b.last() as nat
    }
}

pub open spec fn no_leading_zero(b: Seq<u8>) -> bool {
    b.len() == 0 || b[0] != 0
}

/// The prefix that announces a payload of `len` bytes; `offset` is 0x80 for
/// strings and 0xc0 for lists.
pub open spec fn length_prefix(offset: u8, len: nat) -> Seq<u8> {
    if len <= 55 {
        seq![(offset + len) as u8]
    } else {
        seq![(offset + 55 + be_bytes(len).len()) as u8] + be_bytes(len)
    }
}

/// The item that carries payload `p`, as a list or as a string. A string of
/// one byte below 0x80 stands for itself.
pub open spec fn item(is_list: bool, p: Seq<u8>) -> Seq<u8> {
    if !is_list && p.len() == 1 && p[0] < 0x80 {
        p
    } else {
        length_prefix(if is_list { 0xc0u8 } else { 0x80u8 }, p.len()) + p
    }
}

/// `b` holds, from `pos` on, the item of payload `p`.
pub open spec fn is_item_at(b: Seq<u8>, pos: int, is_list: bool, p: Seq<u8>) -> bool {
    0 <= pos && pos + item(is_list, p).len() <= b.len() && b.subrange(
        pos,
        pos + item(is_list, p).len(),
    ) == item(is_list, p)
}

pub proof fn lemma_be_value_of_bytes(n: nat)
    ensures
        be_value(be_bytes(n)) == n,
        no_leading_zero(be_bytes(n)),
        n > 0 ==> be_bytes(n).len() > 0,
    decreases n,
{
    if n > 0 {
        lemma_be_value_of_bytes(n / 256);
        let b = be_bytes(n);
        assert(b.drop_last() == be_bytes(n / 256));
        assert(n == (n / 256) * 256 + n % 256);
        if n / 256 > 0 {
            assert(b[0] == be_bytes(n / 256)[0]);
        }
    }
}

pub proof fn lemma_be_bytes_of_value(b: Seq<u8>)
    requires
        no_leading_zero(b),
    ensures
        be_bytes(be_value(b)) == b,
        b.len() > 0 ==> be_value(b) > 0,
    decreases b.len(),
{
    if b.len() > 0 {
        let b1 = b.drop_last();
        if b1.len() > 0 {
            assert(b1[0] == b[0]);
        }
        lemma_be_bytes_of_value(b1);
        let v = be_value(b);
        let v1 = be_value(b1);
        let x = b.last() as nat;
        assert(v == v1 * 256 + x);
        assert(v / 256 == v1 && v % 256 == x) by (nonlinear_arith)
            requires
                v == v1 * 256 + x,
                x < 256,
        ;
        assert(be_bytes(v) == b1.push(b.last()));
        assert(b1.push(b.last()) == b);
    }
}

pub proof fn lemma_be_len(n: nat, k: nat)
    requires
        n < pow256(k),
    ensures
        be_bytes(n).len() <= k,
    decreases k,
{
    if n > 0 {
        assert(k > 0);
        let p = pow256((k - 1) as nat);
        assert(n / 256 < p) by (nonlinear_arith)
            requires
                n < 256 * p,
        ;
        lemma_be_len(n / 256, (k - 1) as nat);
    }
}

pub proof fn lemma_pow256_mono(i: nat, j: nat)
    requires
        i <= j,
    ensures
        pow256(i) <= pow256(j),
    decreases j,
{
    if i < j {
        lemma_pow256_mono(i, (j - 1) as nat);
    }
}

pub proof fn lemma_pow256_8()
    ensures
        pow256(8) == 0x1_0000_0000_0000_0000,
{
    reveal_with_fuel(pow256, 9);
}

/// The header of an item: its length, its first byte, and where the
/// big-endian length stands when there is one.
pub proof fn lemma_item_shape(is_list: bool, p: Seq<u8>)
    requires
        p.len() <= u64::MAX,
    ensures
        ({
            let it = item(is_list, p);
            let h = it.len() - p.len();
            let off: int = if is_list { 0xc0 } else { 0x80 };
            &&& it.len() >= 1
            &&& it.subrange(h, it.len() as int) == p
            &&& if !is_list && p.len() == 1 && p[0] < 0x80 {
                h == 0 && it[0] == p[0]
            } else if p.len() <= 55 {
                h == 1 && it[0] == off + p.len()
            } else {
                let k = be_bytes(p.len()).len();
                &&& 1 <= k <= 8
                &&& h == 1 + k
                &&& it[0] == off + 55 + k
                &&& it.subrange(1, 1 + k as int) == be_bytes(p.len())
            }
        }),
{
    let it = item(is_list, p);
    if !(!is_list && p.len() == 1 && p[0] < 0x80) && p.len() > 55 {
        lemma_pow256_8();
        lemma_be_len(p.len(), 8);
        lemma_be_value_of_bytes(p.len());
        let k = be_bytes(p.len()).len();
        assert(it.subrange(1, 1 + k as int) == be_bytes(p.len()));
    }
    let h = it.len() - p.len();
    assert(it.subrange(h, it.len() as int) == p);
}

/// Big-endian bytes of `n`, minimal.
fn be_bytes_of(n: u64) -> (r: Vec<u8>)
    ensures
        r@ == be_bytes(n as nat),
        r@.len() <= 8,
{
    let mut m: u64 = n;
    let mut r: Vec<u8> = Vec::new();
    while m > 0
        invariant
            be_bytes(n as nat) == be_bytes(m as nat) + r@,
        decreases m,
    {
        let byte = (m % 256) as u8;
        proof {
            assert(be_bytes(m as nat) == be_bytes((m / 256) as nat).push(byte));
            assert(be_bytes(m as nat) + r@ == be_bytes((m / 256) as nat) + seq![byte].add(r@));
        }
        r.insert(0, byte);
        m = m / 256;
    }
    proof {
        assert(be_bytes(n as nat) == r@);
        lemma_pow256_8();
        lemma_be_len(n as nat, 8);
    }
    r
}

/// Items are prefix-free: two items at one position are the same item.
pub proof fn lemma_item_unique(b: Seq<u8>, pos: int, l1: bool, p1: Seq<u8>, l2: bool, p2: Seq<u8>)
    requires
        b.len() <= u64::MAX,
        is_item_at(b, pos, l1, p1),
        is_item_at(b, pos, l2, p2),
    ensures
        l1 == l2,
        p1 == p2,
{
    lemma_item_shape(l1, p1);
    lemma_item_shape(l2, p2);
    let i1 = item(l1, p1);
    let i2 = item(l2, p2);
    assert(i1[0] == b[pos] && i2[0] == b[pos]);
    let h1 = i1.len() - p1.len();
    let h2 = i2.len() - p2.len();
    if p1.len() > 55 && !(!l1 && p1.len() == 1 && p1[0] < 0x80) && p2.len() > 55 && !(!l2
        && p2.len() == 1 && p2[0] < 0x80) {
        let k = be_bytes(p1.len()).len();
        assert(be_bytes(p1.len()) == b.subrange(pos + 1, pos + 1 + k));
        assert(be_bytes(p2.len()) == b.subrange(pos + 1, pos + 1 + k));
        lemma_be_value_of_bytes(p1.len());
        lemma_be_value_of_bytes(p2.len());
    }
    assert(h1 == h2 && p1.len() == p2.len() && l1 == l2);
    assert(p1 == b.subrange(pos + h1, pos + i1.len()));
    assert(p2 == b.subrange(pos + h2, pos + i2.len()));
}

/// The number that `k` big-endian bytes from `s` on stand for.
fn read_be(b: &[u8], s: usize, k: usize) -> (r: u64)
    requires
        s + k <= b@.len(),
        k <= 8,
    ensures
        r as nat == be_value(b@.subrange(s as int, s + k)),
{
    let len = b.len();
    let mut v: u64 = 0;
    let mut i: usize = 0;
    while i < k
        invariant
            s + k <= len == b@.len(),
            k <= 8,
            i <= k,
            v as nat == be_value(b@.subrange(s as int, s + i)),
            (v as nat) < pow256(i as nat),
        decreases k - i,
    {
        let x = b[s + i];
        proof {
            let sub = b@.subrange(s as int, s + i + 1);
            assert(sub.drop_last() == b@.subrange(s as int, s + i));
            assert(sub.last() == x);
            let p = pow256(i as nat);
            assert((v as nat) * 256 + (x as nat) < 256 * p) by (nonlinear_arith)
                requires
                    (v as nat) < p,
                    (x as nat) < 256,
            ;
            lemma_pow256_mono((i + 1) as nat, 8);
            lemma_pow256_8();
        }
        v = v * 256 + x as u64;
        i = i + 1;
    }
    v
}

/// What a stored field holds.
pub enum FieldModel {
    Text(Seq<char>),
    Number(u64),
}

/// The kind of a field in a record shape.
#[derive(Clone, Copy, Debug, PartialEq, Eq, Structural)]
pub enum FieldKind {
    Text,
    Number,
}

/// A stored field: text or an unsigned number.
#[derive(Debug, Clone, PartialEq, Eq)]
pub enum FieldValue {
    Text(String),
    Number(u64),
}

impl View for FieldValue {
    type V = FieldModel;

    open spec fn view(&self) -> FieldModel {
        match self {
            FieldValue::Text(s) => FieldModel::Text(s@),
            FieldValue::Number(n) => FieldModel::Number(*n),
        }
    }
}

pub open spec fn models(v: Seq<FieldValue>) -> Seq<FieldModel> {
    v.map_values(|f: FieldValue| f@)
}

pub open spec fn kind_of(f: FieldModel) -> FieldKind {
    match f {
        FieldModel::Text(_) => FieldKind::Text,
        FieldModel::Number(_) => FieldKind::Number,
    }
}

/// The fields `fs` have, one by one, the kinds of `shape`.
pub open spec fn fits_shape(fs: Seq<FieldModel>, shape: Seq<FieldKind>) -> bool {
    &&& fs.len() == shape.len()
    &&& forall|i: int| 0 <= i < fs.len() ==> kind_of(#[trigger] fs[i]) == shape[i]
}

/// The bytes a field is stored as: UTF-8 text, or minimal big-endian bytes.
pub open spec fn field_bytes(f: FieldModel) -> Seq<u8> {
    match f {
        FieldModel::Text(s) => encode_utf8(s),
        FieldModel::Number(n) => be_bytes(n as nat),
    }
}

pub open spec fn field_item(f: FieldModel) -> Seq<u8> {
    item(false, field_bytes(f))
}

/// The field items, one after the other.
pub open spec fn fields_payload(fs: Seq<FieldModel>) -> Seq<u8>
    decreases fs.len(),
{
    if fs.len() == 0 {
        Seq::empty()
    } else {
        field_item(fs[0]) + fields_payload(fs.drop_first())
    }
}

/// The canonical encoding of a record whose fields are `fs`.
pub open spec fn encoding(fs: Seq<FieldModel>) -> Seq<u8> {
    item(true, fields_payload(fs))
}

/// The bound on a record's payload: lengths from it on do not fit the
/// 32-bit length headers that the writer produces.
pub open spec fn record_size_limit() -> nat {
    0x1_0000_0000
}

/// A record with fields `fs` can be encoded: its payload is under the bound.
pub open spec fn within_limit(fs: Seq<FieldModel>) -> bool {
    fields_payload(fs).len() < record_size_limit()
}

/// `fs` has shape `shape`, can be encoded, and encodes to `b`.
pub open spec fn encodes(b: Seq<u8>, shape: Seq<FieldKind>, fs: Seq<FieldModel>) -> bool {
    fits_shape(fs, shape) && within_limit(fs) && encoding(fs) == b
}

/// The fields of shape `shape` whose encoding is `b`, if there are any.
pub open spec fn decoding(b: Seq<u8>, shape: Seq<FieldKind>) -> Option<Seq<FieldModel>> {
    if exists|fs: Seq<FieldModel>| encodes(b, shape, fs) {
        Some(choose|fs: Seq<FieldModel>| encodes(b, shape, fs))
    } else {
        None
    }
}

pub proof fn lemma_payload_push(fs: Seq<FieldModel>, f: FieldModel)
    ensures
        fields_payload(fs.push(f)) == fields_payload(fs) + field_item(f),
    decreases fs.len(),
{
    if fs.len() == 0 {
        assert(fs.push(f).drop_first() == fs);
    } else {
        assert(fs.push(f).drop_first() == fs.drop_first().push(f));
        lemma_payload_push(fs.drop_first(), f);
    }
}

pub proof fn lemma_payload_split(fs: Seq<FieldModel>, i: int)
    requires
        0 <= i <= fs.len(),
    ensures
        fields_payload(fs) == fields_payload(fs.take(i)) + fields_payload(fs.skip(i)),
    decreases i,
{
    if i == 0 {
        assert(fs.take(0) == Seq::<FieldModel>::empty());
        assert(fs.skip(0) == fs);
    } else {
        let d = fs.drop_first();
        lemma_payload_split(d, i - 1);
        assert(d.take(i - 1) == fs.take(i).drop_first());
        assert(d.skip(i - 1) == fs.skip(i));
    }
}

pub proof fn lemma_field_bytes_injective(f1: FieldModel, f2: FieldModel)
    requires
        kind_of(f1) == kind_of(f2),
        field_bytes(f1) == field_bytes(f2),
    ensures
        f1 == f2,
{
    match (f1, f2) {
        (FieldModel::Text(a), FieldModel::Text(c)) => {
            encode_utf8_decode_utf8(a);
            encode_utf8_decode_utf8(c);
        },
        (FieldModel::Number(a), FieldModel::Number(c)) => {
            lemma_be_value_of_bytes(a as nat);
            lemma_be_value_of_bytes(c as nat);
        },
        _ => {},
    }
}

pub proof fn lemma_payload_injective(fs1: Seq<FieldModel>, fs2: Seq<FieldModel>, shape: Seq<FieldKind>)
    requires
        fits_shape(fs1, shape),
        fits_shape(fs2, shape),
        fields_payload(fs1) == fields_payload(fs2),
        fields_payload(fs1).len() <= u64::MAX,
    ensures
        fs1 == fs2,
    decreases fs1.len(),
{
    if fs1.len() > 0 {
        let b = fields_payload(fs1);
        let i1 = field_item(fs1[0]);
        let i2 = field_item(fs2[0]);
        assert(b.subrange(0, i1.len() as int) == i1);
        assert(fields_payload(fs2).subrange(0, i2.len() as int) == i2);
        lemma_item_unique(b, 0, false, field_bytes(fs1[0]), false, field_bytes(fs2[0]));
        assert(kind_of(fs1[0]) == shape[0] && kind_of(fs2[0]) == shape[0]);
        lemma_field_bytes_injective(fs1[0], fs2[0]);
        assert(fields_payload(fs1.drop_first()) == b.subrange(i1.len() as int, b.len() as int));
        assert(fields_payload(fs2.drop_first()) == b.subrange(i1.len() as int, b.len() as int));
        let sh = shape.drop_first();
        assert(fits_shape(fs1.drop_first(), sh)) by {
            assert forall|i: int| 0 <= i < fs1.drop_first().len() implies kind_of(
                #[trigger] fs1.drop_first()[i],
            ) == sh[i] by {
                assert(kind_of(fs1[i + 1]) == shape[i + 1]);
            }
        }
        assert(fits_shape(fs2.drop_first(), sh)) by {
            assert forall|i: int| 0 <= i < fs2.drop_first().len() implies kind_of(
                #[trigger] fs2.drop_first()[i],
            ) == sh[i] by {
                assert(kind_of(fs2[i + 1]) == shape[i + 1]);
            }
        }
        lemma_payload_injective(fs1.drop_first(), fs2.drop_first(), sh);
        assert(fs1 == seq![fs1[0]] + fs1.drop_first());
        assert(fs2 == seq![fs2[0]] + fs2.drop_first());
    }
}

/// Two field lists of one shape with one encoding are the same.
pub proof fn lemma_encoding_injective(fs1: Seq<FieldModel>, fs2: Seq<FieldModel>, shape: Seq<FieldKind>)
    requires
        fits_shape(fs1, shape),
        fits_shape(fs2, shape),
        encoding(fs1) == encoding(fs2),
        encoding(fs1).len() <= u64::MAX,
    ensures
        fs1 == fs2,
{
    let b = encoding(fs1);
    assert(b.subrange(0, b.len() as int) == b);
    lemma_item_unique(b, 0, true, fields_payload(fs1), true, fields_payload(fs2));
    lemma_payload_injective(fs1, fs2, shape);
}

/// Decoding the encoding of a field list gives that field list back, under
/// the shape that its fields have.
pub proof fn lemma_round_trip(fs: Seq<FieldModel>, shape: Seq<FieldKind>)
    requires
        fits_shape(fs, shape),
        within_limit(fs),
    ensures
        decoding(encoding(fs), shape) == Some(fs),
{
    lemma_item_shape(true, fields_payload(fs));
    let b = encoding(fs);
    assert(encodes(b, shape, fs));
    let c = choose|c: Seq<FieldModel>| encodes(b, shape, c);
    lemma_encoding_injective(c, fs, shape);
}

/// The string items of byte strings `ps`, one after the other.
pub open spec fn strings_payload(ps: Seq<Seq<u8>>) -> Seq<u8>
    decreases ps.len(),
{
    if ps.len() == 0 {
        Seq::empty()
    } else {
        item(false, ps[0]) + strings_payload(ps.drop_first())
    }
}

pub open spec fn byte_lists(v: Seq<Vec<u8>>) -> Seq<Seq<u8>> {
    v.map_values(|b: Vec<u8>| b@)
}

pub open spec fn all_field_bytes(fs: Seq<FieldModel>) -> Seq<Seq<u8>> {
    fs.map_values(|f: FieldModel| field_bytes(f))
}

/// A record's payload is the string items of its fields' bytes.
pub proof fn lemma_payload_strings(fs: Seq<FieldModel>)
    ensures
        fields_payload(fs) == strings_payload(all_field_bytes(fs)),
    decreases fs.len(),
{
    if fs.len() > 0 {
        assert(all_field_bytes(fs).drop_first() == all_field_bytes(fs.drop_first()));
        lemma_payload_strings(fs.drop_first());
    }
}

/// Relies on rlp::encode_list over byte strings: a list item whose payload
/// is the string item of each byte string, in order. rlp writes lengths as
/// 32-bit numbers, so the payload, and with it every string, must be
/// shorter than 2^32 bytes.
#[verifier::external_body]
fn rlp_encode_strings(items: &Vec<Vec<u8>>) -> (r: Vec<u8>)
    requires
        strings_payload(byte_lists(items@)).len() < record_size_limit(),
    ensures
        r@ == item(true, strings_payload(byte_lists(items@))),
{
    rlp::encode_list::<Vec<u8>, Vec<u8>>(items.as_slice()).to_vec()
}

/// The byte strings whose list of string items `b` is, if it is one.
pub open spec fn listed_strings(b: Seq<u8>) -> Option<Seq<Seq<u8>>> {
    if exists|ps: Seq<Seq<u8>>| b == item(true, strings_payload(ps)) {
        Some(choose|ps: Seq<Seq<u8>>| b == item(true, strings_payload(ps)))
    } else {
        None
    }
}

/// Distinct lists of byte strings have distinct payloads.
pub proof fn lemma_strings_injective(ps1: Seq<Seq<u8>>, ps2: Seq<Seq<u8>>)
    requires
        strings_payload(ps1) == strings_payload(ps2),
        strings_payload(ps1).len() <= u64::MAX,
    ensures
        ps1 == ps2,
    decreases ps1.len(),
{
    let b = strings_payload(ps1);
    if ps1.len() == 0 {
        if ps2.len() > 0 {
            lemma_item_shape(false, ps2[0]);
        }
    } else {
        if ps2.len() == 0 {
            lemma_item_shape(false, ps1[0]);
        } else {
            let i1 = item(false, ps1[0]);
            let i2 = item(false, ps2[0]);
            assert(b.subrange(0, i1.len() as int) == i1);
            assert(strings_payload(ps2).subrange(0, i2.len() as int) == i2);
            lemma_item_unique(b, 0, false, ps1[0], false, ps2[0]);
            assert(strings_payload(ps1.drop_first()) == b.subrange(i1.len() as int, b.len() as int));
            assert(strings_payload(ps2.drop_first()) == b.subrange(i1.len() as int, b.len() as int));
            lemma_strings_injective(ps1.drop_first(), ps2.drop_first());
            assert(ps1 == seq![ps1[0]] + ps1.drop_first());
            assert(ps2 == seq![ps2[0]] + ps2.drop_first());
        }
    }
}

/// A list item of string items names its strings.
pub proof fn lemma_listed_strings(b: Seq<u8>, ps: Seq<Seq<u8>>)
    requires
        b == item(true, strings_payload(ps)),
        b.len() <= u64::MAX,
    ensures
        listed_strings(b) == Some(ps),
{
    let c = choose|c: Seq<Seq<u8>>| b == item(true, strings_payload(c));
    assert(b.subrange(0, b.len() as int) == b);
    lemma_item_unique(b, 0, true, strings_payload(c), true, strings_payload(ps));
    lemma_strings_injective(c, ps);
}

/// Relies on rlp::Rlp::as_list over byte strings: on the list item of
/// string items that rlp writes, the payloads of those items, in order. On
/// other bytes it may answer too, so what it gives is checked.
#[verifier::external_body]
fn rlp_decode_strings(b: &[u8]) -> (r: Option<Vec<Vec<u8>>>)
    ensures
        listed_strings(b@) is Some ==> r is Some,
        listed_strings(b@) is Some ==> byte_lists(r->Some_0@) == listed_strings(b@)->Some_0,
{
    rlp::Rlp::new(b).as_list::<Vec<u8>>().ok()
}

/// The length of the string item that carries `p`.
fn item_len(p: &[u8]) -> (n: u64)
    requires
        p@.len() < record_size_limit(),
    ensures
        n == item(false, p@).len(),
{
    if p.len() == 1 && p[0] < 0x80 {
        1
    } else if p.len() <= 55 {
        1 + p.len() as u64
    } else {
        let be = be_bytes_of(p.len() as u64);
        1 + be.len() as u64 + p.len() as u64
    }
}

/// Encodes a field list; `None` when its payload is not under the bound.
pub fn encode_fields(fields: &Vec<FieldValue>) -> (r: Option<Vec<u8>>)
    ensures
        r is Some <==> within_limit(models(fields@)),
        r matches Some(v) ==> v@ == encoding(models(fields@)),
{
    let ghost m = models(fields@);
    let mut items: Vec<Vec<u8>> = Vec::new();
    let mut total: u64 = 0;
    let mut i: usize = 0;
    while i < fields.len()
        invariant
            i <= fields@.len(),
            m == models(fields@),
            byte_lists(items@) == all_field_bytes(m.take(i as int)),
            total == fields_payload(m.take(i as int)).len(),
            total < record_size_limit(),
        decreases fields@.len() - i,
    {
        let bytes = match &fields[i] {
            FieldValue::Text(s) => {
                let mut v: Vec<u8> = Vec::new();
                v.extend_from_slice(s.as_str().as_bytes());
                v
            },
            FieldValue::Number(n) => be_bytes_of(*n),
        };
        assert(bytes@ == field_bytes(m[i as int]));
        proof {
            assert(m.take(i + 1) == m.take(i as int).push(m[i as int]));
            lemma_payload_push(m.take(i as int), m[i as int]);
            lemma_payload_split(m, i + 1);
        }
        if bytes.len() as u64 >= 0x1_0000_0000 {
            return None;
        }
        let n = item_len(bytes.as_slice());
        if n >= 0x1_0000_0000 - total {
            return None;
        }
        total = total + n;
        let ghost before = items@;
        items.push(bytes);
        assert(all_field_bytes(m.take(i + 1)) =~= all_field_bytes(m.take(i as int)).push(field_bytes(m[i as int])));
        assert(byte_lists(items@) =~= byte_lists(before).push(bytes@));
        i = i + 1;
    }
    assert(m.take(i as int) == m);
    proof {
        lemma_payload_strings(m);
    }
    Some(rlp_encode_strings(&items))
}

/// Relies on std's `String::from_utf8`: `Ok` exactly when the bytes are
/// valid UTF-8, holding the characters that they encode.
#[verifier::external_body]
fn string_from_utf8(bytes: Vec<u8>) -> (r: Option<String>)
    ensures
        r is Some <==> valid_utf8(bytes@),
        r matches Some(s) ==> s@ == decode_utf8(bytes@),
{
    String::from_utf8(bytes).ok()
}

/// Reads field `kind` from the string payload `b[s..s + n]`.
fn read_field(b: &[u8], s: usize, n: usize, kind: FieldKind) -> (r: Option<FieldValue>)
    requires
        s + n <= b@.len(),
    ensures
        match r {
            Some(f) => kind_of(f@) == kind && field_bytes(f@) == b@.subrange(s as int, s + n),
            None => forall|f: FieldModel| kind_of(f) == kind ==> field_bytes(f) != b@.subrange(s as int, s + n),
        },
{
    let len = b.len();
    let ghost p = b@.subrange(s as int, s + n);
    match kind {
        FieldKind::Text => {
            let mut bytes: Vec<u8> = Vec::new();
            bytes.extend_from_slice(&b[s..s + n]);
            assert(bytes@ == p);
            match string_from_utf8(bytes) {
                Some(t) => {
                    proof { decode_utf8_encode_utf8(p); }
                    Some(FieldValue::Text(t))
                },
                None => {
                    proof {
                        assert forall|f: FieldModel| kind_of(f) == kind implies field_bytes(f) != p by {
                            if let FieldModel::Text(c) = f {
                                encode_utf8_valid_utf8(c);
                            }
                        }
                    }
                    None
                },
            }
        },
        FieldKind::Number => {
            if n > 8 || (n > 0 && b[s] == 0) {
                proof {
                    assert forall|f: FieldModel| kind_of(f) == kind implies field_bytes(f) != p by {
                        if let FieldModel::Number(c) = f {
                            lemma_pow256_8();
                            lemma_be_len(c as nat, 8);
                            lemma_be_value_of_bytes(c as nat);
                            if n > 0 {
                                assert(p[0] == b@[s as int]);
                            }
                        }
                    }
                }
                return None;
            }
            let v = read_be(b, s, n);
            proof {
                if n > 0 {
                    assert(p[0] == b@[s as int]);
                }
                lemma_be_bytes_of_value(p);
            }
            Some(FieldValue::Number(v))
        },
    }
}

/// Decodes a record of shape `shape`: the field list whose encoding is `b`,
/// and `None` when there is none.
pub fn decode_fields(b: &[u8], shape: &[FieldKind]) -> (r: Option<Vec<FieldValue>>)
    ensures
        match r {
            Some(v) => decoding(b@, shape@) == Some(models(v@)),
            None => decoding(b@, shape@) is None,
        },
{
    let r = decode_fields_exact(b, shape);
    proof {
        if r is Some {
            let v = r->Some_0;
            assert(encodes(b@, shape@, models(v@)));
            let c = choose|c: Seq<FieldModel>| encodes(b@, shape@, c);
            lemma_encoding_injective(c, models(v@), shape@);
        }
    }
    r
}

/// `Some` of the fields that encode to `b` exactly when there are such.
fn decode_fields_exact(b: &[u8], shape: &[FieldKind]) -> (r: Option<Vec<FieldValue>>)
    ensures
        match r {
            Some(v) => encodes(b@, shape@, models(v@)),
            None => forall|fs: Seq<FieldModel>| !encodes(b@, shape@, fs),
        },
        b@.len() <= u64::MAX,
{
    let len = b.len();
    assert(b@.len() <= u64::MAX);
    proof {
        assert forall|fs: Seq<FieldModel>| encodes(b@, shape@, fs) implies listed_strings(b@) == Some(
            all_field_bytes(fs),
        ) by {
            lemma_payload_strings(fs);
            lemma_listed_strings(b@, all_field_bytes(fs));
        }
    }
    let ps = match rlp_decode_strings(b) {
        Some(ps) => ps,
        None => return None,
    };
    proof {
        assert forall|fs: Seq<FieldModel>| encodes(b@, shape@, fs) implies byte_lists(ps@) == all_field_bytes(fs) by {
            assert(listed_strings(b@) == Some(all_field_bytes(fs)));
        }
    }
    if ps.len() != shape.len() {
        proof {
            assert forall|fs: Seq<FieldModel>| !encodes(b@, shape@, fs) by {
                if encodes(b@, shape@, fs) {
                    assert(byte_lists(ps@).len() == all_field_bytes(fs).len());
                }
            }
        }
        return None;
    }
    let mut out: Vec<FieldValue> = Vec::new();
    let mut i: usize = 0;
    while i < ps.len()
        invariant
            b@.len() <= u64::MAX,
            ps@.len() == shape@.len(),
            i <= ps@.len(),
            out@.len() == i,
            forall|j: int| 0 <= j < i ==> kind_of(#[trigger] models(out@)[j]) == shape@[j],
            forall|fs: Seq<FieldModel>| #[trigger] encodes(b@, shape@, fs) ==> byte_lists(ps@) == all_field_bytes(fs),
            forall|fs: Seq<FieldModel>| #[trigger] encodes(b@, shape@, fs) ==> models(out@) == fs.take(i as int),
        decreases ps@.len() - i,
    {
        let p = &ps[i];
        proof {
            assert(p@.subrange(0, p@.len() as int) == p@);
        }
        let f = match read_field(p.as_slice(), 0, p.len(), shape[i]) {
            Some(f) => f,
            None => {
                proof {
                    assert forall|fs: Seq<FieldModel>| !encodes(b@, shape@, fs) by {
                        if encodes(b@, shape@, fs) {
                            assert(kind_of(fs[i as int]) == shape@[i as int]);
                            assert(byte_lists(ps@)[i as int] == all_field_bytes(fs)[i as int]);
                        }
                    }
                }
                return None;
            },
        };
        let ghost out0 = out@;
        proof {
            assert forall|fs: Seq<FieldModel>| encodes(b@, shape@, fs) implies models(out0).push(f@) == fs.take(i + 1) by {
                assert(kind_of(fs[i as int]) == shape@[i as int]);
                assert(byte_lists(ps@)[i as int] == all_field_bytes(fs)[i as int]);
                lemma_field_bytes_injective(f@, fs[i as int]);
                assert(fs.take(i + 1) == fs.take(i as int).push(fs[i as int]));
            }
        }
        out.push(f);
        assert(models(out@) == models(out0).push(f@));
        i = i + 1;
    }
    let again = match encode_fields(&out) {
        Some(e) => e,
        None => {
            proof {
                assert forall|fs: Seq<FieldModel>| !encodes(b@, shape@, fs) by {
                    if encodes(b@, shape@, fs) {
                        assert(fs.take(i as int) == fs);
                    }
                }
            }
            return None;
        },
    };
    if !bytes_eq(again.as_slice(), b) {
        proof {
            assert forall|fs: Seq<FieldModel>| !encodes(b@, shape@, fs) by {
                if encodes(b@, shape@, fs) {
                    assert(fs.take(i as int) == fs);
                }
            }
        }
        return None;
    }
    Some(out)
}

} // verus!
