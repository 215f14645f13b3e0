//! The five record shapes: their fields, primary keys, canonical encoding
//! and the named fields that filters match against.

use vstd::prelude::*;
use vstd::utf8::*;
use vstd::string::*;
use crate::codec::{
    decode_fields, decoding, encode_fields, encoding, encodes, fits_shape, kind_of, models, within_limit,
    lemma_round_trip, FieldKind, FieldModel, FieldValue,
};

verus! {

/// Field names with the values that they hold.
pub open spec fn named(v: Seq<(String, FieldValue)>) -> Seq<(Seq<char>, FieldModel)> {
    v.map_values(|p: (String, FieldValue)| (p.0@, p.1@))
}

/// The text at field `i`.
fn text_at(fs: &Vec<FieldValue>, i: usize) -> (r: String)
    requires
        i < fs@.len(),
        kind_of(models(fs@)[i as int]) == FieldKind::Text,
    ensures
        FieldModel::Text(r@) == models(fs@)[i as int],
{
    match &fs[i] {
        FieldValue::Text(s) => s.clone(),
        FieldValue::Number(_) => String::new(),
    }
}

/// The number at field `i`.
fn number_at(fs: &Vec<FieldValue>, i: usize) -> (r: u64)
    requires
        i < fs@.len(),
        kind_of(models(fs@)[i as int]) == FieldKind::Number,
    ensures
        FieldModel::Number(r) == models(fs@)[i as int],
{
    match &fs[i] {
        FieldValue::Number(n) => *n,
        FieldValue::Text(_) => 0,
    }
}

/// The UTF-8 bytes of a text.
pub fn utf8_bytes(s: &String) -> (r: Vec<u8>)
    ensures
        r@ == encode_utf8(s@),
{
    let mut r: Vec<u8> = Vec::new();
    r.extend_from_slice(s.as_str().as_bytes());
    r
}

/// A field name.
fn name(s: &str) -> (r: String)
    ensures
        r@ == s@,
{
    s.to_owned()
}

/// A submitted transaction.
#[derive(Debug, Clone, PartialEq, Eq)]
pub struct Transaction {
    pub hash: String,
    pub method: String,
    pub program_id: String,
    pub data_key: String,
    pub data: String,
    pub public_key: String,
    pub alias: String,
    pub timestamp: u64,
    pub chain_id: String,
    pub token_address: String,
    pub token_id: String,
    pub version: String,
    pub mcdata: String,
    pub status: u64,
}

impl View for Transaction {
    type V = Seq<FieldModel>;

    /// The fields, in their stored order.
    open spec fn view(&self) -> Seq<FieldModel> {
        seq![
            FieldModel::Text(self.hash@),
            FieldModel::Text(self.method@),
            FieldModel::Text(self.program_id@),
            FieldModel::Text(self.data_key@),
            FieldModel::Text(self.data@),
            FieldModel::Text(self.public_key@),
            FieldModel::Text(self.alias@),
            FieldModel::Number(self.timestamp),
            FieldModel::Text(self.chain_id@),
            FieldModel::Text(self.token_address@),
            FieldModel::Text(self.token_id@),
            FieldModel::Text(self.version@),
            FieldModel::Text(self.mcdata@),
            FieldModel::Number(self.status),
        ]
    }
}

impl Transaction {
    pub open spec fn spec_shape() -> Seq<FieldKind> {
        seq![
            FieldKind::Text,
            FieldKind::Text,
            FieldKind::Text,
            FieldKind::Text,
            FieldKind::Text,
            FieldKind::Text,
            FieldKind::Text,
            FieldKind::Number,
            FieldKind::Text,
            FieldKind::Text,
            FieldKind::Text,
            FieldKind::Text,
            FieldKind::Text,
            FieldKind::Number,
        ]
    }

    pub fn shape() -> (r: Vec<FieldKind>)
        ensures
            r@ == Self::spec_shape(),
    {
        vec![
            FieldKind::Text,
            FieldKind::Text,
            FieldKind::Text,
            FieldKind::Text,
            FieldKind::Text,
            FieldKind::Text,
            FieldKind::Text,
            FieldKind::Number,
            FieldKind::Text,
            FieldKind::Text,
            FieldKind::Text,
            FieldKind::Text,
            FieldKind::Text,
            FieldKind::Number,
        ]
    }

    /// The primary key: the UTF-8 bytes of `hash`.
    pub open spec fn spec_key(&self) -> Seq<u8> {
        encode_utf8(self.hash@)
    }

    pub fn primary_key(&self) -> (r: Vec<u8>)
        ensures
            r@ == self.spec_key(),
    {
        utf8_bytes(&self.hash)
    }

    pub fn to_fields(&self) -> (r: Vec<FieldValue>)
        ensures
            models(r@) == self@,
    {
        let r = vec![
            FieldValue::Text(self.hash.clone()),
            FieldValue::Text(self.method.clone()),
            FieldValue::Text(self.program_id.clone()),
            FieldValue::Text(self.data_key.clone()),
            FieldValue::Text(self.data.clone()),
            FieldValue::Text(self.public_key.clone()),
            FieldValue::Text(self.alias.clone()),
            FieldValue::Number(self.timestamp),
            FieldValue::Text(self.chain_id.clone()),
            FieldValue::Text(self.token_address.clone()),
            FieldValue::Text(self.token_id.clone()),
            FieldValue::Text(self.version.clone()),
            FieldValue::Text(self.mcdata.clone()),
            FieldValue::Number(self.status),
        ];
        assert(models(r@) =~= self@);
        r
    }

    /// The canonical encoding; `None` for a record whose payload is not
    /// under the size bound.
    pub fn encode(&self) -> (r: Option<Vec<u8>>)
        ensures
            r is Some <==> within_limit(self@),
            r matches Some(v) ==> v@ == encoding(self@),
    {
        encode_fields(&self.to_fields())
    }

    /// The record whose encoding is `bytes`; `None` when no record of this
    /// shape encodes to them.
    pub fn decode(bytes: &[u8]) -> (r: Option<Self>)
        ensures
            match r {
                Some(t) => decoding(bytes@, Self::spec_shape()) == Some(t@),
                None => decoding(bytes@, Self::spec_shape()) is None,
            },
    {
        let shape = Self::shape();
        let fs = match decode_fields(bytes, shape.as_slice()) {
            Some(fs) => fs,
            None => return None,
        };
        proof {
            let c = choose|c: Seq<FieldModel>| encodes(bytes@, Self::spec_shape(), c);
            assert(fits_shape(models(fs@), Self::spec_shape()));
            assert(kind_of(models(fs@)[0]) == FieldKind::Text);
            assert(kind_of(models(fs@)[1]) == FieldKind::Text);
            assert(kind_of(models(fs@)[2]) == FieldKind::Text);
            assert(kind_of(models(fs@)[3]) == FieldKind::Text);
            assert(kind_of(models(fs@)[4]) == FieldKind::Text);
            assert(kind_of(models(fs@)[5]) == FieldKind::Text);
            assert(kind_of(models(fs@)[6]) == FieldKind::Text);
            assert(kind_of(models(fs@)[7]) == FieldKind::Number);
            assert(kind_of(models(fs@)[8]) == FieldKind::Text);
            assert(kind_of(models(fs@)[9]) == FieldKind::Text);
            assert(kind_of(models(fs@)[10]) == FieldKind::Text);
            assert(kind_of(models(fs@)[11]) == FieldKind::Text);
            assert(kind_of(models(fs@)[12]) == FieldKind::Text);
            assert(kind_of(models(fs@)[13]) == FieldKind::Number);
        }
        let t = Transaction {
            hash: text_at(&fs, 0),
            method: text_at(&fs, 1),
            program_id: text_at(&fs, 2),
            data_key: text_at(&fs, 3),
            data: text_at(&fs, 4),
            public_key: text_at(&fs, 5),
            alias: text_at(&fs, 6),
            timestamp: number_at(&fs, 7),
            chain_id: text_at(&fs, 8),
            token_address: text_at(&fs, 9),
            token_id: text_at(&fs, 10),
            version: text_at(&fs, 11),
            mcdata: text_at(&fs, 12),
            status: number_at(&fs, 13),
        };
        assert(t@ =~= models(fs@));
        Some(t)
    }

    /// The named fields that filters match against.
    pub open spec fn spec_named_fields(&self) -> Seq<(Seq<char>, FieldModel)> {
        seq![
            ("hash"@, FieldModel::Text(self.hash@)),
            ("method"@, FieldModel::Text(self.method@)),
            ("program_id"@, FieldModel::Text(self.program_id@)),
            ("data_key"@, FieldModel::Text(self.data_key@)),
            ("data"@, FieldModel::Text(self.data@)),
            ("public_key"@, FieldModel::Text(self.public_key@)),
            ("alias"@, FieldModel::Text(self.alias@)),
            ("timestamp"@, FieldModel::Number(self.timestamp)),
            ("chain_id"@, FieldModel::Text(self.chain_id@)),
            ("token_address"@, FieldModel::Text(self.token_address@)),
            ("token_id"@, FieldModel::Text(self.token_id@)),
            ("version"@, FieldModel::Text(self.version@)),
            ("mcdata"@, FieldModel::Text(self.mcdata@)),
            ("status"@, FieldModel::Number(self.status)),
        ]
    }

    pub fn named_fields(&self) -> (r: Vec<(String, FieldValue)>)
        ensures
            named(r@) == self.spec_named_fields(),
    {
        let r = vec![
            (name("hash"), FieldValue::Text(self.hash.clone())),
            (name("method"), FieldValue::Text(self.method.clone())),
            (name("program_id"), FieldValue::Text(self.program_id.clone())),
            (name("data_key"), FieldValue::Text(self.data_key.clone())),
            (name("data"), FieldValue::Text(self.data.clone())),
            (name("public_key"), FieldValue::Text(self.public_key.clone())),
            (name("alias"), FieldValue::Text(self.alias.clone())),
            (name("timestamp"), FieldValue::Number(self.timestamp)),
            (name("chain_id"), FieldValue::Text(self.chain_id.clone())),
            (name("token_address"), FieldValue::Text(self.token_address.clone())),
            (name("token_id"), FieldValue::Text(self.token_id.clone())),
            (name("version"), FieldValue::Text(self.version.clone())),
            (name("mcdata"), FieldValue::Text(self.mcdata.clone())),
            (name("status"), FieldValue::Number(self.status)),
        ];
        assert(named(r@) =~= self.spec_named_fields());
        r
    }
}

/// The outcome of a transaction.
#[derive(Debug, Clone, PartialEq, Eq)]
pub struct TransactionReceipt {
    pub hash: String,
    pub program_id: String,
    pub status: u64,
    pub timestamp: u64,
    pub error_text: String,
    pub data: String,
}

impl View for TransactionReceipt {
    type V = Seq<FieldModel>;

    /// The fields, in their stored order.
    open spec fn view(&self) -> Seq<FieldModel> {
        seq![
            FieldModel::Text(self.hash@),
            FieldModel::Text(self.program_id@),
            FieldModel::Number(self.status),
            FieldModel::Number(self.timestamp),
            FieldModel::Text(self.error_text@),
            FieldModel::Text(self.data@),
        ]
    }
}

impl TransactionReceipt {
    pub open spec fn spec_shape() -> Seq<FieldKind> {
        seq![
            FieldKind::Text,
            FieldKind::Text,
            FieldKind::Number,
            FieldKind::Number,
            FieldKind::Text,
            FieldKind::Text,
        ]
    }

    pub fn shape() -> (r: Vec<FieldKind>)
        ensures
            r@ == Self::spec_shape(),
    {
        vec![
            FieldKind::Text,
            FieldKind::Text,
            FieldKind::Number,
            FieldKind::Number,
            FieldKind::Text,
            FieldKind::Text,
        ]
    }

    /// The primary key: the UTF-8 bytes of `hash`.
    pub open spec fn spec_key(&self) -> Seq<u8> {
        encode_utf8(self.hash@)
    }

    pub fn primary_key(&self) -> (r: Vec<u8>)
        ensures
            r@ == self.spec_key(),
    {
        utf8_bytes(&self.hash)
    }

    pub fn to_fields(&self) -> (r: Vec<FieldValue>)
        ensures
            models(r@) == self@,
    {
        let r = vec![
            FieldValue::Text(self.hash.clone()),
            FieldValue::Text(self.program_id.clone()),
            FieldValue::Number(self.status),
            FieldValue::Number(self.timestamp),
            FieldValue::Text(self.error_text.clone()),
            FieldValue::Text(self.data.clone()),
        ];
        assert(models(r@) =~= self@);
        r
    }

    /// The canonical encoding; `None` for a record whose payload is not
    /// under the size bound.
    pub fn encode(&self) -> (r: Option<Vec<u8>>)
        ensures
            r is Some <==> within_limit(self@),
            r matches Some(v) ==> v@ == encoding(self@),
    {
        encode_fields(&self.to_fields())
    }

    /// The record whose encoding is `bytes`; `None` when no record of this
    /// shape encodes to them.
    pub fn decode(bytes: &[u8]) -> (r: Option<Self>)
        ensures
            match r {
                Some(t) => decoding(bytes@, Self::spec_shape()) == Some(t@),
                None => decoding(bytes@, Self::spec_shape()) is None,
            },
    {
        let shape = Self::shape();
        let fs = match decode_fields(bytes, shape.as_slice()) {
            Some(fs) => fs,
            None => return None,
        };
        proof {
            let c = choose|c: Seq<FieldModel>| encodes(bytes@, Self::spec_shape(), c);
            assert(fits_shape(models(fs@), Self::spec_shape()));
            assert(kind_of(models(fs@)[0]) == FieldKind::Text);
            assert(kind_of(models(fs@)[1]) == FieldKind::Text);
            assert(kind_of(models(fs@)[2]) == FieldKind::Number);
            assert(kind_of(models(fs@)[3]) == FieldKind::Number);
            assert(kind_of(models(fs@)[4]) == FieldKind::Text);
            assert(kind_of(models(fs@)[5]) == FieldKind::Text);
        }
        let t = TransactionReceipt {
            hash: text_at(&fs, 0),
            program_id: text_at(&fs, 1),
            status: number_at(&fs, 2),
            timestamp: number_at(&fs, 3),
            error_text: text_at(&fs, 4),
            data: text_at(&fs, 5),
        };
        assert(t@ =~= models(fs@));
        Some(t)
    }

    /// The named fields that filters match against.
    pub open spec fn spec_named_fields(&self) -> Seq<(Seq<char>, FieldModel)> {
        seq![
            ("hash"@, FieldModel::Text(self.hash@)),
            ("program_id"@, FieldModel::Text(self.program_id@)),
            ("error_text"@, FieldModel::Text(self.error_text@)),
            ("data"@, FieldModel::Text(self.data@)),
            ("timestamp"@, FieldModel::Number(self.timestamp)),
            ("status"@, FieldModel::Number(self.status)),
        ]
    }

    pub fn named_fields(&self) -> (r: Vec<(String, FieldValue)>)
        ensures
            named(r@) == self.spec_named_fields(),
    {
        let r = vec![
            (name("hash"), FieldValue::Text(self.hash.clone())),
            (name("program_id"), FieldValue::Text(self.program_id.clone())),
            (name("error_text"), FieldValue::Text(self.error_text.clone())),
            (name("data"), FieldValue::Text(self.data.clone())),
            (name("timestamp"), FieldValue::Number(self.timestamp)),
            (name("status"), FieldValue::Number(self.status)),
        ];
        assert(named(r@) =~= self.spec_named_fields());
        r
    }
}

/// A scheduled job of a program.
#[derive(Debug, Clone, PartialEq, Eq)]
pub struct Cron {
    pub program_id: String,
    pub public_key: String,
    pub cid: String,
    pub epoch: u64,
    pub status: u64,
}

impl View for Cron {
    type V = Seq<FieldModel>;

    /// The fields, in their stored order.
    open spec fn view(&self) -> Seq<FieldModel> {
        seq![
            FieldModel::Text(self.program_id@),
            FieldModel::Text(self.public_key@),
            FieldModel::Text(self.cid@),
            FieldModel::Number(self.epoch),
            FieldModel::Number(self.status),
        ]
    }
}

impl Cron {
    pub open spec fn spec_shape() -> Seq<FieldKind> {
        seq![
            FieldKind::Text,
            FieldKind::Text,
            FieldKind::Text,
            FieldKind::Number,
            FieldKind::Number,
        ]
    }

    pub fn shape() -> (r: Vec<FieldKind>)
        ensures
            r@ == Self::spec_shape(),
    {
        vec![
            FieldKind::Text,
            FieldKind::Text,
            FieldKind::Text,
            FieldKind::Number,
            FieldKind::Number,
        ]
    }

    /// The primary key: the UTF-8 bytes of `program_id`.
    pub open spec fn spec_key(&self) -> Seq<u8> {
        encode_utf8(self.program_id@)
    }

    pub fn primary_key(&self) -> (r: Vec<u8>)
        ensures
            r@ == self.spec_key(),
    {
        utf8_bytes(&self.program_id)
    }

    pub fn to_fields(&self) -> (r: Vec<FieldValue>)
        ensures
            models(r@) == self@,
    {
        let r = vec![
            FieldValue::Text(self.program_id.clone()),
            FieldValue::Text(self.public_key.clone()),
            FieldValue::Text(self.cid.clone()),
            FieldValue::Number(self.epoch),
            FieldValue::Number(self.status),
        ];
        assert(models(r@) =~= self@);
        r
    }

    /// The canonical encoding; `None` for a record whose payload is not
    /// under the size bound.
    pub fn encode(&self) -> (r: Option<Vec<u8>>)
        ensures
            r is Some <==> within_limit(self@),
            r matches Some(v) ==> v@ == encoding(self@),
    {
        encode_fields(&self.to_fields())
    }

    /// The record whose encoding is `bytes`; `None` when no record of this
    /// shape encodes to them.
    pub fn decode(bytes: &[u8]) -> (r: Option<Self>)
        ensures
            match r {
                Some(t) => decoding(bytes@, Self::spec_shape()) == Some(t@),
                None => decoding(bytes@, Self::spec_shape()) is None,
            },
    {
        let shape = Self::shape();
        let fs = match decode_fields(bytes, shape.as_slice()) {
            Some(fs) => fs,
            None => return None,
        };
        proof {
            let c = choose|c: Seq<FieldModel>| encodes(bytes@, Self::spec_shape(), c);
            assert(fits_shape(models(fs@), Self::spec_shape()));
            assert(kind_of(models(fs@)[0]) == FieldKind::Text);
            assert(kind_of(models(fs@)[1]) == FieldKind::Text);
            assert(kind_of(models(fs@)[2]) == FieldKind::Text);
            assert(kind_of(models(fs@)[3]) == FieldKind::Number);
            assert(kind_of(models(fs@)[4]) == FieldKind::Number);
        }
        let t = Cron {
            program_id: text_at(&fs, 0),
            public_key: text_at(&fs, 1),
            cid: text_at(&fs, 2),
            epoch: number_at(&fs, 3),
            status: number_at(&fs, 4),
        };
        assert(t@ =~= models(fs@));
        Some(t)
    }

    /// The named fields that filters match against.
    pub open spec fn spec_named_fields(&self) -> Seq<(Seq<char>, FieldModel)> {
        seq![
            ("program_id"@, FieldModel::Text(self.program_id@)),
            ("public_key"@, FieldModel::Text(self.public_key@)),
            ("cid"@, FieldModel::Text(self.cid@)),
            ("epoch"@, FieldModel::Number(self.epoch)),
            ("status"@, FieldModel::Number(self.status)),
        ]
    }

    pub fn named_fields(&self) -> (r: Vec<(String, FieldValue)>)
        ensures
            named(r@) == self.spec_named_fields(),
    {
        let r = vec![
            (name("program_id"), FieldValue::Text(self.program_id.clone())),
            (name("public_key"), FieldValue::Text(self.public_key.clone())),
            (name("cid"), FieldValue::Text(self.cid.clone())),
            (name("epoch"), FieldValue::Number(self.epoch)),
            (name("status"), FieldValue::Number(self.status)),
        ];
        assert(named(r@) =~= self.spec_named_fields());
        r
    }
}

/// Metadata of a token or data item.
#[derive(Debug, Clone, PartialEq, Eq)]
pub struct Metadata {
    pub hash: String,
    pub data_key: String,
    pub program_id: String,
    pub alias: String,
    pub chain_id: String,
    pub token_address: String,
    pub token_id: String,
    pub version: String,
    pub cid: String,
    pub public_key: String,
    pub loose: u64,
}

impl View for Metadata {
    type V = Seq<FieldModel>;

    /// The fields, in their stored order.
    open spec fn view(&self) -> Seq<FieldModel> {
        seq![
            FieldModel::Text(self.hash@),
            FieldModel::Text(self.data_key@),
            FieldModel::Text(self.program_id@),
            FieldModel::Text(self.alias@),
            FieldModel::Text(self.chain_id@),
            FieldModel::Text(self.token_address@),
            FieldModel::Text(self.token_id@),
            FieldModel::Text(self.version@),
            FieldModel::Text(self.cid@),
            FieldModel::Text(self.public_key@),
            FieldModel::Number(self.loose),
        ]
    }
}

impl Metadata {
    pub open spec fn spec_shape() -> Seq<FieldKind> {
        seq![
            FieldKind::Text,
            FieldKind::Text,
            FieldKind::Text,
            FieldKind::Text,
            FieldKind::Text,
            FieldKind::Text,
            FieldKind::Text,
            FieldKind::Text,
            FieldKind::Text,
            FieldKind::Text,
            FieldKind::Number,
        ]
    }

    pub fn shape() -> (r: Vec<FieldKind>)
        ensures
            r@ == Self::spec_shape(),
    {
        vec![
            FieldKind::Text,
            FieldKind::Text,
            FieldKind::Text,
            FieldKind::Text,
            FieldKind::Text,
            FieldKind::Text,
            FieldKind::Text,
            FieldKind::Text,
            FieldKind::Text,
            FieldKind::Text,
            FieldKind::Number,
        ]
    }

    /// The primary key: the UTF-8 bytes of `hash`.
    pub open spec fn spec_key(&self) -> Seq<u8> {
        encode_utf8(self.hash@)
    }

    pub fn primary_key(&self) -> (r: Vec<u8>)
        ensures
            r@ == self.spec_key(),
    {
        utf8_bytes(&self.hash)
    }

    pub fn to_fields(&self) -> (r: Vec<FieldValue>)
        ensures
            models(r@) == self@,
    {
        let r = vec![
            FieldValue::Text(self.hash.clone()),
            FieldValue::Text(self.data_key.clone()),
            FieldValue::Text(self.program_id.clone()),
            FieldValue::Text(self.alias.clone()),
            FieldValue::Text(self.chain_id.clone()),
            FieldValue::Text(self.token_address.clone()),
            FieldValue::Text(self.token_id.clone()),
            FieldValue::Text(self.version.clone()),
            FieldValue::Text(self.cid.clone()),
            FieldValue::Text(self.public_key.clone()),
            FieldValue::Number(self.loose),
        ];
        assert(models(r@) =~= self@);
        r
    }

    /// The canonical encoding; `None` for a record whose payload is not
    /// under the size bound.
    pub fn encode(&self) -> (r: Option<Vec<u8>>)
        ensures
            r is Some <==> within_limit(self@),
            r matches Some(v) ==> v@ == encoding(self@),
    {
        encode_fields(&self.to_fields())
    }

    /// The record whose encoding is `bytes`; `None` when no record of this
    /// shape encodes to them.
    pub fn decode(bytes: &[u8]) -> (r: Option<Self>)
        ensures
            match r {
                Some(t) => decoding(bytes@, Self::spec_shape()) == Some(t@),
                None => decoding(bytes@, Self::spec_shape()) is None,
            },
    {
        let shape = Self::shape();
        let fs = match decode_fields(bytes, shape.as_slice()) {
            Some(fs) => fs,
            None => return None,
        };
        proof {
            let c = choose|c: Seq<FieldModel>| encodes(bytes@, Self::spec_shape(), c);
            assert(fits_shape(models(fs@), Self::spec_shape()));
            assert(kind_of(models(fs@)[0]) == FieldKind::Text);
            assert(kind_of(models(fs@)[1]) == FieldKind::Text);
            assert(kind_of(models(fs@)[2]) == FieldKind::Text);
            assert(kind_of(models(fs@)[3]) == FieldKind::Text);
            assert(kind_of(models(fs@)[4]) == FieldKind::Text);
            assert(kind_of(models(fs@)[5]) == FieldKind::Text);
            assert(kind_of(models(fs@)[6]) == FieldKind::Text);
            assert(kind_of(models(fs@)[7]) == FieldKind::Text);
            assert(kind_of(models(fs@)[8]) == FieldKind::Text);
            assert(kind_of(models(fs@)[9]) == FieldKind::Text);
            assert(kind_of(models(fs@)[10]) == FieldKind::Number);
        }
        let t = Metadata {
            hash: text_at(&fs, 0),
            data_key: text_at(&fs, 1),
            program_id: text_at(&fs, 2),
            alias: text_at(&fs, 3),
            chain_id: text_at(&fs, 4),
            token_address: text_at(&fs, 5),
            token_id: text_at(&fs, 6),
            version: text_at(&fs, 7),
            cid: text_at(&fs, 8),
            public_key: text_at(&fs, 9),
            loose: number_at(&fs, 10),
        };
        assert(t@ =~= models(fs@));
        Some(t)
    }

    /// The named fields that filters match against.
    pub open spec fn spec_named_fields(&self) -> Seq<(Seq<char>, FieldModel)> {
        seq![
            ("hash"@, FieldModel::Text(self.hash@)),
            ("data_key"@, FieldModel::Text(self.data_key@)),
            ("program_id"@, FieldModel::Text(self.program_id@)),
            ("alias"@, FieldModel::Text(self.alias@)),
            ("chain_id"@, FieldModel::Text(self.chain_id@)),
            ("token_address"@, FieldModel::Text(self.token_address@)),
            ("token_id"@, FieldModel::Text(self.token_id@)),
            ("version"@, FieldModel::Text(self.version@)),
            ("cid"@, FieldModel::Text(self.cid@)),
            ("public_key"@, FieldModel::Text(self.public_key@)),
            ("loose"@, FieldModel::Number(self.loose)),
        ]
    }

    pub fn named_fields(&self) -> (r: Vec<(String, FieldValue)>)
        ensures
            named(r@) == self.spec_named_fields(),
    {
        let r = vec![
            (name("hash"), FieldValue::Text(self.hash.clone())),
            (name("data_key"), FieldValue::Text(self.data_key.clone())),
            (name("program_id"), FieldValue::Text(self.program_id.clone())),
            (name("alias"), FieldValue::Text(self.alias.clone())),
            (name("chain_id"), FieldValue::Text(self.chain_id.clone())),
            (name("token_address"), FieldValue::Text(self.token_address.clone())),
            (name("token_id"), FieldValue::Text(self.token_id.clone())),
            (name("version"), FieldValue::Text(self.version.clone())),
            (name("cid"), FieldValue::Text(self.cid.clone())),
            (name("public_key"), FieldValue::Text(self.public_key.clone())),
            (name("loose"), FieldValue::Number(self.loose)),
        ];
        assert(named(r@) =~= self.spec_named_fields());
        r
    }
}

/// A program's contract record.
#[derive(Debug, Clone, PartialEq, Eq)]
pub struct MetaContract {
    pub program_id: String,
    pub public_key: String,
    pub cid: String,
}

impl View for MetaContract {
    type V = Seq<FieldModel>;

    /// The fields, in their stored order.
    open spec fn view(&self) -> Seq<FieldModel> {
        seq![
            FieldModel::Text(self.program_id@),
            FieldModel::Text(self.public_key@),
            FieldModel::Text(self.cid@),
        ]
    }
}

impl MetaContract {
    pub open spec fn spec_shape() -> Seq<FieldKind> {
        seq![
            FieldKind::Text,
            FieldKind::Text,
            FieldKind::Text,
        ]
    }

    pub fn shape() -> (r: Vec<FieldKind>)
        ensures
            r@ == Self::spec_shape(),
    {
        vec![
            FieldKind::Text,
            FieldKind::Text,
            FieldKind::Text,
        ]
    }

    /// The primary key: the UTF-8 bytes of `program_id`.
    pub open spec fn spec_key(&self) -> Seq<u8> {
        encode_utf8(self.program_id@)
    }

    pub fn primary_key(&self) -> (r: Vec<u8>)
        ensures
            r@ == self.spec_key(),
    {
        utf8_bytes(&self.program_id)
    }

    pub fn to_fields(&self) -> (r: Vec<FieldValue>)
        ensures
            models(r@) == self@,
    {
        let r = vec![
            FieldValue::Text(self.program_id.clone()),
            FieldValue::Text(self.public_key.clone()),
            FieldValue::Text(self.cid.clone()),
        ];
        assert(models(r@) =~= self@);
        r
    }

    /// The canonical encoding; `None` for a record whose payload is not
    /// under the size bound.
    pub fn encode(&self) -> (r: Option<Vec<u8>>)
        ensures
            r is Some <==> within_limit(self@),
            r matches Some(v) ==> v@ == encoding(self@),
    {
        encode_fields(&self.to_fields())
    }

    /// The record whose encoding is `bytes`; `None` when no record of this
    /// shape encodes to them.
    pub fn decode(bytes: &[u8]) -> (r: Option<Self>)
        ensures
            match r {
                Some(t) => decoding(bytes@, Self::spec_shape()) == Some(t@),
                None => decoding(bytes@, Self::spec_shape()) is None,
            },
    {
        let shape = Self::shape();
        let fs = match decode_fields(bytes, shape.as_slice()) {
            Some(fs) => fs,
            None => return None,
        };
        proof {
            let c = choose|c: Seq<FieldModel>| encodes(bytes@, Self::spec_shape(), c);
            assert(fits_shape(models(fs@), Self::spec_shape()));
            assert(kind_of(models(fs@)[0]) == FieldKind::Text);
            assert(kind_of(models(fs@)[1]) == FieldKind::Text);
            assert(kind_of(models(fs@)[2]) == FieldKind::Text);
        }
        let t = MetaContract {
            program_id: text_at(&fs, 0),
            public_key: text_at(&fs, 1),
            cid: text_at(&fs, 2),
        };
        assert(t@ =~= models(fs@));
        Some(t)
    }

    /// The named fields that filters match against.
    pub open spec fn spec_named_fields(&self) -> Seq<(Seq<char>, FieldModel)> {
        seq![
            ("program_id"@, FieldModel::Text(self.program_id@)),
            ("cid"@, FieldModel::Text(self.cid@)),
            ("public_key"@, FieldModel::Text(self.public_key@)),
        ]
    }

    pub fn named_fields(&self) -> (r: Vec<(String, FieldValue)>)
        ensures
            named(r@) == self.spec_named_fields(),
    {
        let r = vec![
            (name("program_id"), FieldValue::Text(self.program_id.clone())),
            (name("cid"), FieldValue::Text(self.cid.clone())),
            (name("public_key"), FieldValue::Text(self.public_key.clone())),
        ];
        assert(named(r@) =~= self.spec_named_fields());
        r
    }
}

/// A transaction as submitted, with the receipt that may come with it.
#[derive(Debug, Clone, PartialEq, Eq)]
pub struct TrieTransaction {
    pub transaction: Transaction,
    pub receipt: Option<TransactionReceipt>,
}

/// A named collection: one trie holding records of one shape.
#[derive(Clone, Copy, Debug, PartialEq, Eq, Structural)]
pub enum Collection {
    Tx,
    Receipt,
    Cron,
    Metadata,
    MetaContract,
}

/// Whether two texts are equal.
pub fn str_eq(a: &str, b: &str) -> (r: bool)
    ensures
        r == (a@ == b@),
{
    a.to_owned() == b.to_owned()
}

impl Collection {
    /// The collection's name, which is also its key in the root registry.
    pub open spec fn spec_name(self) -> Seq<char> {
        match self {
            Collection::Tx => "tx"@,
            Collection::Receipt => "receipt"@,
            Collection::Cron => "cron"@,
            Collection::Metadata => "metadata"@,
            Collection::MetaContract => "metacontract"@,
        }
    }

    pub fn name(self) -> (r: String)
        ensures
            r@ == self.spec_name(),
    {
        match self {
            Collection::Tx => name("tx"),
            Collection::Receipt => name("receipt"),
            Collection::Cron => name("cron"),
            Collection::Metadata => name("metadata"),
            Collection::MetaContract => name("metacontract"),
        }
    }

    /// The collection of a given name.
    pub fn from_name(s: &str) -> (r: Option<Collection>)
        ensures
            match r {
                Some(c) => c.spec_name() == s@,
                None => forall|c: Collection| c.spec_name() != s@,
            },
    {
        proof {
            reveal_strlit("tx");
            reveal_strlit("receipt");
            reveal_strlit("cron");
            reveal_strlit("metadata");
            reveal_strlit("metacontract");
        }
        if str_eq(s, "tx") {
            return Some(Collection::Tx);
        }
        if str_eq(s, "receipt") {
            return Some(Collection::Receipt);
        }
        if str_eq(s, "cron") {
            return Some(Collection::Cron);
        }
        if str_eq(s, "metadata") {
            return Some(Collection::Metadata);
        }
        if str_eq(s, "metacontract") {
            return Some(Collection::MetaContract);
        }
        None
    }

    /// The named fields of the record of this collection whose fields are `m`.
    pub open spec fn named_of(self, m: Seq<FieldModel>) -> Seq<(Seq<char>, FieldModel)> {
        match self {
            Collection::Tx => seq![
                ("hash"@, m[0]),
                ("method"@, m[1]),
                ("program_id"@, m[2]),
                ("data_key"@, m[3]),
                ("data"@, m[4]),
                ("public_key"@, m[5]),
                ("alias"@, m[6]),
                ("timestamp"@, m[7]),
                ("chain_id"@, m[8]),
                ("token_address"@, m[9]),
                ("token_id"@, m[10]),
                ("version"@, m[11]),
                ("mcdata"@, m[12]),
                ("status"@, m[13]),
            ],
            Collection::Receipt => seq![
                ("hash"@, m[0]),
                ("program_id"@, m[1]),
                ("error_text"@, m[4]),
                ("data"@, m[5]),
                ("timestamp"@, m[3]),
                ("status"@, m[2]),
            ],
            Collection::Cron => seq![
                ("program_id"@, m[0]),
                ("public_key"@, m[1]),
                ("cid"@, m[2]),
                ("epoch"@, m[3]),
                ("status"@, m[4]),
            ],
            Collection::Metadata => seq![
                ("hash"@, m[0]),
                ("data_key"@, m[1]),
                ("program_id"@, m[2]),
                ("alias"@, m[3]),
                ("chain_id"@, m[4]),
                ("token_address"@, m[5]),
                ("token_id"@, m[6]),
                ("version"@, m[7]),
                ("cid"@, m[8]),
                ("public_key"@, m[9]),
                ("loose"@, m[10]),
            ],
            Collection::MetaContract => seq![
                ("program_id"@, m[0]),
                ("cid"@, m[2]),
                ("public_key"@, m[1]),
            ],
        }
    }

    /// The kinds of the fields of the collection's records.
    pub open spec fn shape(self) -> Seq<FieldKind> {
        match self {
            Collection::Tx => Transaction::spec_shape(),
            Collection::Receipt => TransactionReceipt::spec_shape(),
            Collection::Cron => Cron::spec_shape(),
            Collection::Metadata => Metadata::spec_shape(),
            Collection::MetaContract => MetaContract::spec_shape(),
        }
    }
}

/// A record of one of the five shapes, as decoded from a collection.
#[derive(Debug, Clone, PartialEq, Eq)]
pub enum DecodableEnum {
    Transaction(Transaction),
    Receipt(TransactionReceipt),
    Cron(Cron),
    Metadata(Metadata),
    MetaContract(MetaContract),
}

impl View for DecodableEnum {
    type V = Seq<FieldModel>;

    open spec fn view(&self) -> Seq<FieldModel> {
        match self {
            DecodableEnum::Transaction(r) => r@,
            DecodableEnum::Receipt(r) => r@,
            DecodableEnum::Cron(r) => r@,
            DecodableEnum::Metadata(r) => r@,
            DecodableEnum::MetaContract(r) => r@,
        }
    }
}

impl DecodableEnum {
    /// The collection that records of this shape belong to.
    pub open spec fn collection(&self) -> Collection {
        match self {
            DecodableEnum::Transaction(_) => Collection::Tx,
            DecodableEnum::Receipt(_) => Collection::Receipt,
            DecodableEnum::Cron(_) => Collection::Cron,
            DecodableEnum::Metadata(_) => Collection::Metadata,
            DecodableEnum::MetaContract(_) => Collection::MetaContract,
        }
    }

    /// The collection that the record belongs to.
    pub fn collection_of(&self) -> (r: Collection)
        ensures
            r == self.collection(),
    {
        match self {
            DecodableEnum::Transaction(_) => Collection::Tx,
            DecodableEnum::Receipt(_) => Collection::Receipt,
            DecodableEnum::Cron(_) => Collection::Cron,
            DecodableEnum::Metadata(_) => Collection::Metadata,
            DecodableEnum::MetaContract(_) => Collection::MetaContract,
        }
    }

    pub open spec fn spec_key(&self) -> Seq<u8> {
        match self {
            DecodableEnum::Transaction(r) => r.spec_key(),
            DecodableEnum::Receipt(r) => r.spec_key(),
            DecodableEnum::Cron(r) => r.spec_key(),
            DecodableEnum::Metadata(r) => r.spec_key(),
            DecodableEnum::MetaContract(r) => r.spec_key(),
        }
    }

    pub open spec fn spec_named_fields(&self) -> Seq<(Seq<char>, FieldModel)> {
        match self {
            DecodableEnum::Transaction(r) => r.spec_named_fields(),
            DecodableEnum::Receipt(r) => r.spec_named_fields(),
            DecodableEnum::Cron(r) => r.spec_named_fields(),
            DecodableEnum::Metadata(r) => r.spec_named_fields(),
            DecodableEnum::MetaContract(r) => r.spec_named_fields(),
        }
    }

    pub fn primary_key(&self) -> (r: Vec<u8>)
        ensures
            r@ == self.spec_key(),
    {
        match self {
            DecodableEnum::Transaction(r) => r.primary_key(),
            DecodableEnum::Receipt(r) => r.primary_key(),
            DecodableEnum::Cron(r) => r.primary_key(),
            DecodableEnum::Metadata(r) => r.primary_key(),
            DecodableEnum::MetaContract(r) => r.primary_key(),
        }
    }

    pub fn encode(&self) -> (r: Option<Vec<u8>>)
        ensures
            r is Some <==> within_limit(self@),
            r matches Some(v) ==> v@ == encoding(self@),
    {
        match self {
            DecodableEnum::Transaction(r) => r.encode(),
            DecodableEnum::Receipt(r) => r.encode(),
            DecodableEnum::Cron(r) => r.encode(),
            DecodableEnum::Metadata(r) => r.encode(),
            DecodableEnum::MetaContract(r) => r.encode(),
        }
    }

    pub fn named_fields(&self) -> (r: Vec<(String, FieldValue)>)
        ensures
            named(r@) == self.spec_named_fields(),
    {
        match self {
            DecodableEnum::Transaction(r) => r.named_fields(),
            DecodableEnum::Receipt(r) => r.named_fields(),
            DecodableEnum::Cron(r) => r.named_fields(),
            DecodableEnum::Metadata(r) => r.named_fields(),
            DecodableEnum::MetaContract(r) => r.named_fields(),
        }
    }

    /// The record of collection `c` whose encoding is `bytes`.
    pub fn decode(c: Collection, bytes: &[u8]) -> (r: Option<DecodableEnum>)
        ensures
            match r {
                Some(rec) => rec.collection() == c && decoding(bytes@, c.shape()) == Some(rec@),
                None => decoding(bytes@, c.shape()) is None,
            },
    {
        match c {
            Collection::Tx => match Transaction::decode(bytes) {
                Some(t) => Some(DecodableEnum::Transaction(t)),
                None => None,
            },
            Collection::Receipt => match TransactionReceipt::decode(bytes) {
                Some(t) => Some(DecodableEnum::Receipt(t)),
                None => None,
            },
            Collection::Cron => match Cron::decode(bytes) {
                Some(t) => Some(DecodableEnum::Cron(t)),
                None => None,
            },
            Collection::Metadata => match Metadata::decode(bytes) {
                Some(t) => Some(DecodableEnum::Metadata(t)),
                None => None,
            },
            Collection::MetaContract => match MetaContract::decode(bytes) {
                Some(t) => Some(DecodableEnum::MetaContract(t)),
                None => None,
            },
        }
    }

    /// The trie entry of the record: its primary key and its encoding;
    /// `None` for a record whose payload is not under the size bound.
    pub fn pair(&self) -> (r: Option<(Vec<u8>, Vec<u8>)>)
        ensures
            r is Some <==> within_limit(self@),
            r matches Some(p) ==> p.0@ == self.spec_key() && p.1@ == encoding(self@),
    {
        match self.encode() {
            Some(v) => Some((self.primary_key(), v)),
            None => None,
        }
    }
}

/// A record's named fields are those of its collection's shape.
pub proof fn lemma_named_fields(r: DecodableEnum)
    ensures
        r.spec_named_fields() == r.collection().named_of(r@),
{
    assert(r.spec_named_fields() =~= r.collection().named_of(r@));
}

/// Every record decodes from its own encoding, under its collection's shape.
pub proof fn lemma_record_round_trip(r: DecodableEnum)
    requires
        within_limit(r@),
    ensures
        decoding(encoding(r@), r.collection().shape()) == Some(r@),
{
    let sh = r.collection().shape();
    assert(fits_shape(r@, sh));
    lemma_round_trip(r@, sh);
}

} // verus!
