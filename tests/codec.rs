use rlp::RlpStream;
use world_state::codec::{decode_fields, encode_fields, FieldKind, FieldValue};
use world_state::records::{Collection, Cron, MetaContract, Metadata, DecodableEnum, Transaction, TransactionReceipt};

fn tx(hash: &str, status: u64) -> Transaction {
    Transaction {
        hash: hash.into(),
        method: "method".into(),
        program_id: "program_id".into(),
        data_key: "data_key".into(),
        data: "data".into(),
        public_key: "public_key".into(),
        alias: "alias".into(),
        timestamp: 0,
        chain_id: "001".to_string(),
        token_address: "12345".to_string(),
        token_id: "1".to_string(),
        version: "version".into(),
        mcdata: "".into(),
        status,
    }
}

fn empty_tx() -> Transaction {
    Transaction {
        hash: String::new(),
        method: String::new(),
        program_id: String::new(),
        data_key: String::new(),
        data: String::new(),
        public_key: String::new(),
        alias: String::new(),
        timestamp: 0,
        chain_id: String::new(),
        token_address: String::new(),
        token_id: String::new(),
        version: String::new(),
        mcdata: String::new(),
        status: 0,
    }
}

fn rlp_of_tx(t: &Transaction) -> Vec<u8> {
    let mut s = RlpStream::new_list(14);
    s.append(&t.hash);
    s.append(&t.method);
    s.append(&t.program_id);
    s.append(&t.data_key);
    s.append(&t.data);
    s.append(&t.public_key);
    s.append(&t.alias);
    s.append(&t.timestamp);
    s.append(&t.chain_id);
    s.append(&t.token_address);
    s.append(&t.token_id);
    s.append(&t.version);
    s.append(&t.mcdata);
    s.append(&t.status);
    s.out().to_vec()
}

#[test]
fn transaction_round_trip() {
    let t = tx("1234", 7);
    assert_eq!(Transaction::decode(&t.encode().unwrap()), Some(t));
}

#[test]
fn round_trip_with_empty_text_and_zero_numbers() {
    let t = empty_tx();
    assert_eq!(Transaction::decode(&t.encode().unwrap()), Some(t));
    let r = TransactionReceipt {
        hash: String::new(),
        program_id: String::new(),
        status: 0,
        timestamp: 0,
        error_text: String::new(),
        data: String::new(),
    };
    assert_eq!(TransactionReceipt::decode(&r.encode().unwrap()), Some(r));
}

#[test]
fn round_trip_of_every_shape() {
    let records = vec![
        DecodableEnum::Transaction(tx("abc", u64::MAX)),
        DecodableEnum::Receipt(TransactionReceipt {
            hash: "h".into(),
            program_id: "p".into(),
            status: 1,
            timestamp: 1_700_000_000_000,
            error_text: "boom".into(),
            data: "é日本".into(),
        }),
        DecodableEnum::Cron(Cron { program_id: "p".into(), public_key: "k".into(), cid: "c".into(), epoch: 55, status: 128 }),
        DecodableEnum::Metadata(Metadata {
            hash: "m".into(),
            data_key: "d".into(),
            program_id: "p".into(),
            alias: "a".into(),
            chain_id: "1".into(),
            token_address: "0xabc".into(),
            token_id: "7".into(),
            version: "v".into(),
            cid: "cid".into(),
            public_key: "pk".into(),
            loose: 256,
        }),
        DecodableEnum::MetaContract(MetaContract { program_id: "p".into(), public_key: "k".into(), cid: "c".into() }),
    ];
    let collections = [Collection::Tx, Collection::Receipt, Collection::Cron, Collection::Metadata, Collection::MetaContract];
    for (r, c) in records.into_iter().zip(collections) {
        assert_eq!(r.collection_of(), c);
        let bytes = r.encode().unwrap();
        assert_eq!(DecodableEnum::decode(c, &bytes), Some(r));
    }
}

#[test]
fn long_fields_round_trip() {
    let mut t = tx("k", 1);
    t.data = "x".repeat(56);
    t.mcdata = "y".repeat(70_000);
    let bytes = t.encode().unwrap();
    assert_eq!(bytes, rlp_of_tx(&t));
    assert_eq!(Transaction::decode(&bytes), Some(t));
}

#[test]
fn encoding_matches_rlp() {
    for t in [tx("1234", 0), tx("1235", 1), empty_tx(), tx("a", 127), tx("\u{7f}", 128)] {
        assert_eq!(t.encode().unwrap(), rlp_of_tx(&t));
    }
    let c = Cron { program_id: "p".into(), public_key: "k".into(), cid: "c".into(), epoch: 1024, status: 0 };
    let mut s = RlpStream::new_list(5);
    s.append(&c.program_id);
    s.append(&c.public_key);
    s.append(&c.cid);
    s.append(&c.epoch);
    s.append(&c.status);
    assert_eq!(c.encode().unwrap(), s.out().to_vec());
}

#[test]
fn exact_small_encoding() {
    let m = MetaContract { program_id: "a".into(), public_key: "".into(), cid: "bc".into() };
    assert_eq!(m.encode().unwrap(), vec![0xc5, 0x61, 0x80, 0x82, 0x62, 0x63]);
    let fs = vec![FieldValue::Number(0), FieldValue::Number(0x0400), FieldValue::Text("\u{80}".into())];
    assert_eq!(encode_fields(&fs).unwrap(), vec![0xc7, 0x80, 0x82, 0x04, 0x00, 0x82, 0xc2, 0x80]);
}

#[test]
fn other_shape_does_not_decode() {
    let m = MetaContract { program_id: "a".into(), public_key: "b".into(), cid: "c".into() };
    let bytes = m.encode().unwrap();
    assert_eq!(Transaction::decode(&bytes), None);
    assert_eq!(Cron::decode(&bytes), None);
    let t = tx("1234", 0);
    assert_eq!(MetaContract::decode(&t.encode().unwrap()), None);
}

#[test]
fn malformed_bytes_do_not_decode() {
    assert_eq!(decode_fields(&[], &[]), None);
    assert_eq!(decode_fields(&[0xc0], &[]), Some(vec![]));
    assert_eq!(decode_fields(&[0xc0, 0x00], &[]), None);
    assert_eq!(decode_fields(&[0xc2, 0x81, 0x05], &[FieldKind::Number]), None);
    assert_eq!(decode_fields(&[0xc2, 0x81, 0x85], &[FieldKind::Number]), Some(vec![FieldValue::Number(0x85)]));
    assert_eq!(decode_fields(&[0xc3, 0x82, 0x00, 0x01], &[FieldKind::Number]), None);
    assert_eq!(decode_fields(&[0xc3, 0x82, 0xff, 0xfe], &[FieldKind::Text]), None);
    assert_eq!(decode_fields(&[0xc2, 0x81], &[FieldKind::Text]), None);
    assert_eq!(decode_fields(&[0xc1, 0xc0], &[FieldKind::Text]), None);
    assert_eq!(Transaction::decode(b"not a record"), None);
}

#[test]
fn primary_keys() {
    assert_eq!(DecodableEnum::Transaction(tx("1234", 0)).primary_key(), b"1234".to_vec());
    let c = Cron { program_id: "prog".into(), public_key: "k".into(), cid: "c".into(), epoch: 0, status: 0 };
    let (k, v) = DecodableEnum::Cron(c.clone()).pair().unwrap();
    assert_eq!(k, b"prog".to_vec());
    assert_eq!(v, c.encode().unwrap());
}

#[test]
fn collection_names() {
    for (name, c) in [("tx", Collection::Tx), ("receipt", Collection::Receipt), ("cron", Collection::Cron), ("metadata", Collection::Metadata), ("metacontract", Collection::MetaContract)] {
        assert_eq!(Collection::from_name(name), Some(c));
        assert_eq!(c.name(), name);
    }
    assert_eq!(Collection::from_name("roots"), None);
    assert_eq!(Collection::from_name(""), None);
}
