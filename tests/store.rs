use std::collections::HashMap;

use hash_db::{AsHashDB, HashDB, HashDBRef, Prefix};
use reference_trie::{NoExtensionLayout, RefHasher};
use trie_db::node::{NodePlan, ValuePlan};
use trie_db::{DBValue, Trie, TrieDBBuilder, TrieDBMutBuilder, TrieDBNodeIterator, TrieMut};
use world_state::codec::FieldValue;
use world_state::hashing::{keccak_256, KeccakHasher};
use world_state::ledger::StatusUpdate;
use world_state::pipeline::{
    commit_plan, get_trie_root, is_zero_root, next_step, plan_opening, plan_scan, BatchOp, BuildEvent, BuildStage,
    BuildStep, RegistryError, ScanOpening, TrieOpening,
};
use world_state::query::{child_filter, filter_records, scan_values, ScanNode};
use world_state::records::{Collection, MetaContract, Metadata, DecodableEnum, Transaction, TransactionReceipt, TrieTransaction};
use world_state::storage::{prefixed_key, KVDatabase, Lookup, Overlay, Presence, SimpleTrie};

type Backend = HashMap<Vec<u8>, Vec<u8>>;

struct Staging<'a> {
    adapter: SimpleTrie,
    db: &'a Backend,
}

impl<'a> HashDB<RefHasher, DBValue> for Staging<'a> {
    fn get(&self, key: &[u8; 32], prefix: Prefix) -> Option<DBValue> {
        match self.adapter.get(key, prefix) {
            Lookup::Known(v) => v,
            Lookup::Backend(k) => self.db.get(&k).cloned(),
        }
    }
    fn contains(&self, key: &[u8; 32], prefix: Prefix) -> bool {
        match self.adapter.contains(key, prefix) {
            Presence::Known(b) => b,
            Presence::Backend(k) => self.db.contains_key(&k),
        }
    }
    fn insert(&mut self, prefix: Prefix, value: &[u8]) -> [u8; 32] {
        self.adapter.insert(prefix, value)
    }
    fn emplace(&mut self, key: [u8; 32], prefix: Prefix, value: DBValue) {
        self.adapter.emplace(key, prefix, value)
    }
    fn remove(&mut self, key: &[u8; 32], prefix: Prefix) {
        self.adapter.remove(key, prefix)
    }
}

impl<'a> AsHashDB<RefHasher, DBValue> for Staging<'a> {
    fn as_hash_db(&self) -> &dyn HashDB<RefHasher, DBValue> {
        self
    }
    fn as_hash_db_mut<'b>(&'b mut self) -> &'b mut (dyn HashDB<RefHasher, DBValue> + 'b) {
        self
    }
}

struct Reading<'a> {
    adapter: KVDatabase,
    db: &'a Backend,
}

impl<'a> HashDBRef<RefHasher, DBValue> for Reading<'a> {
    fn get(&self, key: &[u8; 32], prefix: Prefix) -> Option<DBValue> {
        match self.adapter.get(key, prefix) {
            Lookup::Known(v) => v,
            Lookup::Backend(k) => self.db.get(&k).cloned(),
        }
    }
    fn contains(&self, key: &[u8; 32], prefix: Prefix) -> bool {
        match self.adapter.contains(key, prefix) {
            Presence::Known(b) => b,
            Presence::Backend(k) => self.db.contains_key(&k),
        }
    }
}

/// An in-memory store run by the library's build protocol.
#[derive(Default)]
struct Store {
    backends: HashMap<String, Backend>,
    registry: Backend,
    mirrored: Vec<String>,
    fail_batches: bool,
}

impl Store {
    fn root(&self, c: Collection) -> [u8; 32] {
        get_trie_root(Ok(self.registry.get(c.name().as_bytes()).cloned())).expect("a well-formed registry")
    }

    fn build(&mut self, c: Collection, pairs: &[(Vec<u8>, Vec<u8>)]) -> Result<[u8; 32], String> {
        let root = self.root(c);
        let opening = plan_opening(&root, pairs.len());
        let mut new_root: [u8; 32] = match opening {
            TrieOpening::Skip => return Ok(root),
            TrieOpening::Create => Default::default(),
            TrieOpening::Open(r) => r,
        };
        let db = self.backends.entry(c.name()).or_default().clone();
        let mut staging = Staging { adapter: SimpleTrie::new(), db: &db };
        {
            let mut trie = match opening {
                TrieOpening::Open(_) => TrieDBMutBuilder::<NoExtensionLayout>::from_existing(&mut staging, &mut new_root).build(),
                _ => TrieDBMutBuilder::<NoExtensionLayout>::new(&mut staging, &mut new_root).build(),
            };
            for (k, v) in pairs {
                trie.insert(k, v).map_err(|e| format!("{:?}", e))?;
            }
            trie.commit();
        }
        let overlay = staging.adapter.into_overlay();
        let plan = commit_plan(c, &overlay, new_root);
        let mut next = db.clone();
        for op in &plan.ops {
            match op {
                BatchOp::Put(k, v) => {
                    next.insert(k.clone(), v.clone());
                },
                BatchOp::Delete(k) => {
                    next.remove(k);
                },
            }
        }
        let event = if self.fail_batches { BuildEvent::BatchFailed } else { BuildEvent::BatchWritten };
        let (stage, step) = next_step(BuildStage::Staged, event);
        if step != BuildStep::MirrorAndStoreRoot {
            return Err("Failed to write transaction".into());
        }
        self.backends.insert(c.name(), next);
        self.mirrored.extend(plan.mirror.iter().cloned());
        self.registry.insert(plan.root_key.clone(), plan.root.to_vec());
        let (_, step) = next_step(stage, BuildEvent::RootStored);
        if step == BuildStep::MirrorRoot {
            self.mirrored.push(plan.root_statement.clone());
        }
        Ok(plan.root)
    }

    fn scan(&self, c: Collection, prefix: Option<&[u8]>) -> Vec<Vec<u8>> {
        let root = match plan_scan(&self.root(c)) {
            ScanOpening::Empty => return Vec::new(),
            ScanOpening::Open(r) => r,
        };
        let empty = Backend::new();
        let db = self.backends.get(&c.name()).unwrap_or(&empty);
        let reading = Reading { adapter: KVDatabase::new(), db };
        let trie = TrieDBBuilder::<NoExtensionLayout>::new(&reading, &root).build();
        let mut nodes = Vec::new();
        if let Ok(mut it) = TrieDBNodeIterator::new(&trie) {
            if let Some(p) = prefix {
                it.prefix(p).unwrap();
            }
            for item in it {
                let (_, _, node) = item.unwrap();
                let value = match node.node_plan() {
                    NodePlan::Leaf { value, .. } => Some(value),
                    NodePlan::Branch { value: Some(value), .. } => Some(value),
                    NodePlan::NibbledBranch { value: Some(value), .. } => Some(value),
                    _ => None,
                };
                nodes.push(match value {
                    Some(ValuePlan::Inline(r)) => ScanNode::InlineValue(node.data()[r.clone()].to_vec()),
                    Some(ValuePlan::Node(_)) => ScanNode::HashedValue,
                    None => ScanNode::NoValue,
                });
            }
        }
        scan_values(&nodes).expect("inline values only")
    }

    fn lookup(&self, c: Collection, key: &[u8]) -> Option<Vec<u8>> {
        let root = self.root(c);
        let empty = Backend::new();
        let db = self.backends.get(&c.name()).unwrap_or(&empty);
        let reading = Reading { adapter: KVDatabase::new(), db };
        let trie = TrieDBBuilder::<NoExtensionLayout>::new(&reading, &root).build();
        trie.get(key).unwrap()
    }
}

fn tx(hash: &str, method: &str, version: &str, status: u64) -> Transaction {
    Transaction {
        hash: hash.into(),
        method: method.into(),
        program_id: "program_id2".into(),
        data_key: "data_key2".into(),
        data: "data2".into(),
        public_key: "public_key2".into(),
        alias: "alias2".into(),
        timestamp: 0,
        chain_id: "001".to_string(),
        token_address: "12345".to_string(),
        token_id: "1".to_string(),
        version: version.into(),
        mcdata: "".into(),
        status,
    }
}

fn four_transactions() -> Vec<Transaction> {
    let mut t1 = tx("1234", "method", "version", 0);
    t1.program_id = "program_id".into();
    t1.data_key = "data_key".into();
    t1.data = "data".into();
    t1.public_key = "public_key".into();
    t1.alias = "alias".into();
    vec![t1, tx("1235", "method2", "version2", 0), tx("1236", "method3", "version2", 0), tx("4236", "method2", "version3", 1)]
}

fn pairs_of(txs: &[Transaction]) -> Vec<(Vec<u8>, Vec<u8>)> {
    txs.iter().map(|t| DecodableEnum::Transaction(t.clone()).pair().unwrap()).collect()
}

#[test]
fn test_simple_trie() {
    let txs = four_transactions();
    let pairs = pairs_of(&txs);
    let enc_tx = txs[3].encode().unwrap();
    let dec_tx = Transaction::decode(&enc_tx).unwrap();
    assert_eq!(dec_tx.status, 1);
    let mut store = Store::default();
    let root = store.build(Collection::Tx, &pairs).unwrap();
    assert!(!is_zero_root(&root));
    assert_eq!(store.root(Collection::Tx), root);
}

#[test]
fn test_iter() {
    let mut store = Store::default();
    store.build(Collection::Tx, &pairs_of(&four_transactions())).unwrap();
    let results = store.scan(Collection::Tx, None);
    let done: Vec<Transaction> = results.iter().filter_map(|v| Transaction::decode(v)).filter(|t| t.status == 1).collect();
    assert_eq!(done.len(), 1);
    assert_eq!(done[0].hash, "4236");
}

const LONG_KEY: &[u8] = b"3kmAHv8M8zN8A3ofG1jygVmGeMohiRhdVBCDHwzoxJgH7TTGKXuhDL4XHeo2J2ZfKijhY4J8wYhPMHagzdUh6ZSQEXgsTeuKfMVALwuVLnW6jJp1cUXxd5uGXGuijA9UGstf0xee1f0084514f12e6f02557e43f76669d81ef0022";

#[test]
fn test_gen_trie() {
    let db = Backend::new();
    let mut t = Staging { adapter: SimpleTrie::new(), db: &db };
    let mut root: [u8; 32] = Default::default();
    let mut trie = TrieDBMutBuilder::<NoExtensionLayout>::new(&mut t, &mut root).build();
    trie.insert(LONG_KEY, b"value").expect("trie insertion failed");
    let result = trie.get(LONG_KEY).expect("trie get failed");
    assert_eq!(result, Some(b"value".to_vec()));
}

#[test]
fn test_get_trie() {
    let mut store = Store::default();
    let m = Metadata {
        hash: String::from_utf8(LONG_KEY.to_vec()).unwrap(),
        data_key: "d".into(),
        program_id: "p".into(),
        alias: "a".into(),
        chain_id: "1".into(),
        token_address: "t".into(),
        token_id: "1".into(),
        version: "v".into(),
        cid: "c".into(),
        public_key: "k".into(),
        loose: 0,
    };
    store.build(Collection::Metadata, &[DecodableEnum::Metadata(m.clone()).pair().unwrap()]).unwrap();
    let result = store.lookup(Collection::Metadata, LONG_KEY).expect("key not found");
    assert_eq!(Metadata::decode(&result), Some(m));
}

#[test]
fn test_get_trie_root() {
    let store = Store::default();
    assert_eq!(store.root(Collection::Metadata), [0u8; 32]);
}

#[test]
fn test_remove_root() {
    let mut store = Store::default();
    store.build(Collection::Metadata, &[(b"k".to_vec(), b"v".to_vec())]).unwrap();
    assert!(!is_zero_root(&store.root(Collection::Metadata)));
    store.registry.remove(Collection::Metadata.name().as_bytes());
    assert_eq!(store.root(Collection::Metadata), [0u8; 32]);
}

#[test]
fn same_root_for_any_insert_order() {
    let txs = four_transactions();
    let mut a = Store::default();
    let ra = a.build(Collection::Tx, &pairs_of(&txs)).unwrap();
    let mut reversed = txs.clone();
    reversed.reverse();
    let mut b = Store::default();
    let rb = b.build(Collection::Tx, &pairs_of(&reversed)).unwrap();
    let mut c = Store::default();
    for t in [&txs[2], &txs[0], &txs[3], &txs[1]] {
        c.build(Collection::Tx, &pairs_of(&[t.clone()])).unwrap();
    }
    assert_eq!(ra, rb);
    assert_eq!(ra, c.root(Collection::Tx));
}

#[test]
fn inserting_a_pair_again_changes_nothing() {
    let txs = four_transactions();
    let mut s = Store::default();
    let r1 = s.build(Collection::Tx, &pairs_of(&txs)).unwrap();
    let before = s.backends.get("tx").cloned().unwrap();
    let r2 = s.build(Collection::Tx, &pairs_of(&txs[1..2])).unwrap();
    assert_eq!(r1, r2);
    assert_eq!(s.lookup(Collection::Tx, b"1235"), Some(txs[1].encode().unwrap()));
    assert_eq!(s.backends.get("tx").unwrap(), &before);
}

#[test]
fn later_value_replaces_earlier() {
    let mut s = Store::default();
    let v1 = tx("77", "m", "v1", 0);
    let v2 = tx("77", "m", "v2", 3);
    s.build(Collection::Tx, &pairs_of(&[v1.clone()])).unwrap();
    s.build(Collection::Tx, &pairs_of(&[v2.clone()])).unwrap();
    let all: Vec<Transaction> = s.scan(Collection::Tx, None).iter().filter_map(|v| Transaction::decode(v)).collect();
    assert_eq!(all, vec![v2.clone()]);
    let mut one = Store::default();
    one.build(Collection::Tx, &pairs_of(&[v1, v2.clone()])).unwrap();
    assert_eq!(one.scan(Collection::Tx, None), vec![v2.encode().unwrap()]);
}

#[test]
fn fresh_collection_and_empty_build() {
    let mut s = Store::default();
    assert_eq!(s.root(Collection::Cron), [0u8; 32]);
    let r = s.build(Collection::Cron, &[]).unwrap();
    assert_eq!(r, [0u8; 32]);
    assert!(s.registry.is_empty());
    assert!(s.backends.is_empty());
    assert!(s.mirrored.is_empty());
    assert!(s.scan(Collection::Cron, None).is_empty());
}

#[test]
fn prefix_scan_keeps_matching_keys() {
    let mut s = Store::default();
    let recs: Vec<MetaContract> = ["abc1", "abc2", "xyz1"]
        .iter()
        .map(|k| MetaContract { program_id: k.to_string(), public_key: "pk".into(), cid: "c".into() })
        .collect();
    let pairs: Vec<(Vec<u8>, Vec<u8>)> = recs.iter().map(|r| DecodableEnum::MetaContract(r.clone()).pair().unwrap()).collect();
    s.build(Collection::MetaContract, &pairs).unwrap();
    let first = s.scan(Collection::MetaContract, Some(b"ab"));
    let keys: Vec<String> = first.iter().filter_map(|v| MetaContract::decode(v)).map(|r| r.program_id).collect();
    assert_eq!(keys, vec!["abc1".to_string(), "abc2".to_string()]);
    assert_eq!(s.scan(Collection::MetaContract, Some(b"ab")), first);
    assert_eq!(s.scan(Collection::MetaContract, None).len(), 3);
}

#[test]
fn failed_batch_leaves_store_unchanged() {
    let mut s = Store::default();
    let r1 = s.build(Collection::Tx, &pairs_of(&four_transactions()[..2])).unwrap();
    let data = s.backends.clone();
    let mirrored = s.mirrored.len();
    s.fail_batches = true;
    assert!(s.build(Collection::Tx, &pairs_of(&four_transactions()[2..])).is_err());
    assert_eq!(s.root(Collection::Tx), r1);
    assert_eq!(s.backends, data);
    assert_eq!(s.mirrored.len(), mirrored);
    assert_eq!(s.scan(Collection::Tx, None).len(), 2);
}

#[test]
fn build_steps() {
    assert_eq!(next_step(BuildStage::Staged, BuildEvent::BatchFailed), (BuildStage::Aborted, BuildStep::Stop));
    assert_eq!(next_step(BuildStage::Aborted, BuildEvent::RootStored), (BuildStage::Aborted, BuildStep::Stop));
    assert_eq!(next_step(BuildStage::Staged, BuildEvent::BatchWritten), (BuildStage::DataCommitted, BuildStep::MirrorAndStoreRoot));
    assert_eq!(next_step(BuildStage::DataCommitted, BuildEvent::RootStored), (BuildStage::Finished, BuildStep::MirrorRoot));
    assert_eq!(next_step(BuildStage::DataCommitted, BuildEvent::RootFailed), (BuildStage::Finished, BuildStep::Stop));
    assert_eq!(next_step(BuildStage::Staged, BuildEvent::RootStored), (BuildStage::Staged, BuildStep::Stop));
}

#[test]
fn status_update_scenario() {
    let mut s = Store::default();
    let mut t = tx("1234", "method", "version", 0);
    t.data = "payload".into();
    s.build(Collection::Tx, &pairs_of(&[t.clone()])).unwrap();
    let pending = Transaction::get_pending_tx(&s.scan(Collection::Tx, None));
    assert_eq!(pending, vec![t.clone()]);

    let found = s.scan(Collection::Tx, Some(b"1234"));
    let (updated, receipt) = match Transaction::update_tx_status("1234", &found, 1, String::new(), 99) {
        StatusUpdate::Updated(u, r) => (u, r),
        other => panic!("unexpected {:?}", other),
    };
    assert_eq!(updated.status, 1);
    assert_eq!(updated.hash, "1234");
    assert_eq!(
        receipt,
        TransactionReceipt { hash: "1234".into(), program_id: "program_id2".into(), status: 1, timestamp: 99, error_text: "".into(), data: "payload".into() }
    );
    s.build(Collection::Tx, &[DecodableEnum::Transaction(updated.clone()).pair().unwrap()]).unwrap();
    s.build(Collection::Receipt, &[DecodableEnum::Receipt(receipt.clone()).pair().unwrap()]).unwrap();

    assert!(Transaction::get_pending_tx(&s.scan(Collection::Tx, None)).is_empty());
    let all: Vec<Transaction> = s.scan(Collection::Tx, None).iter().filter_map(|v| Transaction::decode(v)).collect();
    assert_eq!(all, vec![updated]);
    let receipts: Vec<TransactionReceipt> = s.scan(Collection::Receipt, None).iter().filter_map(|v| TransactionReceipt::decode(v)).collect();
    assert_eq!(receipts.len(), 1);
    assert_eq!(receipts[0].hash, "1234");
    assert_eq!(receipts[0].status, 1);
}

#[test]
fn status_update_outcomes() {
    assert!(matches!(Transaction::update_tx_status("1", &vec![], 1, String::new(), 0), StatusUpdate::NotFound));
    assert!(matches!(Transaction::update_tx_status("1", &vec![vec![0xc0]], 1, String::new(), 0), StatusUpdate::NotFound));
}

#[test]
fn status_update_needs_the_exact_key() {
    let longer = tx("12345", "m", "v", 0);
    let exact = tx("1234", "m", "v", 0);
    let only_longer = vec![longer.encode().unwrap()];
    assert!(matches!(Transaction::update_tx_status("1234", &only_longer, 1, String::new(), 0), StatusUpdate::NotFound));
    let both = vec![longer.encode().unwrap(), b"junk".to_vec(), exact.encode().unwrap()];
    match Transaction::update_tx_status("1234", &both, 2, "late".into(), 5) {
        StatusUpdate::Updated(t, r) => {
            assert_eq!(t.hash, "1234");
            assert_eq!(t.status, 2);
            assert_eq!(r.error_text, "late");
        },
        other => panic!("unexpected {:?}", other),
    }

    let mut s = Store::default();
    s.build(Collection::Tx, &pairs_of(&[longer.clone(), exact.clone()])).unwrap();
    let found = s.scan(Collection::Tx, Some(b"1234"));
    assert_eq!(found.len(), 2);
    let updated = match Transaction::update_tx_status("1234", &found, 1, String::new(), 0) {
        StatusUpdate::Updated(t, _) => t,
        other => panic!("unexpected {:?}", other),
    };
    s.build(Collection::Tx, &[DecodableEnum::Transaction(updated).pair().unwrap()]).unwrap();
    assert_eq!(s.lookup(Collection::Tx, b"12345"), Some(longer.encode().unwrap()));
    assert_eq!(Transaction::decode(&s.lookup(Collection::Tx, b"1234").unwrap()).unwrap().status, 1);
}

#[test]
fn pending_skips_other_values() {
    let raw = vec![tx("1", "m", "v", 0).encode().unwrap(), b"junk".to_vec(), tx("2", "m", "v", 2).encode().unwrap(), tx("3", "m", "v", 0).encode().unwrap()];
    let p: Vec<String> = Transaction::get_pending_tx(&raw).into_iter().map(|t| t.hash).collect();
    assert_eq!(p, vec!["1".to_string(), "3".to_string()]);
}

#[test]
fn insert_tx_records() {
    let t = tx("9", "m", "v", 0);
    let r = TransactionReceipt { hash: "9".into(), program_id: "p".into(), status: 0, timestamp: 1, error_text: "".into(), data: "".into() };
    let out = Transaction::insert_tx(TrieTransaction { transaction: t.clone(), receipt: Some(r.clone()) });
    assert_eq!(out, vec![DecodableEnum::Transaction(t.clone()), DecodableEnum::Receipt(r)]);
    let out = Transaction::insert_tx(TrieTransaction { transaction: t.clone(), receipt: None });
    assert_eq!(out, vec![DecodableEnum::Transaction(t)]);
}

fn groups(g: &[&[(&str, Option<FieldValue>)]]) -> Vec<Vec<(String, Option<FieldValue>)>> {
    g.iter().map(|grp| grp.iter().map(|(k, v)| (k.to_string(), v.clone())).collect()).collect()
}

#[test]
fn filter_needs_every_constraint() {
    let t = tx("1234", "method2", "v", 0);
    let fields = t.named_fields();
    let text = |s: &str| Some(FieldValue::Text(s.into()));
    assert!(child_filter(&fields, &groups(&[])));
    assert!(child_filter(&fields, &groups(&[&[]])));
    assert!(child_filter(&fields, &groups(&[&[("status", Some(FieldValue::Number(0)))]])));
    assert!(child_filter(&fields, &groups(&[&[("status", Some(FieldValue::Number(0))), ("method", text("method2"))]])));
    assert!(!child_filter(&fields, &groups(&[&[("status", Some(FieldValue::Number(0)))], &[("method", text("other"))]])));
    assert!(!child_filter(&fields, &groups(&[&[("status", text("0"))]])));
    assert!(!child_filter(&fields, &groups(&[&[("status", None)]])));
    assert!(child_filter(&fields, &groups(&[&[("data_key", text("data_key2"))]])));
    assert!(!child_filter(&fields, &groups(&[&[("data_key", text("other"))]])));
    assert!(!child_filter(&fields, &groups(&[&[("nonexistent", text("x"))]])));
}

#[test]
fn filter_records_decodes_and_selects() {
    let raw = vec![tx("1", "a", "v", 0).encode().unwrap(), b"junk".to_vec(), tx("2", "b", "v", 1).encode().unwrap(), tx("3", "a", "v", 1).encode().unwrap()];
    let all = filter_records(Collection::Tx, &raw, &vec![]);
    assert_eq!(all.len(), 3);
    let a1 = filter_records(Collection::Tx, &raw, &groups(&[&[("method", Some(FieldValue::Text("a".into()))), ("status", Some(FieldValue::Number(1)))]]));
    assert_eq!(a1, vec![DecodableEnum::Transaction(tx("3", "a", "v", 1))]);
    assert!(filter_records(Collection::Cron, &raw, &vec![]).is_empty());
}

#[test]
fn scan_stops_at_values_stored_apart() {
    assert_eq!(scan_values(&vec![ScanNode::NoValue, ScanNode::InlineValue(vec![1]), ScanNode::InlineValue(vec![2])]), Some(vec![vec![1], vec![2]]));
    assert_eq!(scan_values(&vec![ScanNode::InlineValue(vec![1]), ScanNode::HashedValue]), None);
}

#[test]
fn registry_root_from_stored_bytes() {
    assert_eq!(get_trie_root(Ok(None)), Ok([0u8; 32]));
    assert_eq!(get_trie_root(Err(RegistryError::Backend)), Err(RegistryError::Backend));
    assert_eq!(get_trie_root(Ok(Some(vec![7u8; 31]))), Err(RegistryError::Malformed));
    let mut v: Vec<u8> = (0..40).collect();
    let r = get_trie_root(Ok(Some(v.clone()))).unwrap();
    v.truncate(32);
    assert_eq!(r.to_vec(), v);
}

#[test]
fn scan_of_an_unbuilt_collection() {
    assert!(matches!(plan_scan(&[0u8; 32]), ScanOpening::Empty));
    assert!(matches!(plan_scan(&[3u8; 32]), ScanOpening::Open(r) if r == [3u8; 32]));
}

#[test]
fn opening_of_a_build() {
    assert!(matches!(plan_opening(&[0u8; 32], 0), TrieOpening::Skip));
    assert!(matches!(plan_opening(&[1u8; 32], 0), TrieOpening::Skip));
    assert!(matches!(plan_opening(&[0u8; 32], 2), TrieOpening::Create));
    assert!(matches!(plan_opening(&[1u8; 32], 2), TrieOpening::Open(r) if r == [1u8; 32]));
}

#[test]
fn key_derivation() {
    let h = [9u8; 32];
    let mut expected = vec![1, 2, 0x30];
    expected.extend_from_slice(&h);
    assert_eq!(prefixed_key(&h, (&[1, 2], Some(0x30))), expected);
    assert_eq!(prefixed_key(&h, (&[], None)), h.to_vec());
}

#[test]
fn keccak_of_empty_node() {
    let h = keccak_256(&[0u8]);
    assert_eq!(h, KeccakHasher::hash(&[0u8]));
    assert_eq!(hex_of(&keccak_256(b"")), "c5d2460186f7233c927e7db2dcc703c0e500b653ca82273b7bfad8045d85a470");
}

fn hex_of(b: &[u8]) -> String {
    b.iter().map(|x| format!("{:02x}", x)).collect()
}

#[test]
fn adapters_resolve_the_empty_node() {
    let null = keccak_256(&[0u8]);
    let reader = KVDatabase::new();
    assert!(matches!(reader.get(&null, (&[], None)), Lookup::Known(Some(v)) if v == vec![0u8]));
    assert!(matches!(reader.contains(&null, (&[], None)), Presence::Known(true)));
    assert!(matches!(reader.get(&[1u8; 32], (&[5], None)), Lookup::Backend(k) if k == prefixed_key(&[1u8; 32], (&[5], None))));

    let mut t = SimpleTrie::new();
    t.emplace(null, (&[], None), vec![0u8]);
    t.remove(&null, (&[], None));
    assert_eq!(t.overlay().len(), 0);
    let h = t.insert((&[3], Some(4)), b"node");
    assert_eq!(h, keccak_256(b"node"));
    let k = prefixed_key(&h, (&[3], Some(4)));
    assert!(matches!(t.get(&h, (&[3], Some(4))), Lookup::Known(Some(v)) if v == b"node".to_vec()));
    assert!(matches!(t.get(&h, (&[], None)), Lookup::Backend(b) if b == prefixed_key(&h, (&[], None))));
    t.remove(&h, (&[3], Some(4)));
    assert!(matches!(t.get(&h, (&[3], Some(4))), Lookup::Known(None)));
    assert!(matches!(t.contains(&h, (&[3], Some(4))), Presence::Known(false)));
    let overlay: Overlay = t.into_overlay();
    assert_eq!(overlay.len(), 1);
    let (key, value) = overlay.entry(0);
    assert_eq!(key, &k[..]);
    assert_eq!(value, None);
}

#[test]
fn commit_plan_follows_overlay() {
    let mut t = SimpleTrie::new();
    let h1 = t.insert((&[], None), b"one");
    let h2 = t.insert((&[], None), b"two");
    t.remove(&h1, (&[], None));
    let plan = commit_plan(Collection::Cron, t.overlay(), h2);
    assert_eq!(plan.ops.len(), 2);
    assert!(matches!(&plan.ops[0], BatchOp::Delete(k) if k == &h1.to_vec()));
    assert!(matches!(&plan.ops[1], BatchOp::Put(k, v) if k == &h2.to_vec() && v == &b"two".to_vec()));
    assert_eq!(plan.mirror[0], format!("DELETE FROM cron WHERE trie_key = '{}'", hex_of(&h1)));
    assert_eq!(plan.mirror[1], format!("INSERT OR REPLACE INTO cron (trie_key, trie_value) VALUES ('{}', '{}')", hex_of(&h2), hex_of(b"two")));
    assert_eq!(plan.root_key, b"cron".to_vec());
    assert_eq!(plan.root, h2);
    assert_eq!(plan.root_statement, format!("INSERT OR REPLACE INTO roots (root_key, root_value) VALUES ('cron', '{}')", hex_of(&h2)));
}
