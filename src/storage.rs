//! The storage adapter that lets a key-value backend serve as a trie's node
//! store. Nodes are stored under `prefix ++ [terminator] ++ hash`; the empty
//! node is never stored: its hash always resolves to its one-byte value. The
//! staging adapter records every mutation in an overlay that shadows the
//! backend; the read adapter has no mutation at all.

use vstd::prelude::*;
use crate::hashing::{keccak_of, KeccakHasher};

verus! {

/// The one-byte value of the empty node.
pub open spec fn null_node_value() -> Seq<u8> {
    seq![0u8]
}

/// The hash of the empty node.
pub open spec fn null_node_hash() -> Seq<u8> {
    keccak_of(null_node_value())
}

/// The backend key of the node with hash `hash` under a structural prefix.
pub open spec fn prefixed(hash: Seq<u8>, head: Seq<u8>, last: Option<u8>) -> Seq<u8> {
    match last {
        Some(t) => head.push(t) + hash,
        None => head + hash,
    }
}

/// Derives the backend key of a node from its hash and its structural prefix.
pub fn prefixed_key(key: &[u8; 32], prefix: (&[u8], Option<u8>)) -> (r: Vec<u8>)
    ensures
        r@ == prefixed(key@, prefix.0@, prefix.1),
{
    let mut r: Vec<u8> = Vec::new();
    r.extend_from_slice(prefix.0);
    if let Some(last) = prefix.1 {
        r.push(last);
    }
    r.extend_from_slice(key.as_slice());
    r
}

/// A copy of some bytes.
pub fn copy_bytes(b: &[u8]) -> (r: Vec<u8>)
    ensures
        r@ == b@,
{
    let mut r: Vec<u8> = Vec::new();
    r.extend_from_slice(b);
    r
}

/// Whether two byte strings are equal.
pub fn bytes_eq(a: &[u8], b: &[u8]) -> (r: bool)
    ensures
        r == (a@ == b@),
{
    if a.len() != b.len() {
        return false;
    }
    let mut i: usize = 0;
    while i < a.len()
        invariant
            a@.len() == b@.len(),
            i <= a@.len(),
            a@.take(i as int) == b@.take(i as int),
        decreases a@.len() - i,
    {
        if a[i] != b[i] {
            assert(a@[i as int] != b@[i as int]);
            return false;
        }
        assert(a@.take(i + 1) == a@.take(i as int).push(a@[i as int]));
        assert(b@.take(i + 1) == b@.take(i as int).push(b@[i as int]));
        i = i + 1;
    }
    assert(a@ == a@.take(i as int));
    assert(b@ == b@.take(i as int));
    true
}

/// Staged writes of one build: for each backend key, the value to put, or
/// `None` for a deletion. Entries keep the order in which keys first came.
pub struct Overlay {
    entries: Vec<(Vec<u8>, Option<Vec<u8>>)>,
}

/// The bytes that an optional value holds.
pub open spec fn opt_bytes(o: Option<Vec<u8>>) -> Option<Seq<u8>> {
    match o {
        Some(v) => Some(v@),
        None => None,
    }
}

pub open spec fn entry_view(e: (Vec<u8>, Option<Vec<u8>>)) -> (Seq<u8>, Option<Seq<u8>>) {
    (e.0@, opt_bytes(e.1))
}

impl Overlay {
    /// The entries, in order.
    pub closed spec fn entries_view(&self) -> Seq<(Seq<u8>, Option<Seq<u8>>)> {
        self.entries@.map_values(|e: (Vec<u8>, Option<Vec<u8>>)| entry_view(e))
    }

    /// No key stands in two entries.
    pub open spec fn wf(&self) -> bool {
        forall|i: int, j: int|
            0 <= i < j < self.entries_view().len() ==> #[trigger] self.entries_view()[i].0
                != #[trigger] self.entries_view()[j].0
    }

    /// What the overlay holds for each key.
    pub open spec fn view(&self) -> Map<Seq<u8>, Option<Seq<u8>>> {
        Map::new(
            |k: Seq<u8>| exists|i: int| 0 <= i < self.entries_view().len() && self.entries_view()[i].0 == k,
            |k: Seq<u8>|
                self.entries_view()[choose|i: int|
                    0 <= i < self.entries_view().len() && self.entries_view()[i].0 == k].1,
        )
    }

    pub fn new() -> (r: Overlay)
        ensures
            r.wf(),
            r.entries_view().len() == 0,
            r.view() == Map::<Seq<u8>, Option<Seq<u8>>>::empty(),
    {
        let r = Overlay { entries: Vec::new() };
        assert(r.view() =~= Map::<Seq<u8>, Option<Seq<u8>>>::empty());
        r
    }

    pub fn len(&self) -> (r: usize)
        ensures
            r == self.entries_view().len(),
    {
        self.entries.len()
    }

    /// The entry at `i`.
    pub fn entry(&self, i: usize) -> (r: (&[u8], Option<&[u8]>))
        requires
            i < self.entries_view().len(),
        ensures
            r.0@ == self.entries_view()[i as int].0,
            match r.1 {
                Some(v) => self.entries_view()[i as int].1 == Some(v@),
                None => self.entries_view()[i as int].1 is None,
            },
    {
        let e = &self.entries[i];
        let v = match &e.1 {
            Some(v) => Some(v.as_slice()),
            None => None,
        };
        (e.0.as_slice(), v)
    }

    /// The index of the entry for `key`, if there is one.
    fn find(&self, key: &[u8]) -> (r: Option<usize>)
        ensures
            match r {
                Some(i) => i < self.entries_view().len() && self.entries_view()[i as int].0 == key@,
                None => forall|i: int| 0 <= i < self.entries_view().len() ==> self.entries_view()[i].0 != key@,
            },
    {
        let mut i: usize = 0;
        while i < self.entries.len()
            invariant
                i <= self.entries_view().len(),
                self.entries_view().len() == self.entries@.len(),
                forall|j: int| 0 <= j < i ==> self.entries_view()[j].0 != key@,
            decreases self.entries@.len() - i,
        {
            if bytes_eq(self.entries[i].0.as_slice(), key) {
                return Some(i);
            }
            i = i + 1;
        }
        None
    }

    /// What the overlay holds for `key`: `None` when it holds nothing.
    pub fn get(&self, key: &[u8]) -> (r: Option<Option<Vec<u8>>>)
        requires
            self.wf(),
        ensures
            match r {
                Some(v) => self.view().contains_key(key@) && self.view()[key@] == opt_bytes(v),
                None => !self.view().contains_key(key@),
            },
    {
        match self.find(key) {
            Some(i) => {
                proof {
                    let c = choose|j: int| 0 <= j < self.entries_view().len() && self.entries_view()[j].0 == key@;
                    assert(c == i as int);
                }
                match &self.entries[i].1 {
                    Some(v) => Some(Some(copy_bytes(v.as_slice()))),
                    None => Some(None),
                }
            },
            None => None,
        }
    }

    /// Records `value` for `key`, in place of what was there.
    pub fn set(&mut self, key: Vec<u8>, value: Option<Vec<u8>>)
        requires
            old(self).wf(),
        ensures
            final(self).wf(),
            final(self).view() == old(self).view().insert(key@, opt_bytes(value)),
            forall|i: int|
                0 <= i < final(self).entries_view().len() ==> #[trigger] final(self).entries_view()[i]
                    == (key@, opt_bytes(value)) || exists|j: int|
                    0 <= j < old(self).entries_view().len() && final(self).entries_view()[i]
                        == old(self).entries_view()[j],
    {
        let ghost k = key@;
        let ghost v = opt_bytes(value);
        let ghost before = self.entries_view();
        match self.find(key.as_slice()) {
            Some(i) => {
                self.entries.set(i, (key, value));
                proof {
                    assert(self.entries_view() == before.update(i as int, (k, v)));
                    assert forall|a: int| 0 <= a < self.entries_view().len() && a != i implies #[trigger] self.entries_view()[a] == before[a] by {}
                    assert forall|j: int| 0 <= j < before.len() && j != i implies before[j].0 != k by {
                        if j < i {
                            assert(before[j].0 != before[i as int].0);
                        } else {
                            assert(before[i as int].0 != before[j].0);
                        }
                    }
                    assert(self.view() =~= old(self).view().insert(k, v)) by {
                        assert forall|kk: Seq<u8>| #[trigger] self.view().contains_key(kk) implies self.view()[kk] == old(self).view().insert(k, v)[kk] by {
                            let c = choose|j: int| 0 <= j < self.entries_view().len() && self.entries_view()[j].0 == kk;
                            if kk == k {
                                assert(c == i as int);
                            } else {
                                let c0 = choose|j: int| 0 <= j < before.len() && before[j].0 == kk;
                                assert(before[c].0 == kk);
                                assert(c0 == c);
                            }
                        }
                        assert forall|kk: Seq<u8>| #[trigger] old(self).view().insert(k, v).contains_key(kk) implies self.view().contains_key(kk) by {
                            if kk != k {
                                let c0 = choose|j: int| 0 <= j < before.len() && before[j].0 == kk;
                                assert(self.entries_view()[c0].0 == kk);
                            } else {
                                assert(self.entries_view()[i as int].0 == kk);
                            }
                        }
                    }
                }
            },
            None => {
                self.entries.push((key, value));
                proof {
                    assert(self.entries_view() == before.push((k, v)));
                    assert forall|a: int| 0 <= a < before.len() implies #[trigger] self.entries_view()[a] == before[a] by {}
                    assert(self.view() =~= old(self).view().insert(k, v)) by {
                        assert forall|kk: Seq<u8>| #[trigger] self.view().contains_key(kk) implies self.view()[kk] == old(self).view().insert(k, v)[kk] by {
                            let c = choose|j: int| 0 <= j < self.entries_view().len() && self.entries_view()[j].0 == kk;
                            if kk == k {
                                assert(c == before.len());
                            } else {
                                let c0 = choose|j: int| 0 <= j < before.len() && before[j].0 == kk;
                                assert(before[c].0 == kk);
                                assert(c0 == c);
                            }
                        }
                        assert forall|kk: Seq<u8>| #[trigger] old(self).view().insert(k, v).contains_key(kk) implies self.view().contains_key(kk) by {
                            if kk != k {
                                let c0 = choose|j: int| 0 <= j < before.len() && before[j].0 == kk;
                                assert(self.entries_view()[c0].0 == kk);
                            } else {
                                assert(self.entries_view()[before.len() as int].0 == kk);
                            }
                        }
                    }
                }
            },
        }
    }
}

/// What a node lookup resolves to: a value known without the backend, or
/// the backend key to read it under.
#[derive(Debug)]
pub enum Lookup {
    Known(Option<Vec<u8>>),
    Backend(Vec<u8>),
}

/// Whether a node is present: known without the backend, or to be asked of
/// it under a key.
#[derive(Debug)]
pub enum Presence {
    Known(bool),
    Backend(Vec<u8>),
}

/// The read adapter: resolves nodes of a committed trie. It has no
/// mutation: the trie it serves is only read.
pub struct KVDatabase {
    hashed_null_node: [u8; 32],
    null_node_data: Vec<u8>,
}

/// The empty node's hash and value.
fn null_node() -> (r: ([u8; 32], Vec<u8>))
    ensures
        r.0@ == null_node_hash(),
        r.1@ == null_node_value(),
{
    let data: Vec<u8> = vec![0u8];
    assert(data@ =~= null_node_value());
    let hash = KeccakHasher::hash(data.as_slice());
    (hash, data)
}

impl KVDatabase {
    pub closed spec fn wf(&self) -> bool {
        &&& self.hashed_null_node@ == null_node_hash()
        &&& self.null_node_data@ == null_node_value()
    }

    pub fn new() -> (r: KVDatabase)
        ensures
            r.wf(),
    {
        let (hashed_null_node, null_node_data) = null_node();
        KVDatabase { hashed_null_node, null_node_data }
    }

    /// Resolves the node with hash `key` under `prefix`.
    pub fn get(&self, key: &[u8; 32], prefix: (&[u8], Option<u8>)) -> (r: Lookup)
        requires
            self.wf(),
        ensures
            key@ == null_node_hash() ==> (r matches Lookup::Known(Some(v)) && v@ == null_node_value()),
            key@ != null_node_hash() ==> (r matches Lookup::Backend(k) && k@ == prefixed(key@, prefix.0@, prefix.1)),
    {
        if bytes_eq(key.as_slice(), self.hashed_null_node.as_slice()) {
            return Lookup::Known(Some(copy_bytes(self.null_node_data.as_slice())));
        }
        Lookup::Backend(prefixed_key(key, prefix))
    }

    /// Whether the node with hash `key` under `prefix` is present.
    pub fn contains(&self, key: &[u8; 32], prefix: (&[u8], Option<u8>)) -> (r: Presence)
        requires
            self.wf(),
        ensures
            key@ == null_node_hash() ==> r == Presence::Known(true),
            key@ != null_node_hash() ==> (r matches Presence::Backend(k) && k@ == prefixed(key@, prefix.0@, prefix.1)),
    {
        if bytes_eq(key.as_slice(), self.hashed_null_node.as_slice()) {
            return Presence::Known(true);
        }
        Presence::Backend(prefixed_key(key, prefix))
    }
}

/// The staging adapter of a build: reads see the overlay before the backend,
/// and every mutation lands in the overlay.
pub struct SimpleTrie {
    overlay: Overlay,
    hashed_null_node: [u8; 32],
    null_node_data: Vec<u8>,
}

/// No entry of `o` stages the empty node's value.
pub open spec fn stages_no_empty_node(o: Overlay) -> bool {
    forall|i: int| 0 <= i < o.entries_view().len() ==> #[trigger] o.entries_view()[i].1 != Some(null_node_value())
}

impl SimpleTrie {
    pub closed spec fn wf(&self) -> bool {
        &&& self.overlay.wf()
        &&& stages_no_empty_node(self.overlay)
        &&& self.hashed_null_node@ == null_node_hash()
        &&& self.null_node_data@ == null_node_value()
    }

    /// The staged writes.
    pub closed spec fn spec_overlay(&self) -> Overlay {
        self.overlay
    }

    /// A staging adapter with an empty overlay.
    pub fn new() -> (r: SimpleTrie)
        ensures
            r.wf(),
            r.spec_overlay().wf(),
            r.spec_overlay().view() == Map::<Seq<u8>, Option<Seq<u8>>>::empty(),
            r.spec_overlay().entries_view().len() == 0,
    {
        let (hashed_null_node, null_node_data) = null_node();
        SimpleTrie { overlay: Overlay::new(), hashed_null_node, null_node_data }
    }

    pub fn overlay(&self) -> (r: &Overlay)
        ensures
            *r == self.spec_overlay(),
            self.wf() ==> r.wf() && stages_no_empty_node(*r),
    {
        &self.overlay
    }

    pub fn into_overlay(self) -> (r: Overlay)
        ensures
            r == self.spec_overlay(),
            self.wf() ==> r.wf() && stages_no_empty_node(r),
    {
        self.overlay
    }

    /// Resolves the node with hash `key` under `prefix`: the empty node, then
    /// the overlay, then the backend.
    pub fn get(&self, key: &[u8; 32], prefix: (&[u8], Option<u8>)) -> (r: Lookup)
        requires
            self.wf(),
        ensures
            key@ == null_node_hash() ==> (r matches Lookup::Known(Some(v)) && v@ == null_node_value()),
            key@ != null_node_hash() ==> ({
                let k = prefixed(key@, prefix.0@, prefix.1);
                if self.spec_overlay().view().contains_key(k) {
                    r matches Lookup::Known(o) && opt_bytes(o) == self.spec_overlay().view()[k]
                } else {
                    r matches Lookup::Backend(b) && b@ == k
                }
            }),
    {
        if bytes_eq(key.as_slice(), self.hashed_null_node.as_slice()) {
            return Lookup::Known(Some(copy_bytes(self.null_node_data.as_slice())));
        }
        let k = prefixed_key(key, prefix);
        match self.overlay.get(k.as_slice()) {
            Some(v) => Lookup::Known(v),
            None => Lookup::Backend(k),
        }
    }

    /// Whether the node with hash `key` under `prefix` is present: a
    /// deletion in the overlay hides what the backend holds.
    pub fn contains(&self, key: &[u8; 32], prefix: (&[u8], Option<u8>)) -> (r: Presence)
        requires
            self.wf(),
        ensures
            key@ == null_node_hash() ==> r == Presence::Known(true),
            key@ != null_node_hash() ==> ({
                let k = prefixed(key@, prefix.0@, prefix.1);
                if self.spec_overlay().view().contains_key(k) {
                    r == Presence::Known(self.spec_overlay().view()[k] is Some)
                } else {
                    r matches Presence::Backend(b) && b@ == k
                }
            }),
    {
        if bytes_eq(key.as_slice(), self.hashed_null_node.as_slice()) {
            return Presence::Known(true);
        }
        let k = prefixed_key(key, prefix);
        match self.overlay.get(k.as_slice()) {
            Some(v) => Presence::Known(v.is_some()),
            None => Presence::Backend(k),
        }
    }

    /// Stages `value` under its hash and `prefix`, and returns the hash.
    pub fn insert(&mut self, prefix: (&[u8], Option<u8>), value: &[u8]) -> (r: [u8; 32])
        requires
            old(self).wf(),
        ensures
            final(self).wf(),
            r@ == keccak_of(value@),
            final(self).spec_overlay().view() == if value@ == null_node_value() {
                old(self).spec_overlay().view()
            } else {
                old(self).spec_overlay().view().insert(prefixed(r@, prefix.0@, prefix.1), Some(value@))
            },
    {
        let key = KeccakHasher::hash(value);
        self.emplace(key, prefix, copy_bytes(value));
        key
    }

    /// Stages `value` under hash `key` and `prefix`; the empty node's value
    /// is never staged.
    pub fn emplace(&mut self, key: [u8; 32], prefix: (&[u8], Option<u8>), value: Vec<u8>)
        requires
            old(self).wf(),
        ensures
            final(self).wf(),
            final(self).spec_overlay().view() == if value@ == null_node_value() {
                old(self).spec_overlay().view()
            } else {
                old(self).spec_overlay().view().insert(prefixed(key@, prefix.0@, prefix.1), Some(value@))
            },
    {
        if bytes_eq(value.as_slice(), self.null_node_data.as_slice()) {
            return;
        }
        let k = prefixed_key(&key, prefix);
        self.overlay.set(k, Some(value));
    }

    /// Stages the deletion of the node with hash `key` under `prefix`; the
    /// empty node is never deleted.
    pub fn remove(&mut self, key: &[u8; 32], prefix: (&[u8], Option<u8>))
        requires
            old(self).wf(),
        ensures
            final(self).wf(),
            final(self).spec_overlay().view() == if key@ == null_node_hash() {
                old(self).spec_overlay().view()
            } else {
                old(self).spec_overlay().view().insert(prefixed(key@, prefix.0@, prefix.1), None)
            },
    {
        if bytes_eq(key.as_slice(), self.hashed_null_node.as_slice()) {
            return;
        }
        let k = prefixed_key(key, prefix);
        self.overlay.set(k, None);
    }
}

} // verus!
