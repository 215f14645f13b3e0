//! The build/commit protocol of a collection. A build opens the trie at the
//! registered root (or a new one), stages every node mutation in an overlay,
//! writes the overlay to the backend as one batch, and only then mirrors the
//! batch and stores the new root.

use vstd::prelude::*;
use vstd::utf8::*;
use crate::mirror::{delete_statement, delete_text, root_statement, root_text, upsert_statement, upsert_text};
use crate::records::{utf8_bytes, Collection};
use crate::storage::{copy_bytes, null_node_value, stages_no_empty_node, Overlay};

verus! {

/// The root registered for a collection that was never built.
pub open spec fn zero_root() -> Seq<u8> {
    Seq::new(32, |i: int| 0u8)
}

/// Why the registered root of a collection could not be had.
#[derive(Clone, Copy, Debug, PartialEq, Eq, Structural)]
pub enum RegistryError {
    /// The registry's backend failed to read.
    Backend,
    /// The registry holds less than a hash under the collection's name.
    Malformed,
}

/// The registered root, from what reading the registry's backend under the
/// collection's name gave: the all-zero root when it holds nothing, else the
/// first 32 bytes of what it holds. A failed read is an error, never the
/// all-zero root.
pub fn get_trie_root(stored: Result<Option<Vec<u8>>, RegistryError>) -> (r: Result<[u8; 32], RegistryError>)
    ensures
        stored is Err ==> r == Err::<[u8; 32], RegistryError>(RegistryError::Backend),
        stored == Ok::<Option<Vec<u8>>, RegistryError>(None) ==> (r matches Ok(a) && a@ == zero_root()),
        (stored matches Ok(Some(v)) && v@.len() >= 32) ==> (r matches Ok(a) && a@ == stored->Ok_0->Some_0@.take(32)),
        (stored matches Ok(Some(v)) && v@.len() < 32) ==> r == Err::<[u8; 32], RegistryError>(RegistryError::Malformed),
{
    let v = match stored {
        Err(_) => return Err(RegistryError::Backend),
        Ok(None) => {
            let r = [0u8; 32];
            assert(r@ =~= zero_root());
            return Ok(r);
        },
        Ok(Some(v)) => v,
    };
    if v.len() < 32 {
        return Err(RegistryError::Malformed);
    }
    let mut r = [0u8; 32];
    let mut i: usize = 0;
    while i < 32
        invariant
            v@.len() >= 32,
            i <= 32,
            r@.len() == 32,
            forall|j: int| 0 <= j < i ==> r@[j] == v@[j],
        decreases 32 - i,
    {
        r[i] = v[i];
        i = i + 1;
    }
    assert(r@ =~= v@.take(32));
    Ok(r)
}

/// Whether a root is the all-zero root.
pub fn is_zero_root(root: &[u8; 32]) -> (r: bool)
    ensures
        r == (root@ == zero_root()),
{
    let mut i: usize = 0;
    while i < 32
        invariant
            root@.len() == 32,
            i <= 32,
            forall|j: int| 0 <= j < i ==> root@[j] == 0,
        decreases 32 - i,
    {
        if root[i] != 0 {
            assert(root@[i as int] != zero_root()[i as int]);
            return false;
        }
        i = i + 1;
    }
    assert(root@ =~= zero_root());
    true
}

/// How a build starts.
#[derive(Debug)]
pub enum TrieOpening {
    /// Nothing to insert: neither the backend nor the registry changes.
    Skip,
    /// No root is registered: the inserts start from an empty trie.
    Create,
    /// The inserts graft onto the trie at this root.
    Open([u8; 32]),
}

/// Decides how a build of `pair_count` inserts starts from the registered
/// root.
pub fn plan_opening(root: &[u8; 32], pair_count: usize) -> (r: TrieOpening)
    ensures
        pair_count == 0 ==> r is Skip,
        pair_count > 0 && root@ == zero_root() ==> r is Create,
        pair_count > 0 && root@ != zero_root() ==> (r matches TrieOpening::Open(x) && x@ == root@),
{
    if pair_count == 0 {
        TrieOpening::Skip
    } else if is_zero_root(root) {
        TrieOpening::Create
    } else {
        TrieOpening::Open(*root)
    }
}

/// How a scan starts.
#[derive(Debug)]
pub enum ScanOpening {
    /// No root is registered: the collection is empty and the scan yields
    /// nothing.
    Empty,
    /// The scan walks the trie at this root.
    Open([u8; 32]),
}

/// Decides how a scan starts from the registered root.
pub fn plan_scan(root: &[u8; 32]) -> (r: ScanOpening)
    ensures
        root@ == zero_root() ==> r is Empty,
        root@ != zero_root() ==> (r matches ScanOpening::Open(x) && x@ == root@),
{
    if is_zero_root(root) {
        ScanOpening::Empty
    } else {
        ScanOpening::Open(*root)
    }
}

/// One write of the backend batch.
#[derive(Debug)]
pub enum BatchOp {
    Put(Vec<u8>, Vec<u8>),
    Delete(Vec<u8>),
}

impl View for BatchOp {
    type V = (Seq<u8>, Option<Seq<u8>>);

    open spec fn view(&self) -> (Seq<u8>, Option<Seq<u8>>) {
        match self {
            BatchOp::Put(k, v) => (k@, Some(v@)),
            BatchOp::Delete(k) => (k@, None),
        }
    }
}

/// The mirror statement of an overlay entry of a collection's table.
pub open spec fn entry_statement(table: Seq<char>, e: (Seq<u8>, Option<Seq<u8>>)) -> Seq<char> {
    match e.1 {
        Some(v) => upsert_text(table, e.0, v),
        None => delete_text(table, e.0),
    }
}

/// Everything a build commits, once the trie has been updated.
#[derive(Debug)]
pub struct CommitPlan {
    /// The backend batch: one write per overlay entry, in overlay order.
    pub ops: Vec<BatchOp>,
    /// The mirror statement of each write, in the same order.
    pub mirror: Vec<String>,
    /// The registry key of the collection.
    pub root_key: Vec<u8>,
    /// The new root.
    pub root: [u8; 32],
    /// The mirror statement of the new root.
    pub root_statement: String,
}

/// Gathers the commit of a build of collection `c` that staged `overlay` and
/// ended at `root`.
pub fn commit_plan(c: Collection, overlay: &Overlay, root: [u8; 32]) -> (r: CommitPlan)
    requires
        overlay.wf(),
    ensures
        r.ops@.map_values(|o: BatchOp| o@) == overlay.entries_view(),
        stages_no_empty_node(*overlay) ==> forall|i: int|
            0 <= i < r.ops@.len() ==> (#[trigger] r.ops@[i])@.1 != Some(null_node_value()),
        r.mirror@.len() == overlay.entries_view().len(),
        forall|i: int|
            0 <= i < r.mirror@.len() ==> #[trigger] r.mirror@[i]@ == entry_statement(
                c.spec_name(),
                overlay.entries_view()[i],
            ),
        r.root_key@ == encode_utf8(c.spec_name()),
        r.root == root,
        r.root_statement@ == root_text(c.spec_name(), root@),
{
    let name = c.name();
    let mut ops: Vec<BatchOp> = Vec::new();
    let mut mirror: Vec<String> = Vec::new();
    let mut i: usize = 0;
    while i < overlay.len()
        invariant
            i <= overlay.entries_view().len(),
            name@ == c.spec_name(),
            ops@.len() == i,
            mirror@.len() == i,
            forall|j: int| 0 <= j < i ==> (#[trigger] ops@[j])@ == overlay.entries_view()[j],
            forall|j: int|
                0 <= j < i ==> #[trigger] mirror@[j]@ == entry_statement(
                    c.spec_name(),
                    overlay.entries_view()[j],
                ),
        decreases overlay.entries_view().len() - i,
    {
        let (k, v) = overlay.entry(i);
        match v {
            Some(v) => {
                mirror.push(upsert_statement(name.as_str(), k, v));
                ops.push(BatchOp::Put(copy_bytes(k), copy_bytes(v)));
            },
            None => {
                mirror.push(delete_statement(name.as_str(), k));
                ops.push(BatchOp::Delete(copy_bytes(k)));
            },
        }
        i = i + 1;
    }
    assert(ops@.map_values(|o: BatchOp| o@) =~= overlay.entries_view());
    assert(stages_no_empty_node(*overlay) ==> forall|j: int|
        0 <= j < ops@.len() ==> (#[trigger] ops@[j])@.1 != Some(null_node_value())) by {
        if stages_no_empty_node(*overlay) {
            assert forall|j: int| 0 <= j < ops@.len() implies (#[trigger] ops@[j])@.1 != Some(null_node_value()) by {
                assert(ops@[j]@ == overlay.entries_view()[j]);
            }
        }
    }
    let root_statement = root_statement(name.as_str(), root.as_slice());
    CommitPlan { ops, mirror, root_key: utf8_bytes(&name), root, root_statement }
}

/// Where a build stands once its trie has been updated.
#[derive(Clone, Copy, Debug, PartialEq, Eq, Structural)]
pub enum BuildStage {
    /// The batch is staged and not yet written.
    Staged,
    /// The batch is in the backend; the root is not yet stored.
    DataCommitted,
    /// The build is over.
    Finished,
    /// The batch could not be written: nothing of the build is stored.
    Aborted,
}

/// What the backend reported.
#[derive(Clone, Copy, Debug, PartialEq, Eq, Structural)]
pub enum BuildEvent {
    BatchWritten,
    BatchFailed,
    RootStored,
    RootFailed,
}

/// What the build does next.
#[derive(Clone, Copy, Debug, PartialEq, Eq, Structural)]
pub enum BuildStep {
    /// Send the batch's mirror statements, then store the new root.
    MirrorAndStoreRoot,
    /// Send the root's mirror statement.
    MirrorRoot,
    /// Do nothing more.
    Stop,
}

pub open spec fn spec_next(stage: BuildStage, event: BuildEvent) -> (BuildStage, BuildStep) {
    match (stage, event) {
        (BuildStage::Staged, BuildEvent::BatchWritten) => (BuildStage::DataCommitted, BuildStep::MirrorAndStoreRoot),
        (BuildStage::Staged, BuildEvent::BatchFailed) => (BuildStage::Aborted, BuildStep::Stop),
        (BuildStage::DataCommitted, BuildEvent::RootStored) => (BuildStage::Finished, BuildStep::MirrorRoot),
        (BuildStage::DataCommitted, BuildEvent::RootFailed) => (BuildStage::Finished, BuildStep::Stop),
        _ => (stage, BuildStep::Stop),
    }
}

/// The next stage and step of a build after `event`.
pub fn next_step(stage: BuildStage, event: BuildEvent) -> (r: (BuildStage, BuildStep))
    ensures
        r == spec_next(stage, event),
{
    match (stage, event) {
        (BuildStage::Staged, BuildEvent::BatchWritten) => (BuildStage::DataCommitted, BuildStep::MirrorAndStoreRoot),
        (BuildStage::Staged, BuildEvent::BatchFailed) => (BuildStage::Aborted, BuildStep::Stop),
        (BuildStage::DataCommitted, BuildEvent::RootStored) => (BuildStage::Finished, BuildStep::MirrorRoot),
        (BuildStage::DataCommitted, BuildEvent::RootFailed) => (BuildStage::Finished, BuildStep::Stop),
        _ => (stage, BuildStep::Stop),
    }
}

/// The steps that a run of events yields from `stage` on.
pub open spec fn run(stage: BuildStage, events: Seq<BuildEvent>) -> Seq<BuildStep>
    decreases events.len(),
{
    if events.len() == 0 {
        Seq::empty()
    } else {
        let (s, step) = spec_next(stage, events[0]);
        seq![step] + run(s, events.drop_first())
    }
}

/// Once a batch write has failed, whatever the backend reports later, the
/// build neither stores a root nor mirrors anything.
pub proof fn lemma_failed_batch_stores_nothing(events: Seq<BuildEvent>)
    ensures
        forall|i: int|
            0 <= i < run(BuildStage::Staged, seq![BuildEvent::BatchFailed] + events).len() ==> #[trigger] run(
                BuildStage::Staged,
                seq![BuildEvent::BatchFailed] + events,
            )[i] == BuildStep::Stop,
{
    let all = seq![BuildEvent::BatchFailed] + events;
    assert(all.drop_first() == events);
    lemma_aborted_stays(events);
}

proof fn lemma_aborted_stays(events: Seq<BuildEvent>)
    ensures
        forall|i: int| 0 <= i < run(BuildStage::Aborted, events).len() ==> #[trigger] run(BuildStage::Aborted, events)[i] == BuildStep::Stop,
        run(BuildStage::Aborted, events).len() == events.len(),
    decreases events.len(),
{
    if events.len() > 0 {
        lemma_aborted_stays(events.drop_first());
    }
}

/// The root is stored only right after the batch was written.
pub proof fn lemma_root_follows_batch(stage: BuildStage, event: BuildEvent)
    ensures
        spec_next(stage, event).1 == BuildStep::MirrorAndStoreRoot ==> stage == BuildStage::Staged
            && event == BuildEvent::BatchWritten,
{
}

} // verus!
