//! Scans over a trie's values and the filter that selects decoded records.

use vstd::prelude::*;
use crate::codec::{decoding, FieldModel, FieldValue};
use crate::records::{lemma_named_fields, named, Collection, DecodableEnum};
use crate::storage::copy_bytes;

verus! {

/// A node met while iterating a trie, as far as a scan is concerned.
#[derive(Debug)]
pub enum ScanNode {
    /// A leaf, or a branch, that holds its value inline.
    InlineValue(Vec<u8>),
    /// A node whose value is stored apart, under its hash.
    HashedValue,
    /// A node without a value.
    NoValue,
}

/// The inline values of `nodes`, in order.
pub open spec fn node_values(nodes: Seq<ScanNode>) -> Seq<Seq<u8>>
    decreases nodes.len(),
{
    if nodes.len() == 0 {
        Seq::empty()
    } else {
        let rest = node_values(nodes.drop_last());
        match nodes.last() {
            ScanNode::InlineValue(v) => rest.push(v@),
            _ => rest,
        }
    }
}

pub open spec fn has_hashed_value(nodes: Seq<ScanNode>) -> bool {
    exists|i: int| 0 <= i < nodes.len() && nodes[i] is HashedValue
}

pub open spec fn byte_strings(v: Seq<Vec<u8>>) -> Seq<Seq<u8>> {
    v.map_values(|b: Vec<u8>| b@)
}

/// The raw values of a scan, in the order met; `None` when a value stored
/// apart is met, which scans do not follow.
pub fn scan_values(nodes: &Vec<ScanNode>) -> (r: Option<Vec<Vec<u8>>>)
    ensures
        r is None <==> has_hashed_value(nodes@),
        r matches Some(v) ==> byte_strings(v@) == node_values(nodes@),
{
    let mut out: Vec<Vec<u8>> = Vec::new();
    let mut i: usize = 0;
    while i < nodes.len()
        invariant
            i <= nodes@.len(),
            byte_strings(out@) == node_values(nodes@.take(i as int)),
            forall|j: int| 0 <= j < i ==> !(nodes@[j] is HashedValue),
        decreases nodes@.len() - i,
    {
        proof {
            assert(nodes@.take(i + 1).drop_last() == nodes@.take(i as int));
        }
        match &nodes[i] {
            ScanNode::InlineValue(v) => {
                out.push(copy_bytes(v.as_slice()));
                assert(byte_strings(out@) =~= node_values(nodes@.take(i as int)).push(v@));
            },
            ScanNode::HashedValue => {
                return None;
            },
            ScanNode::NoValue => {},
        }
        i = i + 1;
    }
    assert(nodes@.take(i as int) == nodes@);
    Some(out)
}

/// A constraint of a filter: a field name and the value wanted there;
/// `None` for a wanted value of a kind that no field holds.
pub open spec fn constraint_view(c: (String, Option<FieldValue>)) -> (Seq<char>, Option<FieldModel>) {
    (c.0@, match c.1 {
        Some(f) => Some(f@),
        None => None,
    })
}

pub open spec fn groups_view(g: Seq<Vec<(String, Option<FieldValue>)>>) -> Seq<Seq<(Seq<char>, Option<FieldModel>)>> {
    g.map_values(|v: Vec<(String, Option<FieldValue>)>| v@.map_values(|c: (String, Option<FieldValue>)| constraint_view(c)))
}

/// A record with named fields `fields` meets constraint `c`.
pub open spec fn meets(fields: Seq<(Seq<char>, FieldModel)>, c: (Seq<char>, Option<FieldModel>)) -> bool {
    match c.1 {
        Some(w) => exists|i: int| 0 <= i < fields.len() && fields[i].0 == c.0 && fields[i].1 == w,
        None => false,
    }
}

/// A record passes a filter when it meets every constraint of every group.
pub open spec fn passes(fields: Seq<(Seq<char>, FieldModel)>, groups: Seq<Seq<(Seq<char>, Option<FieldModel>)>>) -> bool {
    forall|g: int, j: int| 0 <= g < groups.len() && 0 <= j < groups[g].len() ==> meets(fields, #[trigger] groups[g][j])
}

/// Whether two field values are equal.
pub fn same_value(a: &FieldValue, b: &FieldValue) -> (r: bool)
    ensures
        r == (a@ == b@),
{
    match (a, b) {
        (FieldValue::Text(x), FieldValue::Text(y)) => *x == *y,
        (FieldValue::Number(x), FieldValue::Number(y)) => *x == *y,
        _ => false,
    }
}

fn meets_exec(fields: &Vec<(String, FieldValue)>, c: &(String, Option<FieldValue>)) -> (r: bool)
    ensures
        r == meets(named(fields@), constraint_view(*c)),
{
    let want = match &c.1 {
        Some(w) => w,
        None => return false,
    };
    let ghost nf = named(fields@);
    let mut i: usize = 0;
    while i < fields.len()
        invariant
            i <= fields@.len(),
            nf == named(fields@),
            c.1 == Some(*want),
            forall|j: int| 0 <= j < i ==> !(nf[j].0 == c.0@ && nf[j].1 == want@),
        decreases fields@.len() - i,
    {
        if fields[i].0 == c.0 && same_value(&fields[i].1, want) {
            assert(nf[i as int].0 == c.0@ && nf[i as int].1 == want@);
            return true;
        }
        i = i + 1;
    }
    false
}

/// Whether a record with named fields `fields` passes the constraint
/// groups: no group, or only empty ones, lets every record pass.
pub fn child_filter(fields: &Vec<(String, FieldValue)>, groups: &Vec<Vec<(String, Option<FieldValue>)>>) -> (r: bool)
    ensures
        r == passes(named(fields@), groups_view(groups@)),
{
    let ghost gv = groups_view(groups@);
    let mut g: usize = 0;
    while g < groups.len()
        invariant
            g <= groups@.len(),
            gv == groups_view(groups@),
            forall|a: int, j: int| 0 <= a < g && 0 <= j < gv[a].len() ==> meets(named(fields@), #[trigger] gv[a][j]),
        decreases groups@.len() - g,
    {
        let group = &groups[g];
        let mut j: usize = 0;
        while j < group.len()
            invariant
                g < groups@.len(),
                j <= group@.len(),
                *group == groups@[g as int],
                gv == groups_view(groups@),
                forall|a: int, k: int| 0 <= a < g && 0 <= k < gv[a].len() ==> meets(named(fields@), #[trigger] gv[a][k]),
                forall|k: int| 0 <= k < j ==> meets(named(fields@), #[trigger] gv[g as int][k]),
            decreases group@.len() - j,
        {
            if !meets_exec(fields, &group[j]) {
                assert(!meets(named(fields@), gv[g as int][j as int]));
                return false;
            }
            j = j + 1;
        }
        g = g + 1;
    }
    true
}

/// The field lists of the records of collection `c` that decode from `raw`
/// and pass the filter, in order.
pub open spec fn selected(c: Collection, raw: Seq<Seq<u8>>, groups: Seq<Seq<(Seq<char>, Option<FieldModel>)>>) -> Seq<Seq<FieldModel>>
    decreases raw.len(),
{
    if raw.len() == 0 {
        Seq::empty()
    } else {
        let rest = selected(c, raw.drop_last(), groups);
        match decoding(raw.last(), c.shape()) {
            Some(m) => if passes(c.named_of(m), groups) {
                rest.push(m)
            } else {
                rest
            },
            None => rest,
        }
    }
}

pub open spec fn record_views(v: Seq<DecodableEnum>) -> Seq<Seq<FieldModel>> {
    v.map_values(|r: DecodableEnum| r@)
}

/// Decodes the raw values of a scan of collection `c` and keeps the records
/// that pass the filter; values that do not decode are passed over.
pub fn filter_records(c: Collection, raw: &Vec<Vec<u8>>, groups: &Vec<Vec<(String, Option<FieldValue>)>>) -> (r: Vec<DecodableEnum>)
    ensures
        record_views(r@) == selected(c, byte_strings(raw@), groups_view(groups@)),
        forall|i: int| 0 <= i < r@.len() ==> (#[trigger] r@[i]).collection() == c,
{
    let ghost rv = byte_strings(raw@);
    let mut out: Vec<DecodableEnum> = Vec::new();
    let mut i: usize = 0;
    while i < raw.len()
        invariant
            i <= raw@.len(),
            rv == byte_strings(raw@),
            record_views(out@) == selected(c, rv.take(i as int), groups_view(groups@)),
            forall|k: int| 0 <= k < out@.len() ==> (#[trigger] out@[k]).collection() == c,
        decreases raw@.len() - i,
    {
        proof {
            assert(rv.take(i + 1).drop_last() == rv.take(i as int));
            assert(rv.take(i + 1).last() == raw@[i as int]@);
        }
        match DecodableEnum::decode(c, raw[i].as_slice()) {
            Some(rec) => {
                let fields = rec.named_fields();
                proof { lemma_named_fields(rec); }
                if child_filter(&fields, groups) {
                    out.push(rec);
                    assert(record_views(out@) =~= selected(c, rv.take(i as int), groups_view(groups@)).push(rec@));
                }
            },
            None => {},
        }
        i = i + 1;
    }
    assert(rv.take(i as int) == rv);
    out
}

} // verus!
