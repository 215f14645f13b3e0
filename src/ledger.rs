//! The transaction operations: listing pending transactions, updating a
//! transaction's status with its receipt, and the inserts of a submitted
//! transaction.

use vstd::prelude::*;
use crate::codec::{decoding, FieldModel};
use crate::query::byte_strings;
use crate::records::{DecodableEnum, Transaction, TransactionReceipt, TrieTransaction};

verus! {

/// The outcome of a command: whether it succeeded, and its payload or
/// message.
#[derive(Debug, Clone, PartialEq, Eq)]
pub struct TrieResult {
    pub success: bool,
    pub result: Option<String>,
}

/// Where a transaction stores its status.
pub open spec fn status_index() -> int {
    13
}

/// The field lists of the pending transactions (status zero) among raw
/// values, in order; values that do not decode are passed over.
pub open spec fn pending(raw: Seq<Seq<u8>>) -> Seq<Seq<FieldModel>>
    decreases raw.len(),
{
    if raw.len() == 0 {
        Seq::empty()
    } else {
        let rest = pending(raw.drop_last());
        match decoding(raw.last(), Transaction::spec_shape()) {
            Some(m) => if m[status_index()] == FieldModel::Number(0) {
                rest.push(m)
            } else {
                rest
            },
            None => rest,
        }
    }
}

/// `b` decodes to a transaction whose hash is `key`.
pub open spec fn holds_key(b: Seq<u8>, key: Seq<char>) -> bool {
    decoding(b, Transaction::spec_shape()) matches Some(m) && m[0] == FieldModel::Text(key)
}

/// What a status update comes to.
#[derive(Debug)]
pub enum StatusUpdate {
    /// No value found decodes to a transaction with the key as its hash.
    NotFound,
    /// The transaction with its new status, and its receipt.
    Updated(Transaction, TransactionReceipt),
}

impl Transaction {
    /// The pending transactions among the raw values of a scan.
    pub fn get_pending_tx(raw: &Vec<Vec<u8>>) -> (r: Vec<Transaction>)
        ensures
            r@.map_values(|t: Transaction| t@) == pending(byte_strings(raw@)),
    {
        let ghost rv = byte_strings(raw@);
        let mut out: Vec<Transaction> = Vec::new();
        let mut i: usize = 0;
        while i < raw.len()
            invariant
                i <= raw@.len(),
                rv == byte_strings(raw@),
                out@.map_values(|t: Transaction| t@) == pending(rv.take(i as int)),
            decreases raw@.len() - i,
        {
            proof {
                assert(rv.take(i + 1).drop_last() == rv.take(i as int));
                assert(rv.take(i + 1).last() == raw@[i as int]@);
            }
            match Transaction::decode(raw[i].as_slice()) {
                Some(tx) => {
                    if tx.status == 0 {
                        out.push(tx);
                        assert(out@.map_values(|t: Transaction| t@) =~= pending(rv.take(i as int)).push(tx@));
                    }
                },
                None => {},
            }
            i = i + 1;
        }
        assert(rv.take(i as int) == rv);
        out
    }

    /// Updates the status of the transaction whose hash is `key`, the first
    /// such among the values that a scan under the key found, and makes its
    /// receipt, stamped with `timestamp` (milliseconds). Values whose hash
    /// only starts with the key are passed over.
    pub fn update_tx_status(key: &str, found: &Vec<Vec<u8>>, status: u64, error_text: String, timestamp: u64) -> (r: StatusUpdate)
        ensures
            r is NotFound <==> forall|i: int| 0 <= i < found@.len() ==> !holds_key(#[trigger] found@[i]@, key@),
            r matches StatusUpdate::Updated(t, rc) ==> exists|i: int| {
                &&& 0 <= i < found@.len()
                &&& holds_key(found@[i]@, key@)
                &&& forall|j: int| 0 <= j < i ==> !holds_key(#[trigger] found@[j]@, key@)
                &&& t@ == decoding(found@[i]@, Transaction::spec_shape())->Some_0.update(status_index(), FieldModel::Number(status))
                &&& t.hash@ == key@
                &&& rc.hash@ == t.hash@
                &&& rc.program_id@ == t.program_id@
                &&& rc.status == status
                &&& rc.timestamp == timestamp
                &&& rc.error_text@ == error_text@
                &&& rc.data@ == t.data@
            },
    {
        let k = key.to_owned();
        let mut i: usize = 0;
        while i < found.len()
            invariant
                i <= found@.len(),
                k@ == key@,
                forall|j: int| 0 <= j < i ==> !holds_key(#[trigger] found@[j]@, key@),
            decreases found@.len() - i,
        {
            if let Some(mut tx) = Transaction::decode(found[i].as_slice()) {
                if tx.hash == k {
                    let ghost before = tx@;
                    tx.status = status;
                    assert(tx@ =~= before.update(status_index(), FieldModel::Number(status)));
                    assert(holds_key(found@[i as int]@, key@));
                    let receipt = TransactionReceipt {
                        hash: tx.hash.clone(),
                        program_id: tx.program_id.clone(),
                        status,
                        timestamp,
                        error_text,
                        data: tx.data.clone(),
                    };
                    return StatusUpdate::Updated(tx, receipt);
                }
            }
            i = i + 1;
        }
        StatusUpdate::NotFound
    }

    /// The records that a submitted transaction stores: the transaction
    /// itself, then its receipt when it comes with one.
    pub fn insert_tx(submitted: TrieTransaction) -> (r: Vec<DecodableEnum>)
        ensures
            r@.len() == if submitted.receipt is Some { 2int } else { 1int },
            r@[0] == DecodableEnum::Transaction(submitted.transaction),
            submitted.receipt matches Some(rc) ==> r@[1] == DecodableEnum::Receipt(rc),
    {
        let mut r: Vec<DecodableEnum> = Vec::new();
        let TrieTransaction { transaction, receipt } = submitted;
        r.push(DecodableEnum::Transaction(transaction));
        if let Some(rc) = receipt {
            r.push(DecodableEnum::Receipt(rc));
        }
        r
    }
}

} // verus!
