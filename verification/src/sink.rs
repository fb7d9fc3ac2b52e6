//! What to ask of the record sink for each record, and how a page's writes
//! are counted.

use crate::document::{lemma_field_after_with_field, Json, Tree};
use crate::extractor::{promoted, IDENTITY_FIELD, SOURCE_IDENTITY_FIELD};
use vstd::prelude::*;

verus! {

/// One write to ask of the sink.
#[derive(Debug, PartialEq, Eq)]
pub enum WriteRequest {
    /// Store `document` under `identity`, in place of whatever the sink
    /// holds under it.
    UpsertByIdentity { identity: Json, document: Json },
    /// Store `document` as one more document.
    InsertPlain { document: Json },
}

/// The mathematical value of a [`WriteRequest`].
pub enum Write {
    Upsert { identity: Tree, document: Tree },
    Plain { document: Tree },
}

impl View for WriteRequest {
    type V = Write;

    open spec fn view(&self) -> Write {
        match self {
            WriteRequest::UpsertByIdentity { identity, document } => Write::Upsert {
                identity: identity@,
                document: document@,
            },
            WriteRequest::InsertPlain { document } => Write::Plain { document: document@ },
        }
    }
}

/// The write that persists `record`: keyed by its identity attribute where
/// it has one, plain where it has none.
pub open spec fn write_for(record: Tree) -> Write {
    match record.field(IDENTITY_FIELD@) {
        Some(identity) => Write::Upsert { identity, document: record },
        None => Write::Plain { document: record },
    }
}

/// What a sink holds: the documents stored under an identity, and those
/// stored without one in the order of their arrival.
pub struct Store {
    pub keyed: Map<Tree, Tree>,
    pub plain: Seq<Tree>,
}

/// The sink after a write that it accepted.
pub open spec fn store_after(store: Store, write: Write) -> Store {
    match write {
        Write::Upsert { identity, document } => Store {
            keyed: store.keyed.insert(identity, document),
            plain: store.plain,
        },
        Write::Plain { document } => Store { keyed: store.keyed, plain: store.plain.push(document) },
    }
}

/// The number of entries of `outcomes` that are `true`.
pub open spec fn successes(outcomes: Seq<bool>) -> nat
    decreases outcomes.len(),
{
    if outcomes.len() == 0 {
        0
    } else {
        successes(outcomes.drop_last()) + if outcomes.last() {
            1nat
        } else {
            0nat
        }
    }
}

/// No more writes succeed than were asked for.
pub proof fn lemma_successes_bounded(outcomes: Seq<bool>)
    ensures
        successes(outcomes) <= outcomes.len(),
    decreases outcomes.len(),
{
    if outcomes.len() > 0 {
        lemma_successes_bounded(outcomes.drop_last());
    }
}

/// Writing a record that has an identity a second time leaves the sink as
/// the first write left it: it holds that record under its identity, once,
/// and nothing else has changed.
pub proof fn lemma_identified_write_idempotent(store: Store, record: Tree)
    requires
        record.field(IDENTITY_FIELD@) is Some,
    ensures
        store_after(store_after(store, write_for(record)), write_for(record)) == store_after(
            store,
            write_for(record),
        ),
        store_after(store, write_for(record)).keyed.contains_key(
            record.field(IDENTITY_FIELD@).unwrap(),
        ),
        store_after(store, write_for(record)).keyed[record.field(IDENTITY_FIELD@).unwrap()]
            == record,
        store_after(store, write_for(record)).plain == store.plain,
{
    let identity = record.field(IDENTITY_FIELD@).unwrap();
    assert(store.keyed.insert(identity, record).insert(identity, record) =~= store.keyed.insert(
        identity,
        record,
    ));
}

/// A document with a source identity is, once promoted, written under that
/// identity, so that the records of one source identity meet in one place
/// of the sink.
pub proof fn lemma_promoted_record_is_keyed(record: Tree)
    requires
        record is Object,
        record.field(SOURCE_IDENTITY_FIELD@) is Some,
    ensures
        write_for(promoted(record)) == (Write::Upsert {
            identity: record.field(SOURCE_IDENTITY_FIELD@).unwrap(),
            document: promoted(record),
        }),
{
    let identity = record.field(SOURCE_IDENTITY_FIELD@).unwrap();
    lemma_field_after_with_field(record, IDENTITY_FIELD@, identity, IDENTITY_FIELD@);
}

/// The write that persists `record`.
pub fn write_request(record: Json) -> (request: WriteRequest)
    ensures
        request@ == write_for(record@),
{
    let identity = match record.field(IDENTITY_FIELD) {
        Some(value) => Some(value.clone()),
        None => None,
    };
    match identity {
        Some(identity) => WriteRequest::UpsertByIdentity { identity, document: record },
        None => WriteRequest::InsertPlain { document: record },
    }
}

/// The number of a page's records that the sink took: `outcomes` holds, for
/// each write asked for, whether it succeeded.
pub fn count_written(outcomes: &Vec<bool>) -> (written: usize)
    ensures
        written == successes(outcomes@),
{
    let mut written: usize = 0;
    let mut i: usize = 0;
    while i < outcomes.len()
        invariant
            i <= outcomes.len(),
            written <= i,
            written == successes(outcomes@.take(i as int)),
        decreases outcomes.len() - i,
    {
        assert(outcomes@.take(i + 1).drop_last() =~= outcomes@.take(i as int));
        if outcomes[i] {
            written += 1;
        }
        i += 1;
    }
    assert(outcomes@.take(i as int) =~= outcomes@);
    written
}

} // verus!
