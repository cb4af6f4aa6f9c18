use crate::handlers::{after_update, delete_outcome, get_outcome, update_outcome, ApiError};
use crate::store::{lists_exactly, Message};
use vstd::prelude::*;

verus! {

/// A write that a client makes on the store, as the table sees it.
pub enum Op {
    /// A record created under the given identifier with the given text.
    Create(u128, Seq<char>),
    /// The text of the given identifier replaced.
    Update(u128, Seq<char>),
    /// The given identifier deleted.
    Delete(u128),
}

/// The table after the writes `ops`, in order, starting from `m`.
pub open spec fn replay(m: Map<u128, Seq<char>>, ops: Seq<Op>) -> Map<u128, Seq<char>>
    decreases ops.len(),
{
    if ops.len() == 0 {
        m
    } else {
        let before = replay(m, ops.drop_last());
        match ops.last() {
            Op::Create(id, text) => before.insert(id, text),
            Op::Update(id, text) => after_update(before, id, text),
            Op::Delete(id) => before.remove(id),
        }
    }
}

/// Every create in `ops` uses an identifier absent at that moment, and
/// every delete names one present at that moment (a delete of an absent
/// identifier is refused and changes nothing).
pub open spec fn well_formed_history(m: Map<u128, Seq<char>>, ops: Seq<Op>) -> bool
    decreases ops.len(),
{
    if ops.len() == 0 {
        true
    } else {
        let before = replay(m, ops.drop_last());
        &&& well_formed_history(m, ops.drop_last())
        &&& match ops.last() {
            Op::Create(id, _) => !before.contains_key(id),
            Op::Update(_, _) => true,
            Op::Delete(id) => before.contains_key(id),
        }
    }
}

/// How many creates `ops` holds.
pub open spec fn creates(ops: Seq<Op>) -> nat
    decreases ops.len(),
{
    if ops.len() == 0 {
        0
    } else {
        creates(ops.drop_last()) + if ops.last() is Create { 1nat } else { 0nat }
    }
}

/// How many deletes `ops` holds.
pub open spec fn deletes(ops: Seq<Op>) -> nat
    decreases ops.len(),
{
    if ops.len() == 0 {
        0
    } else {
        deletes(ops.drop_last()) + if ops.last() is Delete { 1nat } else { 0nat }
    }
}

/// The text that the last create or update of `id` in `ops` wrote, if any.
pub open spec fn latest_text(ops: Seq<Op>, id: u128) -> Option<Seq<char>>
    decreases ops.len(),
{
    if ops.len() == 0 {
        None
    } else {
        match ops.last() {
            Op::Create(k, text) => if k == id {
                Some(text)
            } else {
                latest_text(ops.drop_last(), id)
            },
            Op::Update(k, text) => if k == id {
                Some(text)
            } else {
                latest_text(ops.drop_last(), id)
            },
            Op::Delete(_) => latest_text(ops.drop_last(), id),
        }
    }
}

/// Creating a record and then reading back the identifier it was given
/// yields a record with that identifier and exactly the text it was
/// created with.
pub proof fn lemma_create_then_get(m: Map<u128, Seq<char>>, id: u128, text: Seq<char>)
    ensures
        get_outcome(m.insert(id, text), id) == Ok::<(u128, Seq<char>), ApiError>((id, text)),
{
}

/// Deleting a present record succeeds once; the second delete of the same
/// identifier is refused as not found and leaves the table unchanged.
pub proof fn lemma_delete_twice(m: Map<u128, Seq<char>>, id: u128)
    requires
        m.contains_key(id),
    ensures
        delete_outcome(m, id) == Ok::<(), ApiError>(()),
        delete_outcome(m.remove(id), id) == Err::<(), ApiError>(ApiError::NotFound),
        m.remove(id).remove(id) == m.remove(id),
{
    assert(m.remove(id).remove(id) =~= m.remove(id));
}

/// Updating an unknown identifier is refused as not found and never
/// creates a record.
pub proof fn lemma_update_unknown(m: Map<u128, Seq<char>>, id: u128, text: Seq<char>)
    requires
        !m.contains_key(id),
    ensures
        update_outcome(m, id, text) == Err::<(u128, Seq<char>), ApiError>(ApiError::NotFound),
        after_update(m, id, text) == m,
        !after_update(m, id, text).contains_key(id),
{
}

/// After a history of creates and deletes (with updates anywhere), the
/// table holds as many records as it started with, plus the creates, minus
/// the deletes; each record present holds the text of the last create or
/// update of its identifier.
pub proof fn lemma_replay_count(m: Map<u128, Seq<char>>, ops: Seq<Op>)
    requires
        m.dom().finite(),
        well_formed_history(m, ops),
    ensures
        replay(m, ops).dom().finite(),
        replay(m, ops).len() + deletes(ops) == m.len() + creates(ops),
        forall|id: u128|
            #[trigger] replay(m, ops).contains_key(id) && latest_text(ops, id) is Some
                ==> replay(m, ops)[id] == latest_text(ops, id)->Some_0,
        forall|id: u128|
            #[trigger] replay(m, ops).contains_key(id) && !m.contains_key(id) ==> latest_text(
                ops,
                id,
            ) is Some,
    decreases ops.len(),
{
    if ops.len() > 0 {
        lemma_replay_count(m, ops.drop_last());
    }
}

/// Listing the store after a history of `creates(ops)` creates and
/// `deletes(ops)` deletes from an empty store yields exactly
/// `creates(ops) - deletes(ops)` records, each holding the latest text
/// written to its identifier.
pub proof fn lemma_list_after_history(ops: Seq<Op>, listed: Seq<Message>)
    requires
        well_formed_history(Map::empty(), ops),
        lists_exactly(listed, replay(Map::empty(), ops)),
    ensures
        deletes(ops) <= creates(ops),
        listed.len() == creates(ops) - deletes(ops),
        forall|i: int|
            0 <= i < listed.len() ==> latest_text(ops, #[trigger] listed[i].id) == Some(
                listed[i].message@,
            ),
{
    lemma_replay_count(Map::empty(), ops);
    let m = replay(Map::<u128, Seq<char>>::empty(), ops);
    assert forall|i: int| 0 <= i < listed.len() implies latest_text(ops, #[trigger] listed[i].id) == Some(
        listed[i].message@,
    ) by {
        assert(m.contains_key(listed[i].id));
    }
}

/// The writes of a batch of creates, each given as identifier and text.
pub open spec fn create_ops(batch: Seq<(u128, Seq<char>)>) -> Seq<Op> {
    batch.map_values(|c: (u128, Seq<char>)| Op::Create(c.0, c.1))
}

/// A batch of creates on pairwise distinct identifiers, absent from the
/// table, neither loses nor merges records: whatever order the store
/// serialises them in, each is afterwards read back with its own text, and
/// the table has grown by the size of the batch.
pub proof fn lemma_creates_all_kept(m: Map<u128, Seq<char>>, batch: Seq<(u128, Seq<char>)>)
    requires
        m.dom().finite(),
        forall|i: int, j: int| 0 <= i < j < batch.len() ==> batch[i].0 != batch[j].0,
        forall|i: int| 0 <= i < batch.len() ==> !m.contains_key(#[trigger] batch[i].0),
    ensures
        replay(m, create_ops(batch)).dom().finite(),
        replay(m, create_ops(batch)).len() == m.len() + batch.len(),
        forall|i: int|
            0 <= i < batch.len() ==> get_outcome(replay(m, create_ops(batch)), #[trigger] batch[i].0)
                == Ok::<(u128, Seq<char>), ApiError>(batch[i]),
    decreases batch.len(),
{
    if batch.len() > 0 {
        let rest = batch.drop_last();
        assert(create_ops(batch).drop_last() =~= create_ops(rest));
        lemma_creates_all_kept(m, rest);
        let before = replay(m, create_ops(rest));
        let last = batch.last();
        assert(!before.contains_key(last.0)) by {
            if before.contains_key(last.0) {
                lemma_replay_keys(m, rest, last.0);
                let i = choose|i: int| 0 <= i < rest.len() && rest[i].0 == last.0;
                assert(batch[i].0 == batch[batch.len() - 1].0);
            }
        }
        assert forall|i: int| 0 <= i < batch.len() implies get_outcome(
            replay(m, create_ops(batch)),
            #[trigger] batch[i].0,
        ) == Ok::<(u128, Seq<char>), ApiError>(batch[i]) by {
            if i < batch.len() - 1 {
                assert(rest[i] == batch[i]);
            }
        }
    }
}

/// Each identifier in the table after a batch of creates was either there
/// before or created by the batch.
proof fn lemma_replay_keys(m: Map<u128, Seq<char>>, batch: Seq<(u128, Seq<char>)>, k: u128)
    requires
        replay(m, create_ops(batch)).contains_key(k),
    ensures
        m.contains_key(k) || exists|i: int| 0 <= i < batch.len() && batch[i].0 == k,
    decreases batch.len(),
{
    if batch.len() > 0 {
        let rest = batch.drop_last();
        assert(create_ops(batch).drop_last() =~= create_ops(rest));
        if batch.last().0 != k {
            lemma_replay_keys(m, rest, k);
            if !m.contains_key(k) {
                let i = choose|i: int| 0 <= i < rest.len() && rest[i].0 == k;
                assert(batch[i].0 == k);
            }
        }
    }
}

} // verus!
