//! The library's general guarantees, stated and proved once over the
//! mathematical models that the executable contracts speak of.
//!
//! The store's `apply` is exactly one [`apply_one`] step on its snapshot,
//! and the mirror's notification handling is exactly one
//! [`step_notification`] on its state, so each law here carries over to the
//! executable operations through their contracts.

use vstd::prelude::*;
use crate::mirror::{step_list_ok, step_notification, MirrorView, NotificationView};
use crate::object::{ObjectRefView, RemoteObjectView};
use crate::store::{contents_of, lemma_contents_of_domain};

verus! {

/// One `apply` operation of the store's single writer: `value` is `Some`
/// for an upsert, `None` for a delete.
pub struct ApplyOp {
    pub key: ObjectRefView,
    pub value: Option<RemoteObjectView>,
}

/// The snapshot after one apply.
pub open spec fn apply_one(
    m: Map<ObjectRefView, RemoteObjectView>,
    op: ApplyOp,
) -> Map<ObjectRefView, RemoteObjectView> {
    match op.value {
        Some(o) => m.insert(op.key, o),
        None => m.remove(op.key),
    }
}

/// The snapshot after a sequence of applies, performed in order.
pub open spec fn apply_all(
    m: Map<ObjectRefView, RemoteObjectView>,
    ops: Seq<ApplyOp>,
) -> Map<ObjectRefView, RemoteObjectView>
    decreases ops.len(),
{
    if ops.len() == 0 {
        m
    } else {
        apply_one(apply_all(m, ops.drop_last()), ops.last())
    }
}

/// For every sequence of applies, the last apply to a key determines what
/// the snapshot then holds for it, whatever interleaved applies to other
/// keys did: an upsert leaves its record, a delete leaves the key absent.
pub proof fn lemma_last_apply_wins(
    m: Map<ObjectRefView, RemoteObjectView>,
    ops: Seq<ApplyOp>,
    i: int,
)
    requires
        0 <= i < ops.len(),
        forall|j: int| i < j < ops.len() ==> ops[j].key != ops[i].key,
    ensures
        match ops[i].value {
            Some(o) => apply_all(m, ops).contains_key(ops[i].key) && apply_all(m, ops)[ops[i].key]
                == o,
            None => !apply_all(m, ops).contains_key(ops[i].key),
        },
    decreases ops.len(),
{
    if i < ops.len() - 1 {
        assert forall|j: int|
            i < j < ops.drop_last().len() implies ops.drop_last()[j].key
            != ops.drop_last()[i].key by {
            assert(ops.drop_last()[j] == ops[j]);
            assert(ops.drop_last()[i] == ops[i]);
        }
        lemma_last_apply_wins(m, ops.drop_last(), i);
        assert(ops.drop_last()[i] == ops[i]);
        assert(ops.last().key != ops[i].key);
    }
}

/// A key that no apply in the sequence touches keeps its prior presence and
/// value.
pub proof fn lemma_untouched_key_keeps_value(
    m: Map<ObjectRefView, RemoteObjectView>,
    ops: Seq<ApplyOp>,
    k: ObjectRefView,
)
    requires
        forall|j: int| 0 <= j < ops.len() ==> ops[j].key != k,
    ensures
        apply_all(m, ops).contains_key(k) == m.contains_key(k),
        m.contains_key(k) ==> apply_all(m, ops)[k] == m[k],
    decreases ops.len(),
{
    if ops.len() > 0 {
        assert forall|j: int| 0 <= j < ops.drop_last().len() implies ops.drop_last()[j].key
            != k by {
            assert(ops.drop_last()[j] == ops[j]);
        }
        lemma_untouched_key_keeps_value(m, ops.drop_last(), k);
        assert(ops.last().key != k);
    }
}

/// One apply changes the snapshot at its own key alone: every other key
/// keeps its presence and value. The snapshots just before and just after
/// an apply thus differ in at most that one key — a reader handed either
/// one sees a complete state, never a mix.
pub proof fn lemma_apply_changes_one_key(
    m: Map<ObjectRefView, RemoteObjectView>,
    op: ApplyOp,
    k: ObjectRefView,
)
    requires
        k != op.key,
    ensures
        apply_one(m, op).contains_key(k) == m.contains_key(k),
        m.contains_key(k) ==> apply_one(m, op)[k] == m[k],
{
}

/// An upsert then a delete of the same key, arriving in that order on the
/// feed, leave the key absent: the delete wins.
pub proof fn lemma_delete_wins(m: MirrorView, o: RemoteObjectView, c1: Seq<char>, c2: Seq<char>)
    ensures
        !step_notification(
            step_notification(m, NotificationView::Upsert(o, c1)),
            NotificationView::Delete(o.key(), c2),
        ).store.contains_key(o.key()),
{
}

/// A delete then an upsert of the same key, arriving in that order on the
/// feed, leave the upserted record in place.
pub proof fn lemma_upsert_wins(m: MirrorView, o: RemoteObjectView, c1: Seq<char>, c2: Seq<char>)
    ensures
        step_notification(
            step_notification(m, NotificationView::Delete(o.key(), c1)),
            NotificationView::Upsert(o, c2),
        ).store.contains_key(o.key()),
        step_notification(
            step_notification(m, NotificationView::Delete(o.key(), c1)),
            NotificationView::Upsert(o, c2),
        ).store[o.key()] == o,
{
}

/// A re-bootstrap supersedes all prior state: after a cursor expiry and a
/// successful list, the store holds exactly the listed records, and a key
/// absent from the new list — whatever the store held for it before — is no
/// longer retrievable.
pub proof fn lemma_rebootstrap_supersedes(
    m: MirrorView,
    cursor: Seq<char>,
    objects: Seq<RemoteObjectView>,
    k: ObjectRefView,
)
    requires
        forall|i: int| 0 <= i < objects.len() ==> (#[trigger] objects[i]).key() != k,
    ensures
        step_list_ok(step_notification(m, NotificationView::Expired), cursor, objects).store
            == contents_of(objects),
        !step_list_ok(
            step_notification(m, NotificationView::Expired),
            cursor,
            objects,
        ).store.contains_key(k),
{
    lemma_contents_of_domain(objects, k);
}

} // verus!
