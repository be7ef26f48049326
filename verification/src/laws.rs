//! Laws of the store.
//!
//! [`crate::models::Items::put`] and [`crate::models::Items::remove`] state
//! how one call evolves the store's view: `put(name, q)` turns view `m` into
//! `m.insert(name@, q)`, and `remove(name)` turns it into `m.remove(name@)`.
//! [`Op`] and [`apply_ops`] lift that to a whole sequence of calls, and the
//! proof functions here state what any such sequence leaves behind: the net
//! effect seen by a later `snapshot`, the idempotence of `put` and `remove`,
//! and the outcome of writes to distinct names in whatever order a scheduler
//! runs them.

use vstd::prelude::*;

verus! {

/// One store mutation, by the name it touches: a `put` of a quantity under
/// a name, or a `remove` of a name.
pub enum Op {
    Put(Seq<char>, i32),
    Remove(Seq<char>),
}

/// The name an operation touches.
pub open spec fn op_name(op: Op) -> Seq<char> {
    match op {
        Op::Put(name, _) => name,
        Op::Remove(name) => name,
    }
}

/// The view of the store after one operation, as stated by the `ensures`
/// of `put` and `remove`.
pub open spec fn apply_op(m: Map<Seq<char>, i32>, op: Op) -> Map<Seq<char>, i32> {
    match op {
        Op::Put(name, quantity) => m.insert(name, quantity),
        Op::Remove(name) => m.remove(name),
    }
}

/// The view of the store after a sequence of operations, applied in order.
pub open spec fn apply_ops(m: Map<Seq<char>, i32>, ops: Seq<Op>) -> Map<Seq<char>, i32>
    decreases ops.len(),
{
    if ops.len() == 0 {
        m
    } else {
        apply_op(apply_ops(m, ops.drop_last()), ops.last())
    }
}

/// A name no operation of the sequence touches keeps its original binding:
/// it is present after the sequence exactly when it was present before,
/// with an unchanged quantity.
pub proof fn lemma_untouched_name_unchanged(
    m: Map<Seq<char>, i32>,
    ops: Seq<Op>,
    name: Seq<char>,
)
    requires
        forall|k: int| 0 <= k < ops.len() ==> op_name(#[trigger] ops[k]) != name,
    ensures
        apply_ops(m, ops).dom().contains(name) == m.dom().contains(name),
        m.dom().contains(name) ==> apply_ops(m, ops)[name] == m[name],
    decreases ops.len(),
{
    if ops.len() > 0 {
        let prefix = ops.drop_last();
        assert forall|k: int| 0 <= k < prefix.len() implies op_name(#[trigger] prefix[k])
            != name by {
            assert(prefix[k] == ops[k]);
        }
        lemma_untouched_name_unchanged(m, prefix, name);
        assert(op_name(ops[ops.len() - 1]) != name);
    }
}

/// The net effect of a sequence whose last operation on `name` is a `put`:
/// after the whole sequence the entry is present and carries exactly that
/// put's quantity, whatever else the sequence did before or after.
pub proof fn lemma_last_put_wins(
    m: Map<Seq<char>, i32>,
    ops: Seq<Op>,
    j: int,
    name: Seq<char>,
    quantity: i32,
)
    requires
        0 <= j < ops.len(),
        ops[j] == Op::Put(name, quantity),
        forall|k: int| j < k < ops.len() ==> op_name(#[trigger] ops[k]) != name,
    ensures
        apply_ops(m, ops).dom().contains(name),
        apply_ops(m, ops)[name] == quantity,
    decreases ops.len(),
{
    if j == ops.len() - 1 {
        assert(ops.last() == Op::Put(name, quantity));
    } else {
        let prefix = ops.drop_last();
        assert(prefix[j] == ops[j]);
        assert forall|k: int| j < k < prefix.len() implies op_name(#[trigger] prefix[k])
            != name by {
            assert(prefix[k] == ops[k]);
        }
        lemma_last_put_wins(m, prefix, j, name, quantity);
        assert(op_name(ops[ops.len() - 1]) != name);
    }
}

/// The net effect of a sequence whose last operation on `name` is a
/// `remove`: after the whole sequence the entry is absent, whatever else
/// the sequence did before or after.
pub proof fn lemma_last_remove_wins(m: Map<Seq<char>, i32>, ops: Seq<Op>, j: int, name: Seq<char>)
    requires
        0 <= j < ops.len(),
        ops[j] == Op::Remove(name),
        forall|k: int| j < k < ops.len() ==> op_name(#[trigger] ops[k]) != name,
    ensures
        !apply_ops(m, ops).dom().contains(name),
    decreases ops.len(),
{
    if j == ops.len() - 1 {
        assert(ops.last() == Op::Remove(name));
    } else {
        let prefix = ops.drop_last();
        assert(prefix[j] == ops[j]);
        assert forall|k: int| j < k < prefix.len() implies op_name(#[trigger] prefix[k])
            != name by {
            assert(prefix[k] == ops[k]);
        }
        lemma_last_remove_wins(m, prefix, j, name);
        assert(op_name(ops[ops.len() - 1]) != name);
    }
}

/// Removing a name twice in a row has the same effect on the store's view
/// as removing it once: the second `remove` is a no-op, not an error.
pub proof fn lemma_remove_idempotent(m: Map<Seq<char>, i32>, name: Seq<char>)
    ensures
        m.remove(name).remove(name) == m.remove(name),
{
    assert(m.remove(name).remove(name) =~= m.remove(name));
}

/// Putting the same name and quantity twice in a row leaves the store's
/// view identical to putting it once.
pub proof fn lemma_put_idempotent(m: Map<Seq<char>, i32>, name: Seq<char>, quantity: i32)
    ensures
        m.insert(name, quantity).insert(name, quantity) == m.insert(name, quantity),
{
    assert(m.insert(name, quantity).insert(name, quantity) =~= m.insert(name, quantity));
}

/// Writes to distinct names never lose each other: after a sequence of
/// `put` operations whose names are pairwise distinct — any serialization
/// the lock gives to concurrent `put` calls — every one of the entries is
/// present with its own quantity.
pub proof fn lemma_distinct_puts_all_present(m: Map<Seq<char>, i32>, ops: Seq<Op>)
    requires
        forall|k: int| 0 <= k < ops.len() ==> (#[trigger] ops[k]) is Put,
        forall|i: int, j: int|
            0 <= i < j < ops.len() ==> op_name(ops[i]) != op_name(ops[j]),
    ensures
        forall|k: int| 0 <= k < ops.len() ==> ((#[trigger] ops[k]) matches Op::Put(
            name,
            quantity,
        ) ==> apply_ops(m, ops).dom().contains(name) && apply_ops(m, ops)[name] == quantity),
{
    assert forall|k: int| 0 <= k < ops.len() implies ((#[trigger] ops[k]) matches Op::Put(
        name,
        quantity,
    ) ==> apply_ops(m, ops).dom().contains(name) && apply_ops(m, ops)[name] == quantity) by {
        match ops[k] {
            Op::Put(name, quantity) => {
                assert forall|i: int| k < i < ops.len() implies op_name(#[trigger] ops[i])
                    != name by {
                    assert(op_name(ops[k]) != op_name(ops[i]));
                }
                lemma_last_put_wins(m, ops, k, name, quantity);
            },
            Op::Remove(_) => {},
        }
    }
}

/// Reads do not disturb the store and are determined by its state alone:
/// any two `snapshot` results taken from the same store state — as every
/// batch of concurrent `snapshot` calls is, since readers exclude writers —
/// are identical, entry for entry.
pub proof fn lemma_snapshots_identical(
    s: crate::models::Items,
    a: Seq<(String, i32)>,
    b: Seq<(String, i32)>,
)
    requires
        a == s.entries(),
        b == s.entries(),
    ensures
        a == b,
{
}

} // verus!
