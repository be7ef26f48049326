//! The four stateless request handlers.
//!
//! Each handler translates an already-validated payload and a handle to the
//! shared store into one store operation and a response outcome. No handler
//! can fail: every store operation is total, so the outcome is fixed — a
//! "created" reply for `add` and `update`, an "ok" reply for `delete`, and
//! the full mapping for `get`. The transport layer maps each outcome 1:1 to
//! an HTTP status and body.

use vstd::prelude::*;

use crate::models::{keys_unique, Id, Item, Store};

verus! {

/// HTTP status of a reply that reports a creation.
pub const STATUS_CREATED: u16 = 201;

/// HTTP status of a reply that reports plain success.
pub const STATUS_OK: u16 = 200;

/// A response outcome: a status code and a fixed confirmation message,
/// which the transport layer forwards as the HTTP reply.
pub struct Reply {
    pub status: u16,
    pub message: &'static str,
}

/// Upserts the item and reports "created". Always succeeds; accepts any
/// quantity, zero and negative included.
pub fn add_grocery_list_item(item: Item, store: &Store) -> (r: Reply)
    ensures
        r.status == STATUS_CREATED,
        r.message@ == "Added items to the grocery list"@,
{
    store.put(item.name, item.quantity);
    Reply { status: STATUS_CREATED, message: "Added items to the grocery list" }
}

/// Semantically identical to [`add_grocery_list_item`]: the store's `put`
/// both inserts new items and overwrites existing ones, and there is no
/// existence check distinguishing create from update.
pub fn update_grocery_list_item(item: Item, store: &Store) -> (r: Reply)
    ensures
        r.status == STATUS_CREATED,
        r.message@ == "Added items to the grocery list"@,
{
    store.put(item.name, item.quantity);
    Reply { status: STATUS_CREATED, message: "Added items to the grocery list" }
}

/// Removes the entry named by `id` and reports "ok"; deleting an absent
/// name is a no-op, not an error.
pub fn delete_grocery_list_item(id: Id, store: &Store) -> (r: Reply)
    ensures
        r.status == STATUS_OK,
        r.message@ == "Removed item from grocery"@,
{
    store.remove(&id.name);
    Reply { status: STATUS_OK, message: "Removed item from grocery" }
}

/// Returns a copy of the full name-to-quantity mapping for the transport
/// layer to serialize; an empty store yields an empty mapping, not an
/// error. The copy is well-formed: no name appears twice.
pub fn get_grocery_list(store: &Store) -> (r: Vec<(String, i32)>)
    ensures
        keys_unique(r@),
{
    store.snapshot()
}

} // verus!
