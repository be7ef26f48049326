//! Data shapes and the store.
//!
//! `Items` is the plain mapping from item name to quantity, kept as a vector
//! of entries with pairwise-distinct names; its view is the mathematical
//! `Map<Seq<char>, i32>` it denotes. `Store` wraps `Items` in a verified
//! reader/writer lock so that any number of concurrent handlers can share it:
//! writers are exclusive, readers may proceed together, and every value that
//! ever rests in the lock satisfies the well-formedness invariant.

use vstd::prelude::*;
use vstd::rwlock::{RwLock, RwLockPredicate};

verus! {

/// A delete request's key selector: the name of the entry to drop.
#[derive(Debug, Clone)]
pub struct Id {
    pub name: String,
}

/// A named, quantified item, as delivered by the transport layer.
/// The quantity is deliberately unconstrained: zero and negative
/// values are accepted and stored as-is.
#[derive(Debug, Clone)]
pub struct Item {
    pub name: String,
    pub quantity: i32,
}

/// No two entries of the sequence carry the same name.
pub open spec fn keys_unique(s: Seq<(String, i32)>) -> bool {
    forall|i: int, j: int| 0 <= i < j < s.len() ==> s[i].0@ != s[j].0@
}

/// The mapping denoted by a sequence of (name, quantity) entries;
/// a later entry for a name overrides an earlier one.
pub open spec fn map_of(s: Seq<(String, i32)>) -> Map<Seq<char>, i32>
    decreases s.len(),
{
    if s.len() == 0 {
        Map::empty()
    } else {
        map_of(s.drop_last()).insert(s.last().0@, s.last().1)
    }
}

/// A name is in the denoted mapping exactly when some entry carries it.
pub proof fn lemma_map_of_dom(s: Seq<(String, i32)>, name: Seq<char>)
    ensures
        map_of(s).dom().contains(name) <==> exists|i: int|
            0 <= i < s.len() && s[i].0@ == name,
    decreases s.len(),
{
    if s.len() > 0 {
        let prefix = s.drop_last();
        lemma_map_of_dom(prefix, name);
        if s.last().0@ == name {
            assert(s[s.len() - 1].0@ == name);
        } else {
            if exists|i: int| 0 <= i < s.len() && s[i].0@ == name {
                let i = choose|i: int| 0 <= i < s.len() && s[i].0@ == name;
                assert(prefix[i] == s[i]);
            }
            if exists|i: int| 0 <= i < prefix.len() && prefix[i].0@ == name {
                let i = choose|i: int| 0 <= i < prefix.len() && prefix[i].0@ == name;
                assert(s[i] == prefix[i]);
            }
        }
    }
}

/// The authoritative collection: names with their quantities, at most one
/// entry per name. All operations are total: `put` inserts or overwrites,
/// `remove` deletes or does nothing, `snapshot` copies the whole mapping.
pub struct Items {
    grocery_list: Vec<(String, i32)>,
}

impl View for Items {
    type V = Map<Seq<char>, i32>;

    closed spec fn view(&self) -> Map<Seq<char>, i32> {
        map_of(self.grocery_list@)
    }
}

impl Items {
    /// The entries in storage order; two snapshots of the same state
    /// return exactly this sequence.
    pub closed spec fn entries(&self) -> Seq<(String, i32)> {
        self.grocery_list@
    }

    /// At most one entry per name.
    pub closed spec fn wf(&self) -> bool {
        keys_unique(self.grocery_list@)
    }

    /// The view is the mapping denoted by the entries.
    pub proof fn lemma_view_is_map_of_entries(&self)
        ensures
            self@ == map_of(self.entries()),
    {
    }

    /// An empty collection.
    pub fn new() -> (r: Self)
        ensures
            r.wf(),
            r@ == Map::<Seq<char>, i32>::empty(),
            r.entries() == Seq::<(String, i32)>::empty(),
    {
        Items { grocery_list: Vec::new() }
    }

    /// An immutable copy of the full name-to-quantity mapping, ready for
    /// serialization. The result is exactly the store's entries: equal
    /// states yield identical copies.
    pub fn snapshot(&self) -> (r: Vec<(String, i32)>)
        requires
            self.wf(),
        ensures
            r@ == self.entries(),
            keys_unique(r@),
            map_of(r@) == self@,
    {
        let mut out: Vec<(String, i32)> = Vec::new();
        let mut idx: usize = 0;
        while idx < self.grocery_list.len()
            invariant
                idx <= self.grocery_list.len(),
                out@ == self.grocery_list@.subrange(0, idx as int),
            decreases self.grocery_list.len() - idx,
        {
            let name = self.grocery_list[idx].0.clone();
            let quantity = self.grocery_list[idx].1;
            out.push((name, quantity));
            proof {
                assert(out@ =~= self.grocery_list@.subrange(0, idx + 1));
            }
            idx = idx + 1;
        }
        proof {
            assert(out@ =~= self.grocery_list@);
        }
        out
    }

    /// Deletes the entry for `name` if present; a no-op if absent.
    pub fn remove(&mut self, name: &String)
        requires
            old(self).wf(),
        ensures
            final(self).wf(),
            final(self)@ == old(self)@.remove(name@),
    {
        let mut kept: Vec<(String, i32)> = Vec::new();
        let mut idx: usize = 0;
        while idx < self.grocery_list.len()
            invariant
                idx <= self.grocery_list.len(),
                self.wf(),
                keys_unique(kept@),
                forall|j: int| 0 <= j < kept@.len() ==> (#[trigger] kept@[j]).0@ != name@,
                forall|j: int| 0 <= j < kept@.len() ==> exists|i: int|
                    0 <= i < idx && self.grocery_list@[i] == #[trigger] kept@[j],
                map_of(kept@) == map_of(self.grocery_list@.subrange(0, idx as int)).remove(
                    name@,
                ),
            decreases self.grocery_list.len() - idx,
        {
            let entry_name = self.grocery_list[idx].0.clone();
            let quantity = self.grocery_list[idx].1;
            proof {
                let pre = self.grocery_list@.subrange(0, idx as int);
                let ext = self.grocery_list@.subrange(0, idx + 1);
                assert(ext.drop_last() =~= pre);
                assert(ext.last() == self.grocery_list@[idx as int]);
                if entry_name@ == name@ {
                    assert(map_of(ext).remove(name@) =~= map_of(pre).remove(name@));
                } else {
                    assert(map_of(pre).remove(name@).insert(entry_name@, quantity)
                        =~= map_of(ext).remove(name@));
                }
            }
            if !entry_name.eq(name) {
                let ghost kept_before = kept@;
                kept.push((entry_name, quantity));
                proof {
                    assert(kept@.drop_last() =~= kept_before);
                }
            }
            idx = idx + 1;
        }
        proof {
            assert(self.grocery_list@.subrange(0, self.grocery_list@.len() as int)
                =~= self.grocery_list@);
        }
        self.grocery_list = kept;
    }

    /// Inserts the entry if absent, or overwrites the existing quantity if
    /// present (an upsert); there is no failing path.
    pub fn put(&mut self, name: String, quantity: i32)
        requires
            old(self).wf(),
        ensures
            final(self).wf(),
            final(self)@ == old(self)@.insert(name@, quantity),
    {
        self.remove(&name);
        proof {
            lemma_map_of_dom(self.grocery_list@, name@);
            let extended = self.grocery_list@.push((name, quantity));
            assert(extended.drop_last() =~= self.grocery_list@);
            assert(map_of(self.grocery_list@).insert(name@, quantity)
                =~= old(self)@.insert(name@, quantity));
        }
        self.grocery_list.push((name, quantity));
    }
}

/// The lock's invariant: every collection that ever rests in the lock is
/// well-formed (at most one entry per name).
pub struct StorePred {}

impl RwLockPredicate<Items> for StorePred {
    open spec fn inv(self, v: Items) -> bool {
        v.wf()
    }
}

/// The single shared store: the item collection guarded by a verified
/// reader/writer lock. One `Store` is created at startup and shared by
/// reference across all concurrent request handlers; a `put` or `remove`
/// holds the write lock and so excludes every other operation for its
/// duration, while any number of `snapshot` calls may read together.
pub struct Store {
    lock: RwLock<Items, StorePred>,
}

impl Store {
    /// A fresh store holding the empty collection.
    pub fn new() -> Self {
        Store { lock: RwLock::new(Items::new(), Ghost(StorePred {})) }
    }

    /// Inserts or overwrites the entry for `name` under the write lock.
    /// Which quantity a later read observes depends on the interleaving
    /// of concurrent writers (last writer wins); what is promised of every
    /// interleaving is stated on [`Items::put`] and by the lock invariant.
    pub fn put(&self, name: String, quantity: i32) {
        let (mut items, write_handle) = self.lock.acquire_write();
        items.put(name, quantity);
        write_handle.release_write(items);
    }

    /// Deletes the entry for `name` (or does nothing) under the write lock.
    pub fn remove(&self, name: &String) {
        let (mut items, write_handle) = self.lock.acquire_write();
        items.remove(name);
        write_handle.release_write(items);
    }

    /// Copies the full mapping under the read lock. Whatever state the
    /// store is in, the copy is a consistent, well-formed mapping: no
    /// partially applied write can be observed, and no name appears twice.
    pub fn snapshot(&self) -> (r: Vec<(String, i32)>)
        ensures
            keys_unique(r@),
    {
        let read_handle = self.lock.acquire_read();
        let r = read_handle.borrow().snapshot();
        read_handle.release_read();
        r
    }
}

} // verus!
