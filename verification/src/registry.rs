//! The registry: a store of type-erased slots, one per type key at most.
//!
//! As a mathematical object a registry is a finite map from keys to slots; `JabDI::view`
//! gives that map, and every contract below is stated over it. The keyed operations
//! (`bind`, `find`, `find_mut`) are proved exactly against the map. The typed operations
//! (`put`, `try_get`, `try_get_mut`) ask `std::any` for the key of a type and for the value
//! inside a slot; what `std::any` answers cannot be named in a contract, so theirs say what
//! holds whatever it answered. All that they do with an answer is in functions proved
//! exactly: the key goes to a keyed operation, and the box that opening a slot gave goes to
//! `unboxed` or `unboxed_mut`.

use crate::erased::same_key;
use crate::erased::Slot;
use std::any::TypeId;
use vstd::prelude::*;

verus! {

/// A registry of values, each stored and found again by its static type.
///
/// Keys and slots are kept side by side: `slots[i]` is bound under `keys[i]`, and no key
/// occurs twice. Both facts are the type's invariant, so every registry that exists
/// satisfies them and no operation asks for them. A lookup walks the keys in order; a
/// registry holds one entry per bound type, which is few.
#[derive(Debug)]
pub struct JabDI {
    keys: Vec<TypeId>,
    slots: Vec<Slot>,
}

impl View for JabDI {
    type V = Map<TypeId, Slot>;

    /// The bindings: which keys are bound, and the slot under each.
    closed spec fn view(&self) -> Map<TypeId, Slot> {
        bindings(self.keys@, self.slots@)
    }
}

impl Default for JabDI {
    /// A registry with nothing bound.
    fn default() -> (registry: JabDI)
        ensures
            registry@ == Map::<TypeId, Slot>::empty(),
    {
        let registry = JabDI { keys: Vec::new(), slots: Vec::new() };
        assert(registry@ =~= Map::<TypeId, Slot>::empty());
        registry
    }
}

impl JabDI {
    #[verifier::type_invariant]
    spec fn wf(self) -> bool {
        distinct(self.keys@) && self.keys@.len() == self.slots@.len()
    }

    /// What `key` finds: the slot bound under it, or nothing.
    pub open spec fn slot_of(&self, key: TypeId) -> Option<Slot> {
        if self@.contains_key(key) {
            Some(self@[key])
        } else {
            None
        }
    }

    /// Binds `val` under the key of its type `T`, in place of whatever that key held.
    ///
    /// Proved: the registry changes by one binding and no more; every other key keeps its
    /// slot, and no key is lost. That the key written is the one `try_get::<T>` will ask
    /// for, and that the slot written gives `val` back, rests on `TypeId::of` and on
    /// `downcast_ref`, and is not stated.
    pub fn put<T: 'static + Send + Sync>(&mut self, val: T)
        ensures
            exists|key: TypeId, slot: Slot| final(self)@ == old(self)@.insert(key, slot),
    {
        let key = TypeId::of::<T>();
        let slot = Slot::seal(Box::new(val));
        self.bind(key, slot);
    }

    /// The value bound under `T`, or `None`. Never fails.
    ///
    /// Proved: a registry with nothing bound answers `None`. On other registries the answer
    /// is `Some` exactly when `T`'s key is bound, which rests on `TypeId::of` and on
    /// `downcast_ref` and is not stated.
    pub fn try_get<T: 'static + ?Sized>(&self) -> (found: Option<&T>)
        ensures
            self@ == Map::<TypeId, Slot>::empty() ==> found is None,
    {
        let key = TypeId::of::<T>();
        match self.find(&key) {
            Some(slot) => unboxed(slot.open::<T>()),
            None => None,
        }
    }

    /// The value bound under `T`, for writing, or `None`. Never fails.
    ///
    /// Proved: a registry with nothing bound answers `None`; an answer of `None` leaves the
    /// registry as it was; and after an answer of `Some`, whatever the borrower writes, the
    /// keys are the same and at most the slot under one bound key has changed. Which key
    /// that is, and that the reference leads to the value bound under `T`, is not stated.
    pub fn try_get_mut<T: 'static>(&mut self) -> (found: Option<&mut T>)
        ensures
            old(self)@ == Map::<TypeId, Slot>::empty() ==> found is None,
            found is None ==> final(self)@ == old(self)@,
            found is Some ==> exists|key: TypeId|
                old(self)@.contains_key(key) && final(self)@ == old(self)@.insert(
                    key,
                    final(self)@[key],
                ),
    {
        let key = TypeId::of::<T>();
        match self.find_mut(&key) {
            Some(slot) => unboxed_mut(slot.open_mut::<T>()),
            None => None,
        }
    }

    /// Binds `slot` under `key`. A key that was bound gets the new slot in place of the old
    /// one; every other binding stays.
    pub fn bind(&mut self, key: TypeId, slot: Slot)
        ensures
            final(self)@ == old(self)@.insert(key, slot),
    {
        proof {
            use_type_invariant(&*self);
        }
        match self.position(&key) {
            Some(i) => {
                proof {
                    lemma_rebound(self.keys@, self.slots@, i as int, slot);
                }
                self.slots[i] = slot;
            },
            None => {
                proof {
                    lemma_added(self.keys@, self.slots@, key, slot);
                }
                // The two vectors grow together: the registry is taken apart and put
                // together again, so that it is never seen with one longer than the other.
                let mut taken = JabDI::default();
                std::mem::swap(self, &mut taken);
                let JabDI { mut keys, mut slots } = taken;
                keys.push(key);
                slots.push(slot);
                *self = JabDI { keys, slots };
            },
        }
    }

    /// The slot bound under `key`, or `None` if the key is unbound.
    pub fn find(&self, key: &TypeId) -> (found: Option<&Slot>)
        ensures
            match found {
                Some(slot) => self.slot_of(*key) == Some(*slot),
                None => self.slot_of(*key) is None,
            },
    {
        proof {
            use_type_invariant(self);
        }
        match self.position(key) {
            Some(i) => {
                assert(keyed_at(self.keys@, *key, i as int));
                Some(&self.slots[i])
            },
            None => None,
        }
    }

    /// The slot bound under `key`, for writing, or `None` if the key is unbound. What the
    /// borrower leaves in the slot is what `key` is bound to afterwards; nothing else
    /// changes.
    pub fn find_mut(&mut self, key: &TypeId) -> (found: Option<&mut Slot>)
        ensures
            match found {
                Some(slot) => old(self).slot_of(*key) == Some(*slot) && final(self)@ == old(
                    self,
                )@.insert(*key, *final(slot)),
                None => old(self).slot_of(*key) is None && final(self)@ == old(self)@,
            },
    {
        proof {
            use_type_invariant(&*self);
        }
        match self.position(key) {
            Some(i) => {
                proof {
                    let keys = self.keys@;
                    let slots = self.slots@;
                    assert forall|slot: Slot| bindings(keys, #[trigger] slots.update(i as int, slot))
                        == bindings(keys, slots).insert(*key, slot) by {
                        lemma_rebound(keys, slots, i as int, slot);
                    }
                }
                Some(&mut self.slots[i])
            },
            None => None,
        }
    }

    /// Where `key` stands among the keys, if it does.
    fn position(&self, key: &TypeId) -> (at: Option<usize>)
        ensures
            match at {
                Some(i) => keyed_at(self.keys@, *key, i as int),
                None => forall|i: int| !keyed_at(self.keys@, *key, i),
            },
    {
        let mut i: usize = 0;
        while i < self.keys.len()
            invariant
                i <= self.keys@.len(),
                forall|j: int| 0 <= j < i ==> self.keys@[j] != *key,
            decreases self.keys@.len() - i,
        {
            if same_key(&self.keys[i], key) {
                return Some(i);
            }
            i += 1;
        }
        None
    }
}

/// The last step of a typed lookup, once the slot under the key has been opened: the value
/// in the box that came out, or `None` if none did.
pub fn unboxed<T: 'static + ?Sized>(opened: Option<&Box<T>>) -> (found: Option<&T>)
    ensures
        match opened {
            Some(boxed) => found == Some(&**boxed),
            None => found is None,
        },
{
    match opened {
        Some(boxed) => Some(&**boxed),
        None => None,
    }
}

/// The last step of a typed lookup for writing: the value in the box that came out, or
/// `None` if none did. What the borrower writes to the value is what the box then holds.
pub fn unboxed_mut<T: 'static>(opened: Option<&mut Box<T>>) -> (found: Option<&mut T>)
    ensures
        match opened {
            Some(boxed) => match found {
                Some(value) => *value == **boxed && **final(boxed) == *final(value),
                None => false,
            },
            None => found is None,
        },
{
    match opened {
        Some(boxed) => Some(&mut **boxed),
        None => None,
    }
}

/// `key` stands at index `i`.
spec fn keyed_at(keys: Seq<TypeId>, key: TypeId, i: int) -> bool {
    0 <= i < keys.len() && keys[i] == key
}

/// No key stands at two indices.
spec fn distinct(keys: Seq<TypeId>) -> bool {
    forall|i: int, j: int| 0 <= i < j < keys.len() ==> keys[i] != keys[j]
}

/// The map that two vectors side by side stand for.
spec fn bindings(keys: Seq<TypeId>, slots: Seq<Slot>) -> Map<TypeId, Slot> {
    Map::new(
        |key: TypeId| exists|i: int| keyed_at(keys, key, i),
        |key: TypeId| slots[choose|i: int| keyed_at(keys, key, i)],
    )
}

/// Putting a new slot where a key already stands rebinds that key and nothing else.
proof fn lemma_rebound(keys: Seq<TypeId>, slots: Seq<Slot>, i: int, slot: Slot)
    requires
        distinct(keys),
        keys.len() == slots.len(),
        0 <= i < keys.len(),
    ensures
        bindings(keys, slots.update(i, slot)) == bindings(keys, slots).insert(keys[i], slot),
{
    let after = bindings(keys, slots.update(i, slot));
    assert(keyed_at(keys, keys[i], i));
    assert forall|k: TypeId| #[trigger] after.contains_key(k) implies after[k] == bindings(
        keys,
        slots,
    ).insert(keys[i], slot)[k] by {
        let j = choose|j: int| keyed_at(keys, k, j);
        if k == keys[i] {
            assert(keyed_at(keys, k, i));
        }
    }
    assert(after =~= bindings(keys, slots).insert(keys[i], slot));
}

/// Appending a key that stands nowhere, with its slot, binds that key and nothing else, and
/// keeps the keys distinct.
proof fn lemma_added(keys: Seq<TypeId>, slots: Seq<Slot>, key: TypeId, slot: Slot)
    requires
        distinct(keys),
        keys.len() == slots.len(),
        forall|i: int| !keyed_at(keys, key, i),
    ensures
        distinct(keys.push(key)),
        bindings(keys.push(key), slots.push(slot)) == bindings(keys, slots).insert(key, slot),
{
    let last = keys.len() as int;
    let more = keys.push(key);
    let after = bindings(more, slots.push(slot));
    assert forall|i: int, j: int| 0 <= i < j < more.len() implies more[i] != more[j] by {
        if j == last {
            assert(!keyed_at(keys, key, i));
        }
    }
    assert forall|k: TypeId| #[trigger]
        after.contains_key(k) <==> bindings(keys, slots).insert(key, slot).contains_key(k) by {
        if after.contains_key(k) {
            let j = choose|j: int| keyed_at(more, k, j);
            if j != last {
                assert(keyed_at(keys, k, j));
            }
        }
        if bindings(keys, slots).contains_key(k) {
            let j = choose|j: int| keyed_at(keys, k, j);
            assert(keyed_at(more, k, j));
        }
        if k == key {
            assert(keyed_at(more, k, last));
        }
    }
    assert forall|k: TypeId| #[trigger] after.contains_key(k) implies after[k] == bindings(
        keys,
        slots,
    ).insert(key, slot)[k] by {
        let j = choose|j: int| keyed_at(more, k, j);
        if k == key {
            assert(keyed_at(more, k, last));
        } else {
            assert(keyed_at(keys, k, j));
        }
    }
    assert(after =~= bindings(keys, slots).insert(key, slot));
}

} // verus!
