//! What binding and finding promise each other.
//!
//! Each law is stated over the registry's view, the map that the contracts of
//! `JabDI::bind`, `JabDI::find` and `JabDI::find_mut` speak of, and holds for every key and
//! every slot.

use crate::erased::Slot;
use crate::registry::JabDI;
use std::any::TypeId;
use vstd::prelude::*;

verus! {

/// Round trip: once a slot is bound under a key, that key finds that slot.
pub proof fn bound_slot_is_found(before: JabDI, after: JabDI, key: TypeId, slot: Slot)
    requires
        after@ == before@.insert(key, slot),
    ensures
        after.slot_of(key) == Some(slot),
{
}

/// Isolation: binding under one key changes what no other key finds. A key that was unbound
/// stays unbound, and a key that was bound keeps its slot.
pub proof fn other_keys_are_untouched(
    before: JabDI,
    after: JabDI,
    key: TypeId,
    slot: Slot,
    other: TypeId,
)
    requires
        after@ == before@.insert(key, slot),
        other != key,
    ensures
        after.slot_of(other) == before.slot_of(other),
{
}

/// Last write wins: of two slots bound under one key, the second is found, and the registry
/// is as if the first had never been bound.
pub proof fn last_binding_wins(
    before: JabDI,
    between: JabDI,
    after: JabDI,
    key: TypeId,
    first: Slot,
    second: Slot,
)
    requires
        between@ == before@.insert(key, first),
        after@ == between@.insert(key, second),
    ensures
        after.slot_of(key) == Some(second),
        after@ == before@.insert(key, second),
{
    assert(after@ =~= before@.insert(key, second));
}

/// Absence: an empty registry finds nothing, whatever the key.
pub proof fn empty_registry_finds_nothing(registry: JabDI, key: TypeId)
    requires
        registry@ == Map::<TypeId, Slot>::empty(),
    ensures
        registry.slot_of(key) is None,
{
}

} // verus!
