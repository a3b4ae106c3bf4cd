//! Type keys and type-erased slots, as `std::any` provides them.
//!
//! Verus has no model of `TypeId` or of `dyn Any`. Both are opaque here, and nothing in this
//! file is proved: each item says in its comment which function of `std` it stands for and
//! what, if anything, is taken on trust about it.

use std::any::Any;
use std::any::TypeId;
use vstd::prelude::*;

verus! {

/// `std::any::TypeId`, an opaque token for a static type. Two tokens are equal in contracts
/// exactly when they are the same token; which token belongs to which type is not modelled.
#[verifier::external_type_specification]
#[verifier::external_body]
pub struct ExTypeId(TypeId);

/// `TypeId::of`, the token of the type parameter. Nothing is claimed of the token: contracts
/// have no way to name a type, so to the verifier each call may answer differently, and what
/// is proved of a caller holds for every token that could come back.
pub assume_specification<T: ?Sized + 'static>[ TypeId::of::<T> ]() -> (key: TypeId)
;

/// `TypeId`'s `==`. Taken on trust: it answers `true` exactly when the two tokens are the
/// same token.
#[verifier::external_body]
pub(crate) fn same_key(a: &TypeId, b: &TypeId) -> (same: bool)
    ensures
        same == (*a == *b),
{
    a == b
}

/// One value whose static type has been forgotten: a `Box<T>` for some `T`, held as
/// `Box<dyn Any + Send + Sync>`. Verus accepts no trait object of `Any`, so the whole struct is
/// hidden from it; a slot is an opaque value in contracts, and two slots are equal there only
/// when they are known to be the same slot.
#[verifier::external_body]
#[derive(Debug)]
pub struct Slot {
    held: Box<dyn Any + Send + Sync>,
}

impl Slot {
    /// `Box::new` on a box, with the result held as a trait object: this is where the type of
    /// the value is forgotten. Nothing is claimed of the slot that comes back.
    #[verifier::external_body]
    pub(crate) fn seal<T: 'static + Send + Sync>(boxed: Box<T>) -> (slot: Slot) {
        Slot { held: Box::new(boxed) }
    }

    /// `<dyn Any>::downcast_ref`, asked for a `Box<T>`. It answers `Some` exactly when the
    /// slot was sealed from a `Box<T>`; contracts cannot say so, and nothing is claimed of the
    /// answer.
    #[verifier::external_body]
    pub(crate) fn open<T: 'static + ?Sized>(&self) -> (found: Option<&Box<T>>) {
        self.held.downcast_ref::<Box<T>>()
    }

    /// `<dyn Any>::downcast_mut`, asked for a `Box<T>`. Taken on trust: when it answers
    /// `None` it has handed out no access, so the slot is what it was. When it answers
    /// `Some`, the slot afterwards is whatever the borrower leaves behind.
    #[verifier::external_body]
    pub(crate) fn open_mut<T: 'static + ?Sized>(&mut self) -> (found: Option<&mut Box<T>>)
        ensures
            found is None ==> *final(self) == *old(self),
    {
        self.held.downcast_mut::<Box<T>>()
    }
}

} // verus!
