//! The erasure layer: object-safe counterparts of the ordinary conversions.
//!
//! A single abstract handle must be able to hold values of different
//! domain/raw pairings, so these capabilities fix the error representation
//! to displayable text and avoid consuming conversions.  Nobody implements
//! them by hand: the blanket implementations below derive them for every
//! type with the ordinary conversions of [`crate::convert`].

use vstd::prelude::*;

use crate::message::Message;

verus! {

/// Object-safe fallible conversion from a raw value, with the error fixed
/// to displayable text.
pub trait TryFromRaw<R: Message>: View {
    /// Which raw values satisfy the domain invariants.
    spec fn raw_ok(rv: R::V) -> bool where Self: Sized;

    /// The domain value built from an accepted raw value.
    spec fn of_raw(rv: R::V) -> Self::V where Self: Sized;

    /// Validate and construct; fails exactly on raw values that violate
    /// the domain invariants.
    fn try_from_raw(raw: R) -> (res: Result<Self, String>) where Self: Sized
        ensures
            match res {
                Ok(d) => Self::raw_ok(raw@) && d@ == Self::of_raw(raw@),
                Err(_) => !Self::raw_ok(raw@),
            },
    ;
}

/// Object-safe total conversion to a raw value from a borrowed domain
/// value: the domain value stays usable after encoding.
pub trait CloneInto<R: Message>: View {
    /// The raw re-expression of this domain value.
    spec fn to_raw(&self) -> R::V;

    /// Duplicate the domain value once and re-express the duplicate as a
    /// raw value; never fails.
    fn clone_into(&self) -> (raw: R)
        ensures
            raw@ == self.to_raw(),
    ;
}

impl<R: Message, D: crate::convert::TryFromRaw<R>> TryFromRaw<R> for D {
    open spec fn raw_ok(rv: R::V) -> bool {
        <D as crate::convert::TryFromRaw<R>>::accepts(rv)
    }

    open spec fn of_raw(rv: R::V) -> Self::V {
        <D as crate::convert::TryFromRaw<R>>::domain_of(rv)
    }

    fn try_from_raw(raw: R) -> (res: Result<Self, String>) {
        <D as crate::convert::TryFromRaw<R>>::try_from_raw(raw)
    }
}

impl<R: Message, D: crate::convert::IntoRaw<R>> CloneInto<R> for D {
    open spec fn to_raw(&self) -> R::V {
        <D as crate::convert::IntoRaw<R>>::raw_of(self@)
    }

    fn clone_into(&self) -> (raw: R) {
        let dup = self.clone();
        proof {
            <D as crate::convert::IntoRaw<R>>::clone_preserves_view(*self, dup);
        }
        dup.into_raw()
    }
}

} // verus!
