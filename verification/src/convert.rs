//! The ordinary conversions a domain-type author writes for one raw-type
//! pairing.  These are the rich, type-specific forms; the object-safe
//! counterparts in [`crate::erased`] are derived from them automatically.

use vstd::prelude::*;

use crate::message::Message;

verus! {

/// Fallible construction of a domain value from a raw one.
///
/// The conversion is partial: an arbitrary raw value may violate the domain
/// type's invariants, in which case construction fails with a displayable
/// cause.  `accepts` delimits the raw values that pass validation and
/// `domain_of` gives the value built from an accepted one.
pub trait TryFromRaw<R: Message>: View + Sized {
    /// Which raw values satisfy the domain invariants.
    spec fn accepts(rv: R::V) -> bool;

    /// The domain value built from an accepted raw value.
    spec fn domain_of(rv: R::V) -> Self::V;

    /// Validate and construct; fails exactly on raw values that violate
    /// the domain invariants.
    fn try_from_raw(raw: R) -> (res: Result<Self, String>)
        ensures
            match res {
                Ok(d) => Self::accepts(raw@) && d@ == Self::domain_of(raw@),
                Err(_) => !Self::accepts(raw@),
            },
    ;
}

/// Total conversion of a domain value into its unvalidated raw form.
///
/// The conversion consumes the domain value, so the erased adapter
/// duplicates the value first; `clone_preserves_view` is the duplication
/// obligation that makes that seam sound.
pub trait IntoRaw<R: Message>: View + Clone + Sized {
    /// The raw re-expression of a domain value.
    spec fn raw_of(dv: Self::V) -> R::V;

    /// Re-express the domain value as a raw one; never fails.
    fn into_raw(self) -> (raw: R)
        ensures
            raw@ == Self::raw_of(self@),
    ;

    /// Duplication is faithful: a clone of a domain value has the same
    /// view as the original.
    proof fn clone_preserves_view(a: Self, b: Self)
        requires
            cloned(a, b),
        ensures
            b@ == a@,
    ;
}

} // verus!
