use vstd::prelude::*;

verus! {

/// A changeset that can absorb another one and tell whether it records anything.
///
/// Each changeset type states, over its view, what absorbing yields and when it is empty.
pub trait Append: Sized + View {
    /// Whether the key types of this changeset obey the laws of a total order,
    /// which the ordered collections inside it depend on.
    spec fn keys_ordered() -> bool;

    /// The view of `a` after absorbing a changeset whose view is `b`.
    spec fn merged(a: Self::V, b: Self::V) -> Self::V;

    /// Whether a changeset with this view records nothing.
    spec fn records_nothing(v: Self::V) -> bool;

    /// Absorbs `other` into `self`.
    fn append(&mut self, other: Self)
        requires
            Self::keys_ordered(),
        ensures
            final(self)@ == Self::merged(old(self)@, other@),
    ;

    /// Whether this changeset records nothing.
    fn is_empty(&self) -> (r: bool)
        ensures
            r == Self::records_nothing(self@),
    ;
}

} // verus!
