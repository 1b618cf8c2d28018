//! Contracts for the few items of the standard library that the trees use and
//! that come without one.
use vstd::prelude::*;

verus! {

/// `core::mem::replace` puts `src` where `dest` points and hands back what was
/// there before.
pub assume_specification<T>[ core::mem::replace::<T> ](dest: &mut T, src: T) -> (prev: T)
    ensures
        *final(dest) == src,
        prev == *old(dest),
;

/// The slice method `reverse`, on a vector: the same items, last first.
#[verifier::external_body]
pub(crate) fn reverse_items<T>(items: &mut Vec<T>)
    ensures
        final(items)@ == old(items)@.reverse(),
{
    items.reverse()
}

} // verus!
