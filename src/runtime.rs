//! Traits that generated error enums implement and that call sites use.

use vstd::prelude::*;

verus! {

/// Conversion of one declared error source into a generated error enum.
///
/// Kept apart from `From` so that one source type can belong to the source
/// lists of several generated enums without overlapping impls.
pub trait ErrorMancerFrom<T>: Sized {
    fn from(value: T) -> Self;
}

/// Re-expression of a generated error enum as a broader enum that can hold
/// every one of its sources.
pub trait FlattenInto<T>: Sized {
    fn flatten(self) -> T;
}

/// Upcasting of the error side of a `Result` into a broader error enum.
pub trait ResultExt<T, E>: Sized {
    /// Converts the current error `E` into the super error `S` through
    /// `flatten`; an `Ok` value passes through unchanged.
    fn into_super_error<S>(self) -> (r: Result<T, S>) where E: FlattenInto<S>;
}

impl<T, E> ResultExt<T, E> for Result<T, E> {
    fn into_super_error<S>(self) -> (r: Result<T, S>) where E: FlattenInto<S>
        ensures
            self is Ok <==> r is Ok,
            self is Ok ==> r == Ok::<T, S>(self->Ok_0),
            self is Err ==> (r matches Err(s) && call_ensures(E::flatten, (self->Err_0,), s)),
    {
        match self {
            Ok(v) => Ok(v),
            Err(e) => Err(e.flatten()),
        }
    }
}

} // verus!
