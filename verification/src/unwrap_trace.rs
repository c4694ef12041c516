//! Taking the value out of something that may hold an error instead.

use vstd::prelude::*;

verus! {

/// A value that holds either what was asked for or an error, and can be
/// turned into what was asked for by a fallback that is given the error.
pub trait UnwrapTrace: Sized {
    type Value;

    type Error;

    /// What was asked for, if `self` holds it.
    spec fn held_value(self) -> Option<Self::Value>;

    /// The error, if `self` holds one.
    spec fn held_error(self) -> Option<Self::Error>;

    /// The value that `self` holds; or, where it holds an error, what `op`
    /// makes of the error. `message` says what went wrong in that case.
    fn unwrap_or_warn<F>(self, message: &str, op: F) -> (value: Self::Value) where
        F: FnOnce(Self::Error) -> Self::Value,

        requires
            self.held_error() matches Some(error) ==> op.requires((error,)),
        ensures
            self.held_value() matches Some(held) ==> value == held,
            self.held_value().is_none() ==> (self.held_error() matches Some(error) && op.ensures(
                (error,),
                value,
            )),
    ;
}

impl<T, U> UnwrapTrace for Result<T, U> {
    type Value = T;

    type Error = U;

    open spec fn held_value(self) -> Option<T> {
        match self {
            Ok(value) => Some(value),
            Err(_) => None,
        }
    }

    open spec fn held_error(self) -> Option<U> {
        match self {
            Ok(_) => None,
            Err(error) => Some(error),
        }
    }

    fn unwrap_or_warn<F>(self, message: &str, op: F) -> (value: T) where F: FnOnce(U) -> T {
        match self {
            Ok(value) => value,
            Err(error) => op(error),
        }
    }
}

} // verus!
