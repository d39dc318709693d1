//! Return codes of the media library.
use vstd::prelude::*;

verus! {

/// A code that is negative for an error and a result otherwise.
pub trait RetUpgrade: Sized {
    /// Whether the code stands for an error.
    spec fn is_error(self) -> bool;

    /// The code as it is.
    spec fn code(self) -> i32;

    /// Tells results from errors.
    fn upgrade(self) -> (r: Result<i32, i32>)
        ensures
            r == if self.is_error() {
                Err::<i32, i32>(self.code())
            } else {
                Ok::<i32, i32>(self.code())
            },
    ;
}

impl RetUpgrade for i32 {
    open spec fn is_error(self) -> bool {
        self < 0
    }

    open spec fn code(self) -> i32 {
        self
    }

    fn upgrade(self) -> (r: Result<i32, i32>) {
        if self < 0 {
            Err(self)
        } else {
            Ok(self)
        }
    }
}

/// A code is an error if and only if it is below zero, and is told as it is.
pub proof fn law_codes_below_zero_are_errors(n: i32)
    ensures
        n.is_error() <==> n < 0,
        n.code() == n,
{
}

} // verus!
