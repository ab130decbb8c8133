use vstd::prelude::*;

verus! {

/// `then` for a computation that can fail: the computation runs only where
/// the condition holds, and its error comes out as the error of the whole.
pub trait ThenTry: Sized {
    /// True where the condition holds.
    spec fn holds(self) -> bool;

    /// Runs `f` where the condition holds and gives its value or its error;
    /// gives no value, and does not run `f`, where it does not hold.
    fn then_try<T, E, F: FnOnce() -> Result<T, E>>(self, f: F) -> (result: Result<Option<T>, E>)
        requires
            self.holds() ==> f.requires(()),
        ensures
            !self.holds() ==> result == Ok::<Option<T>, E>(None),
            self.holds() ==> match result {
                Ok(Some(value)) => f.ensures((), Ok(value)),
                Ok(None) => false,
                Err(error) => f.ensures((), Err(error)),
            },
    ;
}

impl ThenTry for bool {
    open spec fn holds(self) -> bool {
        self
    }

    fn then_try<T, E, F: FnOnce() -> Result<T, E>>(self, f: F) -> (result: Result<Option<T>, E>) {
        if self {
            match f() {
                Ok(value) => Ok(Some(value)),
                Err(error) => Err(error),
            }
        } else {
            Ok(None)
        }
    }
}

} // verus!
