use vstd::prelude::*;

verus! {

/// An optional value that a chain of fallible steps is applied to; the
/// chain stops at the first step that gives nothing.
pub struct Try<T>(pub Option<T>);

impl<T> Try<T> {
    /// Applies `f` to the value, if there is one.
    pub fn try_with<Output, F: Fn(T) -> Option<Output>>(self, f: F) -> (r: Try<Output>)
        requires
            self.0 is Some ==> f.requires((self.0->Some_0,)),
        ensures
            match self.0 {
                Some(v) => f.ensures((v,), r.0),
                None => r.0 is None,
            },
    {
        match self {
            Try(Some(v)) => Try(f(v)),
            Try(None) => Try(None),
        }
    }

    /// Applies `f` to the value; gives `err` where there is no value or `f`
    /// gives none.
    pub fn try_or_err<E, Output, F: Fn(T) -> Option<Output>>(self, f: F, err: E) -> (r: Result<
        Output,
        E,
    >)
        requires
            self.0 is Some ==> f.requires((self.0->Some_0,)),
        ensures
            match self.0 {
                Some(v) => exists|o: Option<Output>|
                    f.ensures((v,), o) && match o {
                        Some(x) => r == Ok::<Output, E>(x),
                        None => r == Err::<Output, E>(err),
                    },
                None => r == Err::<Output, E>(err),
            },
    {
        match self.try_with(f).get() {
            Some(v) => Ok(v),
            None => Err(err),
        }
    }

    /// The value, if there is one.
    pub fn get(self) -> (r: Option<T>)
        ensures
            r == self.0,
    {
        self.0
    }
}

/// Starts a chain of steps on `v`.
pub fn try_value<T>(v: Option<T>) -> (r: Try<T>)
    ensures
        r.0 == v,
{
    Try(v)
}

} // verus!
