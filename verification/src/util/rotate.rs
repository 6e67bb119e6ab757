//! Pairs turned around.
use vstd::prelude::*;

verus! {

/// A value that holds a pair and can hold the pair turned around.
pub trait Rotate {
    /// The type that holds the pair turned around.
    type Other;

    /// This value with the two parts of its pair exchanged.
    fn rot(self) -> (r: Self::Other);
}

impl<T, U> Rotate for (T, U) {
    type Other = (U, T);

    fn rot(self) -> (r: (U, T))
        ensures
            r == (self.1, self.0),
    {
        let (a, b) = self;
        (b, a)
    }
}

impl<T, U, E> Rotate for Result<(T, U), E> {
    type Other = Result<(U, T), E>;

    fn rot(self) -> (r: Result<(U, T), E>)
        ensures
            r == match self {
                Ok(p) => Ok::<(U, T), E>((p.1, p.0)),
                Err(e) => Err(e),
            },
    {
        match self {
            Ok((a, b)) => Ok((b, a)),
            Err(e) => Err(e),
        }
    }
}

impl<T, U> Rotate for Option<(T, U)> {
    type Other = Option<(U, T)>;

    fn rot(self) -> (r: Option<(U, T)>)
        ensures
            r == match self {
                Some(p) => Some((p.1, p.0)),
                None => None::<(U, T)>,
            },
    {
        match self {
            Some((a, b)) => Some((b, a)),
            None => None,
        }
    }
}

/// A function that returns a pair, or an error, with the two parts of the pair exchanged.
pub struct Rotated<F> {
    pub f: F,
}

impl<F> Rotated<F> {
    /// Calls the function and exchanges the two parts of the pair that it returns.
    pub fn call<T, U, E>(&self) -> (r: Result<(U, T), E>) where F: Fn() -> Result<(T, U), E>
        requires
            self.f.requires(()),
        ensures
            match r {
                Ok(p) => self.f.ensures((), Ok((p.1, p.0))),
                Err(e) => self.f.ensures((), Err(e)),
            },
    {
        match (self.f)() {
            Ok((a, b)) => Ok((b, a)),
            Err(e) => Err(e),
        }
    }
}

/// A function that returns a pair, or an error, and can be turned into one that returns the
/// pair turned around.
pub trait RotateFn<T, U, E>: Sized {
    /// This function with the two parts of the pair that it returns exchanged.
    fn rot(self) -> (r: Rotated<Self>)
        ensures
            r.f == self,
    ;
}

impl<T, U, E, F: Fn() -> Result<(T, U), E>> RotateFn<T, U, E> for F {
    fn rot(self) -> (r: Rotated<Self>) {
        Rotated { f: self }
    }
}

} // verus!
