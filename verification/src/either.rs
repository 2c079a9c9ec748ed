//! A left/right sum type used to report recoverable failures to the host
//! application as ordinary values, and a traversal helper for `Result`.
use vstd::prelude::*;

verus! {

/// Left holds a recoverable error, Right a success value.
#[derive(Debug, PartialEq)]
pub enum Either<E, A> {
    Left(E),
    Right(A),
}

impl<E, A> From<Result<A, E>> for Either<E, A> {
    fn from(value: Result<A, E>) -> (r: Self) {
        match value {
            Ok(a) => Either::Right(a),
            Err(e) => Either::Left(e),
        }
    }
}

impl<E, A> vstd::std_specs::convert::FromSpecImpl<Result<A, E>> for Either<E, A> {
    open spec fn obeys_from_spec() -> bool {
        true
    }

    open spec fn from_spec(value: Result<A, E>) -> Self {
        match value {
            Ok(a) => Either::Right(a),
            Err(e) => Either::Left(e),
        }
    }
}

/// Runs a fallible step on the success value of a container, swapping the
/// two layers: a container of values becomes a result of a container.
pub trait Traversable<T, E>: Sized {
    /// The success-or-failure reading of the container.
    spec fn as_result(self) -> Result<T, E>;

    fn traverse<U, G, F: FnOnce(T) -> Result<U, G>>(self, op: F) -> (r: Result<
        Result<U, E>,
        G,
    >)
        requires
            self.as_result() matches Ok(t) ==> op.requires((t,)),
        ensures
            self.as_result() matches Err(e) ==> r == Ok::<Result<U, E>, G>(Err::<U, E>(e)),
            self.as_result() matches Ok(t) ==> (match r {
                Ok(inner) => inner matches Ok(u) && op.ensures((t,), Ok(u)),
                Err(g) => op.ensures((t,), Err(g)),
            }),
    ;
}

impl<T, E> Traversable<T, E> for Result<T, E> {
    open spec fn as_result(self) -> Result<T, E> {
        self
    }

    fn traverse<U, G, F: FnOnce(T) -> Result<U, G>>(self, op: F) -> (r: Result<
        Result<U, E>,
        G,
    >) {
        match self {
            Err(e) => Ok(Err(e)),
            Ok(t) => match op(t) {
                Ok(u) => Ok(Ok(u)),
                Err(g) => Err(g),
            },
        }
    }
}

} // verus!
