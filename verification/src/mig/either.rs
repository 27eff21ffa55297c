//! A value that is one of two alternatives.
use vstd::prelude::*;

verus! {

/// Either a left or a right value. Descriptions and values use it wherever a
/// slot holds one of two shapes, such as a composite or a bare data element.
#[derive(Copy, Clone, PartialEq, Eq, PartialOrd, Ord, Hash, Debug)]
pub enum Either<L, R> {
    Left(L),
    Right(R),
}

impl<L: View, R: View> View for Either<L, R> {
    type V = Either<L::V, R::V>;

    open spec fn view(&self) -> Either<L::V, R::V> {
        match self {
            Either::Left(l) => Either::Left(l@),
            Either::Right(r) => Either::Right(r@),
        }
    }
}

} // verus!
