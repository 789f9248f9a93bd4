//! Pixel positions, held in nalgebra's two-component column vector.
//!
//! Verus does not read nalgebra. The vector is declared as an opaque type,
//! what it holds gets a name, and the two calls that the library makes are
//! wrapped with contracts that are taken on trust.

use vstd::prelude::*;

verus! {

/// `nalgebra::Matrix`, opaque: the type behind `nalgebra::Vector2`.
#[verifier::external_type_specification]
#[verifier::external_body]
#[verifier::reject_recursive_types(T)]
#[verifier::reject_recursive_types(R)]
#[verifier::reject_recursive_types(C)]
#[verifier::reject_recursive_types(S)]
pub struct ExMatrix<T, R, C, S>(nalgebra::Matrix<T, R, C, S>);

/// `nalgebra::Const`, opaque: a dimension known at compile time.
#[verifier::external_type_specification]
#[verifier::external_body]
pub struct ExConst<const R: usize>(nalgebra::Const<R>);

/// `nalgebra::ArrayStorage`, opaque: the array that holds the components
/// of a vector of fixed size.
#[verifier::external_type_specification]
#[verifier::external_body]
#[verifier::reject_recursive_types(T)]
pub struct ExArrayStorage<T, const R: usize, const C: usize>(nalgebra::ArrayStorage<T, R, C>);

/// What a `nalgebra::Vector2<usize>` holds: its components in index
/// order. For a pixel position that is the column, then the row.
pub uninterp spec fn components(pos: nalgebra::Vector2<usize>) -> Seq<usize>;

/// The column that `pos` names: its first component.
pub open spec fn column(pos: nalgebra::Vector2<usize>) -> int {
    components(pos)[0] as int
}

/// The row that `pos` names: its second component.
pub open spec fn row(pos: nalgebra::Vector2<usize>) -> int {
    components(pos)[1] as int
}

/// `nalgebra::Vector2::new`. Trusted: the vector built holds exactly the
/// two arguments, in the order given.
#[verifier::external_body]
pub(crate) fn position(x: usize, y: usize) -> (pos: nalgebra::Vector2<usize>)
    ensures
        components(pos) == seq![x, y],
{
    nalgebra::Vector2::new(x, y)
}

/// `Index<usize>` of `nalgebra::Matrix`, on a `Vector2`. Trusted: it
/// returns the component at index `i`. It panics on an index from 2 on,
/// which `requires` leaves out.
#[verifier::external_body]
pub(crate) fn component(pos: &nalgebra::Vector2<usize>, i: usize) -> (c: usize)
    requires
        i < 2,
    ensures
        c == components(*pos)[i as int],
{
    pos[i]
}

} // verus!
