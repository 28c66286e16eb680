use vstd::prelude::*;
use crate::ring::ScalarRing;

verus! {

/// Error returned when the operand shapes do not admit a product: an
/// operand is not rectangular, or the inner dimensions disagree.
#[derive(Clone, Copy, Debug, PartialEq, Eq, Structural)]
pub struct ShapeError;

/// The mathematical view of a matrix held as a vector of row vectors:
/// a sequence of row sequences.
pub open spec fn mat_of<T>(m: Seq<Vec<T>>) -> Seq<Seq<T>> {
    m.map_values(|r: Vec<T>| r@)
}

/// Number of columns: the length of the first row (0 for an empty matrix).
pub open spec fn cols<T>(m: Seq<Seq<T>>) -> int {
    if m.len() == 0 {
        0
    } else {
        m[0].len() as int
    }
}

/// A matrix is rectangular when every row has the same length.
pub open spec fn rectangular<T>(m: Seq<Seq<T>>) -> bool {
    forall|i: int| 0 <= i < m.len() ==> (#[trigger] m[i]).len() == cols(m)
}

/// The shapes of `a` and `b` admit the product `a * b`: both operands are
/// rectangular and the inner dimensions agree.
pub open spec fn compatible<T>(a: Seq<Seq<T>>, b: Seq<Seq<T>>) -> bool {
    &&& rectangular(a)
    &&& rectangular(b)
    &&& cols(a) == b.len()
}

/// Fold of the first `k` terms of the inner product of `row` with column
/// `j` of `b`, accumulated from the additive identity in strictly
/// increasing index order. This fixed accumulation order is the reference
/// semantics that both multiplication algorithms realize, so their outputs
/// agree cell for cell even for rings whose addition is not associative.
pub open spec fn inner_prod_prefix<T: ScalarRing>(
    row: Seq<T>,
    b: Seq<Seq<T>>,
    j: int,
    k: int,
) -> T
    decreases k,
{
    if k <= 0 {
        T::zero_spec()
    } else {
        inner_prod_prefix(row, b, j, k - 1).add_spec(row[k - 1].mul_spec(b[k - 1][j]))
    }
}

/// One row of the product: the inner product of `row` with every column of `b`.
pub open spec fn product_row<T: ScalarRing>(row: Seq<T>, b: Seq<Seq<T>>) -> Seq<T> {
    Seq::new(cols(b) as nat, |j: int| inner_prod_prefix(row, b, j, b.len() as int))
}

/// The matrix product, cell by cell: row `i` of the result is the inner
/// product of row `i` of `a` with the columns of `b`.
pub open spec fn product<T: ScalarRing>(a: Seq<Seq<T>>, b: Seq<Seq<T>>) -> Seq<Seq<T>> {
    Seq::new(a.len(), |i: int| product_row(a[i], b))
}

/// In a rectangular matrix held as a vector of row vectors, every row
/// vector has the column count as its length.
pub proof fn lemma_rectangular_rows<T>(m: Seq<Vec<T>>)
    requires
        rectangular(mat_of(m)),
    ensures
        forall|t: int| 0 <= t < m.len() ==> (#[trigger] m[t])@.len() == cols(mat_of(m)),
{
    assert forall|t: int| 0 <= t < m.len() implies (#[trigger] m[t])@.len() == cols(mat_of(m)) by {
        assert(mat_of(m)[t] == m[t]@);
    }
}

/// Reports whether every row of `m` has the same length, so that the
/// matrix view is rectangular.
pub fn rows_rectangular<T>(m: &Vec<Vec<T>>) -> (r: bool)
    ensures
        r == rectangular(mat_of(m@)),
{
    if m.len() == 0 {
        return true;
    }
    let w: usize = m[0].len();
    let mut i: usize = 1;
    while i < m.len()
        invariant
            1 <= i <= m@.len(),
            w == cols(mat_of(m@)),
            forall|t: int| 0 <= t < i ==> (#[trigger] mat_of(m@)[t]).len() == w,
        decreases m@.len() - i,
    {
        if m[i].len() != w {
            assert(mat_of(m@)[i as int].len() != cols(mat_of(m@)));
            return false;
        }
        i += 1;
    }
    true
}

/// Reports whether the shapes of `a` and `b` admit the product `a * b`.
pub fn shapes_compatible<T>(a: &Vec<Vec<T>>, b: &Vec<Vec<T>>) -> (r: bool)
    ensures
        r == compatible(mat_of(a@), mat_of(b@)),
{
    if !rows_rectangular(a) {
        return false;
    }
    if !rows_rectangular(b) {
        return false;
    }
    let ac: usize = if a.len() == 0 { 0 } else { a[0].len() };
    ac == b.len()
}

} // verus!
