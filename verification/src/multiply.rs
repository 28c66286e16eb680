use vstd::prelude::*;
use crate::matrix::{
    ShapeError, cols, compatible, inner_prod_prefix, lemma_rectangular_rows, mat_of, product,
    product_row, rectangular, shapes_compatible,
};
use crate::ring::ScalarRing;
use rayon::iter::{IntoParallelIterator, ParallelIterator};

verus! {

/// The collection `pairs` carries an entry tagged with row index `i`.
pub open spec fn has_key<T>(pairs: Seq<(usize, Vec<T>)>, i: int) -> bool {
    exists|q: int| 0 <= q < pairs.len() && (#[trigger] pairs[q]).0 == i
}

/// Computes one output row: the inner product of `row` with every column
/// of `b`, each cell accumulated from the additive identity in strictly
/// increasing inner-index order.
pub fn compute_inner_prods<T: ScalarRing>(row: &Vec<T>, b: &Vec<Vec<T>>) -> (r: Vec<T>)
    requires
        rectangular(mat_of(b@)),
        row@.len() == b@.len(),
    ensures
        r@ == product_row(row@, mat_of(b@)),
{
    proof {
        lemma_rectangular_rows(b@);
    }
    let m: usize = if b.len() == 0 {
        0
    } else {
        b[0].len()
    };
    let mut out: Vec<T> = Vec::new();
    let mut j: usize = 0;
    while j < m
        invariant
            j <= m,
            m == cols(mat_of(b@)),
            rectangular(mat_of(b@)),
            forall|t: int| 0 <= t < b@.len() ==> (#[trigger] b@[t])@.len() == m,
            row@.len() == b@.len(),
            out@.len() == j,
            forall|q: int| 0 <= q < j ==> #[trigger] out@[q] == inner_prod_prefix(
                row@,
                mat_of(b@),
                q,
                b@.len() as int,
            ),
        decreases m - j,
    {
        let mut acc = T::zero();
        let mut k: usize = 0;
        while k < b.len()
            invariant
                k <= b@.len(),
                j < m,
                m == cols(mat_of(b@)),
                rectangular(mat_of(b@)),
                forall|t: int| 0 <= t < b@.len() ==> (#[trigger] b@[t])@.len() == m,
                row@.len() == b@.len(),
                acc == inner_prod_prefix(row@, mat_of(b@), j as int, k as int),
            decreases b@.len() - k,
        {
            acc = acc.add_val(row[k].mul_val(b[k][j]));
            k += 1;
        }
        out.push(acc);
        j += 1;
    }
    assert(out@ =~= product_row(row@, mat_of(b@)));
    out
}

/// Relies on rayon's parallel iterator over the range of row indices:
/// `map` applies the row computation to every index in the range exactly
/// once, on the shared worker pool, and `collect` gathers every produced
/// pair. No completion or collection order is assumed: only that each
/// collected pair carries its own row index together with the row
/// computed for that index, and that every row index is represented.
#[verifier::external_body]
fn par_compute_rows<T: ScalarRing>(a: &Vec<Vec<T>>, b: &Vec<Vec<T>>) -> (r: Vec<(usize, Vec<T>)>)
    requires
        compatible(mat_of(a@), mat_of(b@)),
    ensures
        r@.len() == a@.len(),
        forall|q: int| 0 <= q < r@.len() ==> (#[trigger] r@[q]).0 < a@.len() && r@[q].1@
            == product_row(mat_of(a@)[r@[q].0 as int], mat_of(b@)),
        forall|i: int| 0 <= i < a@.len() ==> has_key(r@, i),
{
    (0..a.len()).into_par_iter().map(|i: usize| (i, compute_inner_prods(&a[i], b))).collect()
}

/// Copies one row of scalars.
fn copy_row<T: Copy>(row: &Vec<T>) -> (r: Vec<T>)
    ensures
        r@ == row@,
{
    let mut out: Vec<T> = Vec::new();
    let mut k: usize = 0;
    while k < row.len()
        invariant
            k <= row@.len(),
            out@.len() == k,
            forall|t: int| 0 <= t < k ==> out@[t] == row@[t],
        decreases row@.len() - k,
    {
        out.push(row[k]);
        k += 1;
    }
    assert(out@ =~= row@);
    out
}

/// Sequential multiplier, the correctness oracle's reference: the product
/// computed by one triple loop with in-place per-cell accumulation, each
/// cell folded from the additive identity in strictly increasing
/// inner-index order. Returns the shape-mismatch error, before any
/// computation, exactly when the operand shapes admit no product.
pub fn multiply_single_threaded<T: ScalarRing>(a: &Vec<Vec<T>>, b: &Vec<Vec<T>>) -> (r: Result<
    Vec<Vec<T>>,
    ShapeError,
>)
    ensures
        match r {
            Ok(c) => compatible(mat_of(a@), mat_of(b@)) && mat_of(c@) == product(
                mat_of(a@),
                mat_of(b@),
            ),
            Err(_) => !compatible(mat_of(a@), mat_of(b@)),
        },
{
    if !shapes_compatible(a, b) {
        return Err(ShapeError);
    }
    proof {
        lemma_rectangular_rows(a@);
        lemma_rectangular_rows(b@);
    }
    let m: usize = if b.len() == 0 {
        0
    } else {
        b[0].len()
    };
    let mut c: Vec<Vec<T>> = Vec::new();
    let mut i: usize = 0;
    while i < a.len()
        invariant
            i <= a@.len(),
            m == cols(mat_of(b@)),
            forall|t: int| 0 <= t < a@.len() ==> (#[trigger] a@[t])@.len() == b@.len(),
            forall|t: int| 0 <= t < b@.len() ==> (#[trigger] b@[t])@.len() == m,
            compatible(mat_of(a@), mat_of(b@)),
            c@.len() == i,
            forall|t: int| 0 <= t < i ==> (#[trigger] c@[t])@ == product_row(
                mat_of(a@)[t],
                mat_of(b@),
            ),
        decreases a@.len() - i,
    {
        let mut row_out: Vec<T> = Vec::new();
        let mut j: usize = 0;
        while j < m
            invariant
                j <= m,
                row_out@.len() == j,
                forall|q: int| 0 <= q < j ==> #[trigger] row_out@[q] == T::zero_spec(),
            decreases m - j,
        {
            row_out.push(T::zero());
            j += 1;
        }
        let mut j: usize = 0;
        while j < m
            invariant
                j <= m,
                i < a@.len(),
                m == cols(mat_of(b@)),
                forall|t: int| 0 <= t < a@.len() ==> (#[trigger] a@[t])@.len() == b@.len(),
                forall|t: int| 0 <= t < b@.len() ==> (#[trigger] b@[t])@.len() == m,
                compatible(mat_of(a@), mat_of(b@)),
                row_out@.len() == m,
                forall|q: int| 0 <= q < j ==> #[trigger] row_out@[q] == inner_prod_prefix(
                    mat_of(a@)[i as int],
                    mat_of(b@),
                    q,
                    b@.len() as int,
                ),
                forall|q: int| j <= q < m ==> #[trigger] row_out@[q] == T::zero_spec(),
            decreases m - j,
        {
            let mut k: usize = 0;
            while k < b.len()
                invariant
                    k <= b@.len(),
                    j < m,
                    i < a@.len(),
                    m == cols(mat_of(b@)),
                    forall|t: int| 0 <= t < a@.len() ==> (#[trigger] a@[t])@.len() == b@.len(),
                    forall|t: int| 0 <= t < b@.len() ==> (#[trigger] b@[t])@.len() == m,
                    compatible(mat_of(a@), mat_of(b@)),
                    row_out@.len() == m,
                    forall|q: int| 0 <= q < j ==> #[trigger] row_out@[q] == inner_prod_prefix(
                        mat_of(a@)[i as int],
                        mat_of(b@),
                        q,
                        b@.len() as int,
                    ),
                    row_out@[j as int] == inner_prod_prefix(
                        mat_of(a@)[i as int],
                        mat_of(b@),
                        j as int,
                        k as int,
                    ),
                    forall|q: int| j < q < m ==> #[trigger] row_out@[q] == T::zero_spec(),
                decreases b@.len() - k,
            {
                let cell = row_out[j].add_val(a[i][k].mul_val(b[k][j]));
                row_out.set(j, cell);
                k += 1;
            }
            j += 1;
        }
        assert(row_out@ =~= product_row(mat_of(a@)[i as int], mat_of(b@)));
        c.push(row_out);
        i += 1;
    }
    assert(mat_of(c@) =~~= product(mat_of(a@), mat_of(b@)));
    Ok(c)
}

/// Parallel multiplier: decomposes the product by output row, dispatches
/// one work item per row to the shared worker pool, collects the tagged
/// rows in whatever order the workers finish, and reassembles them by row
/// index, so the output row order is deterministic although the
/// completion order is not. Returns the same product, cell for cell, as
/// the sequential multiplier, and the same shape-mismatch error, before
/// any dispatch, exactly when the operand shapes admit no product.
pub fn multiply_multi_threaded<T: ScalarRing>(a: &Vec<Vec<T>>, b: &Vec<Vec<T>>) -> (r: Result<
    Vec<Vec<T>>,
    ShapeError,
>)
    ensures
        match r {
            Ok(c) => compatible(mat_of(a@), mat_of(b@)) && mat_of(c@) == product(
                mat_of(a@),
                mat_of(b@),
            ),
            Err(_) => !compatible(mat_of(a@), mat_of(b@)),
        },
{
    if !shapes_compatible(a, b) {
        return Err(ShapeError);
    }
    let pairs = par_compute_rows(a, b);
    let mut c: Vec<Vec<T>> = Vec::new();
    let mut i: usize = 0;
    while i < a.len()
        invariant
            i <= a@.len(),
            compatible(mat_of(a@), mat_of(b@)),
            pairs@.len() == a@.len(),
            forall|q: int| 0 <= q < pairs@.len() ==> (#[trigger] pairs@[q]).0 < a@.len()
                && pairs@[q].1@ == product_row(mat_of(a@)[pairs@[q].0 as int], mat_of(b@)),
            forall|t: int| 0 <= t < a@.len() ==> has_key(pairs@, t),
            c@.len() == i,
            forall|t: int| 0 <= t < i ==> (#[trigger] c@[t])@ == product_row(
                mat_of(a@)[t],
                mat_of(b@),
            ),
        decreases a@.len() - i,
    {
        let mut q: usize = 0;
        while q < pairs.len() && pairs[q].0 != i
            invariant
                q <= pairs@.len(),
                i < a@.len(),
                pairs@.len() == a@.len(),
                forall|t: int| 0 <= t < a@.len() ==> has_key(pairs@, t),
                forall|t: int| 0 <= t < q ==> (#[trigger] pairs@[t]).0 != i,
            decreases pairs@.len() - q,
        {
            q += 1;
        }
        assert(q < pairs@.len() && pairs@[q as int].0 == i) by {
            assert(has_key(pairs@, i as int));
            let w: int = choose|w: int| 0 <= w < pairs@.len() && (#[trigger] pairs@[w]).0 == i as int;
            assert(w >= q);
        }
        let row = copy_row(&pairs[q].1);
        c.push(row);
        i += 1;
    }
    assert(mat_of(c@) =~~= product(mat_of(a@), mat_of(b@)));
    Ok(c)
}

} // verus!
