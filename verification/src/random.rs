use vstd::prelude::*;
use crate::matrix::{cols, mat_of, rectangular};
use rand::Rng;

verus! {

/// Smallest value the random scalar source yields.
pub const RANDOM_MIN: i64 = -32768;

/// Largest value the random scalar source yields.
pub const RANDOM_MAX: i64 = 32767;

/// Relies on rand's thread-local generator: `gen` on the 16-bit signed
/// integer type yields some value of that type; nothing more is assumed
/// of the draw. The value is widened to the matrix element type, so every
/// outcome lies in the 16-bit signed range.
#[verifier::external_body]
fn random_scalar() -> (r: i64)
    ensures
        RANDOM_MIN <= r <= RANDOM_MAX,
{
    rand::thread_rng().gen::<i16>() as i64
}

/// Generates an `n` by `m` matrix of scalars drawn from the thread-local
/// random source. The shape is fixed by the arguments; the entries are
/// arbitrary values in the source's range.
pub fn gen_random_matrix(n: usize, m: usize) -> (r: Vec<Vec<i64>>)
    ensures
        r@.len() == n,
        forall|i: int| 0 <= i < n ==> (#[trigger] r@[i])@.len() == m,
        rectangular(mat_of(r@)),
        n > 0 ==> cols(mat_of(r@)) == m,
        forall|i: int, j: int|
            0 <= i < n && 0 <= j < m ==> RANDOM_MIN <= #[trigger] mat_of(r@)[i][j] <= RANDOM_MAX,
{
    let mut out: Vec<Vec<i64>> = Vec::new();
    let mut i: usize = 0;
    while i < n
        invariant
            i <= n,
            out@.len() == i,
            forall|t: int| 0 <= t < i ==> (#[trigger] out@[t])@.len() == m,
            forall|t: int, j: int|
                0 <= t < i && 0 <= j < m ==> RANDOM_MIN <= #[trigger] out@[t]@[j] <= RANDOM_MAX,
        decreases n - i,
    {
        let mut row: Vec<i64> = Vec::new();
        let mut j: usize = 0;
        while j < m
            invariant
                j <= m,
                row@.len() == j,
                forall|t: int| 0 <= t < j ==> RANDOM_MIN <= #[trigger] row@[t] <= RANDOM_MAX,
            decreases m - j,
        {
            row.push(random_scalar());
            j += 1;
        }
        out.push(row);
        i += 1;
    }
    assert forall|i2: int, j2: int|
        0 <= i2 < n && 0 <= j2 < m implies RANDOM_MIN <= #[trigger] mat_of(out@)[i2][j2]
        <= RANDOM_MAX by {
        assert(mat_of(out@)[i2] == out@[i2]@);
    }
    out
}

} // verus!
