use vstd::prelude::*;
use crate::matrix::{cols, compatible, inner_prod_prefix, product, product_row, rectangular};
use crate::ring::ScalarRing;

verus! {

/// The additive identity is neutral for addition on both sides.
pub open spec fn additive_identity_holds<T: ScalarRing>() -> bool {
    &&& forall|x: T| #[trigger] T::zero_spec().add_spec(x) == x
    &&& forall|x: T| #[trigger] x.add_spec(T::zero_spec()) == x
}

/// `one` is a left identity for multiplication, and the additive identity
/// annihilates multiplication on the left.
pub open spec fn left_multiplicative_identity_holds<T: ScalarRing>(one: T) -> bool {
    &&& forall|x: T| #[trigger] one.mul_spec(x) == x
    &&& forall|x: T| #[trigger] T::zero_spec().mul_spec(x) == T::zero_spec()
}

/// The additive identity annihilates multiplication on the right.
pub open spec fn right_absorption_holds<T: ScalarRing>() -> bool {
    forall|x: T| #[trigger] x.mul_spec(T::zero_spec()) == T::zero_spec()
}

/// `one` is a right identity for multiplication.
pub open spec fn right_multiplicative_identity_holds<T: ScalarRing>(one: T) -> bool {
    forall|x: T| #[trigger] x.mul_spec(one) == x
}

/// The identity matrix of dimension `n`, over a ring whose multiplicative
/// identity is `one`.
pub open spec fn identity_mat<T: ScalarRing>(n: nat, one: T) -> Seq<Seq<T>> {
    Seq::new(
        n,
        |i: int|
            Seq::new(
                n,
                |j: int|
                    if i == j {
                        one
                    } else {
                        T::zero_spec()
                    },
            ),
    )
}

/// The all-zero matrix of `n` rows and `m` columns.
pub open spec fn zero_mat<T: ScalarRing>(n: nat, m: nat) -> Seq<Seq<T>> {
    Seq::new(n, |i: int| Seq::new(m, |j: int| T::zero_spec()))
}

/// Every cell of `c` is the additive identity.
pub open spec fn all_zero<T: ScalarRing>(c: Seq<Seq<T>>) -> bool {
    forall|i: int, j: int|
        0 <= i < c.len() && 0 <= j < c[i].len() ==> #[trigger] c[i][j] == T::zero_spec()
}

/// Equivalence law: on the same operands, any output meeting the parallel
/// multiplier's contract equals any output meeting the sequential
/// multiplier's contract, cell for cell — both contracts name the one
/// matrix product, folded in the same fixed per-cell order.
pub proof fn lemma_multipliers_agree<T: ScalarRing>(
    a: Seq<Seq<T>>,
    b: Seq<Seq<T>>,
    c_sequential: Seq<Seq<T>>,
    c_parallel: Seq<Seq<T>>,
)
    requires
        c_sequential == product(a, b),
        c_parallel == product(a, b),
    ensures
        c_sequential == c_parallel,
{
}

/// Determinism law: the parallel multiplier's contract pins its output to
/// a function of the operands alone, so repeated runs on the same fixed
/// operands yield identical output, whatever order the workers finished
/// in on each run.
pub proof fn lemma_parallel_deterministic<T: ScalarRing>(
    a: Seq<Seq<T>>,
    b: Seq<Seq<T>>,
    c_first: Seq<Seq<T>>,
    c_second: Seq<Seq<T>>,
)
    requires
        c_first == product(a, b),
        c_second == product(a, b),
    ensures
        c_first == c_second,
{
}

/// The inner product of row `i` of the identity matrix with column `j` of
/// `a` folds to the additive identity while the fold has not yet passed
/// position `i`, and to `a[i][j]` afterwards.
proof fn lemma_identity_inner_prod<T: ScalarRing>(a: Seq<Seq<T>>, one: T, i: int, j: int, k: int)
    requires
        additive_identity_holds::<T>(),
        left_multiplicative_identity_holds::<T>(one),
        0 <= i < a.len(),
        0 <= k <= a.len(),
    ensures
        inner_prod_prefix(identity_mat(a.len(), one)[i], a, j, k) == if k <= i {
            T::zero_spec()
        } else {
            a[i][j]
        },
    decreases k,
{
    if k > 0 {
        lemma_identity_inner_prod(a, one, i, j, k - 1);
    }
}

/// Identity law: multiplying a matrix on the left by the identity matrix
/// of matching dimension returns the original matrix, for any ring whose
/// multiplicative identity behaves as one.
pub proof fn lemma_identity_times_matrix<T: ScalarRing>(a: Seq<Seq<T>>, one: T)
    requires
        rectangular(a),
        additive_identity_holds::<T>(),
        left_multiplicative_identity_holds::<T>(one),
    ensures
        compatible(identity_mat(a.len(), one), a),
        product(identity_mat(a.len(), one), a) == a,
{
    let ident = identity_mat(a.len(), one);
    assert(rectangular(ident));
    assert forall|i: int, j: int|
        0 <= i < a.len() && 0 <= j < cols(a) implies product(ident, a)[i][j] == a[i][j] by {
        lemma_identity_inner_prod(a, one, i, j, a.len() as int);
    }
    assert forall|i: int| 0 <= i < a.len() implies product(ident, a)[i] =~= a[i] by {
        assert(product(ident, a)[i].len() == cols(a));
        assert(a[i].len() == cols(a));
    }
    assert(product(ident, a) =~= a);
}

/// The inner product of row `i` of `a` with column `j` of the identity
/// matrix folds to the additive identity while the fold has not yet
/// passed position `j`, and to `a[i][j]` afterwards.
proof fn lemma_identity_inner_prod_right<T: ScalarRing>(
    a: Seq<Seq<T>>,
    one: T,
    i: int,
    j: int,
    k: int,
)
    requires
        additive_identity_holds::<T>(),
        right_multiplicative_identity_holds::<T>(one),
        right_absorption_holds::<T>(),
        0 <= i < a.len(),
        0 <= j < cols(a),
        0 <= k <= cols(a),
    ensures
        inner_prod_prefix(a[i], identity_mat(cols(a) as nat, one), j, k) == if k <= j {
            T::zero_spec()
        } else {
            a[i][j]
        },
    decreases k,
{
    if k > 0 {
        lemma_identity_inner_prod_right(a, one, i, j, k - 1);
    }
}

/// Identity law, right-hand form: multiplying a matrix on the right by
/// the identity matrix of matching dimension returns the original matrix,
/// for any ring whose multiplicative identity behaves as one.
pub proof fn lemma_matrix_times_identity<T: ScalarRing>(a: Seq<Seq<T>>, one: T)
    requires
        rectangular(a),
        additive_identity_holds::<T>(),
        right_multiplicative_identity_holds::<T>(one),
        right_absorption_holds::<T>(),
    ensures
        compatible(a, identity_mat(cols(a) as nat, one)),
        product(a, identity_mat(cols(a) as nat, one)) == a,
{
    let ident = identity_mat::<T>(cols(a) as nat, one);
    assert(rectangular(ident));
    assert forall|i: int, j: int|
        0 <= i < a.len() && 0 <= j < cols(a) implies product(a, ident)[i][j] == a[i][j] by {
        lemma_identity_inner_prod_right(a, one, i, j, ident.len() as int);
    }
    assert forall|i: int| 0 <= i < a.len() implies product(a, ident)[i] =~= a[i] by {
        assert(product(a, ident)[i].len() == cols(ident));
        assert(a[i].len() == cols(a));
    }
    assert(product(a, ident) =~= a);
}

/// The inner product of any row with a column of the all-zero matrix
/// folds to the additive identity.
proof fn lemma_zero_inner_prod<T: ScalarRing>(row: Seq<T>, n: nat, m: nat, j: int, k: int)
    requires
        additive_identity_holds::<T>(),
        right_absorption_holds::<T>(),
        0 <= k <= n,
        0 <= j < m,
    ensures
        inner_prod_prefix(row, zero_mat(n, m), j, k) == T::zero_spec(),
    decreases k,
{
    if k > 0 {
        lemma_zero_inner_prod(row, n, m, j, k - 1);
    }
}

/// Zero law: multiplying any rectangular matrix by the all-zero matrix of
/// matching shape yields an all-zero result with one row per row of the
/// multiplicand.
pub proof fn lemma_matrix_times_zero<T: ScalarRing>(a: Seq<Seq<T>>, m: nat)
    requires
        rectangular(a),
        additive_identity_holds::<T>(),
        right_absorption_holds::<T>(),
    ensures
        compatible(a, zero_mat(cols(a) as nat, m)),
        product(a, zero_mat(cols(a) as nat, m)).len() == a.len(),
        all_zero(product(a, zero_mat(cols(a) as nat, m))),
{
    let z = zero_mat::<T>(cols(a) as nat, m);
    assert(rectangular(z));
    assert forall|i: int, j: int|
        0 <= i < a.len() && 0 <= j < product(a, z)[i].len() implies #[trigger] product(a, z)[i][j]
        == T::zero_spec() by {
        lemma_zero_inner_prod(a[i], cols(a) as nat, m, j, z.len() as int);
    }
}

/// The wrapping 64-bit integer ring satisfies the identity and absorption
/// laws that the identity-matrix and zero-matrix laws assume, with 1 as
/// the multiplicative identity.
pub proof fn lemma_i64_ring_laws()
    ensures
        additive_identity_holds::<i64>(),
        left_multiplicative_identity_holds::<i64>(1i64),
        right_multiplicative_identity_holds::<i64>(1i64),
        right_absorption_holds::<i64>(),
{
    assert forall|x: i64| #[trigger] (1i64).mul_spec(x) == x by {
        lemma_i64_signed_crop_identity(x);
    }
    assert forall|x: i64| #[trigger] x.mul_spec(1i64) == x by {
        lemma_i64_signed_crop_identity(x);
    }
    assert forall|x: i64| #[trigger] i64::zero_spec().mul_spec(x) == i64::zero_spec() by {
        assert(x * 0 == 0);
        assert(0 * x == 0);
    }
    assert forall|x: i64| #[trigger] x.mul_spec(i64::zero_spec()) == i64::zero_spec() by {
        assert(x * 0 == 0);
    }
}

/// Cropping a value already in the 64-bit signed range leaves it unchanged.
proof fn lemma_i64_signed_crop_identity(x: i64)
    ensures
        vstd::wrapping::i64_specs::signed_crop(x as int) == x,
{
    let range = 0x1_0000_0000_0000_0000int;
    if x >= 0 {
        assert((x as int) % range == x as int) by {
            vstd::arithmetic::div_mod::lemma_small_mod(x as nat, range as nat);
        }
    } else {
        assert((x as int) % range == x + range) by {
            vstd::arithmetic::div_mod::lemma_mod_add_multiples_vanish(x as int, range);
            vstd::arithmetic::div_mod::lemma_small_mod((x + range) as nat, range as nat);
        }
    }
}

} // verus!
