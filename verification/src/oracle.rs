use vstd::prelude::*;
use crate::matrix::mat_of;
use crate::ring::ScalarRing;

verus! {

/// Equivalence oracle: reports whether two computed matrices are equal
/// elementwise, which for the mathematical views is equality outright.
/// A benchmark run is aborted by its driver when this returns false for
/// the two multipliers' outputs, since a disagreement indicates a defect
/// in the decomposition or the reassembly, never a condition to tolerate.
pub fn matrices_equal<T: ScalarRing>(a: &Vec<Vec<T>>, b: &Vec<Vec<T>>) -> (r: bool)
    ensures
        r == (mat_of(a@) == mat_of(b@)),
{
    if a.len() != b.len() {
        assert(mat_of(a@).len() != mat_of(b@).len());
        return false;
    }
    let mut i: usize = 0;
    while i < a.len()
        invariant
            i <= a@.len(),
            a@.len() == b@.len(),
            forall|t: int| 0 <= t < i ==> (#[trigger] a@[t])@ == b@[t]@,
        decreases a@.len() - i,
    {
        if a[i].len() != b[i].len() {
            assert(mat_of(a@)[i as int].len() != mat_of(b@)[i as int].len());
            return false;
        }
        let mut j: usize = 0;
        while j < a[i].len()
            invariant
                i < a@.len(),
                a@.len() == b@.len(),
                j <= a@[i as int]@.len(),
                a@[i as int]@.len() == b@[i as int]@.len(),
                forall|t: int| 0 <= t < i ==> (#[trigger] a@[t])@ == b@[t]@,
                forall|t: int| 0 <= t < j ==> a@[i as int]@[t] == b@[i as int]@[t],
            decreases a@[i as int]@.len() - j,
        {
            if !a[i][j].eq_val(b[i][j]) {
                assert(mat_of(a@)[i as int][j as int] != mat_of(b@)[i as int][j as int]);
                return false;
            }
            j += 1;
        }
        assert(a@[i as int]@ =~= b@[i as int]@);
        i += 1;
    }
    assert(mat_of(a@) =~~= mat_of(b@));
    true
}

} // verus!
