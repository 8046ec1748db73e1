use vstd::prelude::*;

verus! {

/// Adds `delta` to every element of the vector in place; the caller rules
/// out overflow of each sum.
pub fn add_to_each(v: &mut Vec<i32>, delta: i32)
    requires
        forall|j: int|
            0 <= j < old(v)@.len() ==> i32::MIN <= #[trigger] old(v)@[j] + delta <= i32::MAX,
    ensures
        final(v)@.len() == old(v)@.len(),
        forall|j: int| 0 <= j < old(v)@.len() ==> final(v)@[j] == old(v)@[j] + delta,
{
    let n = v.len();
    let mut i: usize = 0;
    while i < n
        invariant
            n == v@.len(),
            v@.len() == old(v)@.len(),
            i <= n,
            forall|j: int|
                0 <= j < old(v)@.len() ==> i32::MIN <= #[trigger] old(v)@[j] + delta <= i32::MAX,
            forall|j: int| 0 <= j < i ==> v@[j] == old(v)@[j] + delta,
            forall|j: int| i <= j < n ==> v@[j] == old(v)@[j],
        decreases n - i,
    {
        let x = v[i];
        v[i] = x + delta;
        i = i + 1;
    }
}

} // verus!
