//! Small vector operations shared by the other modules.
use vstd::prelude::*;

verus! {

/// Appends the elements of `extra` to `out`, in order.
pub fn append_copies<T: Copy>(out: &mut Vec<T>, extra: &[T])
    ensures
        final(out)@ == old(out)@ + extra@,
{
    let mut k: usize = 0;
    while k < extra.len()
        invariant
            k <= extra@.len(),
            out@ == old(out)@ + extra@.take(k as int),
        decreases extra@.len() - k,
    {
        out.push(extra[k]);
        k += 1;
        assert(old(out)@ + extra@.take(k as int) =~= (old(out)@ + extra@.take(k - 1)).push(
            extra@[k - 1],
        ));
    }
    assert(extra@.take(extra@.len() as int) =~= extra@);
}

} // verus!
