//! Comparing text.

use vstd::prelude::*;

verus! {

/// Whether two strings hold the same characters.
pub fn same_text(a: &str, b: &str) -> (same: bool)
    ensures
        same == (a@ == b@),
{
    let x = a.as_bytes();
    let y = b.as_bytes();
    proof {
        vstd::utf8::encode_utf8_decode_utf8(a@);
        vstd::utf8::encode_utf8_decode_utf8(b@);
    }
    if x.len() != y.len() {
        return false;
    }
    for i in 0..x.len()
        invariant
            x@.len() == y@.len(),
            (a@ == b@) == (x@ == y@),
            x@.take(i as int) == y@.take(i as int),
    {
        if x[i] != y[i] {
            return false;
        }
        assert(x@.take(i + 1) =~= x@.take(i as int).push(x@[i as int]));
        assert(y@.take(i + 1) =~= y@.take(i as int).push(y@[i as int]));
    }
    assert(x@.take(x@.len() as int) =~= x@ && y@.take(y@.len() as int) =~= y@);
    true
}

} // verus!
