//! Comparing secrets. One copy, shared by everything that checks a token: a second hand-rolled
//! copy of anything timing-sensitive is a second place for it to quietly stop being constant-time.

use vstd::prelude::*;
use vstd::utf8::*;

verus! {

/// Compare without leaking where the two differ through timing. Length is not a secret here (the
/// user chose it), but the content is.
pub fn constant_time_eq(a: &str, b: &str) -> (r: bool)
    ensures
        r == (a@ == b@),
{
    let x = a.as_bytes();
    let y = b.as_bytes();
    proof {
        encode_utf8_decode_utf8(a@);
        encode_utf8_decode_utf8(b@);
    }
    if x.len() != y.len() {
        return false;
    }
    let mut acc: u8 = 0;
    let mut i: usize = 0;
    while i < x.len()
        invariant
            i <= x.len(),
            x.len() == y.len(),
            acc == 0 <==> (forall|j: int| 0 <= j < i ==> x@[j] == y@[j]),
        decreases x.len() - i,
    {
        let (p, q) = (x[i], y[i]);
        proof {
            assert((acc | (p ^ q)) == 0 <==> (acc == 0 && p == q)) by (bit_vector);
        }
        acc = acc | (p ^ q);
        i = i + 1;
    }
    proof {
        if acc == 0 {
            assert(x@ =~= y@);
        }
    }
    acc == 0
}

} // verus!
