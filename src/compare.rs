//! Equality of byte strings whose running time does not depend on where
//! the first difference lies.
use vstd::prelude::*;

verus! {

proof fn lemma_xor_zero(a: u8, b: u8)
    ensures
        (a ^ b == 0) <==> (a == b),
{
    assert((a ^ b == 0) <==> (a == b)) by (bit_vector);
}

proof fn lemma_or_zero(x: u8, y: u8)
    ensures
        (x | y == 0) <==> (x == 0 && y == 0),
{
    assert((x | y == 0) <==> (x == 0 && y == 0)) by (bit_vector);
}

/// Compares two byte strings for equality.
///
/// Strings of different lengths are told apart at once (a length is not
/// secret). For equal lengths every byte pair is visited, the differences are
/// accumulated with xor and or, and the only branch on the data is the final
/// test of the accumulator.
pub fn timing_safe_eq(a: &[u8], b: &[u8]) -> (r: bool)
    ensures
        r == (a@ == b@),
{
    if a.len() != b.len() {
        return false;
    }
    let mut acc: u8 = 0;
    let mut i: usize = 0;
    while i < a.len()
        invariant
            a@.len() == b@.len(),
            0 <= i <= a@.len(),
            (acc == 0) <==> (a@.subrange(0, i as int) =~= b@.subrange(0, i as int)),
        decreases a@.len() - i,
    {
        let d: u8 = a[i] ^ b[i];
        proof {
            lemma_xor_zero(a[i as int], b[i as int]);
            lemma_or_zero(acc, d);
            let pa = a@.subrange(0, i as int);
            let pb = b@.subrange(0, i as int);
            assert(a@.subrange(0, i + 1) =~= pa.push(a[i as int]));
            assert(b@.subrange(0, i + 1) =~= pb.push(b[i as int]));
            if pa.push(a[i as int]) =~= pb.push(b[i as int]) {
                assert(pa =~= pa.push(a[i as int]).drop_last());
                assert(pb =~= pb.push(b[i as int]).drop_last());
                assert(a[i as int] == pa.push(a[i as int]).last());
            }
            if pa == pb && a[i as int] == b[i as int] {
                assert(pa.push(a[i as int]) =~= pb.push(b[i as int]));
            }
        }
        acc = acc | d;
        i = i + 1;
    }
    assert(a@.subrange(0, a@.len() as int) =~= a@);
    assert(b@.subrange(0, b@.len() as int) =~= b@);
    acc == 0
}

} // verus!
