//! The running XOR checksum of a dump transfer.
use vstd::prelude::*;

verus! {

/// XOR of all bytes of `s` (zero for no bytes).
pub open spec fn xor_all(s: Seq<u8>) -> u8
    decreases s.len(),
{
    if s.len() == 0 {
        0
    } else {
        xor_all(s.drop_last()) ^ s.last()
    }
}

/// A payload followed by its own XOR accumulates to zero.
pub proof fn lemma_trailing_checksum_cancels(payload: Seq<u8>)
    ensures
        xor_all(payload.push(xor_all(payload))) == 0,
{
    let c = xor_all(payload);
    assert(payload.push(c).drop_last() =~= payload);
    assert(c ^ c == 0) by (bit_vector);
}

/// XOR of all bytes of `bytes`.
pub fn xor_of(bytes: &Vec<u8>) -> (r: u8)
    ensures
        r == xor_all(bytes@),
{
    let mut acc: u8 = 0;
    let mut i: usize = 0;
    while i < bytes.len()
        invariant
            i <= bytes@.len(),
            acc == xor_all(bytes@.take(i as int)),
        decreases bytes@.len() - i,
    {
        assert(bytes@.take(i + 1).drop_last() =~= bytes@.take(i as int));
        acc = acc ^ bytes[i];
        i = i + 1;
    }
    assert(bytes@.take(i as int) =~= bytes@);
    acc
}

} // verus!
