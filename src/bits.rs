use vstd::arithmetic::power2::{lemma2_to64, lemma_pow2_unfold, pow2};
use vstd::prelude::*;

verus! {

/// The `width` low-order bits of `v`, most significant first.
pub open spec fn bits_of(v: nat, width: nat) -> Seq<bool>
    decreases width,
{
    if width == 0 {
        Seq::empty()
    } else {
        bits_of(v / 2, (width - 1) as nat).push(v % 2 == 1)
    }
}

/// The number whose binary digits, most significant first, are `b`.
pub open spec fn value_of(b: Seq<bool>) -> nat
    decreases b.len(),
{
    if b.len() == 0 {
        0
    } else {
        2 * value_of(b.drop_last()) + if b.last() {
            1nat
        } else {
            0nat
        }
    }
}

pub proof fn lemma_bits_len(v: nat, width: nat)
    ensures
        bits_of(v, width).len() == width,
    decreases width,
{
    if width > 0 {
        lemma_bits_len(v / 2, (width - 1) as nat);
    }
}

pub proof fn lemma_value_bound(b: Seq<bool>)
    ensures
        value_of(b) < pow2(b.len()),
    decreases b.len(),
{
    if b.len() > 0 {
        lemma_value_bound(b.drop_last());
        lemma_pow2_unfold(b.len());
    } else {
        lemma2_to64();
    }
}

/// Writing the value of a bit string back in as many bits gives the string.
pub proof fn lemma_bits_of_value(b: Seq<bool>)
    ensures
        bits_of(value_of(b), b.len()) == b,
    decreases b.len(),
{
    if b.len() > 0 {
        let p = b.drop_last();
        lemma_bits_of_value(p);
        let v = value_of(b);
        assert(v / 2 == value_of(p));
        assert(v % 2 == 1 <==> b.last());
        assert(bits_of(v, b.len()) =~= b);
    } else {
        assert(bits_of(value_of(b), 0) =~= b);
    }
}

/// A number below `2^width` is recovered from its `width` bits.
pub proof fn lemma_value_of_bits(v: nat, width: nat)
    requires
        v < pow2(width),
    ensures
        value_of(bits_of(v, width)) == v,
    decreases width,
{
    if width == 0 {
        lemma2_to64();
    } else {
        lemma_pow2_unfold(width);
        let w1 = (width - 1) as nat;
        lemma_value_of_bits(v / 2, w1);
        lemma_bits_len(v / 2, w1);
        let b = bits_of(v, width);
        assert(b.drop_last() =~= bits_of(v / 2, w1));
    }
}

/// The bits of `a * 2^k + b` are those of `a` followed by the `k` bits of `b`.
pub proof fn lemma_bits_concat(a: nat, b: nat, w: nat, k: nat)
    requires
        b < pow2(k),
    ensures
        bits_of(a * pow2(k) + b, w + k) == bits_of(a, w) + bits_of(b, k),
    decreases k,
{
    if k == 0 {
        lemma2_to64();
        assert(bits_of(b, 0) =~= Seq::<bool>::empty());
        assert(bits_of(a, w) + bits_of(b, 0) =~= bits_of(a, w));
    } else {
        let k1 = (k - 1) as nat;
        lemma_pow2_unfold(k);
        let p = pow2(k1);
        let x = a * pow2(k) + b;
        let y = a * p + b / 2;
        assert(x == 2 * y + b % 2) by (nonlinear_arith)
            requires
                x == a * pow2(k) + b,
                pow2(k) == 2 * p,
                y == a * p + b / 2,
        ;
        assert(x / 2 == y && x % 2 == b % 2);
        assert(b / 2 < p);
        lemma_bits_concat(a, b / 2, w, k1);
        assert((w + k - 1) as nat == w + k1);
        assert(bits_of(x, w + k) =~= bits_of(a, w) + bits_of(b, k));
    }
}

} // verus!
