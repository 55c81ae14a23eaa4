//! Decoding of the packed dump stream, in which every wire byte carries seven
//! payload bits in its low bits and the high bit is dropped.
//!
//! The transform is stateful and has no resynchronisation: one lost or
//! corrupted wire byte shifts every later bit, so all bytes that follow it
//! decode wrongly. That is a property of the wire format, not of this code.
use crate::bits::{
    bits_of, lemma_bits_concat, lemma_bits_len, lemma_bits_of_value, lemma_value_bound,
    lemma_value_of_bits, value_of,
};
use vstd::arithmetic::power2::{lemma2_to64, lemma_pow2_adds, pow2};
use vstd::bits::{lemma_u16_shl_is_mul, lemma_u16_shr_is_div};
use vstd::prelude::*;

verus! {

/// The seven payload bits of a wire byte, most significant first.
pub open spec fn low_bits(raw: u8) -> Seq<bool> {
    bits_of((raw % 128) as nat, 7)
}

/// One decode step on the pending bits: append the wire byte's seven bits and,
/// once eight or more are pending, hand out the first eight as a byte.
pub open spec fn feed_step(pending: Seq<bool>, raw: u8) -> (Seq<bool>, Option<u8>) {
    let all = pending + low_bits(raw);
    if all.len() >= 8 {
        (all.skip(8), Some(value_of(all.take(8)) as u8))
    } else {
        (all, None)
    }
}

/// The pending bits and the decoded bytes after feeding `raws`, in order, to a
/// fresh decoder.
pub open spec fn unpack_run(raws: Seq<u8>) -> (Seq<bool>, Seq<u8>)
    decreases raws.len(),
{
    if raws.len() == 0 {
        (Seq::empty(), Seq::empty())
    } else {
        let (pending, out) = unpack_run(raws.drop_last());
        let (next, decoded) = feed_step(pending, raws.last());
        (
            next,
            match decoded {
                Some(b) => out.push(b),
                None => out,
            },
        )
    }
}

/// The bytes decoded from the wire bytes `raws`.
pub open spec fn unpacked(raws: Seq<u8>) -> Seq<u8> {
    unpack_run(raws).1
}

/// The bits of a byte string, eight per byte, most significant first.
pub open spec fn stream_bits(s: Seq<u8>) -> Seq<bool>
    decreases s.len(),
{
    if s.len() == 0 {
        Seq::empty()
    } else {
        stream_bits(s.drop_last()) + bits_of(s.last() as nat, 8)
    }
}

/// The bits of `s`, padded with zero bits up to a multiple of seven.
pub open spec fn padded_bits(s: Seq<u8>) -> Seq<bool> {
    let b = stream_bits(s);
    b + Seq::new(((7 - b.len() % 7) % 7) as nat, |i: int| false)
}

/// How a device packs `s` for the wire: its bits in groups of seven, each group
/// the low bits of one wire byte.
pub open spec fn packed(s: Seq<u8>) -> Seq<u8> {
    let p = padded_bits(s);
    Seq::new(p.len() / 7, |i: int| value_of(p.subrange(7 * i, 7 * i + 7)) as u8)
}

/// The concatenated payload bits of a run of wire bytes.
pub open spec fn wire_bits(raws: Seq<u8>) -> Seq<bool>
    decreases raws.len(),
{
    if raws.len() == 0 {
        Seq::empty()
    } else {
        wire_bits(raws.drop_last()) + low_bits(raws.last())
    }
}

proof fn lemma_stream_bits_len(s: Seq<u8>)
    ensures
        stream_bits(s).len() == 8 * s.len(),
    decreases s.len(),
{
    if s.len() > 0 {
        lemma_stream_bits_len(s.drop_last());
        lemma_bits_len(s.last() as nat, 8);
    }
}

proof fn lemma_stream_bits_injective(a: Seq<u8>, b: Seq<u8>)
    requires
        stream_bits(a) == stream_bits(b),
    ensures
        a == b,
    decreases a.len(),
{
    lemma_stream_bits_len(a);
    lemma_stream_bits_len(b);
    if a.len() > 0 {
        let (pa, pb) = (a.drop_last(), b.drop_last());
        lemma_stream_bits_len(pa);
        lemma_stream_bits_len(pb);
        lemma_bits_len(a.last() as nat, 8);
        lemma_bits_len(b.last() as nat, 8);
        let n = 8 * pa.len();
        assert(stream_bits(pa) =~= stream_bits(a).take(n as int));
        assert(stream_bits(pb) =~= stream_bits(b).take(n as int));
        assert(bits_of(a.last() as nat, 8) =~= stream_bits(a).skip(n as int));
        assert(bits_of(b.last() as nat, 8) =~= stream_bits(b).skip(n as int));
        lemma2_to64();
        lemma_value_of_bits(a.last() as nat, 8);
        lemma_value_of_bits(b.last() as nat, 8);
        lemma_stream_bits_injective(pa, pb);
        assert(a =~= pa.push(a.last()));
        assert(b =~= pb.push(b.last()));
    } else {
        assert(a =~= b);
    }
}

/// After any run of wire bytes, the bytes decoded so far followed by the
/// pending bits are exactly the payload bits of the run, and at most seven bits
/// are pending.
proof fn lemma_run_keeps_bits(raws: Seq<u8>)
    ensures
        stream_bits(unpack_run(raws).1) + unpack_run(raws).0 == wire_bits(raws),
        unpack_run(raws).0.len() <= 7,
    decreases raws.len(),
{
    if raws.len() > 0 {
        let prev = raws.drop_last();
        lemma_run_keeps_bits(prev);
        let (q, out) = unpack_run(prev);
        let raw = raws.last();
        lemma_bits_len((raw % 128) as nat, 7);
        let all = q + low_bits(raw);
        if all.len() >= 8 {
            let g = all.take(8);
            lemma_value_bound(g);
            lemma2_to64();
            lemma_bits_of_value(g);
            let b = value_of(g) as u8;
            let out2 = out.push(b);
            assert(out2.drop_last() =~= out);
            assert(stream_bits(out2) + all.skip(8) =~= stream_bits(out) + all);
        }
        assert(stream_bits(out) + all =~= wire_bits(raws));
    } else {
        assert(stream_bits(Seq::<u8>::empty()) + Seq::<bool>::empty() =~= wire_bits(raws));
    }
}

proof fn lemma_wire_bits_of_packed(s: Seq<u8>, i: int)
    requires
        0 <= i <= packed(s).len(),
    ensures
        wire_bits(packed(s).take(i)) == padded_bits(s).take(7 * i),
    decreases i,
{
    let p = padded_bits(s);
    let w = packed(s);
    if i > 0 {
        lemma_wire_bits_of_packed(s, i - 1);
        let g = p.subrange(7 * (i - 1), 7 * i);
        lemma_value_bound(g);
        lemma2_to64();
        lemma_bits_of_value(g);
        assert(w[i - 1] == value_of(g) as u8);
        assert(low_bits(w[i - 1]) == g);
        assert(w.take(i).drop_last() =~= w.take(i - 1));
        assert(p.take(7 * (i - 1)) + g =~= p.take(7 * i));
    } else {
        assert(p.take(0) =~= Seq::<bool>::empty());
        assert(w.take(0) =~= Seq::<u8>::empty());
    }
}

/// Decoding what a device packs gives back the original bytes, in order.
pub proof fn lemma_unpack_inverts_pack(s: Seq<u8>)
    ensures
        unpacked(packed(s)) == s,
{
    let p = padded_bits(s);
    let w = packed(s);
    lemma_stream_bits_len(s);
    lemma_wire_bits_of_packed(s, w.len() as int);
    assert(w.take(w.len() as int) =~= w);
    assert(p.take(7 * w.len() as int) =~= p);
    lemma_run_keeps_bits(w);
    let (q, out) = unpack_run(w);
    lemma_stream_bits_len(out);
    let n = s.len();
    assert(out.len() == n);
    assert(stream_bits(out) =~= p.take(8 * n as int));
    assert(stream_bits(s) =~= p.take(8 * n as int));
    lemma_stream_bits_injective(out, s);
}

/// Streaming decoder of the packed encoding. `window` holds the `count`
/// pending bits, the oldest in its highest position.
pub struct BitUnpacker {
    window: u16,
    count: u8,
}

impl View for BitUnpacker {
    type V = Seq<bool>;

    closed spec fn view(&self) -> Seq<bool> {
        bits_of(self.window as nat, self.count as nat)
    }
}

impl BitUnpacker {
    /// Between two calls at most seven bits are pending, all of them in the
    /// low `count` bits of the window.
    pub closed spec fn wf(&self) -> bool {
        self.count <= 7 && self.window < pow2(self.count as nat)
    }

    pub fn new() -> (r: BitUnpacker)
        ensures
            r.wf(),
            r@ == Seq::<bool>::empty(),
    {
        proof {
            lemma2_to64();
        }
        BitUnpacker { window: 0, count: 0 }
    }

    /// The number of bits currently pending.
    pub fn pending_bits(&self) -> (r: u8)
        requires
            self.wf(),
        ensures
            r == self@.len(),
    {
        proof {
            lemma_bits_len(self.window as nat, self.count as nat);
        }
        self.count
    }

    /// Feeds one wire byte; returns the decoded byte once eight bits are
    /// pending.
    pub fn feed(&mut self, raw: u8) -> (r: Option<u8>)
        requires
            old(self).wf(),
        ensures
            final(self).wf(),
            (final(self)@, r) == feed_step(old(self)@, raw),
    {
        let w = self.window;
        let c = self.count;
        proof {
            lemma2_to64();
            assert(pow2(c as nat) <= 128) by {
                lemma2_to64();
            }
        }
        let low: u16 = (raw & 0x7f) as u16;
        assert(low == raw % 128) by (bit_vector)
            requires
                low == (raw & 0x7f) as u16,
        ;
        let x: u16 = (w << 7u16) | low;
        assert(x == w * 128 + low) by (bit_vector)
            requires
                w < 128,
                low < 128,
                x == (w << 7u16) | low,
        ;
        let n: u8 = c + 7;
        proof {
            lemma_bits_concat(w as nat, low as nat, c as nat, 7);
            assert(bits_of(x as nat, n as nat) == old(self)@ + low_bits(raw));
            lemma_pow2_adds(c as nat, 7);
            assert(x < pow2(n as nat)) by (nonlinear_arith)
                requires
                    x == w * 128 + low,
                    w < pow2(c as nat),
                    low < 128,
                    pow2(n as nat) == pow2(c as nat) * 128,
            ;
            lemma_bits_len(w as nat, c as nat);
            lemma_bits_len(low as nat, 7);
        }
        if n >= 8 {
            let k: u8 = n - 8;
            let top: u16 = x >> (k as u16);
            let unit: u16 = 1u16 << (k as u16);
            proof {
                lemma_u16_shr_is_div(x, k as u16);
                lemma_u16_shl_is_mul(1, k as u16);
            }
            let rest: u16 = x % unit;
            proof {
                let p = pow2(k as nat);
                lemma_pow2_adds(8, k as nat);
                assert(unit == p && top == x as nat / p && rest == x as nat % p);
                assert(x == top * p + rest) by (nonlinear_arith)
                    requires
                        p > 0,
                        top == x as nat / p,
                        rest == x as nat % p,
                ;
                assert(top < 256) by (nonlinear_arith)
                    requires
                        x == top * p + rest,
                        rest >= 0,
                        p > 0,
                        x < 256 * p,
                ;
                lemma_bits_concat(top as nat, rest as nat, 8, k as nat);
                let all = bits_of(x as nat, n as nat);
                lemma_bits_len(top as nat, 8);
                lemma_bits_len(rest as nat, k as nat);
                assert(all.take(8) =~= bits_of(top as nat, 8));
                assert(all.skip(8) =~= bits_of(rest as nat, k as nat));
                lemma_value_of_bits(top as nat, 8);
            }
            self.window = rest;
            self.count = k;
            Some(top as u8)
        } else {
            self.window = x;
            self.count = n;
            None
        }
    }
}

} // verus!
