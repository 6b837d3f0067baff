//! Big-endian byte strings: the arithmetic foundation of the key codec.
//!
//! A field value is stored as a fixed-width big-endian byte string.  This
//! module defines the mapping between natural numbers and such strings in
//! both directions, the lexicographic order on byte strings, and the facts
//! the rest of the crate builds on: the two mappings invert each other, and
//! on equal widths the lexicographic order of the strings is exactly the
//! numeric order of the values.

use vstd::prelude::*;
#[allow(unused_imports)]
use vstd::arithmetic::div_mod::*;

verus! {

/// 256 raised to the power `w`: the number of distinct big-endian byte
/// strings of width `w`.
pub open spec fn pow256(w: nat) -> nat
    decreases w,
{
    if w == 0 {
        1
    } else {
        256 * pow256((w - 1) as nat)
    }
}

/// The big-endian byte string of `v`, exactly `w` bytes wide.
pub open spec fn be_seq(v: nat, w: nat) -> Seq<u8>
    decreases w,
{
    if w == 0 {
        Seq::empty()
    } else {
        be_seq(v / 256, (w - 1) as nat).push((v % 256) as u8)
    }
}

/// The natural number denoted by a big-endian byte string.
pub open spec fn be_val(s: Seq<u8>) -> nat
    decreases s.len(),
{
    if s.len() == 0 {
        0
    } else {
        256 * be_val(s.drop_last()) + (s.last() as nat)
    }
}

/// Strict lexicographic order on byte strings, shorter prefixes first.
pub open spec fn lex_lt(a: Seq<u8>, b: Seq<u8>) -> bool
    decreases a.len(),
{
    if b.len() == 0 {
        false
    } else if a.len() == 0 {
        true
    } else if a.first() != b.first() {
        a.first() < b.first()
    } else {
        lex_lt(a.drop_first(), b.drop_first())
    }
}

pub broadcast proof fn lemma_pow256_pos(w: nat)
    ensures
        #[trigger] pow256(w) >= 1,
    decreases w,
{
    if w > 0 {
        lemma_pow256_pos((w - 1) as nat);
    }
}

/// `pow256` grows by a factor of 256 per byte, hence is monotonic.
pub proof fn lemma_pow256_increases(w1: nat, w2: nat)
    requires
        w1 <= w2,
    ensures
        pow256(w1) <= pow256(w2),
    decreases w2,
{
    if w1 < w2 {
        lemma_pow256_increases(w1, (w2 - 1) as nat);
        lemma_pow256_pos((w2 - 1) as nat);
    }
}

pub broadcast proof fn lemma_be_seq_len(v: nat, w: nat)
    ensures
        #[trigger] be_seq(v, w).len() == w,
    decreases w,
{
    if w > 0 {
        lemma_be_seq_len(v / 256, (w - 1) as nat);
    }
}

pub broadcast proof fn lemma_be_val_bound(s: Seq<u8>)
    ensures
        #[trigger] be_val(s) < pow256(s.len()),
    decreases s.len(),
{
    if s.len() > 0 {
        lemma_be_val_bound(s.drop_last());
    }
}

/// Decoding inverts encoding: the byte string of `v` denotes `v` again,
/// provided `v` fits in the width.
pub proof fn lemma_be_val_of_be_seq(v: nat, w: nat)
    requires
        v < pow256(w),
    ensures
        be_val(be_seq(v, w)) == v,
    decreases w,
{
    if w == 0 {
        assert(v == 0);
    } else {
        let head = be_seq(v / 256, (w - 1) as nat);
        assert(be_seq(v, w).drop_last() =~= head);
        assert(v / 256 < pow256((w - 1) as nat)) by {
            lemma_multiply_divide_lt(v as int, 256, pow256((w - 1) as nat) as int);
        }
        lemma_be_val_of_be_seq(v / 256, (w - 1) as nat);
        lemma_fundamental_div_mod(v as int, 256);
    }
}

/// Encoding inverts decoding: every byte string is the encoding of its own
/// value.  Together with `lemma_be_val_of_be_seq` this makes the codec a
/// bijection between `[0, 256^w)` and the byte strings of width `w`.
pub proof fn lemma_be_seq_of_be_val(s: Seq<u8>)
    ensures
        be_seq(be_val(s), s.len()) == s,
    decreases s.len(),
{
    if s.len() > 0 {
        let v = be_val(s);
        let head = s.drop_last();
        lemma_be_seq_of_be_val(head);
        assert(v == 256 * be_val(head) + (s.last() as nat));
        lemma_fundamental_div_mod_converse(
            v as int,
            256,
            be_val(head) as int,
            s.last() as int,
        );
        assert(v / 256 == be_val(head) && v % 256 == s.last() as nat);
        assert(be_seq(v, s.len()) =~= s);
    }
}

/// The byte string of `v` splits into its most significant byte and the
/// byte string of the remainder.
pub proof fn lemma_be_seq_split_first(v: nat, w: nat)
    requires
        w >= 1,
        v < pow256(w),
    ensures
        v / pow256((w - 1) as nat) < 256,
        be_seq(v, w) == seq![(v / pow256((w - 1) as nat)) as u8] + be_seq(
            v % pow256((w - 1) as nat),
            (w - 1) as nat,
        ),
    decreases w,
{
    let p = pow256((w - 1) as nat);
    lemma_pow256_pos((w - 1) as nat);
    assert(v / p < 256) by {
        lemma_multiply_divide_lt(v as int, p as int, 256);
    }
    if w == 1 {
        assert(v / p == v && v % p == 0) by {
            lemma_fundamental_div_mod_converse(v as int, 1, v as int, 0);
        }
        assert(be_seq(v, 1) =~= seq![(v / p) as u8] + be_seq(v % p, 0)) by {
            assert(v % 256 == v) by {
                lemma_small_mod(v, 256);
            }
            assert(v / 256 == 0) by {
                lemma_basic_div(v as int, 256);
            }
        }
    } else {
        let q = pow256((w - 2) as nat);
        lemma_pow256_pos((w - 2) as nat);
        assert(v / 256 < q * 256) by {
            lemma_multiply_divide_lt(v as int, 256, p as int);
            assert(p == 256 * q);
        }
        lemma_be_seq_split_first(v / 256, (w - 1) as nat);
        // The most significant byte is the same one level down:
        // v / p == (v / 256) / q.
        assert(v / 256 / q == v / p) by {
            lemma_div_denominator(v as int, 256, q as int);
            assert(256 * q == p);
        }
        // The remainders agree below the most significant byte:
        // (v % p) / 256 == (v / 256) % q and (v % p) % 256 == v % 256.
        assert((v % p) / 256 == (v / 256) % q && (v % p) % 256 == v % 256) by {
            lemma_breakdown(v as int, 256, q as int);
            assert(256 * q == p);
            lemma_mod_mod(v as int, 256, q as int);
        }
        let tail = be_seq(v % p, (w - 1) as nat);
        assert(tail == be_seq((v % p) / 256, (w - 2) as nat).push(((v % p) % 256) as u8));
        assert(be_seq(v, w) =~= seq![(v / p) as u8] + tail);
    }
}

/// On equal widths, lexicographic order of the byte strings is numeric
/// order of the values: the heart of the order-preservation guarantee.
pub proof fn lemma_be_seq_order(v1: nat, v2: nat, w: nat)
    requires
        v1 < pow256(w),
        v2 < pow256(w),
    ensures
        lex_lt(be_seq(v1, w), be_seq(v2, w)) <==> v1 < v2,
    decreases w,
{
    broadcast use lemma_be_seq_len;

    if w == 0 {
        assert(v1 == 0 && v2 == 0);
    } else {
        let p = pow256((w - 1) as nat);
        lemma_pow256_pos((w - 1) as nat);
        lemma_be_seq_split_first(v1, w);
        lemma_be_seq_split_first(v2, w);
        let a1 = v1 / p;
        let a2 = v2 / p;
        let r1 = v1 % p;
        let r2 = v2 % p;
        lemma_fundamental_div_mod(v1 as int, p as int);
        lemma_fundamental_div_mod(v2 as int, p as int);
        lemma_mod_division_less_than_divisor(v1 as int, p as int);
        lemma_mod_division_less_than_divisor(v2 as int, p as int);
        let s1 = be_seq(v1, w);
        let s2 = be_seq(v2, w);
        assert(s1.first() == a1 as u8 && s2.first() == a2 as u8);
        assert(s1.drop_first() =~= be_seq(r1, (w - 1) as nat));
        assert(s2.drop_first() =~= be_seq(r2, (w - 1) as nat));
        if a1 == a2 {
            lemma_be_seq_order(r1, r2, (w - 1) as nat);
            assert(v1 < v2 <==> r1 < r2);
        } else if a1 < a2 {
            assert(v1 < v2) by {
                if v2 <= v1 {
                    lemma_div_is_ordered(v2 as int, v1 as int, p as int);
                }
            }
        } else {
            assert(v2 < v1) by {
                if v1 <= v2 {
                    lemma_div_is_ordered(v1 as int, v2 as int, p as int);
                }
            }
        }
    }
}

/// Where two byte strings first differ, their lexicographic order is the
/// order of the differing bytes.
pub proof fn lemma_lex_at_first_difference(a: Seq<u8>, b: Seq<u8>, i: int)
    requires
        0 <= i < a.len(),
        i < b.len(),
        forall|k: int| 0 <= k < i ==> a[k] == b[k],
        a[i] != b[i],
    ensures
        lex_lt(a, b) <==> a[i] < b[i],
    decreases i,
{
    if i > 0 {
        lemma_lex_at_first_difference(a.drop_first(), b.drop_first(), i - 1);
    }
}

/// When one byte string is a prefix of the other, the shorter one comes
/// first.
pub proof fn lemma_lex_prefix(a: Seq<u8>, b: Seq<u8>)
    requires
        a.len() <= b.len(),
        forall|k: int| 0 <= k < a.len() ==> a[k] == b[k],
    ensures
        lex_lt(a, b) <==> a.len() < b.len(),
        !lex_lt(b, a),
    decreases a.len(),
{
    if a.len() > 0 {
        lemma_lex_prefix(a.drop_first(), b.drop_first());
    }
}

/// On equal lengths, exactly one of `a < b`, `b < a`, `a == b` holds.
pub proof fn lemma_lex_trichotomy(a: Seq<u8>, b: Seq<u8>)
    requires
        a.len() == b.len(),
    ensures
        (!lex_lt(a, b) && !lex_lt(b, a)) <==> a == b,
    decreases a.len(),
{
    if a.len() > 0 {
        if a.first() == b.first() {
            lemma_lex_trichotomy(a.drop_first(), b.drop_first());
            if a.drop_first() == b.drop_first() {
                assert forall|i: int| 0 <= i < a.len() implies a[i] == b[i] by {
                    if i > 0 {
                        assert(a[i] == a.drop_first()[i - 1]);
                        assert(b[i] == b.drop_first()[i - 1]);
                    }
                }
                assert(a =~= b);
            }
            if a == b {
                assert(a.drop_first() =~= b.drop_first());
            }
        }
    } else {
        assert(a =~= b);
    }
}

/// Comparing two concatenations whose front parts have equal lengths:
/// the front parts decide unless they are equal, in which case the rests
/// decide.
pub proof fn lemma_lex_concat(a0: Seq<u8>, b0: Seq<u8>, ra: Seq<u8>, rb: Seq<u8>)
    requires
        a0.len() == b0.len(),
    ensures
        lex_lt(a0 + ra, b0 + rb) <==> (lex_lt(a0, b0) || (a0 == b0 && lex_lt(ra, rb))),
    decreases a0.len(),
{
    if a0.len() == 0 {
        assert(a0 + ra =~= ra);
        assert(b0 + rb =~= rb);
        assert(a0 =~= b0);
    } else {
        assert((a0 + ra).first() == a0.first());
        assert((b0 + rb).first() == b0.first());
        if a0.first() == b0.first() {
            assert((a0 + ra).drop_first() =~= a0.drop_first() + ra);
            assert((b0 + rb).drop_first() =~= b0.drop_first() + rb);
            lemma_lex_concat(a0.drop_first(), b0.drop_first(), ra, rb);
            if a0.drop_first() == b0.drop_first() {
                assert forall|i: int| 0 <= i < a0.len() implies a0[i] == b0[i] by {
                    if i > 0 {
                        assert(a0[i] == a0.drop_first()[i - 1]);
                        assert(b0[i] == b0.drop_first()[i - 1]);
                    }
                }
                assert(a0 =~= b0);
            }
            if a0 == b0 {
                assert(a0.drop_first() =~= b0.drop_first());
            }
        } else {
            if a0 == b0 {
                assert(false);
            }
        }
    }
}

/// Concatenation with equal-length front parts is injective.
pub proof fn lemma_concat_injective(a0: Seq<u8>, b0: Seq<u8>, ra: Seq<u8>, rb: Seq<u8>)
    requires
        a0.len() == b0.len(),
    ensures
        (a0 + ra == b0 + rb) <==> (a0 == b0 && ra == rb),
{
    if a0 + ra == b0 + rb {
        assert(a0 =~= (a0 + ra).take(a0.len() as int));
        assert(b0 =~= (b0 + rb).take(b0.len() as int));
        assert(ra =~= (a0 + ra).skip(a0.len() as int));
        assert(rb =~= (b0 + rb).skip(b0.len() as int));
    }
    if a0 == b0 && ra == rb {
        assert(a0 + ra =~= b0 + rb);
    }
}

/// The largest value of a width fills every byte with `0xFF`, and the
/// smallest fills every byte with zero.
pub proof fn lemma_be_seq_extremes(w: nat)
    ensures
        be_seq((pow256(w) - 1) as nat, w) == Seq::new(w, |i: int| 0xFFu8),
        be_seq(0, w) == Seq::new(w, |i: int| 0u8),
    decreases w,
{
    if w == 0 {
        assert(be_seq(0, 0) =~= Seq::new(0, |i: int| 0xFFu8));
        assert(be_seq(0, 0) =~= Seq::new(0, |i: int| 0u8));
    } else {
        lemma_be_seq_extremes((w - 1) as nat);
        let m = (pow256(w) - 1) as nat;
        lemma_pow256_pos((w - 1) as nat);
        assert(m == 256 * pow256((w - 1) as nat) - 1);
        assert(m / 256 == pow256((w - 1) as nat) - 1 && m % 256 == 255) by {
            lemma_fundamental_div_mod_converse(
                m as int,
                256,
                pow256((w - 1) as nat) - 1,
                255,
            );
        }
        assert(be_seq(m, w) =~= Seq::new(w, |i: int| 0xFFu8));
        assert(0nat / 256 == 0 && 0nat % 256 == 0) by {
            lemma_div_of0(256);
            lemma_small_mod(0, 256);
        }
        assert(be_seq(0, w) =~= Seq::new(w, |i: int| 0u8));
    }
}

/// Encode `v` as a big-endian byte string `w` bytes wide.
pub fn be_encode(v: u128, w: usize) -> (r: Vec<u8>)
    requires
        w <= 16,
        (v as nat) < pow256(w as nat),
    ensures
        r@ == be_seq(v as nat, w as nat),
{
    let mut out: Vec<u8> = vec![0u8; w];
    let mut x: u128 = v;
    let mut i: usize = w;
    proof {
        assert(out@.subrange(w as int, w as int) =~= Seq::<u8>::empty());
        assert(be_seq(x as nat, i as nat) + out@.subrange(i as int, w as int) =~= be_seq(
            v as nat,
            w as nat,
        ));
    }
    while i > 0
        invariant
            i <= w,
            out@.len() == w,
            (x as nat) < pow256(i as nat),
            be_seq(x as nat, i as nat) + out@.subrange(i as int, w as int) == be_seq(
                v as nat,
                w as nat,
            ),
        decreases i,
    {
        let ghost pre = out@;
        let ghost xi = x as nat;
        i = i - 1;
        let b: u8 = (x % 256) as u8;
        out[i] = b;
        x = x / 256;
        proof {
            assert(out@.subrange(i as int, w as int) =~= seq![b] + pre.subrange(
                i + 1,
                w as int,
            ));
            assert((x as nat) < pow256(i as nat)) by {
                lemma_multiply_divide_lt(xi as int, 256, pow256(i as nat) as int);
            }
            assert(be_seq(xi, (i + 1) as nat) =~= be_seq(x as nat, i as nat).push(b));
            assert(be_seq(x as nat, i as nat) + out@.subrange(i as int, w as int) =~= be_seq(
                xi,
                (i + 1) as nat,
            ) + pre.subrange(i + 1, w as int));
        }
    }
    proof {
        assert(be_seq(x as nat, 0) =~= Seq::<u8>::empty());
        assert(out@ =~= be_seq(x as nat, 0) + out@.subrange(0, w as int));
    }
    out
}

/// Decode the `w` bytes of `buf` starting at `off` as a big-endian value.
pub fn be_decode(buf: &Vec<u8>, off: usize, w: usize) -> (r: u128)
    requires
        off + w <= buf@.len(),
        w <= 16,
    ensures
        r as nat == be_val(buf@.subrange(off as int, off + w)),
{
    let n: usize = buf.len();
    let mut acc: u128 = 0;
    let mut i: usize = 0;
    proof {
        assert(buf@.subrange(off as int, off as int) =~= Seq::<u8>::empty());
    }
    while i < w
        invariant
            i <= w,
            w <= 16,
            off + w <= n,
            n == buf@.len(),
            acc as nat == be_val(buf@.subrange(off as int, off + i)),
            (acc as nat) < pow256(i as nat),
        decreases w - i,
    {
        proof {
            lemma_pow256_increases(i as nat, 15);
            lemma_pow256_values();
            lemma_pow256_pos(i as nat);
            assert((acc as nat) * 256 + 255 < pow256((i + 1) as nat)) by {
                assert(pow256((i + 1) as nat) == 256 * pow256(i as nat));
                vstd::arithmetic::mul::lemma_mul_inequality(
                    acc as int + 1,
                    pow256(i as nat) as int,
                    256,
                );
                vstd::arithmetic::mul::lemma_mul_is_distributive_add_other_way(
                    256,
                    acc as int,
                    1,
                );
                vstd::arithmetic::mul::lemma_mul_is_commutative(acc as int + 1, 256);
            }
            assert(pow256((i + 1) as nat) <= pow256(16)) by {
                lemma_pow256_increases((i + 1) as nat, 16);
            }
        }
        let b: u8 = buf[off + i];
        acc = acc * 256 + (b as u128);
        proof {
            let s = buf@.subrange(off as int, off + i + 1);
            assert(s.drop_last() =~= buf@.subrange(off as int, off + i));
            assert(s.last() == b);
        }
        i = i + 1;
    }
    acc
}

/// The powers of 256 for every width the codec uses, written out.  The
/// last one is one more than the largest `u128`.
pub proof fn lemma_pow256_values()
    ensures
        pow256(0) == 1,
        pow256(1) == 0x100,
        pow256(2) == 0x10000,
        pow256(3) == 0x1000000,
        pow256(4) == 0x100000000,
        pow256(7) == 0x100000000000000,
        pow256(8) == 0x10000000000000000,
        pow256(15) == 0x1000000000000000000000000000000,
        pow256(16) == 0x100000000000000000000000000000000,
{
    assert(pow256(0) == 1);
    assert(pow256(1) == 256);
    assert(pow256(2) == 0x10000);
    assert(pow256(3) == 0x1000000);
    assert(pow256(4) == 0x100000000);
    assert(pow256(5) == 0x10000000000);
    assert(pow256(6) == 0x1000000000000);
    assert(pow256(7) == 0x100000000000000);
    assert(pow256(8) == 0x10000000000000000);
    assert(pow256(9) == 0x1000000000000000000);
    assert(pow256(10) == 0x100000000000000000000);
    assert(pow256(11) == 0x10000000000000000000000);
    assert(pow256(12) == 0x1000000000000000000000000);
    assert(pow256(13) == 0x100000000000000000000000000);
    assert(pow256(14) == 0x10000000000000000000000000000);
    assert(pow256(15) == 0x1000000000000000000000000000000);
    assert(pow256(16) == 0x100000000000000000000000000000000);
}

} // verus!
