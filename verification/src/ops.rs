//! Integer bookkeeping of the spectral engine: power-of-two padding for
//! the radix-2 transform, the bit-reversal permutation that orders its
//! butterflies, and the full-convolution length policy.
//!
//! The transforms themselves run on single-precision samples in the
//! unverified shell around this crate; every index computation they rest
//! on is proved here.

use vstd::arithmetic::power2::{
    is_pow2, lemma_pow2_pos, lemma_pow2_strictly_increases, lemma_pow2_unfold, pow2,
};
use vstd::prelude::*;

verus! {

/// The spectral and convolution operations of a sample buffer. The
/// numeric bodies work on single-precision samples and are implemented
/// by the unverified shell; the index planning they rely on is the
/// verified code below.
pub trait Ops {
    /// Forward discrete Fourier transform; the buffer is zero-padded to
    /// the next power of two, and the result holds real/imaginary pairs.
    fn fft(self) -> Self;

    /// Inverse transform; reconstructs the (padded) input of `fft`.
    fn ifft(self) -> Self;

    /// Direct time-domain full convolution with `kernel`.
    fn conv_slow(self, kernel: Self) -> Self;

    /// Spectral full convolution with `kernel`; same output length and,
    /// up to rounding, the same samples as `conv_slow`.
    fn conv_fast(self, kernel: Self) -> Self;
}

/// Two distinct powers of two are at least a factor of two apart: the
/// smaller, doubled, still does not exceed the larger.
proof fn lemma_pow2_double_ordered(a: int, b: int)
    requires
        is_pow2(a),
        is_pow2(b),
        a < b,
    ensures
        2 * a <= b,
    decreases b,
{
    reveal(is_pow2);
    if a > b / 2 {
        lemma_pow2_double_ordered(b / 2, a);
    } else if a < b / 2 {
        lemma_pow2_double_ordered(a, b / 2);
    }
}

/// The least power of two that is at least `n` (and at least 1).
pub fn next_pow2(n: usize) -> (r: usize)
    requires
        n <= usize::MAX / 2 + 1,
    ensures
        is_pow2(r as int),
        n <= r,
        forall|q: int| #[trigger] is_pow2(q) && n <= q ==> r <= q,
{
    let mut p: usize = 1;
    proof {
        reveal(is_pow2);
    }
    while p < n
        invariant
            1 <= p,
            n <= usize::MAX / 2 + 1,
            is_pow2(p as int),
            p == 1 || p / 2 < n,
        decreases 2 * n - p,
    {
        proof {
            reveal(is_pow2);
            assert(is_pow2(2 * p as int));
        }
        p = p * 2;
    }
    proof {
        assert forall|q: int| #[trigger] is_pow2(q) && n <= q implies p <= q by {
            if q < p {
                lemma_pow2_double_ordered(q, p as int);
            }
        }
    }
    p
}

/// The `bits`-bit reversal of `i`: the lowest bit of `i` becomes the
/// highest of the result and so on, the permutation that a radix-2
/// decimation-in-time transform applies to its input positions.
pub open spec fn rev_bits(i: nat, bits: nat) -> nat
    decreases bits,
{
    if bits == 0 {
        0nat
    } else {
        (i % 2) * pow2((bits - 1) as nat) + rev_bits(i / 2, (bits - 1) as nat)
    }
}

/// A `bits`-bit reversal always fits back into `bits` bits.
pub proof fn lemma_rev_bits_bound(i: nat, bits: nat)
    ensures
        rev_bits(i, bits) < pow2(bits),
    decreases bits,
{
    if bits == 0 {
        assert(pow2(0) == 1) by {
            lemma_pow2_pos(0);
            vstd::arithmetic::power2::lemma2_to64();
        }
    } else {
        lemma_rev_bits_bound(i / 2, (bits - 1) as nat);
        lemma_pow2_unfold(bits);
        assert((i % 2) * pow2((bits - 1) as nat) <= pow2((bits - 1) as nat)) by (nonlinear_arith)
            requires
                i % 2 <= 1,
        ;
    }
}

/// Appending a high bit `c` to `i` puts `c` at the low end of the
/// reversal: `rev(i + c * 2^bits, bits + 1) == 2 * rev(i, bits) + c`.
pub proof fn lemma_rev_bits_high(i: nat, c: nat, bits: nat)
    requires
        i < pow2(bits),
        c <= 1,
    ensures
        rev_bits(i + c * pow2(bits), (bits + 1) as nat) == 2 * rev_bits(i, bits) + c,
    decreases bits,
{
    if bits == 0 {
        assert(pow2(0) == 1) by {
            vstd::arithmetic::power2::lemma2_to64();
        }
    } else {
        let j = i + c * pow2(bits);
        lemma_pow2_unfold(bits);
        assert(c * pow2(bits) == 2 * (c * pow2((bits - 1) as nat))) by (nonlinear_arith)
            requires
                pow2(bits) == 2 * pow2((bits - 1) as nat),
        ;
        assert(j % 2 == i % 2 && j / 2 == i / 2 + c * pow2((bits - 1) as nat)) by (nonlinear_arith)
            requires
                j == i + 2 * (c * pow2((bits - 1) as nat)),
        ;
        assert(i / 2 < pow2((bits - 1) as nat));
        lemma_rev_bits_high(i / 2, c, (bits - 1) as nat);
        assert((j % 2) * pow2(bits) == 2 * ((i % 2) * pow2((bits - 1) as nat))) by (nonlinear_arith)
            requires
                j % 2 == i % 2,
                pow2(bits) == 2 * pow2((bits - 1) as nat),
        ;
    }
}

/// Bit reversal is an involution: reversing twice gives the index back.
/// This is what makes the in-place reversal pass of the transform a
/// permutation of the buffer.
pub proof fn lemma_rev_bits_involution(i: nat, bits: nat)
    requires
        i < pow2(bits),
    ensures
        rev_bits(rev_bits(i, bits), bits) == i,
    decreases bits,
{
    if bits == 0 {
        assert(pow2(0) == 1) by {
            vstd::arithmetic::power2::lemma2_to64();
        }
    } else {
        let x = rev_bits(i / 2, (bits - 1) as nat);
        let c = i % 2;
        lemma_rev_bits_bound(i / 2, (bits - 1) as nat);
        lemma_pow2_unfold(bits);
        assert(i / 2 < pow2((bits - 1) as nat));
        lemma_rev_bits_high(x, c, (bits - 1) as nat);
        lemma_rev_bits_involution(i / 2, (bits - 1) as nat);
    }
}

/// Reverses the low `bits` bits of `i`, low bit to high bit.
pub fn bit_reverse(i: usize, bits: usize) -> (r: usize)
    requires
        (i as nat) < pow2(bits as nat),
        pow2(bits as nat) <= usize::MAX,
    ensures
        r as nat == rev_bits(i as nat, bits as nat),
        (r as nat) < pow2(bits as nat),
{
    let mut x = i;
    let mut r: usize = 0;
    let mut k: usize = 0;
    let ghost mut y: nat = 0nat;
    proof {
        vstd::arithmetic::power2::lemma2_to64();
    }
    while k < bits
        invariant
            k <= bits,
            pow2(bits as nat) <= usize::MAX,
            i as nat == (x as nat) * pow2(k as nat) + y,
            y < pow2(k as nat),
            r as nat == rev_bits(y, k as nat),
            (r as nat) < pow2(k as nat),
        decreases bits - k,
    {
        let bit = x % 2;
        proof {
            lemma_rev_bits_high(y, bit as nat, k as nat);
            lemma_pow2_unfold((k + 1) as nat);
            if k + 1 < bits {
                lemma_pow2_strictly_increases((k + 1) as nat, bits as nat);
            }
            assert((x as nat) * pow2(k as nat) == ((x / 2) as nat) * pow2((k + 1) as nat) + (bit
                as nat) * pow2(k as nat)) by (nonlinear_arith)
                requires
                    bit == x % 2,
                    pow2((k + 1) as nat) == 2 * pow2(k as nat),
            ;
        }
        proof {
            assert((bit as nat) * pow2(k as nat) <= pow2(k as nat)) by (nonlinear_arith)
                requires
                    bit <= 1,
            ;
        }
        r = r * 2 + bit;
        x = x / 2;
        proof {
            y = y + (bit as nat) * pow2(k as nat);
        }
        k = k + 1;
    }
    proof {
        if x > 0 {
            assert((x as nat) * pow2(bits as nat) >= pow2(bits as nat)) by (nonlinear_arith)
                requires
                    x >= 1,
            ;
        }
    }
    r
}

/// The bit-reversal permutation for a transform of `2^bits` points:
/// entry `k` holds the `bits`-bit reversal of `k`.
pub fn bit_reverse_table(bits: usize) -> (r: Vec<usize>)
    requires
        pow2(bits as nat) <= usize::MAX,
    ensures
        r@.len() == pow2(bits as nat),
        forall|k: int| 0 <= k < r@.len() ==> r@[k] as nat == rev_bits(k as nat, bits as nat),
        forall|k: int| 0 <= k < r@.len() ==> (r@[k] as nat) < pow2(bits as nat),
{
    let n = pow2_val(bits);
    let mut r: Vec<usize> = Vec::new();
    let mut k: usize = 0;
    while k < n
        invariant
            n as nat == pow2(bits as nat),
            pow2(bits as nat) <= usize::MAX,
            k <= n,
            r@.len() == k,
            forall|j: int| 0 <= j < k ==> r@[j] as nat == rev_bits(j as nat, bits as nat),
            forall|j: int| 0 <= j < k ==> (r@[j] as nat) < pow2(bits as nat),
        decreases n - k,
    {
        let v = bit_reverse(k, bits);
        r.push(v);
        k = k + 1;
    }
    r
}

/// `2^e` as a machine integer.
pub fn pow2_val(e: usize) -> (r: usize)
    requires
        pow2(e as nat) <= usize::MAX,
    ensures
        r as nat == pow2(e as nat),
{
    let mut p: usize = 1;
    let mut k: usize = 0;
    proof {
        vstd::arithmetic::power2::lemma2_to64();
    }
    while k < e
        invariant
            k <= e,
            pow2(e as nat) <= usize::MAX,
            p as nat == pow2(k as nat),
        decreases e - k,
    {
        proof {
            lemma_pow2_unfold((k + 1) as nat);
            if k + 1 < e {
                lemma_pow2_strictly_increases((k + 1) as nat, e as nat);
            }
        }
        p = p * 2;
        k = k + 1;
    }
    p
}

/// The exponent of a power of two: the inverse of `pow2_val` on powers.
pub fn ilog2_of_pow2(n: usize) -> (r: usize)
    requires
        is_pow2(n as int),
    ensures
        pow2(r as nat) == n as nat,
{
    let mut m = n;
    let mut e: usize = 0;
    proof {
        reveal(is_pow2);
        vstd::arithmetic::power2::lemma2_to64();
    }
    while m > 1
        invariant
            is_pow2(m as int),
            n as nat == (m as nat) * pow2(e as nat),
            e <= usize::BITS,
        decreases m,
    {
        proof {
            reveal(is_pow2);
            lemma_pow2_unfold((e + 1) as nat);
            assert((m as nat) * pow2(e as nat) == ((m / 2) as nat) * pow2((e + 1) as nat))
                by (nonlinear_arith)
                requires
                    m % 2 == 0,
                    m >= 2,
                    pow2((e + 1) as nat) == 2 * pow2(e as nat),
            ;
            assert(pow2((e + 1) as nat) <= n as nat) by (nonlinear_arith)
                requires
                    m >= 2,
                    n as nat == (m as nat) * pow2(e as nat),
                    pow2((e + 1) as nat) == 2 * pow2(e as nat),
            ;
            assert(pow2(usize::BITS as nat) == usize::MAX + 1) by {
                vstd::arithmetic::power2::lemma2_to64();
                vstd::arithmetic::power2::lemma2_to64_rest();
            }
            assert(e + 1 <= usize::BITS) by {
                if e + 1 > usize::BITS {
                    lemma_pow2_strictly_increases(usize::BITS as nat, (e + 1) as nat);
                }
            }
        }
        m = m / 2;
        e = e + 1;
    }
    proof {
        reveal(is_pow2);
        assert(m == 1);
    }
    e
}

/// The lower position of butterfly `p` in a stage of butterfly width
/// `len`: lane `p % (len / 2)` of block `p / (len / 2)`. Its partner
/// sits half a width further on.
pub open spec fn butterfly_low_spec(p: int, len: int) -> int {
    (p / (len / 2)) * len + p % (len / 2)
}

/// The butterfly schedule of one stage of an `n`-point radix-2
/// transform: `n / 2` position pairs, in block order with lanes in
/// order inside each block, so a lane counter that resets at each block
/// start can drive the twiddle rotation. Pair `p` joins lane
/// `p % (len / 2)` of block `p / (len / 2)` with the position half a
/// butterfly width further on.
pub fn butterfly_pairs(n: usize, len: usize) -> (r: Vec<(usize, usize)>)
    requires
        2 <= len,
        len % 2 == 0,
        n % len == 0,
    ensures
        r@.len() == n / 2,
        forall|p: int|
            0 <= p < r@.len() ==> r@[p].0 == butterfly_low_spec(p, len as int) && r@[p].1 == r@[p].0
                + len / 2,
        forall|p: int| 0 <= p < r@.len() ==> r@[p].1 < n,
{
    let h = len / 2;
    let mut r: Vec<(usize, usize)> = Vec::new();
    let mut start: usize = 0;
    while start < n
        invariant
            2 <= len,
            len % 2 == 0,
            h == len / 2,
            n % len == 0,
            start % len == 0,
            start <= n,
            r@.len() == (start as int / len as int) * (h as int),
            forall|p: int|
                0 <= p < r@.len() ==> r@[p].0 == butterfly_low_spec(p, len as int) && r@[p].1
                    == r@[p].0 + len / 2,
            forall|p: int| 0 <= p < r@.len() ==> r@[p].1 < start,
        decreases n - start,
    {
        proof {
            assert(start + len <= n) by (nonlinear_arith)
                requires
                    start < n,
                    len >= 2,
                    start % len == 0,
                    n % len == 0,
            ;
        }
        let ghost q: int = start as int / len as int;
        proof {
            vstd::arithmetic::div_mod::lemma_fundamental_div_mod(start as int, len as int);
        }
        let mut k: usize = 0;
        while k < h
            invariant
                2 <= len,
                len % 2 == 0,
                h == len / 2,
                k <= h,
                start + len <= n,
                q == start as int / len as int,
                start == q * len,
                r@.len() == q * h + k,
                forall|p: int|
                    0 <= p < r@.len() ==> r@[p].0 == butterfly_low_spec(p, len as int) && r@[p].1
                        == r@[p].0 + len / 2,
                forall|p: int| 0 <= p < r@.len() ==> r@[p].1 < start + len,
            decreases h - k,
        {
            proof {
                vstd::arithmetic::div_mod::lemma_fundamental_div_mod_converse(
                    q * h + k,
                    h as int,
                    q,
                    k as int,
                );
                assert(butterfly_low_spec(q * h + k, len as int) == start + k) by (nonlinear_arith)
                    requires
                        (q * h + k) / (h as int) == q,
                        (q * h + k) % (h as int) == k as int,
                        butterfly_low_spec(q * h + k, len as int) == ((q * h + k) / (len as int
                            / 2)) * len + (q * h + k) % (len as int / 2),
                        h == len / 2,
                        start == q * len,
                ;
            }
            let ghost pidx: int = r@.len() as int;
            let ghost prev: Seq<(usize, usize)> = r@;
            r.push((start + k, start + k + h));
            proof {
                assert(pidx == q * h + k);
                assert(r@[pidx].0 == butterfly_low_spec(pidx, len as int));
                assert forall|p: int| 0 <= p < r@.len() implies r@[p].0 == butterfly_low_spec(
                    p,
                    len as int,
                ) && r@[p].1 == r@[p].0 + len / 2 by {
                    if p < pidx {
                        assert(r@[p] == prev[p]);
                        assert(prev[p].0 == butterfly_low_spec(p, len as int));
                    }
                }
            }
            k = k + 1;
        }
        proof {
            assert(start + len == (q + 1) * len) by (nonlinear_arith)
                requires
                    start == q * len,
            ;
            vstd::arithmetic::div_mod::lemma_fundamental_div_mod_converse(
                start + len,
                len as int,
                q + 1,
                0,
            );
            assert((q + 1) * (h as int) == q * h + h) by (nonlinear_arith);
        }
        start = start + len;
    }
    proof {
        vstd::arithmetic::div_mod::lemma_fundamental_div_mod(n as int, len as int);
        assert(n == ((n as int / len as int) * (h as int)) * 2) by (nonlinear_arith)
            requires
                n % len == 0,
                len == 2 * h,
                n as int == (n as int / len as int) * len + (n as int % len as int),
        ;
        vstd::arithmetic::div_mod::lemma_fundamental_div_mod_converse(
            n as int,
            2,
            (n as int / len as int) * (h as int),
            0,
        );
    }
    r
}

/// No two butterflies of one stage touch a common buffer position: the
/// lower positions climb strictly along the schedule, and a lower
/// position never meets an upper one, because lower positions keep to
/// the first half of their block and upper positions to the second.
/// Each stage of the transform may therefore run its butterflies in any
/// order, or in parallel, without aliasing.
pub proof fn lemma_butterfly_pairs_disjoint(p1: int, p2: int, len: int)
    requires
        2 <= len,
        len % 2 == 0,
        0 <= p1 < p2,
    ensures
        butterfly_low_spec(p1, len) < butterfly_low_spec(p2, len),
        butterfly_low_spec(p1, len) + len / 2 != butterfly_low_spec(p2, len),
        butterfly_low_spec(p1, len) != butterfly_low_spec(p2, len) + len / 2,
{
    let h = len / 2;
    let q1 = p1 / h;
    let k1 = p1 % h;
    let q2 = p2 / h;
    let k2 = p2 % h;
    vstd::arithmetic::div_mod::lemma_fundamental_div_mod(p1, h);
    vstd::arithmetic::div_mod::lemma_fundamental_div_mod(p2, h);
    vstd::arithmetic::div_mod::lemma_mod_pos_bound(p1, h);
    vstd::arithmetic::div_mod::lemma_mod_pos_bound(p2, h);
    vstd::arithmetic::div_mod::lemma_div_is_ordered(p1, p2, h);
    assert(q1 < q2 || (q1 == q2 && k1 < k2)) by (nonlinear_arith)
        requires
            h >= 1,
            p1 == q1 * h + k1,
            p2 == q2 * h + k2,
            0 <= k1 < h,
            0 <= k2 < h,
            p1 < p2,
            q1 <= q2,
    ;
    assert(q1 < q2 ==> q1 * len + len <= q2 * len) by (nonlinear_arith)
        requires
            len >= 2,
    ;
}
/// an `m`-sample buffer, and an empty operand gives an empty result.
pub open spec fn conv_len_spec(n: nat, m: nat) -> nat {
    if n == 0 || m == 0 {
        0nat
    } else {
        (n + m - 1) as nat
    }
}

/// Empty-input policy: a convolution with an empty operand on either
/// side is empty — a defined outcome, not an error — and otherwise the
/// full convolution keeps every overlap position.
pub proof fn lemma_conv_empty_policy(n: nat, m: nat)
    ensures
        conv_len_spec(0, m) == 0,
        conv_len_spec(n, 0) == 0,
        n > 0 && m > 0 ==> conv_len_spec(n, m) == n + m - 1,
        conv_len_spec(n, m) == conv_len_spec(m, n),
{
}

/// The number of output samples of a full convolution of `n`- and
/// `m`-sample buffers.
pub fn conv_output_len(n: usize, m: usize) -> (r: usize)
    requires
        n + m - 1 <= usize::MAX,
    ensures
        r as nat == conv_len_spec(n as nat, m as nat),
{
    if n == 0 || m == 0 {
        0
    } else {
        (n - 1) + m
    }
}

/// Padded length for the spectral convolution: the least power of two
/// that holds the full convolution of the two buffers.
pub fn conv_fft_len(n: usize, m: usize) -> (r: usize)
    requires
        n + m <= usize::MAX / 2 + 1,
    ensures
        is_pow2(r as int),
        conv_len_spec(n as nat, m as nat) <= r as nat,
        forall|q: int| #[trigger] is_pow2(q) && conv_len_spec(n as nat, m as nat) <= q ==> r <= q,
{
    let len = conv_output_len(n, m);
    next_pow2(len)
}

} // verus!
