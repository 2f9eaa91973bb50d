//! Arithmetic helpers shared by the bit-level processing code.
use vstd::prelude::*;

verus! {

/// 2 raised to the power `n`.
pub open spec fn exp2(n: nat) -> nat
    decreases n,
{
    if n == 0 {
        1
    } else {
        2 * exp2((n - 1) as nat)
    }
}

/// Powers of two are positive.
pub proof fn lemma_exp2_pos(n: nat)
    ensures
        exp2(n) >= 1,
    decreases n,
{
    if n > 0 {
        lemma_exp2_pos((n - 1) as nat);
    }
}

/// 2^(a + b) = 2^a * 2^b.
pub proof fn lemma_exp2_add(a: nat, b: nat)
    ensures
        exp2(a + b) == exp2(a) * exp2(b),
    decreases b,
{
    if b > 0 {
        lemma_exp2_add(a, (b - 1) as nat);
        assert((a + b - 1) as nat == a + (b - 1) as nat);
        assert(exp2(a + b) == 2 * exp2((a + b - 1) as nat));
        assert(exp2(a) * exp2(b) == exp2(a) * (2 * exp2((b - 1) as nat)));
        assert(exp2(a) * (2 * exp2((b - 1) as nat)) == 2 * (exp2(a) * exp2((b - 1) as nat)))
            by (nonlinear_arith);
    } else {
        assert(exp2(0) == 1);
        assert(a + b == a);
    }
}

/// Powers of two grow with the exponent.
pub proof fn lemma_exp2_le(a: nat, b: nat)
    requires
        a <= b,
    ensures
        exp2(a) <= exp2(b),
    decreases b,
{
    if a < b {
        lemma_exp2_le(a, (b - 1) as nat);
        lemma_exp2_pos((b - 1) as nat);
    }
}

/// Concrete powers of two used across the crate.
pub proof fn lemma_exp2_values()
    ensures
        exp2(0) == 1,
        exp2(1) == 2,
        exp2(2) == 4,
        exp2(3) == 8,
        exp2(4) == 16,
        exp2(5) == 32,
        exp2(6) == 64,
        exp2(7) == 128,
        exp2(8) == 256,
        exp2(9) == 512,
        exp2(10) == 1024,
        exp2(31) == 0x8000_0000,
{
    reveal_with_fuel(exp2, 32);
}

/// 2^62, the largest power of two used for weight bounds.
pub proof fn lemma_exp2_62()
    ensures
        exp2(62) == 0x4000_0000_0000_0000,
{
    lemma_exp2_values();
    lemma_exp2_add(31, 31);
}

/// Computes 2^e.
pub fn exp2_usize(e: u32) -> (r: usize)
    requires
        e < 32,
    ensures
        r == exp2(e as nat),
{
    let mut r: usize = 1;
    let mut i: u32 = 0;
    while i < e
        invariant
            i <= e,
            e < 32,
            r == exp2(i as nat),
        decreases e - i,
    {
        proof {
            lemma_exp2_le((i + 1) as nat, 31);
            lemma_exp2_values();
        }
        r = r * 2;
        i = i + 1;
    }
    r
}

/// Bit `b` of `v` is clear.
pub open spec fn bit_clear(v: int, b: nat) -> bool {
    (v / exp2(b) as int) % 2 == 0
}

/// In a range of 2^m positions, a position whose bit b (b < m) is clear has
/// its partner 2^b positions further up still inside the range.
pub proof fn lemma_partner_in_range(i: int, b: nat, m: nat)
    requires
        0 <= i < exp2(m),
        b < m,
        bit_clear(i, b),
    ensures
        i + exp2(b) < exp2(m),
        !bit_clear(i + exp2(b), b),
        (i + exp2(b)) / exp2(b) as int == i / exp2(b) as int + 1,
{
    let p = exp2(b) as int;
    lemma_exp2_pos(b);
    lemma_exp2_add(b, (m - b) as nat);
    let k = exp2((m - b) as nat) as int;
    assert(exp2(m) == p * k);
    assert(exp2((m - b) as nat) == 2 * exp2((m - b - 1) as nat));
    let q = i / p;
    let r = i % p;
    assert(i == p * q + r && 0 <= r < p) by (nonlinear_arith)
        requires
            q == i / p,
            r == i % p,
            p > 0,
    ;
    assert(q < k) by (nonlinear_arith)
        requires
            i == p * q + r,
            0 <= r,
            i < p * k,
            p > 0,
    ;
    assert(q % 2 == 0);
    assert(k % 2 == 0);
    assert(q + 2 <= k);
    assert(i + p < p * k) by (nonlinear_arith)
        requires
            i == p * q + r,
            r < p,
            q + 2 <= k,
            p > 0,
    ;
    assert((i + p) / p == q + 1) by (nonlinear_arith)
        requires
            i == p * q + r,
            0 <= r < p,
    ;
}


/// Adding 2^c to a value whose bit `c` is clear leaves every other bit as
/// it was.
pub proof fn lemma_bit_clear_other(x: int, b: nat, c: nat)
    requires
        0 <= x,
        b != c,
        bit_clear(x, c),
    ensures
        bit_clear(x + exp2(c), b) == bit_clear(x, b),
{
    lemma_exp2_pos(b);
    lemma_exp2_pos(c);
    let p = exp2(b) as int;
    let cc = exp2(c) as int;
    if c > b {
        lemma_exp2_add(b, (c - b) as nat);
        let k = exp2((c - b) as nat) as int;
        assert(k == 2 * exp2((c - b - 1) as nat));
        assert(cc == p * k);
        let q = x / p;
        let r = x % p;
        assert(x == p * q + r && 0 <= r < p) by (nonlinear_arith)
            requires
                q == x / p,
                r == x % p,
                p > 0,
        ;
        assert(x + cc == p * (q + k) + r) by (nonlinear_arith)
            requires
                x == p * q + r,
                cc == p * k,
        ;
        vstd::arithmetic::div_mod::lemma_fundamental_div_mod_converse(x + cc, p, q + k, r);
        assert((q + k) % 2 == q % 2);
    } else {
        lemma_exp2_add((c + 1) as nat, (b - c - 1) as nat);
        assert(exp2((c + 1) as nat) == 2 * exp2(c));
        let m = exp2((b - c - 1) as nat) as int;
        lemma_exp2_pos((b - c - 1) as nat);
        assert(p == 2 * cc * m);
        let q = x / (2 * cc);
        let r = x % (2 * cc);
        assert(x == 2 * cc * q + r && 0 <= r < 2 * cc) by (nonlinear_arith)
            requires
                q == x / (2 * cc),
                r == x % (2 * cc),
                cc > 0,
        ;
        // bit c of x is clear: r < cc
        let t = r / cc;
        assert(r == cc * t + r % cc && 0 <= r % cc < cc) by (nonlinear_arith)
            requires
                t == r / cc,
                cc > 0,
        ;
        assert(x / cc == 2 * q + t) by {
            assert(x == cc * (2 * q + t) + r % cc) by (nonlinear_arith)
                requires
                    x == 2 * cc * q + r,
                    r == cc * t + r % cc,
            ;
            vstd::arithmetic::div_mod::lemma_fundamental_div_mod_converse(x, cc, 2 * q + t, r % cc);
        }
        assert(0 <= t < 2) by (nonlinear_arith)
            requires
                r == cc * t + r % cc,
                0 <= r % cc,
                0 <= r < 2 * cc,
                cc > 0,
        ;
        assert(t == 0);
        assert(r < cc) by (nonlinear_arith)
            requires
                r == cc * t + r % cc,
                t == 0,
                r % cc < cc,
        ;
        // x / p and (x + cc) / p both equal q / m
        let qq = q / m;
        let rr = q % m;
        assert(q == m * qq + rr && 0 <= rr < m) by (nonlinear_arith)
            requires
                qq == q / m,
                rr == q % m,
                m > 0,
        ;
        assert(x == p * qq + (2 * cc * rr + r)) by (nonlinear_arith)
            requires
                x == 2 * cc * q + r,
                q == m * qq + rr,
                p == 2 * cc * m,
        ;
        assert(0 <= 2 * cc * rr + r + cc < p) by (nonlinear_arith)
            requires
                0 <= rr < m,
                0 <= r < cc,
                p == 2 * cc * m,
                cc > 0,
        ;
        vstd::arithmetic::div_mod::lemma_fundamental_div_mod_converse(x, p, qq, 2 * cc * rr + r);
        vstd::arithmetic::div_mod::lemma_fundamental_div_mod_converse(x + cc, p, qq, 2 * cc * rr + r + cc);
    }
}

} // verus!
