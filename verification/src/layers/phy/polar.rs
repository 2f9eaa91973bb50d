//! Polar coding for NR control channels: code construction (reliability
//! order, frozen set, sub-block interleaver), bit allocation, the polar
//! transform, rate matching and the complete PDCCH encoder.
use vstd::prelude::*;
use crate::common::math::{
    bit_clear, exp2, exp2_usize, lemma_bit_clear_other, lemma_exp2_62, lemma_exp2_add, lemma_exp2_le, lemma_exp2_pos,
    lemma_exp2_values, lemma_partner_in_range,
};

verus! {

/// Largest supported polar code length, log2.
pub const NMAX_LOG: usize = 10;

/// Largest supported polar code length.
pub const NMAX: usize = 1024;

/// The code length exponent chosen for `k` information bits and `e` output
/// bits: the smallest n in 5..=n_max_log with 2^n >= max(k, e / 2), else n_max_log.
pub open spec fn polar_n_log(k: nat, e: nat, n_max_log: nat) -> nat {
    polar_n_log_from(5, n_max_log, if k >= e / 2 { k } else { e / 2 })
}

/// Search for the smallest exponent in `from..=n_max_log` reaching `min_n`.
pub open spec fn polar_n_log_from(from: nat, n_max_log: nat, min_n: nat) -> nat
    decreases n_max_log + 1 - from,
{
    if from > n_max_log {
        n_max_log
    } else if exp2(from) >= min_n {
        from
    } else {
        polar_n_log_from(from + 1, n_max_log, min_n)
    }
}

/// Reversal of the low `nbits` bits of `v`.
pub open spec fn polar_rev(v: nat, nbits: nat) -> nat
    decreases nbits,
{
    if nbits == 0 {
        0
    } else {
        (v % 2) * exp2((nbits - 1) as nat) + polar_rev(v / 2, (nbits - 1) as nat)
    }
}

/// A reversed value stays below 2^nbits.
pub proof fn lemma_polar_rev_bound(v: nat, nbits: nat)
    ensures
        polar_rev(v, nbits) < exp2(nbits),
    decreases nbits,
{
    if nbits > 0 {
        lemma_polar_rev_bound(v / 2, (nbits - 1) as nat);
        let x = exp2((nbits - 1) as nat);
        assert((v % 2) * x <= x) by (nonlinear_arith)
            requires
                v % 2 <= 1,
        ;
    }
}

/// Initial reliability weights: the bit-reversed index.
pub open spec fn weights_init(n_log: nat) -> Seq<int> {
    Seq::new(exp2(n_log), |j: int| polar_rev(j as nat, n_log) as int)
}

/// One polarization stage on the weights: every position with bit `b`
/// clear adds the weight of its partner 2^b positions up.
pub open spec fn weight_stage(w: Seq<int>, b: nat) -> Seq<int> {
    Seq::new(
        w.len(),
        |i: int|
            if bit_clear(i, b) && i + exp2(b) < w.len() {
                w[i] + w[i + exp2(b)]
            } else {
                w[i]
            },
    )
}

/// Weights after stages 1..=s (stage s works on bit n_log - s).
pub open spec fn weights_after(n_log: nat, s: nat) -> Seq<int>
    decreases s,
{
    if s == 0 {
        weights_init(n_log)
    } else {
        weight_stage(weights_after(n_log, (s - 1) as nat), (n_log - s) as nat)
    }
}

/// Reliability weight of every position of a code of length 2^n_log.
pub open spec fn polar_weights(n_log: nat) -> Seq<int> {
    weights_after(n_log, n_log)
}

/// Reverses the low `n_bits` bits of `val`.
fn bit_reversal(val: usize, n_bits: usize) -> (r: usize)
    requires
        n_bits < 32,
    ensures
        r == polar_rev(val as nat, n_bits as nat),
{
    let mut result: usize = 0;
    let mut v = val;
    let mut i: usize = 0;
    while i < n_bits
        invariant
            i <= n_bits < 32,
            result < exp2(i as nat),
            polar_rev(val as nat, n_bits as nat) == result * exp2((n_bits - i) as nat)
                + polar_rev(v as nat, (n_bits - i) as nat),
        decreases n_bits - i,
    {
        proof {
            lemma_exp2_le((i + 1) as nat, 31);
            lemma_exp2_values();
            let k = (n_bits - i - 1) as nat;
            assert(exp2((n_bits - i) as nat) == 2 * exp2(k));
            assert(polar_rev(v as nat, (n_bits - i) as nat) == (v as nat % 2) * exp2(k)
                + polar_rev(v as nat / 2, k));
            assert(result * (2 * exp2(k)) + (v as nat % 2) * exp2(k) == (result * 2 + v as nat
                % 2) * exp2(k)) by (nonlinear_arith);
        }
        result = result * 2 + v % 2;
        v = v / 2;
        i = i + 1;
    }
    assert(polar_rev(v as nat, 0) == 0);
    assert(exp2(0) == 1);
    assert(n_bits == i);
    assert(result * exp2((n_bits - i) as nat) == result * 1);
    result
}

/// The weights held in a vector, as integers.
pub open spec fn as_ints(w: Seq<u64>) -> Seq<int> {
    w.map_values(|x: u64| x as int)
}

/// Applies one polarization stage (bit `b`) to the weights in place.
fn apply_weight_stage(w: &mut Vec<u64>, n_log: usize, b: usize, Ghost(bound): Ghost<int>)
    requires
        n_log < 32,
        b < n_log,
        old(w)@.len() == exp2(n_log as nat),
        2 * bound <= u64::MAX,
        forall|m: int| 0 <= m < old(w)@.len() ==> old(w)@[m] < bound,
    ensures
        final(w)@.len() == old(w)@.len(),
        as_ints(final(w)@) == weight_stage(as_ints(old(w)@), b as nat),
        forall|m: int| 0 <= m < final(w)@.len() ==> final(w)@[m] < 2 * bound,
{
    proof {
        lemma_exp2_le(b as nat, 31);
        lemma_exp2_le(n_log as nat, 31);
        lemma_exp2_pos(b as nat);
        lemma_exp2_values();
    }
    let n = exp2_usize(n_log as u32);
    let inc = exp2_usize(b as u32);
    let ghost prev = old(w)@;
    let mut i: usize = 0;
    while i < n
        invariant
            i <= n,
            b < n_log < 32,
            n == exp2(n_log as nat),
            inc == exp2(b as nat),
            inc > 0,
            w@.len() == n,
            prev.len() == n,
            2 * bound <= u64::MAX,
            forall|m: int| 0 <= m < n ==> prev[m] < bound,
            forall|m: int|
                0 <= m < i ==> w@[m] as int == weight_stage(as_ints(prev), b as nat)[m],
            forall|m: int| 0 <= m < i ==> w@[m] < 2 * bound,
            forall|m: int| i <= m < n ==> w@[m] == prev[m],
        decreases n - i,
    {
        if (i / inc) % 2 == 0 {
            proof {
                lemma_partner_in_range(i as int, b as nat, n_log as nat);
            }
            let a = w[i];
            let c = w[i + inc];
            assert(a == prev[i as int]);
            assert(c == prev[i + inc]);
            w.set(i, a + c);
        } else {
            assert(w@[i as int] == prev[i as int]);
            assert(w@[i as int] < 2 * bound);
        }
        i = i + 1;
    }
    assert(as_ints(w@) =~= weight_stage(as_ints(prev), b as nat));
}

/// Computes the reliability weight of every position of a code of length 2^n_log.
fn compute_weights(n_log: usize) -> (w: Vec<u64>)
    requires
        n_log < 32,
    ensures
        as_ints(w@) == polar_weights(n_log as nat),
{
    proof {
        lemma_exp2_le(n_log as nat, 31);
        lemma_exp2_values();
    }
    let n = exp2_usize(n_log as u32);
    let mut w: Vec<u64> = Vec::new();
    let mut j: usize = 0;
    while j < n
        invariant
            j <= n,
            n == exp2(n_log as nat),
            n_log < 32,
            w@.len() == j,
            forall|m: int| 0 <= m < j ==> w@[m] as int == weights_init(n_log as nat)[m],
            forall|m: int| 0 <= m < j ==> w@[m] < n,
        decreases n - j,
    {
        let r = bit_reversal(j, n_log);
        proof {
            lemma_polar_rev_bound(j as nat, n_log as nat);
        }
        w.push(r as u64);
        j = j + 1;
    }
    assert(as_ints(w@) =~= weights_after(n_log as nat, 0));
    let mut s: usize = 1;
    while s <= n_log
        invariant
            1 <= s <= n_log + 1,
            n == exp2(n_log as nat),
            n_log < 32,
            w@.len() == n,
            as_ints(w@) == weights_after(n_log as nat, (s - 1) as nat),
            forall|m: int| 0 <= m < n ==> w@[m] < n * exp2((s - 1) as nat),
        decreases n_log + 1 - s,
    {
        let b = n_log - s;
        let ghost bound = n * exp2((s - 1) as nat);
        proof {
            lemma_exp2_add(n_log as nat, (s - 1) as nat);
            lemma_exp2_add(n_log as nat, s as nat);
            lemma_exp2_le((n_log + s) as nat, 62);
            lemma_exp2_62();
            assert(exp2(s as nat) == 2 * exp2((s - 1) as nat));
            assert(2 * bound == n * exp2(s as nat)) by (nonlinear_arith)
                requires
                    bound == n * exp2((s - 1) as nat),
                    exp2(s as nat) == 2 * exp2((s - 1) as nat),
            ;
        }
        apply_weight_stage(&mut w, n_log, b, Ghost(bound));
        s = s + 1;
    }
    w
}

/// Position `a` is less reliable than position `b`: lower weight, or equal
/// weight and lower index.
pub open spec fn rel_key_lt(w: Seq<int>, a: int, b: int) -> bool {
    w[a] < w[b] || (w[a] == w[b] && a < b)
}

/// Value `v` occurs in `s`.
pub open spec fn occurs(s: Seq<usize>, v: int) -> bool {
    exists|i: int| 0 <= i < s.len() && s[i] == v
}

/// `s` lists every position of the weight vector `w` exactly once, from the
/// least to the most reliable (ties by increasing index).
pub open spec fn is_reliability_order(s: Seq<usize>, w: Seq<int>) -> bool {
    &&& s.len() == w.len()
    &&& forall|i: int| 0 <= i < s.len() ==> #[trigger] s[i] < w.len()
    &&& forall|v: int| 0 <= v < w.len() ==> #[trigger] occurs(s, v)
    &&& forall|i: int, j: int|
        0 <= i < j < s.len() ==> rel_key_lt(w, #[trigger] s[i] as int, #[trigger] s[j] as int)
}

/// One step of the uniqueness argument: orders that agree before position
/// `i` agree at `i`.
proof fn lemma_reliability_order_agree_at(s1: Seq<usize>, s2: Seq<usize>, w: Seq<int>, i: int)
    requires
        is_reliability_order(s1, w),
        is_reliability_order(s2, w),
        0 <= i < s1.len(),
        forall|j: int| 0 <= j < i ==> s1[j] == s2[j],
    ensures
        s1[i] == s2[i],
{
    let x = s1[i] as int;
    let y = s2[i] as int;
    if x != y {
        assert(s1[i] < w.len() && s2[i] < w.len());
        if rel_key_lt(w, x, y) {
            assert(occurs(s2, x));
            let p = choose|p: int| 0 <= p < s2.len() && s2[p] == x;
            if p < i {
                assert(s1[p] == x);
                assert(rel_key_lt(w, s1[p] as int, s1[i] as int));
            } else if p > i {
                assert(rel_key_lt(w, s2[i] as int, s2[p] as int));
            }
        } else {
            assert(rel_key_lt(w, y, x));
            assert(occurs(s1, y));
            let q = choose|q: int| 0 <= q < s1.len() && s1[q] == y;
            if q < i {
                assert(s2[q] == y);
                assert(rel_key_lt(w, s2[q] as int, s2[i] as int));
            } else if q > i {
                assert(rel_key_lt(w, s1[i] as int, s1[q] as int));
            }
        }
    }
}

/// Orders that both list every position by increasing reliability agree on
/// their first `i` entries.
proof fn lemma_reliability_order_agree_prefix(s1: Seq<usize>, s2: Seq<usize>, w: Seq<int>, i: int)
    requires
        is_reliability_order(s1, w),
        is_reliability_order(s2, w),
        0 <= i <= s1.len(),
    ensures
        forall|j: int| 0 <= j < i ==> s1[j] == s2[j],
    decreases i,
{
    if i > 0 {
        lemma_reliability_order_agree_prefix(s1, s2, w, i - 1);
        lemma_reliability_order_agree_at(s1, s2, w, i - 1);
    }
}

/// The reliability order of a weight vector is unique: two orders that both
/// list every position once by increasing reliability are equal.
pub proof fn lemma_reliability_order_unique(s1: Seq<usize>, s2: Seq<usize>, w: Seq<int>)
    requires
        is_reliability_order(s1, w),
        is_reliability_order(s2, w),
    ensures
        s1 == s2,
{
    lemma_reliability_order_agree_prefix(s1, s2, w, s1.len() as int);
    assert(s1 =~= s2);
}

/// Orders all positions by increasing reliability.
fn sort_by_reliability(w: &Vec<u64>) -> (s: Vec<usize>)
    ensures
        is_reliability_order(s@, as_ints(w@)),
{
    let n = w.len();
    let ghost ws = as_ints(w@);
    let mut s: Vec<usize> = Vec::new();
    let mut k: usize = 0;
    while k < n
        invariant
            k <= n,
            n == w@.len(),
            s@.len() == k,
            forall|m: int| 0 <= m < k ==> s@[m] == m,
        decreases n - k,
    {
        s.push(k);
        k = k + 1;
    }
    assert forall|v: int| 0 <= v < n implies #[trigger] occurs(s@, v) by {
        assert(s@[v] == v);
    }
    if n == 0 {
        return s;
    }
    assert forall|a: int, b: int| 0 <= a < n && 0 <= b < n && a != b implies s@[a] != s@[b] by {
        assert(s@[a] == a);
        assert(s@[b] == b);
    }
    let mut i: usize = 1;
    while i < n
        invariant
            1 <= i <= n,
            n == w@.len(),
            ws == as_ints(w@),
            s@.len() == n,
            forall|m: int| 0 <= m < n ==> #[trigger] s@[m] < n,
            forall|v: int| 0 <= v < n ==> #[trigger] occurs(s@, v),
            forall|a: int, b: int| 0 <= a < n && 0 <= b < n && a != b ==> s@[a] != s@[b],
            forall|a: int, b: int|
                0 <= a < b < i ==> rel_key_lt(ws, #[trigger] s@[a] as int, #[trigger] s@[b] as int),
        decreases n - i,
    {
        let mut j: usize = i;
        while j > 0 && (w[s[j]] < w[s[j - 1]] || (w[s[j]] == w[s[j - 1]] && s[j] < s[j - 1]))
            invariant
                0 <= j <= i < n,
                n == w@.len(),
                ws == as_ints(w@),
                s@.len() == n,
                forall|m: int| 0 <= m < n ==> #[trigger] s@[m] < n,
                forall|v: int| 0 <= v < n ==> #[trigger] occurs(s@, v),
                forall|a: int, b: int| 0 <= a < n && 0 <= b < n && a != b ==> s@[a] != s@[b],
                forall|a: int, b: int|
                    0 <= a < b <= i && a != j && b != j ==> rel_key_lt(
                        ws,
                        #[trigger] s@[a] as int,
                        #[trigger] s@[b] as int,
                    ),
                forall|b: int| j < b <= i ==> rel_key_lt(ws, s@[j as int] as int, #[trigger] s@[b] as int),
            decreases j,
        {
            let x = s[j - 1];
            let y = s[j];
            let ghost before = s@;
            s.set(j - 1, y);
            s.set(j, x);
            proof {
                assert forall|v: int| 0 <= v < n implies #[trigger] occurs(s@, v) by {
                    assert(occurs(before, v));
                    let m0 = choose|m: int| 0 <= m < before.len() && before[m] == v;
                    if m0 == j - 1 {
                        assert(s@[j as int] == v);
                    } else if m0 == j {
                        assert(s@[j - 1] == v);
                    } else {
                        assert(s@[m0] == v);
                    }
                }
            }
            j = j - 1;
        }
        proof {
            assert forall|a: int, b: int| 0 <= a < b < i + 1 implies rel_key_lt(
                ws,
                #[trigger] s@[a] as int,
                #[trigger] s@[b] as int,
            ) by {
                if a != j && b != j {
                } else if b == j {
                    assert(j > 0);
                    if a < j - 1 {
                        assert(rel_key_lt(ws, s@[a] as int, s@[j - 1] as int));
                    }
                    assert(rel_key_lt(ws, s@[j - 1] as int, s@[j as int] as int));
                } else {
                }
            }
        }
        i = i + 1;
    }
    s
}

/// The reliability order of a code of length 2^n_log.
pub open spec fn polar_reliability(n_log: nat) -> Seq<usize> {
    choose|s: Seq<usize>| is_reliability_order(s, polar_weights(n_log))
}

/// Information positions: the `k` most reliable of the `n` positions (true
/// marks an information bit, false a frozen bit).
pub open spec fn polar_info_positions(rel: Seq<usize>, n: nat, k: nat) -> Seq<bool> {
    Seq::new(n, |p: int| occurs_from(rel, p, n - k))
}

/// Value `v` occurs in `s` at a position at or after `lo`.
pub open spec fn occurs_from(s: Seq<usize>, v: int, lo: int) -> bool {
    exists|i: int| lo <= i < s.len() && s[i] == v
}

/// Entry `k` of the sub-block interleaver pattern of a length-`n` code.
pub open spec fn block_interleaver_entry(n: nat, k: nat) -> nat {
    if n >= 32 {
        k / (n / 32) + 32 * (k % (n / 32))
    } else {
        k
    }
}

/// The sub-block interleaver pattern of a length-`n` code.
pub open spec fn polar_block_interleaver(n: nat) -> Seq<usize> {
    Seq::new(n, |k: int| block_interleaver_entry(n, k as nat) as usize)
}

/// The information-bit mask of the code chosen for `k`, `e` and `n_max_log`.
pub open spec fn polar_info_mask(k: nat, e: nat, n_max_log: nat) -> Seq<bool> {
    let nl = polar_n_log(k, e, n_max_log);
    polar_info_positions(polar_reliability(nl), exp2(nl), k)
}

/// Finds the code length exponent for `k` and `e`.
fn calculate_n_log(k: usize, e: usize, n_max_log: usize) -> (r: usize)
    requires
        n_max_log < 32,
    ensures
        r == polar_n_log(k as nat, e as nat, n_max_log as nat),
        r <= n_max_log || r == 5,
        r <= 31,
{
    let min_n = if k >= e / 2 { k } else { e / 2 };
    let mut n_log: usize = 5;
    while n_log <= n_max_log
        invariant
            5 <= n_log,
            n_max_log < 32,
            n_log <= n_max_log + 1 || n_log == 5,
            polar_n_log_from(n_log as nat, n_max_log as nat, min_n as nat) == polar_n_log(
                k as nat,
                e as nat,
                n_max_log as nat,
            ),
        decreases n_max_log + 1 - n_log,
    {
        let n = exp2_usize(n_log as u32);
        if n >= min_n {
            return n_log;
        }
        n_log = n_log + 1;
    }
    n_max_log
}

/// The sub-block interleaver entry stays inside a code of length 2^m >= 32.
proof fn lemma_block_interleaver_entry_bound(m: nat, k: nat)
    requires
        m >= 5,
        k < exp2(m),
    ensures
        block_interleaver_entry(exp2(m), k) < exp2(m),
{
    lemma_exp2_add(5, (m - 5) as nat);
    lemma_exp2_values();
    lemma_exp2_pos((m - 5) as nat);
    let j = exp2((m - 5) as nat) as int;
    let n = exp2(m) as int;
    assert(n == 32 * j);
    assert(n / 32 == j);
    let q = (k as int) / j;
    let r = (k as int) % j;
    assert(k == j * q + r && 0 <= r < j) by (nonlinear_arith)
        requires
            q == (k as int) / j,
            r == (k as int) % j,
            j > 0,
    ;
    assert(q < 32) by (nonlinear_arith)
        requires
            k == j * q + r,
            0 <= r,
            k < 32 * j,
            j > 0,
    ;
    assert(q + 32 * r < 32 * j) by (nonlinear_arith)
        requires
            q < 32,
            r < j,
    ;
}

/// Builds the sub-block interleaver pattern for a length-2^n_log code.
fn generate_block_interleaver(n: usize, Ghost(n_log): Ghost<nat>) -> (p: Vec<usize>)
    requires
        n == exp2(n_log),
        n_log < 32,
    ensures
        p@ == polar_block_interleaver(n as nat),
        forall|i: int| 0 <= i < p@.len() ==> #[trigger] p@[i] < n,
{
    let mut pattern: Vec<usize> = Vec::new();
    if n >= 32 {
        proof {
            lemma_exp2_values();
            if n_log < 5 {
                lemma_exp2_le(n_log, 4);
            }
        }
        let j_max = n / 32;
        let mut k: usize = 0;
        while k < n
            invariant
                k <= n,
                n == exp2(n_log),
                n_log >= 5,
                n >= 32,
                j_max == n / 32,
                pattern@.len() == k,
                forall|i: int|
                    0 <= i < k ==> pattern@[i] == block_interleaver_entry(n as nat, i as nat),
                forall|i: int| 0 <= i < k ==> #[trigger] pattern@[i] < n,
            decreases n - k,
        {
            proof {
                lemma_block_interleaver_entry_bound(n_log, k as nat);
            }
            let i = k / j_max;
            let j = k % j_max;
            let k_prime = i + 32 * j;
            pattern.push(k_prime);
            k = k + 1;
        }
    } else {
        let mut k: usize = 0;
        while k < n
            invariant
                k <= n,
                n < 32,
                pattern@.len() == k,
                forall|i: int| 0 <= i < k ==> pattern@[i] == i,
            decreases n - k,
        {
            pattern.push(k);
            k = k + 1;
        }
    }
    assert(pattern@ =~= polar_block_interleaver(n as nat));
    pattern
}

/// Marks the `k` most reliable positions as information positions.
fn allocate_bits(n: usize, k: usize, reliability_sequence: &Vec<usize>) -> (f: Vec<bool>)
    requires
        k <= n,
        reliability_sequence@.len() == n,
        forall|i: int| 0 <= i < n ==> #[trigger] reliability_sequence@[i] < n,
    ensures
        f@ == polar_info_positions(reliability_sequence@, n as nat, k as nat),
{
    let mut frozen_bits: Vec<bool> = Vec::new();
    let mut p: usize = 0;
    while p < n
        invariant
            p <= n,
            frozen_bits@.len() == p,
            forall|q: int| 0 <= q < p ==> !frozen_bits@[q],
        decreases n - p,
    {
        frozen_bits.push(false);
        p = p + 1;
    }
    let ghost rel = reliability_sequence@;
    let mut i: usize = n - k;
    while i < n
        invariant
            n - k <= i <= n,
            k <= n,
            rel == reliability_sequence@,
            rel.len() == n,
            forall|q: int| 0 <= q < n ==> #[trigger] rel[q] < n,
            frozen_bits@.len() == n,
            forall|q: int|
                0 <= q < n ==> frozen_bits@[q] == exists|t: int|
                    (n - k) <= t < i && #[trigger] rel[t] == q,
        decreases n - i,
    {
        let pos = reliability_sequence[i];
        frozen_bits.set(pos, true);
        proof {
            assert forall|q: int| 0 <= q < n implies frozen_bits@[q] == exists|t: int|
                (n - k) <= t < i + 1 && #[trigger] rel[t] == q by {
                if q == pos {
                    assert(rel[i as int] == q);
                }
            }
        }
        i = i + 1;
    }
    proof {
        assert forall|q: int| 0 <= q < n implies frozen_bits@[q] == polar_info_positions(
            rel,
            n as nat,
            k as nat,
        )[q] by {
            if frozen_bits@[q] {
                let t = choose|t: int| (n - k) <= t < n && #[trigger] rel[t] == q;
                assert(occurs_from(rel, q, n - k));
            }
            if occurs_from(rel, q, n - k) {
                let t = choose|t: int| (n - k) <= t < rel.len() && rel[t] == q;
                assert((n - k) <= t < n && rel[t] == q);
            }
        }
    }
    assert(frozen_bits@ =~= polar_info_positions(rel, n as nat, k as nat));
    frozen_bits
}

/// A polar code: its length, information and output sizes, information
/// positions and sub-block interleaver.
pub struct PolarCode {
    n: usize,
    k: usize,
    e: usize,
    n_log: usize,
    frozen_bits: Vec<bool>,
    reliability_sequence: Vec<usize>,
    block_interleaver: Vec<usize>,
}

impl PolarCode {
    /// Code length N.
    pub closed spec fn spec_n(&self) -> nat {
        self.n as nat
    }

    /// Information bit count K.
    pub closed spec fn spec_k(&self) -> nat {
        self.k as nat
    }

    /// Output bit count E.
    pub closed spec fn spec_e(&self) -> nat {
        self.e as nat
    }

    /// log2 of the code length.
    pub closed spec fn spec_n_log(&self) -> nat {
        self.n_log as nat
    }

    /// Information mask: true at information positions.
    pub closed spec fn spec_info(&self) -> Seq<bool> {
        self.frozen_bits@
    }

    /// Positions ordered by increasing reliability.
    pub closed spec fn spec_reliability(&self) -> Seq<usize> {
        self.reliability_sequence@
    }

    /// Sub-block interleaver pattern.
    pub closed spec fn spec_interleaver(&self) -> Seq<usize> {
        self.block_interleaver@
    }

    /// The code is the one built for its K, E and some n_max_log: its fields
    /// agree with the construction rules.
    pub open spec fn well_formed(&self) -> bool {
        &&& self.spec_n_log() < 32
        &&& self.spec_n() == exp2(self.spec_n_log())
        &&& self.spec_k() <= self.spec_n()
        &&& self.spec_reliability() == polar_reliability(self.spec_n_log())
        &&& is_reliability_order(self.spec_reliability(), polar_weights(self.spec_n_log()))
        &&& self.spec_info() == polar_info_positions(
            self.spec_reliability(),
            self.spec_n(),
            self.spec_k(),
        )
        &&& self.spec_interleaver() == polar_block_interleaver(self.spec_n())
    }

    /// Constructs the polar code for `k` information bits and `e` output bits
    /// with code length at most 2^n_max_log (but at least 32 when that is larger).
    pub fn new(k: usize, e: usize, n_max_log: usize) -> (c: Self)
        requires
            n_max_log < 32,
            k <= exp2(polar_n_log(k as nat, e as nat, n_max_log as nat)),
        ensures
            c.well_formed(),
            c.spec_n_log() == polar_n_log(k as nat, e as nat, n_max_log as nat),
            c.spec_n_log() <= n_max_log || c.spec_n_log() == 5,
            c.spec_k() == k,
            c.spec_e() == e,
            c.spec_info() == polar_info_mask(k as nat, e as nat, n_max_log as nat),
    {
        let n_log = calculate_n_log(k, e, n_max_log);
        let n = exp2_usize(n_log as u32);
        let w = compute_weights(n_log);
        let reliability_sequence = sort_by_reliability(&w);
        proof {
            let ws = polar_weights(n_log as nat);
            assert(is_reliability_order(reliability_sequence@, ws));
            assert(is_reliability_order(polar_reliability(n_log as nat), ws));
            lemma_reliability_order_unique(
                reliability_sequence@,
                polar_reliability(n_log as nat),
                ws,
            );
            assert(weights_init(n_log as nat).len() == n);
            lemma_weights_len(n_log as nat, n_log as nat);
        }
        let frozen_bits = allocate_bits(n, k, &reliability_sequence);
        let block_interleaver = generate_block_interleaver(n, Ghost(n_log as nat));
        PolarCode { n, k, e, n_log, frozen_bits, reliability_sequence, block_interleaver }
    }

    /// Code length N.
    pub fn get_n(&self) -> (r: usize)
        ensures
            r == self.spec_n(),
    {
        self.n
    }

    /// Information bit count K.
    pub fn get_k(&self) -> (r: usize)
        ensures
            r == self.spec_k(),
    {
        self.k
    }

    /// log2 of the code length.
    pub fn get_n_log(&self) -> (r: usize)
        ensures
            r == self.spec_n_log(),
    {
        self.n_log
    }

    /// Information mask (true = information position, false = frozen).
    pub fn get_frozen_bits(&self) -> (r: &[bool])
        ensures
            r@ == self.spec_info(),
    {
        self.frozen_bits.as_slice()
    }

    /// Output bit count E.
    pub fn get_e(&self) -> (r: usize)
        ensures
            r == self.spec_e(),
    {
        self.e
    }

    /// Sub-block interleaver pattern.
    pub fn get_block_interleaver(&self) -> (r: &[usize])
        ensures
            r@ == self.spec_interleaver(),
    {
        self.block_interleaver.as_slice()
    }
}

/// Every weight stage keeps the length 2^n_log.
proof fn lemma_weights_len(n_log: nat, s: nat)
    ensures
        weights_after(n_log, s).len() == exp2(n_log),
    decreases s,
{
    if s > 0 {
        lemma_weights_len(n_log, (s - 1) as nat);
    }
}

/// Value `v` occurs in `s` at a position in `lo..hi`.
pub open spec fn occurs_between(s: Seq<usize>, v: int, lo: int, hi: int) -> bool {
    exists|i: int| lo <= i < hi && s[i] == v
}

/// The positions below `n` listed in `s[lo..hi]`.
pub open spec fn mask_between(s: Seq<usize>, n: nat, lo: int, hi: int) -> Seq<bool> {
    Seq::new(n, |p: int| occurs_between(s, p, lo, hi))
}

/// A reliability order lists `hi - lo` distinct positions in `s[lo..hi]`.
proof fn lemma_mask_between_count(s: Seq<usize>, w: Seq<int>, lo: int, hi: int)
    requires
        is_reliability_order(s, w),
        0 <= lo <= hi <= s.len(),
    ensures
        count_true(mask_between(s, s.len(), lo, hi)) == hi - lo,
    decreases hi - lo,
{
    let n = s.len();
    if hi == lo {
        assert(mask_between(s, n, lo, hi) =~= Seq::new(n, |p: int| false));
        lemma_count_true_zero(n);
    } else {
        lemma_mask_between_count(s, w, lo, hi - 1);
        let m0 = mask_between(s, n, lo, hi - 1);
        let v = s[hi - 1] as int;
        assert(0 <= v < n);
        if m0[v] {
            let i = choose|i: int| lo <= i < hi - 1 && s[i] == v;
            assert(rel_key_lt(w, s[i] as int, s[hi - 1] as int));
        }
        assert(mask_between(s, n, lo, hi) =~= m0.update(v, true)) by {
            assert forall|p: int| 0 <= p < n implies mask_between(s, n, lo, hi)[p] == m0.update(v, true)[p] by {
                if p == v {
                    assert(occurs_between(s, p, lo, hi)) by {
                        assert(s[hi - 1] == p);
                    }
                } else if occurs_between(s, p, lo, hi) {
                    let i = choose|i: int| lo <= i < hi && s[i] == p;
                    assert(i != hi - 1);
                    assert(occurs_between(s, p, lo, hi - 1));
                }
            }
        }
        lemma_count_true_set(m0, v);
    }
}

/// A well-formed code marks exactly K information positions (the K most
/// reliable), and the information positions of two codes of one length
/// are nested: those of the code with fewer information bits are among
/// those of the other.
pub proof fn lemma_info_positions(c1: PolarCode, c2: PolarCode)
    requires
        c1.well_formed(),
        c2.well_formed(),
        c1.spec_n_log() == c2.spec_n_log(),
        c1.spec_k() <= c2.spec_k(),
    ensures
        c1.spec_info().len() == c1.spec_n(),
        count_true(c1.spec_info()) == c1.spec_k(),
        forall|p: int| 0 <= p < c1.spec_n() && #[trigger] c1.spec_info()[p] ==> c2.spec_info()[p],
{
    let rel = c1.spec_reliability();
    let n = c1.spec_n();
    lemma_weights_len(c1.spec_n_log(), c1.spec_n_log());
    assert(rel.len() == n);
    assert(c1.spec_info() =~= mask_between(rel, n, n - c1.spec_k(), n as int));
    lemma_mask_between_count(rel, polar_weights(c1.spec_n_log()), n - c1.spec_k(), n as int);
    assert forall|p: int| 0 <= p < n && #[trigger] c1.spec_info()[p] implies c2.spec_info()[p] by {
        let i = choose|i: int| n - c1.spec_k() <= i < rel.len() && rel[i] == p;
        assert(occurs_from(c2.spec_reliability(), p, n - c2.spec_k()));
    }
}

/// Number of columns of the 32-row interleaver matrix for `k` bits.
pub open spec fn il_cols(k: nat) -> nat {
    (k + 31) / 32
}

/// Input position read at step `t` of the column-by-column traversal of
/// the 32-row matrix written row by row.
pub open spec fn il_pos(k: nat, t: nat) -> nat {
    (t % 32) * il_cols(k) + t / 32
}

/// Step `t` of the traversal emits a bit: the cell holds an input bit that
/// is not the NULL marker 2.
pub open spec fn il_emit(input: Seq<u8>, t: nat) -> bool {
    il_pos(input.len(), t) < input.len() && input[il_pos(input.len(), t) as int] != 2
}

/// The bits emitted by the first `t` steps of the traversal.
pub open spec fn il_prefix(input: Seq<u8>, t: nat) -> Seq<u8>
    decreases t,
{
    if t == 0 {
        Seq::empty()
    } else {
        let prev = il_prefix(input, (t - 1) as nat);
        if il_emit(input, (t - 1) as nat) {
            prev.push(input[il_pos(input.len(), (t - 1) as nat) as int])
        } else {
            prev
        }
    }
}

/// The sub-block interleaved bits: for 32 or more bits, the matrix of 32 rows
/// written row by row and read column by column skipping empty cells;
/// shorter inputs pass unchanged.
pub open spec fn polar_interleave(input: Seq<u8>) -> Seq<u8> {
    if input.len() >= 32 {
        il_prefix(input, 32 * il_cols(input.len()))
    } else {
        input
    }
}

/// Number of true entries.
pub open spec fn count_true(s: Seq<bool>) -> nat
    decreases s.len(),
{
    if s.len() == 0 {
        0
    } else {
        count_true(s.drop_last()) + (if s.last() { 1nat } else { 0nat })
    }
}

/// A sequence has no more true entries than entries.
proof fn lemma_count_true_le_len(s: Seq<bool>)
    ensures
        count_true(s) <= s.len(),
    decreases s.len(),
{
    if s.len() > 0 {
        lemma_count_true_le_len(s.drop_last());
    }
}

/// Setting a false entry to true adds one true entry.
proof fn lemma_count_true_set(s: Seq<bool>, i: int)
    requires
        0 <= i < s.len(),
        !s[i],
    ensures
        count_true(s.update(i, true)) == count_true(s) + 1,
    decreases s.len(),
{
    let u = s.update(i, true);
    if i == s.len() - 1 {
        assert(u.drop_last() =~= s.drop_last());
    } else {
        assert(u.drop_last() =~= s.drop_last().update(i, true));
        lemma_count_true_set(s.drop_last(), i);
    }
}

/// Traversal step that reads input position `p` (p < k).
pub open spec fn il_step_of(k: nat, p: nat) -> nat {
    (p % il_cols(k)) * 32 + p / il_cols(k)
}

/// The traversal reads position `p` exactly at step `il_step_of(k, p)`.
proof fn lemma_il_step_of(k: nat, p: nat, t: nat)
    requires
        32 <= k,
        p < k,
        t < 32 * il_cols(k),
    ensures
        il_step_of(k, p) < 32 * il_cols(k),
        il_pos(k, il_step_of(k, p)) == p,
        il_pos(k, t) == p ==> t == il_step_of(k, p),
{
    let c = il_cols(k) as int;
    assert(c >= 1);
    assert(k <= 32 * c);
    let pi = p as int;
    let ti = t as int;
    let q = pi / c;
    let r = pi % c;
    assert(pi == c * q + r && 0 <= r < c) by (nonlinear_arith)
        requires
            q == pi / c,
            r == pi % c,
            c > 0,
    ;
    assert(q < 32) by (nonlinear_arith)
        requires
            pi == c * q + r,
            0 <= r,
            pi < 32 * c,
            c > 0,
    ;
    let st = r * 32 + q;
    assert(st < 32 * c) by (nonlinear_arith)
        requires
            st == r * 32 + q,
            r < c,
            q < 32,
    ;
    assert(st % 32 == q && st / 32 == r) by (nonlinear_arith)
        requires
            st == r * 32 + q,
            0 <= q < 32,
            0 <= r,
    ;
    assert(il_pos(k, st as nat) == q * c + r);
    assert(q * c == c * q) by (nonlinear_arith);
    if il_pos(k, t) == p {
        let a = ti % 32;
        let b = ti / 32;
        assert(ti == 32 * b + a && 0 <= a < 32) by (nonlinear_arith)
            requires
                a == ti % 32,
                b == ti / 32,
        ;
        assert(b < c) by (nonlinear_arith)
            requires
                ti == 32 * b + a,
                0 <= a,
                ti < 32 * c,
        ;
        assert(a * c + b == pi);
        assert(pi / c == a && pi % c == b) by (nonlinear_arith)
            requires
                a * c + b == pi,
                0 <= b < c,
                0 <= a,
        ;
    }
}

/// Positions already read before step `t`.
pub open spec fn il_seen(k: nat, t: nat) -> Seq<bool> {
    Seq::new(k, |p: int| il_step_of(k, p as nat) < t)
}

/// After `t` steps the traversal has emitted at most as many bits as it has
/// read distinct input positions, and so at most `k`.
proof fn lemma_il_prefix_len(input: Seq<u8>, t: nat)
    requires
        input.len() >= 32,
        t <= 32 * il_cols(input.len()),
    ensures
        il_prefix(input, t).len() <= count_true(il_seen(input.len(), t)),
        count_true(il_seen(input.len(), t)) <= input.len(),
    decreases t,
{
    let k = input.len();
    lemma_count_true_le_len(il_seen(k, t));
    if t > 0 {
        let t0 = (t - 1) as nat;
        lemma_il_prefix_len(input, t0);
        let p = il_pos(k, t0);
        if p < k {
            lemma_il_step_of(k, p, t0);
            assert forall|q: nat| q < k && q != p implies il_step_of(k, q) != t0 by {
                lemma_il_step_of(k, q, t0);
            }
            assert(il_seen(k, t) =~= il_seen(k, t0).update(p as int, true));
            lemma_count_true_set(il_seen(k, t0), p as int);
        } else {
            assert forall|q: nat| q < k implies il_step_of(k, q) != t0 by {
                lemma_il_step_of(k, q, t0);
            }
            assert(il_seen(k, t) =~= il_seen(k, t0));
        }
    } else {
        assert(il_seen(k, 0) =~= Seq::new(k, |p: int| false));
        lemma_count_true_zero(k);
    }
}

/// An all-false sequence has no true entries.
proof fn lemma_count_true_zero(n: nat)
    ensures
        count_true(Seq::new(n, |p: int| false)) == 0,
    decreases n,
{
    if n > 0 {
        assert(Seq::new(n, |p: int| false).drop_last() =~= Seq::new((n - 1) as nat, |p: int| false));
        lemma_count_true_zero((n - 1) as nat);
    }
}

/// The interleaver emits no more bits than it is given.
pub proof fn lemma_polar_interleave_len(input: Seq<u8>)
    ensures
        polar_interleave(input).len() <= input.len(),
{
    if input.len() >= 32 {
        lemma_il_prefix_len(input, 32 * il_cols(input.len()));
    }
}

/// The sub-block interleaver of the PDCCH payload.
pub struct PolarInterleaver;

impl PolarInterleaver {
    /// Writes the interleaved input at the front of `output`; the rest of
    /// `output` is left as it was.
    pub fn interleave(output: &mut [u8], input: &[u8])
        requires
            input@.len() >= 32 ==> old(output)@.len() >= polar_interleave(input@).len(),
            input@.len() >= 32 ==> input@.len() + 31 <= usize::MAX,
            input@.len() < 32 ==> old(output)@.len() == input@.len(),
        ensures
            final(output)@ == polar_interleave(input@) + old(output)@.skip(
                polar_interleave(input@).len() as int,
            ),
    {
        let k = input.len();
        if k >= 32 {
            let rows: usize = 32;
            let cols = (k + (rows - 1)) / rows;
            assert(cols == il_cols(k as nat));
            let ghost full = polar_interleave(input@);
            proof {
                lemma_il_prefix_len(input@, 32 * il_cols(k as nat));
            }
            let mut idx: usize = 0;
            let mut c: usize = 0;
            while c < cols
                invariant
                    c <= cols,
                    rows == 32,
                    k == input@.len(),
                    k >= 32,
                    k + 31 <= usize::MAX,
                    cols == il_cols(k as nat),
                    full == il_prefix(input@, 32 * il_cols(k as nat)),
                    old(output)@.len() >= full.len(),
                    output@.len() == old(output)@.len(),
                    idx == il_prefix(input@, (c * 32) as nat).len(),
                    output@ == il_prefix(input@, (c * 32) as nat) + old(output)@.skip(idx as int),
                decreases cols - c,
            {
                let mut r: usize = 0;
                while r < rows
                    invariant
                        r <= rows == 32,
                        c < cols,
                        k == input@.len(),
                        k >= 32,
                        k + 31 <= usize::MAX,
                        cols == il_cols(k as nat),
                        full == il_prefix(input@, 32 * il_cols(k as nat)),
                        old(output)@.len() >= full.len(),
                        output@.len() == old(output)@.len(),
                        idx == il_prefix(input@, (c * 32 + r) as nat).len(),
                        output@ == il_prefix(input@, (c * 32 + r) as nat) + old(output)@.skip(
                            idx as int,
                        ),
                    decreases rows - r,
                {
                    let ghost t = (c * 32 + r) as nat;
                    proof {
                        assert(cols * 32 <= k + 31) by (nonlinear_arith)
                            requires
                                cols == (k + 31) / 32,
                        ;
                        assert(r * cols + c <= 31 * cols + cols) by (nonlinear_arith)
                            requires
                                r < 32,
                                c < cols,
                        ;
                        assert(t % 32 == r && t / 32 == c) by (nonlinear_arith)
                            requires
                                t == c * 32 + r,
                                r < 32,
                        ;
                        assert(il_pos(k as nat, t) == r * cols + c);
                        assert(t < 32 * il_cols(k as nat)) by (nonlinear_arith)
                            requires
                                t == c * 32 + r,
                                r < 32,
                                c < cols,
                                cols == il_cols(k as nat),
                        ;
                        lemma_il_prefix_len(input@, t + 1);
                        lemma_il_prefix_monotone(input@, t + 1, 32 * il_cols(k as nat));
                    }
                    let p = r * cols + c;
                    if p < k {
                        let v = input[p];
                        if v != 2 {
                            output[idx] = v;
                            idx = idx + 1;
                        }
                    }
                    proof {
                        assert(output@ =~= il_prefix(input@, t + 1) + old(output)@.skip(idx as int));
                    }
                    r = r + 1;
                }
                c = c + 1;
            }
            proof {
                assert(cols * 32 == 32 * il_cols(k as nat));
            }
        } else {
            let mut i: usize = 0;
            while i < k
                invariant
                    i <= k,
                    k == input@.len(),
                    k < 32,
                    output@.len() == k,
                    forall|m: int| 0 <= m < i ==> output@[m] == input@[m],
                decreases k - i,
            {
                output[i] = input[i];
                i = i + 1;
            }
            assert(output@ =~= input@ + old(output)@.skip(k as int));
        }
    }
}

/// Emitted prefixes only grow along the traversal.
proof fn lemma_il_prefix_monotone(input: Seq<u8>, a: nat, b: nat)
    requires
        a <= b,
    ensures
        il_prefix(input, a).len() <= il_prefix(input, b).len(),
    decreases b,
{
    if a < b {
        lemma_il_prefix_monotone(input, a, (b - 1) as nat);
    }
}

/// Rank of position `p` among the information positions: the number of
/// information positions before it.
pub open spec fn info_rank(info: Seq<bool>, p: int) -> nat {
    count_true(info.take(p))
}

/// The allocated vector of length `len`: the input bits in order at the
/// information positions (as far as the input reaches), zero elsewhere.
pub open spec fn polar_allocate(info: Seq<bool>, input: Seq<u8>, len: nat) -> Seq<u8> {
    Seq::new(
        len,
        |p: int|
            if p < info.len() && info[p] && info_rank(info, p) < input.len() {
                input[info_rank(info, p) as int]
            } else {
                0u8
            },
    )
}

/// Extending a prefix by one entry adds that entry to the count.
proof fn lemma_count_true_take_step(s: Seq<bool>, i: int)
    requires
        0 <= i < s.len(),
    ensures
        count_true(s.take(i + 1)) == count_true(s.take(i)) + (if s[i] {
            1nat
        } else {
            0nat
        }),
{
    assert(s.take(i + 1).drop_last() =~= s.take(i));
}

/// Places the information bits of a polar code.
pub struct PolarAllocator;

impl PolarAllocator {
    /// Clears `output` and writes the input bits, in order, at the
    /// information positions of `code`.
    pub fn allocate(output: &mut [u8], input: &[u8], code: &PolarCode)
        requires
            old(output)@.len() >= code.spec_info().len(),
        ensures
            final(output)@ == polar_allocate(code.spec_info(), input@, old(output)@.len()),
    {
        let olen = output.len();
        let mut z: usize = 0;
        while z < olen
            invariant
                z <= olen,
                output@.len() == olen,
                forall|m: int| 0 <= m < z ==> output@[m] == 0,
            decreases olen - z,
        {
            output[z] = 0;
            z = z + 1;
        }
        let ghost info = code.frozen_bits@;
        let flen = code.frozen_bits.len();
        let mut info_idx: usize = 0;
        let mut i: usize = 0;
        while i < flen
            invariant
                i <= flen,
                info == code.frozen_bits@,
                flen == info.len(),
                flen <= olen,
                output@.len() == olen,
                info_idx == (if count_true(info.take(i as int)) < input@.len() {
                    count_true(info.take(i as int))
                } else {
                    input@.len()
                }),
                forall|m: int|
                    0 <= m < i ==> output@[m] == polar_allocate(info, input@, olen as nat)[m],
                forall|m: int| i <= m < olen ==> output@[m] == 0,
            decreases flen - i,
        {
            proof {
                lemma_count_true_take_step(info, i as int);
            }
            if code.frozen_bits[i] && info_idx < input.len() {
                output[i] = input[info_idx];
                info_idx = info_idx + 1;
            }
            i = i + 1;
        }
        assert(output@ =~= polar_allocate(info, input@, olen as nat));
    }
}

/// One butterfly stage of the polar transform over the first `n` entries:
/// each position with bit `b` clear takes the XOR with its partner 2^b up.
pub open spec fn polar_stage(v: Seq<u8>, b: nat, n: nat) -> Seq<u8> {
    Seq::new(
        v.len(),
        |x: int|
            if x < n && bit_clear(x, b) && x + exp2(b) < v.len() {
                v[x] ^ v[x + exp2(b)]
            } else {
                v[x]
            },
    )
}

/// The first `s` stages (bits 0 .. s-1) of the transform of length 2^n_log.
pub open spec fn polar_stages(v: Seq<u8>, n_log: nat, s: nat) -> Seq<u8>
    decreases s,
{
    if s == 0 {
        v
    } else {
        polar_stage(polar_stages(v, n_log, (s - 1) as nat), (s - 1) as nat, exp2(n_log))
    }
}

/// The polar transform of length 2^n_log applied to the front of `v`.
pub open spec fn polar_transform(v: Seq<u8>, n_log: nat) -> Seq<u8> {
    polar_stages(v, n_log, n_log)
}

/// Every stage keeps the length.
proof fn lemma_polar_stages_len(v: Seq<u8>, n_log: nat, s: nat)
    ensures
        polar_stages(v, n_log, s).len() == v.len(),
    decreases s,
{
    if s > 0 {
        lemma_polar_stages_len(v, n_log, (s - 1) as nat);
    }
}

/// A butterfly stage undoes itself.
proof fn lemma_polar_stage_involutive(v: Seq<u8>, b: nat, n_log: nat)
    requires
        b < n_log,
        exp2(n_log) <= v.len(),
    ensures
        polar_stage(polar_stage(v, b, exp2(n_log)), b, exp2(n_log)) == v,
{
    let n = exp2(n_log);
    let u = polar_stage(v, b, n);
    let w = polar_stage(u, b, n);
    assert forall|x: int| 0 <= x < v.len() implies #[trigger] w[x] == v[x] by {
        if x < n && bit_clear(x, b) && x + exp2(b) < v.len() {
            lemma_partner_in_range(x, b, n_log);
            let y = x + exp2(b);
            assert(u[y] == v[y]);
            let p = v[x];
            let q = v[y];
            assert((p ^ q) ^ q == p) by (bit_vector);
        }
    }
    assert(w =~= v);
}

/// Butterfly stages of different bits commute.
proof fn lemma_polar_stages_commute(v: Seq<u8>, b: nat, c: nat, n_log: nat)
    requires
        b < n_log,
        c < n_log,
        b != c,
        exp2(n_log) <= v.len(),
    ensures
        polar_stage(polar_stage(v, b, exp2(n_log)), c, exp2(n_log)) == polar_stage(
            polar_stage(v, c, exp2(n_log)),
            b,
            exp2(n_log),
        ),
{
    let n = exp2(n_log);
    let ub = polar_stage(v, b, n);
    let uc = polar_stage(v, c, n);
    let l = polar_stage(ub, c, n);
    let r = polar_stage(uc, b, n);
    assert forall|x: int| 0 <= x < v.len() implies #[trigger] l[x] == r[x] by {
        if x < n {
            let cb = bit_clear(x, b);
            let cc = bit_clear(x, c);
            if cb {
                lemma_partner_in_range(x, b, n_log);
            }
            if cc {
                lemma_partner_in_range(x, c, n_log);
                lemma_bit_clear_other(x, b, c);
            }
            if cb {
                lemma_bit_clear_other(x, c, b);
            }
            let bb = exp2(b) as int;
            let ccc = exp2(c) as int;
            if cb && cc {
                lemma_partner_in_range(x + ccc, b, n_log);
                assert(x + ccc + bb == x + bb + ccc);
                let a0 = v[x];
                let a1 = v[x + bb];
                let a2 = v[x + ccc];
                let a3 = v[x + bb + ccc];
                assert((a0 ^ a1) ^ (a2 ^ a3) == (a0 ^ a2) ^ (a1 ^ a3)) by (bit_vector);
            }
        }
    }
    assert(l =~= r);
}

/// A stage of a bit at or above `s` commutes with the first `s` stages.
proof fn lemma_polar_stage_past_stages(v: Seq<u8>, b: nat, n_log: nat, s: nat)
    requires
        s <= b < n_log,
        exp2(n_log) <= v.len(),
    ensures
        polar_stage(polar_stages(v, n_log, s), b, exp2(n_log)) == polar_stages(
            polar_stage(v, b, exp2(n_log)),
            n_log,
            s,
        ),
    decreases s,
{
    if s > 0 {
        let n = exp2(n_log);
        lemma_polar_stage_past_stages(v, b, n_log, (s - 1) as nat);
        lemma_polar_stages_len(v, n_log, (s - 1) as nat);
        lemma_polar_stages_commute(polar_stages(v, n_log, (s - 1) as nat), (s - 1) as nat, b, n_log);
    }
}

/// The first `s` stages, applied twice, give back the input.
proof fn lemma_polar_stages_involutive(v: Seq<u8>, n_log: nat, s: nat)
    requires
        s <= n_log,
        exp2(n_log) <= v.len(),
    ensures
        polar_stages(polar_stages(v, n_log, s), n_log, s) == v,
    decreases s,
{
    if s > 0 {
        let n = exp2(n_log);
        let t = (s - 1) as nat;
        let w = polar_stages(v, n_log, t);
        lemma_polar_stages_len(v, n_log, t);
        // stages(stages(v, s), s) = S_t(stages(S_t(w), t)) = S_t(S_t(stages(w, t)))
        assert(polar_stage(w, t, n).len() == w.len());
        lemma_polar_stages_len(polar_stage(w, t, n), n_log, t);
        lemma_polar_stage_past_stages(polar_stage(w, t, n), t, n_log, t);
        lemma_polar_stage_involutive(polar_stages(polar_stage(w, t, n), n_log, t), t, n_log);
        lemma_polar_stage_past_stages(w, t, n_log, t);
        lemma_polar_stages_len(w, n_log, t);
        lemma_polar_stage_involutive(polar_stages(w, n_log, t), t, n_log);
        lemma_polar_stages_involutive(v, n_log, t);
        assert(polar_stages(polar_stages(v, n_log, s), n_log, s) == polar_stage(
            polar_stages(polar_stage(w, t, n), n_log, t),
            t,
            n,
        ));
    }
}

/// The polar transform (the Kronecker power of [[1, 0], [1, 1]] over
/// GF(2)) is its own inverse: transforming twice gives back the input.
pub proof fn lemma_polar_transform_involutive(v: Seq<u8>, n_log: nat)
    requires
        exp2(n_log) <= v.len(),
    ensures
        polar_transform(polar_transform(v, n_log), n_log) == v,
{
    lemma_polar_stages_involutive(v, n_log, n_log);
}

/// Applies the butterfly stage of bit `b` in place.
fn apply_polar_stage(v: &mut [u8], n_log: usize, b: usize)
    requires
        b < n_log < 32,
        exp2(n_log as nat) <= old(v)@.len(),
    ensures
        final(v)@ == polar_stage(old(v)@, b as nat, exp2(n_log as nat)),
{
    proof {
        lemma_exp2_le(b as nat, 31);
        lemma_exp2_le(n_log as nat, 31);
        lemma_exp2_pos(b as nat);
        lemma_exp2_values();
    }
    let n = exp2_usize(n_log as u32);
    let inc = exp2_usize(b as u32);
    let ghost prev = old(v)@;
    let mut x: usize = 0;
    while x < n
        invariant
            x <= n,
            b < n_log < 32,
            n == exp2(n_log as nat),
            inc == exp2(b as nat),
            inc > 0,
            v@.len() == prev.len(),
            n <= prev.len(),
            forall|m: int| 0 <= m < x ==> v@[m] == polar_stage(prev, b as nat, n as nat)[m],
            forall|m: int| x <= m < prev.len() ==> v@[m] == prev[m],
        decreases n - x,
    {
        if (x / inc) % 2 == 0 {
            proof {
                lemma_partner_in_range(x as int, b as nat, n_log as nat);
            }
            let a = v[x];
            let c = v[x + inc];
            v[x] = a ^ c;
        }
        x = x + 1;
    }
    assert(v@ =~= polar_stage(prev, b as nat, n as nat));
}

/// The polar transform (encoder kernel).
pub struct PolarEncoder;

impl PolarEncoder {
    /// Copies `input` to the front of `output` and applies the polar
    /// transform of length 2^n_log in place.
    pub fn encode(output: &mut [u8], input: &[u8], n_log: usize)
        requires
            input@.len() <= old(output)@.len(),
            n_log < 32,
            n_log > 0 ==> exp2(n_log as nat) <= old(output)@.len(),
        ensures
            final(output)@ == polar_transform(
                input@ + old(output)@.skip(input@.len() as int),
                n_log as nat,
            ),
    {
        let ghost start = input@ + old(output)@.skip(input@.len() as int);
        let ilen = input.len();
        let mut i: usize = 0;
        while i < ilen
            invariant
                i <= ilen,
                ilen == input@.len(),
                ilen <= old(output)@.len(),
                output@.len() == old(output)@.len(),
                forall|m: int| 0 <= m < i ==> output@[m] == input@[m],
                forall|m: int| i <= m < output@.len() ==> output@[m] == old(output)@[m],
            decreases ilen - i,
        {
            output[i] = input[i];
            i = i + 1;
        }
        assert(output@ =~= start);
        let mut s: usize = 1;
        while s <= n_log
            invariant
                1 <= s <= n_log + 1,
                n_log < 32,
                n_log > 0 ==> exp2(n_log as nat) <= output@.len(),
                output@ == polar_stages(start, n_log as nat, (s - 1) as nat),
            decreases n_log + 1 - s,
        {
            apply_polar_stage(output, n_log, s - 1);
            s = s + 1;
        }
    }
}

/// Measure for the triangle-side search: how far `s` is below `e`.
pub open spec fn ci_gap(s: nat, e: nat) -> nat {
    if s >= e {
        0
    } else {
        (e - s) as nat
    }
}

/// Search for the triangle side: from side `t` holding `s` = t(t+1)/2 cells,
/// the first side whose triangle holds at least `e` cells.
pub open spec fn ci_side_from(t: nat, s: nat, e: nat) -> nat
    decreases ci_gap(s, e),
{
    if s >= e {
        t
    } else {
        ci_side_from(t + 1, s + t + 1, e)
    }
}

/// Side of the channel interleaver triangle: the smallest t >= 1 with
/// t(t+1)/2 >= e.
pub open spec fn ci_side(e: nat) -> nat {
    ci_side_from(1, 1, e)
}

/// Offset of row `c` in a triangle of side `t` written row by row (row i
/// holds t - i cells).
pub open spec fn tri_start(t: nat, c: nat) -> int
    decreases c,
{
    if c == 0 {
        0
    } else {
        tri_start(t, (c - 1) as nat) + t - (c - 1)
    }
}

/// Input positions read by the channel interleaver from column `r`, row `c`
/// on: columns are read top to bottom, and a column ends at the triangle's
/// edge or at the first position past `e`.
pub open spec fn ci_from(t: nat, e: nat, r: nat, c: nat) -> Seq<int>
    decreases t - r, t - c,
{
    if r >= t {
        Seq::empty()
    } else if c < t - r && tri_start(t, c) + r < e {
        seq![tri_start(t, c) + r] + ci_from(t, e, r, c + 1)
    } else {
        ci_from(t, e, r + 1, 0)
    }
}

/// The order in which the channel interleaver reads its `e` input bits.
pub open spec fn ci_order(e: nat) -> Seq<int> {
    ci_from(ci_side(e), e, 0, 0)
}

/// Row offsets grow by at least the length of the skipped rows.
proof fn lemma_tri_start_gap(t: nat, c1: nat, c2: nat)
    requires
        c1 < c2,
    ensures
        c2 <= t ==> tri_start(t, c2) >= tri_start(t, c1) + (t - c1),
    decreases c2,
{
    if c1 + 1 < c2 {
        lemma_tri_start_gap(t, c1, (c2 - 1) as nat);
    }
}

/// The cell of row `c`, column `r` in a triangle of side `t`.
pub open spec fn tri_cell(t: nat, c: nat, r: nat) -> int {
    tri_start(t, c) + r
}

/// The cell (column, row) from which the channel interleaver reads its
/// `i`-th position when started at column `r`, row `c`: it lies inside the
/// triangle and does not come before (r, c).
proof fn lemma_ci_from_cell(t: nat, e: nat, r: nat, c: nat, i: int) -> (p: (nat, nat))
    requires
        c <= t,
        0 <= i < ci_from(t, e, r, c).len(),
    ensures
        p.0 < t,
        p.1 < t - p.0,
        p.0 > r || (p.0 == r && p.1 >= c),
        ci_from(t, e, r, c)[i] == tri_cell(t, p.1, p.0),
    decreases t - r, t - c,
{
    if r >= t {
        (0, 0)
    } else if c < t - r && tri_start(t, c) + r < e {
        if i == 0 {
            (r, c)
        } else {
            lemma_ci_from_cell(t, e, r, c + 1, i - 1)
        }
    } else {
        lemma_ci_from_cell(t, e, r + 1, 0, i)
    }
}

/// The positions read from column `r`, row `c` on are distinct and lie in
/// `0..e`.
proof fn lemma_ci_from_props(t: nat, e: nat, r: nat, c: nat)
    requires
        c <= t,
    ensures
        ci_from(t, e, r, c).no_duplicates(),
        forall|i: int|
            0 <= i < ci_from(t, e, r, c).len() ==> 0 <= #[trigger] ci_from(t, e, r, c)[i] < e,
    decreases t - r, t - c,
{
    if r >= t {
    } else if c < t - r && tri_start(t, c) + r < e {
        lemma_ci_from_props(t, e, r, c + 1);
        lemma_tri_start_nonneg(t, c);
        let x = tri_start(t, c) + r;
        let rest = ci_from(t, e, r, c + 1);
        let all = ci_from(t, e, r, c);
        assert(all =~= seq![x] + rest);
        assert forall|i: int| #![trigger rest[i]] 0 <= i < rest.len() implies rest[i] != x by {
            let (r2, c2) = lemma_ci_from_cell(t, e, r, c + 1, i);
            if c2 > c {
                lemma_tri_start_gap(t, c, c2);
            } else if c2 < c {
                lemma_tri_start_gap(t, c2, c);
            }
        }
        assert forall|i: int, j: int| 0 <= i < all.len() && 0 <= j < all.len() && i != j implies all[i]
            != all[j] by {
            if i > 0 && j > 0 {
                assert(all[i] == rest[i - 1] && all[j] == rest[j - 1]);
            } else if i == 0 {
                assert(all[j] == rest[j - 1]);
            } else {
                assert(all[i] == rest[i - 1]);
            }
        }
    } else {
        lemma_ci_from_props(t, e, r + 1, 0);
    }
}

/// Row offsets are never negative.
proof fn lemma_tri_start_nonneg(t: nat, c: nat)
    requires
        c <= t,
    ensures
        tri_start(t, c) >= 0,
    decreases c,
{
    if c > 0 {
        lemma_tri_start_nonneg(t, (c - 1) as nat);
    }
}

/// The channel interleaver reads each of its `e` input positions at most
/// once, so it emits at most `e` bits.
pub proof fn lemma_ci_order_len(e: nat)
    ensures
        ci_order(e).len() <= e,
        ci_order(e).no_duplicates(),
        forall|i: int| 0 <= i < ci_order(e).len() ==> 0 <= #[trigger] ci_order(e)[i] < e,
{
    let o = ci_order(e);
    lemma_ci_from_props(ci_side(e), e, 0, 0);
    o.unique_seq_to_set();
    vstd::set_lib::lemma_int_range(0, e as int);
    assert(o.to_set().subset_of(vstd::set_lib::set_int_range(0, e as int)));
    vstd::set_lib::lemma_len_subset(o.to_set(), vstd::set_lib::set_int_range(0, e as int));
}

/// The rate-matching input after the sub-block interleaver: entry i is the
/// input at pattern[i].
pub open spec fn rm_interleaved(input: Seq<u8>, pattern: Seq<usize>) -> Seq<u8> {
    Seq::new(pattern.len(), |i: int| input[pattern[i] as int])
}

/// Bit selection from the `n` interleaved bits: repetition when e >= n,
/// otherwise puncturing (the last e bits) when 16k <= 7e, else shortening
/// (the first e bits).
pub open spec fn rm_select(y: Seq<u8>, k: nat, e: nat) -> Seq<u8> {
    let n = y.len();
    if e >= n {
        Seq::new(e, |i: int| y[i % (n as int)])
    } else if 16 * k <= 7 * e {
        y.skip(n - e)
    } else {
        y.take(e as int)
    }
}

/// The selected bits read in channel interleaver order.
pub open spec fn channel_interleave_spec(y: Seq<u8>, e: nat) -> Seq<u8> {
    ci_order(e).map_values(|j: int| y[j])
}

/// Full rate matching of the polar-encoded bits.
pub open spec fn polar_rate_match(input: Seq<u8>, pattern: Seq<usize>, k: nat, e: nat) -> Seq<u8> {
    channel_interleave_spec(rm_select(rm_interleaved(input, pattern), k, e), e)
}

/// Entries of the sub-block interleaver of a length-2^m code stay below 2^m.
proof fn lemma_block_interleaver_bound(m: nat)
    requires
        m < 32,
    ensures
        forall|i: int|
            0 <= i < exp2(m) ==> #[trigger] polar_block_interleaver(exp2(m))[i] < exp2(m),
{
    lemma_exp2_values();
    assert forall|i: int| 0 <= i < exp2(m) implies #[trigger] polar_block_interleaver(exp2(m))[i]
        < exp2(m) by {
        if m >= 5 {
            lemma_exp2_le(5, m);
            lemma_block_interleaver_entry_bound(m, i as nat);
        } else {
            lemma_exp2_le(m, 4);
        }
    }
}

/// Rate matching of polar-encoded bits.
pub struct PolarRateMatcher;

impl PolarRateMatcher {
    /// Sub-block interleaves the `n` encoded bits, selects `e` of them
    /// (repetition, puncturing or shortening) and writes them through the
    /// triangular channel interleaver to the front of `output`.
    pub fn rate_match(output: &mut [u8], input: &[u8], code: &PolarCode)
        requires
            code.well_formed(),
            input@.len() >= code.spec_n(),
            old(output)@.len() >= ci_order(code.spec_e()).len(),
            2 * code.spec_e() + 1 <= usize::MAX,
            16 * code.spec_k() <= usize::MAX,
            7 * code.spec_e() <= usize::MAX,
        ensures
            final(output)@ == polar_rate_match(input@, code.spec_interleaver(), code.spec_k(), code.spec_e())
                + old(output)@.skip(ci_order(code.spec_e()).len() as int),
    {
        let n = code.n;
        let e = code.e;
        let k = code.k;
        proof {
            lemma_exp2_pos(code.n_log as nat);
            lemma_block_interleaver_bound(code.n_log as nat);
        }
        let ghost pattern = code.block_interleaver@;
        let mut interleaved: Vec<u8> = Vec::new();
        let mut i: usize = 0;
        while i < n
            invariant
                i <= n,
                n == pattern.len(),
                n <= input@.len(),
                pattern == code.block_interleaver@,
                forall|j: int| 0 <= j < n ==> #[trigger] pattern[j] < n,
                interleaved@.len() == i,
                forall|j: int| 0 <= j < i ==> interleaved@[j] == rm_interleaved(input@, pattern)[j],
            decreases n - i,
        {
            interleaved.push(input[code.block_interleaver[i]]);
            i = i + 1;
        }
        assert(interleaved@ =~= rm_interleaved(input@, pattern));
        let ghost y = interleaved@;
        let mut selected: Vec<u8> = Vec::new();
        if e >= n {
            let mut j: usize = 0;
            while j < e
                invariant
                    j <= e,
                    n == y.len(),
                    n > 0,
                    y == interleaved@,
                    selected@.len() == j,
                    forall|m: int| 0 <= m < j ==> selected@[m] == y[m % (n as int)],
                decreases e - j,
            {
                selected.push(interleaved[j % n]);
                j = j + 1;
            }
        } else if 16 * k <= 7 * e {
            let mut j: usize = n - e;
            while j < n
                invariant
                    n - e <= j <= n,
                    e < n,
                    n == y.len(),
                    y == interleaved@,
                    selected@.len() == j - (n - e),
                    forall|m: int| 0 <= m < j - (n - e) ==> selected@[m] == y[m + (n - e)],
                decreases n - j,
            {
                selected.push(interleaved[j]);
                j = j + 1;
            }
        } else {
            let mut j: usize = 0;
            while j < e
                invariant
                    j <= e,
                    e < n,
                    n == y.len(),
                    y == interleaved@,
                    selected@.len() == j,
                    forall|m: int| 0 <= m < j ==> selected@[m] == y[m],
                decreases e - j,
            {
                selected.push(interleaved[j]);
                j = j + 1;
            }
        }
        assert(selected@ =~= rm_select(y, k as nat, e as nat));
        Self::channel_interleave(output, &selected, e);
    }

    /// Triangular channel interleaver: the input is written row by row into
    /// a triangle of side t (the smallest with t(t+1)/2 >= e) and read column
    /// by column, skipping cells past `e`.
    fn channel_interleave(output: &mut [u8], input: &Vec<u8>, e: usize)
        requires
            input@.len() >= e,
            old(output)@.len() >= ci_order(e as nat).len(),
            2 * e + 1 <= usize::MAX,
        ensures
            final(output)@ == channel_interleave_spec(input@, e as nat) + old(output)@.skip(
                ci_order(e as nat).len() as int,
            ),
    {
        let mut t: usize = 1;
        let mut s: usize = 1;
        while s < e
            invariant
                1 <= t <= s,
                t <= e + 1,
                s < e + t + 1,
                2 * e + 1 <= usize::MAX,
                ci_side_from(t as nat, s as nat, e as nat) == ci_side(e as nat),
            decreases ci_gap(s as nat, e as nat),
        {
            t = t + 1;
            s = s + t;
        }
        let ghost order = ci_order(e as nat);
        assert(ci_from(t as nat, e as nat, 0, 0) == order);
        let ghost mut done: Seq<int> = Seq::empty();
        let mut out_idx: usize = 0;
        let mut r: usize = 0;
        while r < t
            invariant
                r <= t,
                t <= e + 1,
                2 * e + 1 <= usize::MAX,
                input@.len() >= e,
                order == ci_order(e as nat),
                done + ci_from(t as nat, e as nat, r as nat, 0) == order,
                done.len() == out_idx,
                old(output)@.len() >= order.len(),
                output@.len() == old(output)@.len(),
                output@ == done.map_values(|j: int| input@[j]) + old(output)@.skip(out_idx as int),
            decreases t - r,
        {
            let mut in_idx: usize = r;
            let mut c: usize = 0;
            while c < t - r && in_idx < e
                invariant
                    r < t,
                    c <= t - r,
                    t <= e + 1,
                    2 * e + 1 <= usize::MAX,
                    input@.len() >= e,
                    in_idx == tri_start(t as nat, c as nat) + r,
                    order == ci_order(e as nat),
                    done + ci_from(t as nat, e as nat, r as nat, c as nat) == order,
                    done.len() == out_idx,
                    old(output)@.len() >= order.len(),
                    output@.len() == old(output)@.len(),
                    output@ == done.map_values(|j: int| input@[j]) + old(output)@.skip(
                        out_idx as int,
                    ),
                decreases t - r - c,
            {
                let ghost rest = ci_from(t as nat, e as nat, r as nat, (c + 1) as nat);
                assert(ci_from(t as nat, e as nat, r as nat, c as nat) == seq![in_idx as int] + rest);
                assert(done.push(in_idx as int) + rest =~= done + (seq![in_idx as int] + rest));
                assert((done + ci_from(t as nat, e as nat, r as nat, c as nat))[out_idx as int]
                    == in_idx);
                output[out_idx] = input[in_idx];
                proof {
                    done = done.push(in_idx as int);
                }
                out_idx = out_idx + 1;
                assert(output@ =~= done.map_values(|j: int| input@[j]) + old(output)@.skip(
                    out_idx as int,
                ));
                in_idx = in_idx + (t - c);
                c = c + 1;
            }
            assert(ci_from(t as nat, e as nat, r as nat, c as nat) == ci_from(
                t as nat,
                e as nat,
                (r + 1) as nat,
                0,
            ));
            r = r + 1;
        }
        assert(ci_from(t as nat, e as nat, t as nat, 0) =~= Seq::<int>::empty());
        assert(done =~= order);
    }
}

/// A sequence of `len` zero bits.
pub open spec fn zero_bits(len: nat) -> Seq<u8> {
    Seq::new(len, |i: int| 0u8)
}

/// Number of rate-matched bits carried by `aggregation_level` CCEs
/// (6 REGs of 12 resource elements, 2 bits each).
pub open spec fn pdcch_e(aggregation_level: u8) -> nat {
    aggregation_level as nat * 144
}

/// The complete PDCCH polar encoding of `payload` (information bits with
/// CRC): interleave, allocate, transform and rate match.
pub open spec fn pdcch_polar_encode(payload: Seq<u8>, aggregation_level: u8) -> Seq<u8> {
    let k = payload.len();
    let e = pdcch_e(aggregation_level);
    let nl = polar_n_log(k, e, (NMAX_LOG - 1) as nat);
    let n = exp2(nl);
    let il = polar_interleave(payload);
    let interleaved = il + zero_bits(k).skip(il.len() as int);
    let allocated = polar_allocate(polar_info_mask(k, e, (NMAX_LOG - 1) as nat), interleaved, n);
    let encoded = polar_transform(allocated, nl);
    let rm = polar_rate_match(encoded, polar_block_interleaver(n), k, e);
    rm + zero_bits(e).skip(rm.len() as int)
}

/// The PDCCH polar encoder chain.
pub struct PdcchPolarEncoder {
    interleaver: PolarInterleaver,
    allocator: PolarAllocator,
    encoder: PolarEncoder,
    rate_matcher: PolarRateMatcher,
}

impl PdcchPolarEncoder {
    /// Creates the encoder chain.
    pub fn new() -> (r: Self) {
        PdcchPolarEncoder {
            interleaver: PolarInterleaver,
            allocator: PolarAllocator,
            encoder: PolarEncoder,
            rate_matcher: PolarRateMatcher,
        }
    }

    /// Polar-encodes a DCI payload (with CRC) for the given aggregation
    /// level, giving aggregation_level * 144 bits.
    pub fn encode(&self, payload_with_crc: &[u8], aggregation_level: u8) -> (r: Vec<u8>)
        requires
            payload_with_crc@.len() <= exp2(
                polar_n_log(
                    payload_with_crc@.len(),
                    pdcch_e(aggregation_level),
                    (NMAX_LOG - 1) as nat,
                ),
            ),
        ensures
            r@ == pdcch_polar_encode(payload_with_crc@, aggregation_level),
            r@.len() == pdcch_e(aggregation_level),
    {
        let e = aggregation_level as usize * 144;
        let k = payload_with_crc.len();
        let code = PolarCode::new(k, e, NMAX_LOG - 1);
        let n = code.get_n();
        let ghost nl = code.spec_n_log();
        proof {
            lemma_polar_interleave_len(payload_with_crc@);
            lemma_exp2_le(nl, 31);
            lemma_exp2_values();
        }
        let mut interleaved = zeros(k);
        PolarInterleaver::interleave(interleaved.as_mut_slice(), payload_with_crc);
        let ghost iv = interleaved@;
        let mut allocated = zeros(n);
        PolarAllocator::allocate(allocated.as_mut_slice(), interleaved.as_slice(), &code);
        let ghost av = allocated@;
        let mut encoded = zeros(n);
        PolarEncoder::encode(encoded.as_mut_slice(), allocated.as_slice(), code.get_n_log());
        assert(av + zero_bits(n as nat).skip(av.len() as int) =~= av);
        proof {
            lemma_ci_order_len(e as nat);
            lemma_polar_stages_len(av, nl, nl);
            lemma_exp2_le(nl, 9);
        }
        let mut rate_matched = zeros(e);
        PolarRateMatcher::rate_match(rate_matched.as_mut_slice(), encoded.as_slice(), &code);
        rate_matched
    }
}

/// A vector of `len` zero bits.
fn zeros(len: usize) -> (v: Vec<u8>)
    ensures
        v@ == zero_bits(len as nat),
{
    let mut v: Vec<u8> = Vec::new();
    let mut i: usize = 0;
    while i < len
        invariant
            i <= len,
            v@.len() == i,
            forall|m: int| 0 <= m < i ==> v@[m] == 0,
        decreases len - i,
    {
        v.push(0);
        i = i + 1;
    }
    assert(v@ =~= zero_bits(len as nat));
    v
}

/// The exponent search ends at a length reaching `min_n`, or at n_max_log.
proof fn lemma_polar_n_log_from_fits(from: nat, n_max_log: nat, min_n: nat)
    ensures
        exp2(polar_n_log_from(from, n_max_log, min_n)) >= min_n || polar_n_log_from(
            from,
            n_max_log,
            min_n,
        ) == n_max_log,
    decreases n_max_log + 1 - from,
{
    if from <= n_max_log && exp2(from) < min_n {
        lemma_polar_n_log_from_fits(from + 1, n_max_log, min_n);
    }
}

/// When `k` bits fit the largest code, they fit the chosen code.
pub proof fn lemma_polar_n_log_fits(k: nat, e: nat, n_max_log: nat)
    requires
        k <= exp2(n_max_log),
    ensures
        k <= exp2(polar_n_log(k, e, n_max_log)),
{
    lemma_polar_n_log_from_fits(5, n_max_log, if k >= e / 2 { k } else { e / 2 });
}

/// The polar transform keeps the length.
pub proof fn lemma_polar_transform_len(v: Seq<u8>, n_log: nat)
    ensures
        polar_transform(v, n_log).len() == v.len(),
{
    lemma_polar_stages_len(v, n_log, n_log);
}


/// Entry-by-entry XOR of two bit sequences.
pub open spec fn xor_seq(a: Seq<u8>, c: Seq<u8>) -> Seq<u8> {
    Seq::new(a.len(), |i: int| a[i] ^ c[i])
}

/// Every entry is 0 or 1.
pub open spec fn is_bit_seq(s: Seq<u8>) -> bool {
    forall|i: int| 0 <= i < s.len() ==> s[i] <= 1
}

/// XOR on bytes: zero is neutral, each value cancels itself, terms may be
/// regrouped, and bits stay bits.
proof fn lemma_xor_u8_facts()
    by (bit_vector)
    ensures
        forall|x: u8| #[trigger] (x ^ 0u8) == x,
        forall|x: u8| #[trigger] (x ^ x) == 0u8,
        forall|p: u8, q: u8, r: u8, t: u8| #[trigger] ((p ^ q) ^ (r ^ t)) == ((p ^ r) ^ (q ^ t)),
        forall|p: u8, q: u8| p <= 1 && q <= 1 ==> #[trigger] (p ^ q) <= 1,
{
}

/// A butterfly stage commutes with XOR.
proof fn lemma_polar_stage_xor(a: Seq<u8>, c: Seq<u8>, b: nat, n: nat)
    requires
        a.len() == c.len(),
    ensures
        polar_stage(xor_seq(a, c), b, n) == xor_seq(polar_stage(a, b, n), polar_stage(c, b, n)),
{
    lemma_xor_u8_facts();
    assert(polar_stage(xor_seq(a, c), b, n) =~= xor_seq(polar_stage(a, b, n), polar_stage(c, b, n)));
}

/// The first `s` stages commute with XOR.
proof fn lemma_polar_stages_xor(a: Seq<u8>, c: Seq<u8>, n_log: nat, s: nat)
    requires
        a.len() == c.len(),
    ensures
        polar_stages(xor_seq(a, c), n_log, s) == xor_seq(polar_stages(a, n_log, s), polar_stages(c, n_log, s)),
    decreases s,
{
    if s > 0 {
        let t = (s - 1) as nat;
        lemma_polar_stages_xor(a, c, n_log, t);
        lemma_polar_stages_len(a, n_log, t);
        lemma_polar_stages_len(c, n_log, t);
        lemma_polar_stage_xor(polar_stages(a, n_log, t), polar_stages(c, n_log, t), t, exp2(n_log));
    }
}

/// Bit allocation commutes with XOR (frozen positions stay zero).
proof fn lemma_polar_allocate_xor(info: Seq<bool>, a: Seq<u8>, c: Seq<u8>, len: nat)
    requires
        a.len() == c.len(),
    ensures
        polar_allocate(info, xor_seq(a, c), len) == xor_seq(polar_allocate(info, a, len), polar_allocate(info, c, len)),
{
    lemma_xor_u8_facts();
    assert(polar_allocate(info, xor_seq(a, c), len) =~= xor_seq(
        polar_allocate(info, a, len),
        polar_allocate(info, c, len),
    ));
}

/// The interleaver traversal commutes with XOR on bit sequences.
proof fn lemma_il_prefix_xor(a: Seq<u8>, c: Seq<u8>, t: nat)
    requires
        a.len() == c.len(),
        is_bit_seq(a),
        is_bit_seq(c),
    ensures
        il_prefix(xor_seq(a, c), t) == xor_seq(il_prefix(a, t), il_prefix(c, t)),
        il_prefix(a, t).len() == il_prefix(c, t).len(),
    decreases t,
{
    lemma_xor_u8_facts();
    let x = xor_seq(a, c);
    if t > 0 {
        let t0 = (t - 1) as nat;
        lemma_il_prefix_xor(a, c, t0);
        let p = il_pos(a.len(), t0);
        if p < a.len() {
            assert(a[p as int] <= 1 && c[p as int] <= 1);
            assert(x[p as int] == a[p as int] ^ c[p as int]);
            assert(x[p as int] <= 1);
        }
        assert(il_emit(x, t0) == il_emit(a, t0));
        assert(il_emit(c, t0) == il_emit(a, t0));
        if il_emit(a, t0) {
            assert(xor_seq(il_prefix(a, t0).push(a[p as int]), il_prefix(c, t0).push(c[p as int])) =~= xor_seq(
                il_prefix(a, t0),
                il_prefix(c, t0),
            ).push(a[p as int] ^ c[p as int]));
        }
    } else {
        assert(il_prefix(x, 0) =~= xor_seq(il_prefix(a, 0), il_prefix(c, 0)));
    }
}

/// The payload interleaver commutes with XOR on bit sequences.
proof fn lemma_polar_interleave_xor(a: Seq<u8>, c: Seq<u8>)
    requires
        a.len() == c.len(),
        is_bit_seq(a),
        is_bit_seq(c),
    ensures
        polar_interleave(xor_seq(a, c)) == xor_seq(polar_interleave(a), polar_interleave(c)),
        polar_interleave(a).len() == polar_interleave(c).len(),
{
    if a.len() >= 32 {
        lemma_il_prefix_xor(a, c, 32 * il_cols(a.len()));
    } else {
        assert(xor_seq(a, c) =~= xor_seq(a, c));
    }
}

/// Zero padding to `k` entries commutes with XOR.
proof fn lemma_pad_xor(a: Seq<u8>, c: Seq<u8>, k: nat)
    requires
        a.len() == c.len(),
        a.len() <= k,
    ensures
        xor_seq(a + zero_bits(k).skip(a.len() as int), c + zero_bits(k).skip(c.len() as int)) == xor_seq(a, c)
            + zero_bits(k).skip(a.len() as int),
{
    lemma_xor_u8_facts();
    assert(xor_seq(a + zero_bits(k).skip(a.len() as int), c + zero_bits(k).skip(c.len() as int)) =~= xor_seq(a, c)
        + zero_bits(k).skip(a.len() as int));
}

/// Rate matching (sub-block interleaving, selection and channel
/// interleaving) commutes with XOR.
proof fn lemma_polar_rate_match_xor(a: Seq<u8>, c: Seq<u8>, pattern: Seq<usize>, k: nat, e: nat)
    requires
        a.len() == c.len(),
        pattern.len() > 0,
        forall|i: int| 0 <= i < pattern.len() ==> pattern[i] < a.len(),
    ensures
        polar_rate_match(xor_seq(a, c), pattern, k, e) == xor_seq(
            polar_rate_match(a, pattern, k, e),
            polar_rate_match(c, pattern, k, e),
        ),
        polar_rate_match(a, pattern, k, e).len() == ci_order(e).len(),
        polar_rate_match(c, pattern, k, e).len() == ci_order(e).len(),
{
    lemma_xor_u8_facts();
    lemma_ci_order_len(e);
    let ia = rm_interleaved(a, pattern);
    let ic = rm_interleaved(c, pattern);
    assert(rm_interleaved(xor_seq(a, c), pattern) =~= xor_seq(ia, ic));
    let sa = rm_select(ia, k, e);
    let sc = rm_select(ic, k, e);
    let n = pattern.len() as int;
    assert forall|i: int| 0 <= i < e implies 0 <= #[trigger] (i % n) < n by {
        assert(0 <= i % n < n) by (nonlinear_arith)
            requires
                n > 0,
        ;
    }
    assert(rm_select(xor_seq(ia, ic), k, e) =~= xor_seq(sa, sc));
    assert(sa.len() == e && sc.len() == e);
    assert(channel_interleave_spec(xor_seq(sa, sc), e) =~= xor_seq(
        channel_interleave_spec(sa, e),
        channel_interleave_spec(sc, e),
    ));
}

/// The code exponent search never passes its upper end.
proof fn lemma_polar_n_log_from_le(from: nat, n_max_log: nat, min_n: nat)
    ensures
        polar_n_log_from(from, n_max_log, min_n) <= n_max_log || polar_n_log_from(from, n_max_log, min_n) == from,
    decreases n_max_log + 1 - from,
{
    if from <= n_max_log && exp2(from) < min_n {
        lemma_polar_n_log_from_le(from + 1, n_max_log, min_n);
    }
}

/// PDCCH polar encoding is linear over GF(2): the codeword of the XOR of
/// two payloads is the XOR of their codewords, and every codeword holds
/// aggregation_level * 144 bits.
pub proof fn lemma_pdcch_polar_encode_linear(a: Seq<u8>, c: Seq<u8>, aggregation_level: u8)
    requires
        a.len() == c.len(),
        is_bit_seq(a),
        is_bit_seq(c),
    ensures
        pdcch_polar_encode(xor_seq(a, c), aggregation_level) == xor_seq(
            pdcch_polar_encode(a, aggregation_level),
            pdcch_polar_encode(c, aggregation_level),
        ),
        pdcch_polar_encode(a, aggregation_level).len() == pdcch_e(aggregation_level),
{
    let k = a.len();
    let e = pdcch_e(aggregation_level);
    let nl = polar_n_log(k, e, (NMAX_LOG - 1) as nat);
    let n = exp2(nl);
    let info = polar_info_mask(k, e, (NMAX_LOG - 1) as nat);
    lemma_polar_n_log_from_le(5, (NMAX_LOG - 1) as nat, if k >= e / 2 { k } else { e / 2 });
    assert(nl < 32);
    lemma_exp2_pos(nl);
    lemma_block_interleaver_bound(nl);
    lemma_ci_order_len(e);
    // interleave and pad
    lemma_polar_interleave_xor(a, c);
    lemma_polar_interleave_len(a);
    let ila = polar_interleave(a);
    let ilc = polar_interleave(c);
    lemma_pad_xor(ila, ilc, k);
    let pa = ila + zero_bits(k).skip(ila.len() as int);
    let pc = ilc + zero_bits(k).skip(ilc.len() as int);
    // allocate
    lemma_polar_allocate_xor(info, pa, pc, n);
    let aa = polar_allocate(info, pa, n);
    let ac = polar_allocate(info, pc, n);
    // transform
    lemma_polar_stages_xor(aa, ac, nl, nl);
    let ea = polar_transform(aa, nl);
    let ec = polar_transform(ac, nl);
    lemma_polar_stages_len(aa, nl, nl);
    lemma_polar_stages_len(ac, nl, nl);
    // rate match
    let pattern = polar_block_interleaver(n);
    lemma_polar_rate_match_xor(ea, ec, pattern, k, e);
    let ra = polar_rate_match(ea, pattern, k, e);
    let rc = polar_rate_match(ec, pattern, k, e);
    lemma_pad_xor(ra, rc, e);
    assert(xor_seq(a, c).len() == k);
}

/// The all-zero payload encodes to the all-zero codeword.
pub proof fn lemma_pdcch_polar_encode_zero(k: nat, aggregation_level: u8)
    ensures
        pdcch_polar_encode(zero_bits(k), aggregation_level) == zero_bits(pdcch_e(aggregation_level)),
{
    lemma_xor_u8_facts();
    let z = zero_bits(k);
    assert(xor_seq(z, z) =~= z);
    lemma_pdcch_polar_encode_linear(z, z, aggregation_level);
    let w = pdcch_polar_encode(z, aggregation_level);
    assert(xor_seq(w, w) =~= zero_bits(pdcch_e(aggregation_level)));
}

} // verus!
