//! Bit fields of memory-mapped I/O registers.
use vstd::prelude::*;
use vstd::arithmetic::power2::{pow2, lemma_pow2_pos, lemma_pow2_adds, lemma_pow2_unfold, lemma_pow2_strictly_increases};
use vstd::arithmetic::div_mod::{lemma_fundamental_div_mod, lemma_div_denominator, lemma_fundamental_div_mod_converse, lemma_mod_multiples_vanish};
use vstd::bits::{lemma_u64_shr_is_div, lemma_u64_shl_is_mul, lemma_u64_pow2_no_overflow};
use super::PAGE_SIZE;

verus! {

/// The value of the bits `from..to` of `raw`, least significant first.
pub open spec fn bitfield(raw: int, from: nat, to: nat) -> int {
    (raw / pow2(from) as int) % pow2((to - from) as nat) as int
}

/// `raw` with the bits `from..to` replaced by the low `to - from` bits of
/// `value`.
pub open spec fn with_bitfield(raw: int, from: nat, to: nat, value: int) -> int {
    raw - bitfield(raw, from, to) * pow2(from) + (value % pow2((to - from) as nat) as int) * pow2(
        from,
    )
}

/// Reads the bits `from..to` of `raw` (a register of at most 64 bits).
pub fn read_bitfield(raw: u64, from: usize, to: usize) -> (r: u64)
    requires
        from <= to <= 64,
    ensures
        r == bitfield(raw as int, from as nat, to as nat),
{
    let width = to - from;
    let shifted: u64 = if from == 64 {
        0
    } else {
        proof {
            lemma_u64_shr_is_div(raw, from as u64);
        }
        raw >> (from as u64)
    };
    proof {
        lemma_pow2_pos(from as nat);
        if from == 64 {
            vstd::arithmetic::power2::lemma2_to64_rest();
            vstd::arithmetic::div_mod::lemma_basic_div(raw as int, pow2(64) as int);
        }
    }
    if width == 64 {
        proof {
            vstd::arithmetic::power2::lemma2_to64();
            vstd::arithmetic::power2::lemma2_to64_rest();
            vstd::arithmetic::div_mod::lemma_small_mod(raw as nat, pow2(64));
            assert(from == 0 && to == 64);
            assert(pow2(0) == 1);
            assert(shifted == raw);
            assert((raw as int / pow2(0) as int) == raw as int);
            assert((raw as int) % (pow2(64) as int) == raw as int);
        }
        return shifted;
    }
    proof {
        lemma_u64_pow2_no_overflow(width as nat);
        lemma_u64_shl_is_mul(1, width as u64);
    }
    let modulus: u64 = 1u64 << (width as u64);
    shifted % modulus
}

/// `2^n`, for `n` up to 64.
fn pow2_u128(n: usize) -> (r: u128)
    requires
        n <= 64,
    ensures
        r == pow2(n as nat),
        r <= 0x1_0000_0000_0000_0000,
{
    let mut r: u128 = 1;
    let mut i: usize = 0;
    proof {
        vstd::arithmetic::power2::lemma2_to64();
        vstd::arithmetic::power2::lemma2_to64_rest();
    }
    while i < n
        invariant
            i <= n <= 64,
            r == pow2(i as nat),
            pow2(64) == 0x1_0000_0000_0000_0000,
        decreases n - i,
    {
        proof {
            lemma_pow2_unfold((i + 1) as nat);
            if i + 1 < 64 {
                lemma_pow2_strictly_increases((i + 1) as nat, 64);
            }
        }
        r = r * 2;
        i = i + 1;
    }
    proof {
        if n < 64 {
            lemma_pow2_strictly_increases(n as nat, 64);
        }
    }
    r
}

/// A value splits into the bits above `to`, the field `from..to` and the
/// bits below `from`.
proof fn lemma_bitfield_split(x: int, from: nat, to: nat)
    requires
        0 <= x,
        from <= to,
    ensures
        x == (x / pow2(to) as int) * pow2(to) + bitfield(x, from, to) * pow2(from) + x % pow2(from) as int,
        0 <= x % pow2(from) as int,
        x % (pow2(from) as int) < pow2(from),
        0 <= bitfield(x, from, to) < pow2((to - from) as nat),
        pow2(to) == pow2(from) * pow2((to - from) as nat),
{
    let a = pow2(from) as int;
    let b = pow2((to - from) as nat) as int;
    lemma_pow2_pos(from);
    lemma_pow2_pos((to - from) as nat);
    lemma_pow2_adds(from, (to - from) as nat);
    assert(from + (to - from) as nat == to);
    lemma_fundamental_div_mod(x, a);
    lemma_fundamental_div_mod(x / a, b);
    lemma_div_denominator(x, a, b);
    let q = x / (a * b);
    let m = (x / a) % b;
    assert(x == (x / pow2(to) as int) * pow2(to) + m * a + x % a) by (nonlinear_arith)
        requires
            x == a * (x / a) + x % a,
            x / a == b * ((x / a) / b) + m,
            (x / a) / b == q,
            q == x / (a * b),
            pow2(to) == a * b,
    ;
}

/// Writes the low `to - from` bits of `value` into the bits `from..to` of
/// `raw`, leaving the other bits alone.
pub fn write_bitfield(raw: &mut u64, from: usize, to: usize, value: u64)
    requires
        from <= to <= 64,
    ensures
        *final(raw) == with_bitfield(*old(raw) as int, from as nat, to as nat, value as int),
{
    let a = pow2_u128(from);
    let t = pow2_u128(to);
    let b = pow2_u128(to - from);
    let x = *raw as u128;
    proof {
        lemma_bitfield_split(x as int, from as nat, to as nat);
        lemma_pow2_pos(from as nat);
        lemma_pow2_pos((to - from) as nat);
        lemma_pow2_pos(to as nat);
    }
    let q = x / t;
    let low = x % a;
    let vm = (value as u128) % b;
    assert(vm * a < t) by (nonlinear_arith)
        requires
            vm < b,
            t == a * b,
            a > 0,
    ;
    assert(q * t <= x) by (nonlinear_arith)
        requires
            x == q * t + (x / a % b) * a + low,
            x / a % b >= 0,
            low >= 0,
            a > 0,
    {
        assert((x / a % b) * a >= 0);
    }
    assert(vm * a + low < t) by (nonlinear_arith)
        requires
            vm < b,
            low < a,
            t == a * b,
            a > 0,
    {
        assert(vm * a <= (b - 1) * a);
    }
    let high = q * t;
    let r = high + vm * a + low;
    proof {
        // The result fits in 64 bits: the high part is a multiple of `t`
        // at most `x`, and what is added stays below `t`.
        vstd::arithmetic::power2::lemma2_to64_rest();
        if to < 64 {
            lemma_pow2_adds(to as nat, (64 - to) as nat);
            assert(to as nat + (64 - to) as nat == 64);
            let c = pow2((64 - to) as nat) as int;
            assert(t * c == 0x1_0000_0000_0000_0000);
            assert(q < c) by (nonlinear_arith)
                requires
                    q * t <= x,
                    x < t * c,
                    t > 0,
            ;
            assert(q * t + t <= t * c) by (nonlinear_arith)
                requires
                    q < c,
                    t > 0,
            ;
            assert(q * t + t <= 0x1_0000_0000_0000_0000);
        } else {
            assert(t == 0x1_0000_0000_0000_0000);
            assert(q == 0) by (nonlinear_arith)
                requires
                    q * t <= x,
                    x < t,
                    t > 0,
            ;
            assert(q * t == 0) by (nonlinear_arith)
                requires
                    q == 0,
            ;
            assert(q * t + t <= 0x1_0000_0000_0000_0000);
        }
    }
    assert(r < 0x1_0000_0000_0000_0000);
    assert(r == with_bitfield(x as int, from as nat, to as nat, value as int));
    *raw = r as u64;
}

/// Writing a field that lies within the low `n` bits keeps a value of `n`
/// bits within `n` bits.
pub proof fn lemma_with_bitfield_bound(x: int, from: nat, to: nat, v: int, n: nat)
    requires
        0 <= x < pow2(n),
        from <= to <= n,
        v >= 0,
    ensures
        0 <= with_bitfield(x, from, to, v) < pow2(n),
{
    lemma_bitfield_split(x, from, to);
    let a = pow2(from) as int;
    let b = pow2((to - from) as nat) as int;
    let t = pow2(to) as int;
    let q = x / t;
    let low = x % a;
    let bf = bitfield(x, from, to);
    lemma_pow2_pos(from);
    lemma_pow2_pos((to - from) as nat);
    lemma_pow2_pos((n - to) as nat);
    lemma_pow2_adds(to, (n - to) as nat);
    assert(to + (n - to) as nat == n);
    let c = pow2((n - to) as nat) as int;
    let vm = v % b;
    assert(vm * a + low < t) by (nonlinear_arith)
        requires
            0 <= vm < b,
            0 <= low < a,
            t == a * b,
    {
        assert(vm * a <= (b - 1) * a);
    }
    assert(0 <= bf * a) by (nonlinear_arith)
        requires
            bf >= 0,
            a > 0,
    ;
    assert(0 <= vm * a) by (nonlinear_arith)
        requires
            vm >= 0,
            a > 0,
    ;
    assert(q * t <= x);
    assert(0 <= q) by (nonlinear_arith)
        requires
            x >= 0,
            t > 0,
            q == x / t,
    ;
    assert(q < c) by (nonlinear_arith)
        requires
            q * t <= x,
            x < t * c,
            t > 0,
    ;
    assert(q * t + t <= t * c) by (nonlinear_arith)
        requires
            q < c,
            t > 0,
    ;
    assert(0 <= q * t) by (nonlinear_arith)
        requires
            q >= 0,
            t > 0,
    ;
}

/// The bits below `f` decide every field that lies below `f`.
proof fn lemma_field_below(y: int, f: nat, g: nat, h: nat)
    requires
        y >= 0,
        g <= h <= f,
    ensures
        bitfield(y, g, h) == bitfield(y % pow2(f) as int, g, h),
{
    let a = pow2(f) as int;
    let e = pow2(g) as int;
    let k = pow2((f - g) as nat) as int;
    let m = pow2((h - g) as nat) as int;
    let n = pow2((f - h) as nat) as int;
    lemma_pow2_pos(f);
    lemma_pow2_pos(g);
    lemma_pow2_pos((f - g) as nat);
    lemma_pow2_pos((h - g) as nat);
    lemma_pow2_pos((f - h) as nat);
    lemma_pow2_adds(g, (f - g) as nat);
    assert(g + (f - g) as nat == f);
    lemma_pow2_adds((h - g) as nat, (f - h) as nat);
    assert((h - g) as nat + (f - h) as nat == (f - g) as nat);
    let p = y / a;
    let l = y % a;
    lemma_fundamental_div_mod(y, a);
    lemma_fundamental_div_mod(l, e);
    assert(0 <= l < a);
    assert(0 <= l % e < e);
    // y = (p * k + l / e) * e + l % e
    assert(y == (p * k + l / e) * e + l % e) by (nonlinear_arith)
        requires
            y == a * p + l,
            l == e * (l / e) + l % e,
            a == e * k,
    ;
    lemma_fundamental_div_mod_converse(y, e, p * k + l / e, l % e);
    assert(p * k == (p * n) * m) by (nonlinear_arith)
        requires
            k == m * n,
    ;
    lemma_mod_multiples_vanish(p * n, l / e, m);
    assert((m * (p * n) + l / e) % m == (p * k + l / e) % m) by (nonlinear_arith)
        requires
            p * k == (p * n) * m,
    ;
}

/// After a field is written, it reads back as the value written (cut to
/// the field's width), and the fields wholly above or below it are
/// unchanged.
pub proof fn lemma_bitfield_after_write(x: int, f: nat, t: nat, v: int, g: nat, h: nat)
    requires
        x >= 0,
        v >= 0,
        f <= t,
        g <= h,
    ensures
        bitfield(with_bitfield(x, f, t, v), f, t) == v % pow2((t - f) as nat) as int,
        t <= g ==> bitfield(with_bitfield(x, f, t, v), g, h) == bitfield(x, g, h),
        h <= f ==> bitfield(with_bitfield(x, f, t, v), g, h) == bitfield(x, g, h),
{
    lemma_bitfield_split(x, f, t);
    let a = pow2(f) as int;
    let b = pow2((t - f) as nat) as int;
    let tt = pow2(t) as int;
    let q = x / tt;
    let low = x % a;
    let vm = v % b;
    let w = with_bitfield(x, f, t, v);
    lemma_pow2_pos(f);
    lemma_pow2_pos((t - f) as nat);
    lemma_pow2_pos(t);
    assert(w == q * tt + vm * a + low);
    assert(0 <= vm < b);
    // The field reads back as written
    assert(w == (q * b + vm) * a + low) by (nonlinear_arith)
        requires
            w == q * tt + vm * a + low,
            tt == a * b,
    ;
    lemma_fundamental_div_mod_converse(w, a, q * b + vm, low);
    lemma_fundamental_div_mod_converse(q * b + vm, b, q, vm);
    assert(bitfield(w, f, t) == vm);
    // Fields above keep their bits: both values have `q` above bit `t`
    assert(0 <= vm * a + low < tt) by (nonlinear_arith)
        requires
            0 <= vm < b,
            0 <= low < a,
            tt == a * b,
    {
        assert(vm * a <= (b - 1) * a);
    }
    lemma_fundamental_div_mod_converse(w, tt, q, vm * a + low);
    if t <= g {
        let c = pow2((g - t) as nat) as int;
        lemma_pow2_pos((g - t) as nat);
        lemma_pow2_adds(t, (g - t) as nat);
        assert(t + (g - t) as nat == g);
        assert(w >= 0) by (nonlinear_arith)
            requires
                w == q * tt + vm * a + low,
                q >= 0,
                tt > 0,
                vm * a + low >= 0,
        ;
        lemma_div_denominator(w, tt, c);
        lemma_div_denominator(x, tt, c);
    }
    // Fields below keep their bits: both values have `low` below bit `f`
    if h <= f {
        assert(w >= 0) by (nonlinear_arith)
            requires
                w == (q * b + vm) * a + low,
                q >= 0,
                vm >= 0,
                b > 0,
                a > 0,
                low >= 0,
        ;
        lemma_field_below(w, f, g, h);
        lemma_field_below(x, f, g, h);
    }
}

/// The number of pages needed to hold `len` bytes.
pub fn pages_for(len: usize) -> (r: usize)
    ensures
        r == (len as int + PAGE_SIZE - 1) / PAGE_SIZE as int,
{
    len / 4096 + if len % 4096 == 0 {
        0
    } else {
        1
    }
}

} // verus!
