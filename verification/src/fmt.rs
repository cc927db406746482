use vstd::prelude::*;

verus! {

/// `b` to the power `e`.
pub open spec fn powu(b: nat, e: nat) -> nat
    decreases e,
{
    if e == 0 { 1 } else { b * powu(b, (e - 1) as nat) }
}

/// The decimal digits of `n`, most significant first, without leading zeros
/// ("0" for zero).
pub open spec fn dec(n: nat) -> Seq<u8>
    decreases n,
{
    if n < 10 {
        seq![(48 + n) as u8]
    } else {
        dec(n / 10).push((48 + n % 10) as u8)
    }
}

/// `n` spaces.
pub open spec fn spaces(n: nat) -> Seq<u8> {
    Seq::new(n, |i: int| 32u8)
}

/// `n` zero digits.
pub open spec fn zeros(n: nat) -> Seq<u8> {
    Seq::new(n, |i: int| 48u8)
}

/// `s` right-aligned in a field of `w` columns (spaces before it); as it is
/// when longer.
pub open spec fn pad_left(s: Seq<u8>, w: nat) -> Seq<u8> {
    if s.len() >= w { s } else { spaces((w - s.len()) as nat) + s }
}

/// The number `n / 10^d` written with `d` decimals.
pub open spec fn fixed_point(n: nat, d: nat) -> Seq<u8> {
    if d == 0 {
        dec(n)
    } else {
        let f = dec(n % powu(10, d));
        let frac = if f.len() >= d { f } else { zeros((d - f.len()) as nat) + f };
        dec(n / powu(10, d)) + seq![46u8] + frac
    }
}

/// `a / b` rounded to the nearest integer, ties to the even one.
pub open spec fn round_half_even(a: nat, b: nat) -> nat {
    let q = a / b;
    let r = a % b;
    if 2 * r > b || (2 * r == b && q % 2 == 1) { q + 1 } else { q }
}

pub proof fn lemma_powu_pos(b: nat, e: nat)
    requires
        b > 0,
    ensures
        powu(b, e) > 0,
    decreases e,
{
    if e > 0 {
        lemma_powu_pos(b, (e - 1) as nat);
        assert(b * powu(b, (e - 1) as nat) > 0) by (nonlinear_arith)
            requires b > 0, powu(b, (e - 1) as nat) > 0;
    }
}

proof fn lemma_dec_len(n: nat)
    ensures
        dec(n).len() >= 1,
        forall|k: int| 0 <= k < dec(n).len() ==> 48 <= #[trigger] dec(n)[k] <= 57,
    decreases n,
{
    if n >= 10 {
        lemma_dec_len(n / 10);
        assert forall|k: int| 0 <= k < dec(n).len() implies 48 <= #[trigger] dec(n)[k] <= 57 by {
            if k < dec(n / 10).len() {
                assert(dec(n)[k] == dec(n / 10)[k]);
            }
        }
    }
}

/// Appends the decimal digits of `n`.
pub fn push_dec(v: &mut Vec<u8>, n: u128)
    ensures
        final(v)@ == old(v)@ + dec(n as nat),
    decreases n,
{
    if n < 10 {
        v.push((48 + n) as u8);
    } else {
        push_dec(v, n / 10);
        v.push((48 + n % 10) as u8);
        proof {
            assert(old(v)@ + dec((n / 10) as nat) + seq![(48 + n % 10) as u8] == old(v)@ + dec(n as nat));
        }
    }
}

/// Appends `n` right-aligned in `w` columns.
pub fn push_dec_padded(v: &mut Vec<u8>, n: u128, w: usize)
    ensures
        final(v)@ == old(v)@ + pad_left(dec(n as nat), w as nat),
{
    let mut digits: Vec<u8> = Vec::new();
    push_dec(&mut digits, n);
    assert(digits@ == dec(n as nat));
    push_padded(v, &digits, w);
}

/// Appends `s` right-aligned in `w` columns.
pub fn push_padded(v: &mut Vec<u8>, s: &Vec<u8>, w: usize)
    ensures
        final(v)@ == old(v)@ + pad_left(s@, w as nat),
{
    let n = s.len();
    if n < w {
        let mut k: usize = 0;
        while k < w - n
            invariant
                n < w,
                k <= w - n,
                v@ == old(v)@ + spaces(k as nat),
            decreases w - n - k,
        {
            v.push(32u8);
            proof {
                assert(spaces((k + 1) as nat) == spaces(k as nat).push(32u8));
            }
            k = k + 1;
        }
    }
    let ghost mid = v@;
    let mut k: usize = 0;
    while k < n
        invariant
            n == s@.len(),
            k <= n,
            v@ == mid + s@.take(k as int),
        decreases n - k,
    {
        v.push(s[k]);
        proof {
            assert(s@.take(k + 1) == s@.take(k as int).push(s@[k as int]));
        }
        k = k + 1;
    }
    proof {
        assert(s@.take(n as int) == s@);
        if n < w {
            assert(pad_left(s@, w as nat) == spaces((w - n) as nat) + s@);
        }
    }
}

/// `a / b` rounded to the nearest integer, ties to the even one.
pub fn div_round_half_even(a: u128, b: u128) -> (r: u128)
    requires
        b > 0,
        a / b < u128::MAX,
    ensures
        r == round_half_even(a as nat, b as nat),
{
    let q = a / b;
    let r = a % b;
    if r > b - r || (r == b - r && q % 2 == 1) { q + 1 } else { q }
}

/// Appends `n / 10^d` written with `d` decimals (`d` at most 2).
pub fn push_fixed(v: &mut Vec<u8>, n: u128, d: usize)
    requires
        d <= 2,
    ensures
        final(v)@ == old(v)@ + fixed_point(n as nat, d as nat),
{
    if d == 0 {
        push_dec(v, n);
        return;
    }
    let p: u128 = if d == 1 { 10 } else { 100 };
    proof {
        reveal_with_fuel(powu, 3);
        assert(p == powu(10, d as nat));
    }
    push_dec(v, n / p);
    v.push(46u8);
    let f = n % p;
    let ghost fs = dec(f as nat);
    proof {
        lemma_dec_len(f as nat);
        if d == 2 && f >= 10 {
            assert(dec(f as nat) == dec((f / 10) as nat).push((48 + f % 10) as u8));
            assert((f / 10) < 10);
            assert(dec(f as nat).len() == 2);
        }
        if f < 10 {
            assert(dec(f as nat).len() == 1);
        }
    }
    if d == 2 && f < 10 {
        v.push(48u8);
        proof {
            assert(zeros(1) == seq![48u8]);
        }
    }
    push_dec(v, f);
    proof {
        let frac = if fs.len() >= d { fs } else { zeros((d - fs.len()) as nat) + fs };
        assert(fixed_point(n as nat, d as nat) == dec((n / p) as nat) + seq![46u8] + frac);
        if d == 2 && f < 10 {
            assert(frac == seq![48u8] + fs);
        } else {
            assert(frac == fs);
        }
    }
}

/// The smallest shift `s` (from `s` on, at most 64) with `n < 2^53 * 2^s`:
/// how many low bits a double drops from `n`.
pub open spec fn f64_shift(n: nat, s: nat) -> nat
    decreases 64 - s,
{
    if s >= 64 || n < 9007199254740992 * powu(2, s) {
        s
    } else {
        f64_shift(n, s + 1)
    }
}

/// The double nearest to `n` (ties to even), as the integer it is.
pub open spec fn to_f64(n: nat) -> nat {
    let s = f64_shift(n, 0);
    round_half_even(n, powu(2, s)) * powu(2, s)
}

proof fn lemma_powu2_mono(a: nat, b: nat)
    requires
        a <= b,
    ensures
        powu(2, a) <= powu(2, b),
    decreases b,
{
    if a < b {
        lemma_powu2_mono(a, (b - 1) as nat);
    }
}

/// What `f64_shift(n, k)` is: the first shift from `k` on (at most 64) below
/// which `n` fits in 53 bits; `n` did not fit the shift before it.
proof fn lemma_f64_shift(n: nat, k: nat)
    requires
        k <= 64,
    ensures
        k <= f64_shift(n, k) <= 64,
        f64_shift(n, k) < 64 ==> n < 9007199254740992 * powu(2, f64_shift(n, k)),
        f64_shift(n, k) > k ==> n >= 9007199254740992 * powu(2, (f64_shift(n, k) - 1) as nat),
    decreases 64 - k,
{
    if k < 64 && n >= 9007199254740992 * powu(2, k) {
        lemma_f64_shift(n, k + 1);
    }
}

/// Rounding to a multiple of `d` keeps the order of what is rounded.
proof fn lemma_round_half_even_mono(a: nat, b: nat, d: nat)
    requires
        a <= b,
        d > 0,
    ensures
        round_half_even(a, d) <= round_half_even(b, d),
        a / d <= round_half_even(a, d) <= a / d + 1,
{
    vstd::arithmetic::div_mod::lemma_div_is_ordered(a as int, b as int, d as int);
    vstd::arithmetic::div_mod::lemma_fundamental_div_mod(a as int, d as int);
    vstd::arithmetic::div_mod::lemma_fundamental_div_mod(b as int, d as int);
    let qa = a / d;
    let qb = b / d;
    if qa == qb {
        assert(d * qa == d * qb);
        assert(a % d <= b % d);
    }
}

/// The quotient of `a` by `d` is below `c` when `a` is below `c * d`, and at
/// least `c` when `a` is at least `c * d`.
proof fn lemma_div_bounds(a: nat, d: nat, c: nat)
    requires
        d > 0,
    ensures
        a < c * d ==> a / d < c,
        a >= c * d ==> a / d >= c,
{
    vstd::arithmetic::div_mod::lemma_fundamental_div_mod(a as int, d as int);
    let q = a / d;
    let r = a % d;
    assert(0 <= r < d);
    if a < c * d && q >= c {
        assert(d * q >= d * c) by (nonlinear_arith)
            requires q >= c, d > 0;
        assert(false);
    }
    if a >= c * d && q < c {
        assert(d * q + d <= d * c) by (nonlinear_arith)
            requires q + 1 <= c, d > 0;
        assert(false);
    }
}

/// Of two counts below 2^64, the larger has the larger nearest double.
pub proof fn lemma_to_f64_mono(n: nat, m: nat)
    requires
        n <= m,
        m < 18446744073709551616,
    ensures
        to_f64(n) <= to_f64(m),
{
    let c: nat = 9007199254740992;
    let s = f64_shift(n, 0);
    let t = f64_shift(m, 0);
    lemma_f64_shift(n, 0);
    lemma_f64_shift(m, 0);
    reveal_with_fuel(powu, 12);
    assert(powu(2, 11) == 2048);
    if t > 11 {
        lemma_powu2_mono(11, (t - 1) as nat);
        assert(c * powu(2, (t - 1) as nat) >= c * 2048) by (nonlinear_arith)
            requires powu(2, (t - 1) as nat) >= 2048;
        assert(false);
    }
    if s > t {
        lemma_powu2_mono(t, (s - 1) as nat);
        assert(c * powu(2, (s - 1) as nat) >= c * powu(2, t)) by (nonlinear_arith)
            requires powu(2, (s - 1) as nat) >= powu(2, t);
        assert(false);
    }
    let d = powu(2, s);
    let e = powu(2, t);
    lemma_powu_pos(2, s);
    lemma_powu_pos(2, t);
    lemma_round_half_even_mono(n, m, d);
    lemma_round_half_even_mono(m, m, e);
    if s == t {
        let x = round_half_even(n, d);
        let y = round_half_even(m, d);
        assert(x * d <= y * d) by (nonlinear_arith)
            requires x <= y;
    } else {
        let h: nat = 4503599627370496;
        lemma_powu2_mono(s, (t - 1) as nat);
        assert(e == 2 * powu(2, (t - 1) as nat));
        let x = round_half_even(n, d);
        lemma_div_bounds(n, d, c);
        assert(x <= c);
        assert(x * d <= c * d) by (nonlinear_arith)
            requires x <= c;
        assert(c * d <= h * e) by (nonlinear_arith)
            requires e == 2 * powu(2, (t - 1) as nat), d <= powu(2, (t - 1) as nat), c == 2 * h;
        assert(m >= h * e) by (nonlinear_arith)
            requires m >= c * powu(2, (t - 1) as nat), e == 2 * powu(2, (t - 1) as nat), c == 2 * h;
        lemma_div_bounds(m, e, h);
        let y = round_half_even(m, e);
        assert(y >= h);
        assert(y * e >= h * e) by (nonlinear_arith)
            requires y >= h;
    }
}

/// The double nearest to `n`, as an integer.
pub fn u64_to_f64(n: u64) -> (r: u128)
    ensures
        r == to_f64(n as nat),
        r <= 18446744073709551616,
        n >= 1 ==> r >= 1,
{
    let mut s: usize = 0;
    let mut p: u128 = 1;
    proof {
        reveal_with_fuel(powu, 13);
        assert(powu(2, 11) == 2048);
    }
    while (n as u128) >= 9007199254740992u128 * p
        invariant
            s <= 11,
            p == powu(2, s as nat),
            p * powu(2, (11 - s) as nat) == 2048,
            p <= 2048,
            n == 0 || n as u128 >= p,
            f64_shift(n as nat, s as nat) == f64_shift(n as nat, 0),
        decreases 11 - s,
    {
        proof {
            lemma_powu_pos(2, (11 - s) as nat);
            if s == 11 {
                assert(powu(2, 0) == 1);
                assert((11 - s) as nat == 0nat);
                assert(p * powu(2, 0) == 2048);
                assert(p == 2048) by (nonlinear_arith)
                    requires p * powu(2, 0) == 2048, powu(2, 0) == 1;
                assert(false);
            }
            lemma_powu_pos(2, (10 - s) as nat);
            assert(powu(2, (11 - s) as nat) == 2 * powu(2, (10 - s) as nat));
            assert(p * 2 * powu(2, (10 - s) as nat) == 2048) by (nonlinear_arith)
                requires p * powu(2, (11 - s) as nat) == 2048, powu(2, (11 - s) as nat) == 2 * powu(2, (10 - s) as nat);
            assert(p * 2 <= 2048) by (nonlinear_arith)
                requires p * 2 * powu(2, (10 - s) as nat) == 2048, powu(2, (10 - s) as nat) >= 1;
        }
        s = s + 1;
        p = p * 2;
    }
    proof {
        lemma_powu_pos(2, (11 - s) as nat);
        assert(p <= 2048) by (nonlinear_arith)
            requires p * powu(2, (11 - s) as nat) == 2048, powu(2, (11 - s) as nat) >= 1;
        assert((n as u128) / p < 9007199254740992u128) by (nonlinear_arith)
            requires (n as u128) < 9007199254740992u128 * p, p > 0;
    }
    let q = div_round_half_even(n as u128, p);
    proof {
        if n >= 1 {
            assert((n as u128) / p >= 1) by (nonlinear_arith)
                requires n as u128 >= p, p > 0;
        }
        assert(q <= 9007199254740992u128);
        if n >= 1 {
            assert(q >= 1);
            assert(q * p >= 1) by (nonlinear_arith)
                requires q >= 1, p >= 1;
        }
        assert(q * p <= 18446744073709551616u128) by (nonlinear_arith)
            requires q <= 9007199254740992u128, p <= 2048;
    }
    q * p
}

} // verus!
