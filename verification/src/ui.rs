use vstd::prelude::*;
use crate::fmt::{
    powu, dec, pad_left, fixed_point, round_half_even, to_f64, u64_to_f64, push_dec, push_dec_padded,
    push_padded, push_fixed, div_round_half_even, lemma_powu_pos, spaces, lemma_to_f64_mono,
};

pub mod loadavg;
pub mod memory;
pub mod swap;
pub mod network;
pub mod processes;
pub mod sensors;
pub mod hostinfo;
pub mod overview;
pub mod gpu;
pub mod time;

verus! {

/// What `crossterm::cursor::MoveTo(x, y)` writes on a terminal that takes
/// ANSI codes: ESC `[`, the row `y + 1`, `;`, the column `x + 1` and `H`.
pub open spec fn move_to_text(x: u16, y: u16) -> Seq<u8> {
    seq![27u8, 91u8] + dec((y + 1) as nat) + seq![59u8] + dec((x + 1) as nat) + seq![72u8]
}

/// Formats `crossterm::cursor::MoveTo(x, y)` (its `Display`): the escape
/// sequence ESC `[` row `;` column `H`, counting rows and columns from 1.
/// Its `write_ansi` adds 1 to each coordinate, which overflows at
/// `u16::MAX`, so neither may be that.
#[verifier::external_body]
pub(crate) fn move_to(x: u16, y: u16) -> (r: Vec<u8>)
    requires
        x < u16::MAX,
        y < u16::MAX,
    ensures
        r@ == move_to_text(x, y),
{
    format!("{}", crossterm::cursor::MoveTo(x, y)).into_bytes()
}

/// Appends all of `s`.
pub fn push_all(v: &mut Vec<u8>, s: &Vec<u8>)
    ensures
        final(v)@ == old(v)@ + s@,
{
    push_padded(v, s, 0);
}

/// How many characters the UTF-8 bytes `s` hold: the bytes that are not
/// continuation bytes.
pub open spec fn char_count(s: Seq<u8>) -> nat
    decreases s.len(),
{
    if s.len() == 0 {
        0
    } else {
        char_count(s.drop_last()) + if 128 <= s.last() <= 191 { 0nat } else { 1nat }
    }
}

/// `s` right-aligned in `w` characters, as `{:>w$}` does.
pub open spec fn pad_left_chars(s: Seq<u8>, w: nat) -> Seq<u8> {
    if char_count(s) >= w { s } else { spaces((w - char_count(s)) as nat) + s }
}

/// `s` left-aligned in `w` characters, as `{:<w$}` does.
pub open spec fn pad_right_chars(s: Seq<u8>, w: nat) -> Seq<u8> {
    if char_count(s) >= w { s } else { s + spaces((w - char_count(s)) as nat) }
}

proof fn lemma_char_count_le(s: Seq<u8>)
    ensures
        char_count(s) <= s.len(),
    decreases s.len(),
{
    if s.len() > 0 {
        lemma_char_count_le(s.drop_last());
    }
}

/// The number of characters in the UTF-8 bytes `s`.
pub fn count_chars(s: &Vec<u8>) -> (r: usize)
    ensures
        r == char_count(s@),
{
    let n = s.len();
    let mut c: usize = 0;
    let mut k: usize = 0;
    while k < n
        invariant
            n == s@.len(),
            k <= n,
            c == char_count(s@.take(k as int)),
            c <= k,
        decreases n - k,
    {
        proof {
            assert(s@.take(k + 1).drop_last() == s@.take(k as int));
        }
        if !(128 <= s[k] && s[k] <= 191) {
            c = c + 1;
        }
        k = k + 1;
    }
    proof {
        assert(s@.take(n as int) == s@);
    }
    c
}

fn push_spaces(v: &mut Vec<u8>, n: usize)
    ensures
        final(v)@ == old(v)@ + spaces(n as nat),
{
    let mut k: usize = 0;
    while k < n
        invariant
            k <= n,
            v@ == old(v)@ + spaces(k as nat),
        decreases n - k,
    {
        v.push(32u8);
        proof {
            assert(spaces((k + 1) as nat) == spaces(k as nat).push(32u8));
        }
        k = k + 1;
    }
}

/// Appends `s` right-aligned in `w` characters.
pub fn push_left_padded_chars(v: &mut Vec<u8>, s: &Vec<u8>, w: usize)
    ensures
        final(v)@ == old(v)@ + pad_left_chars(s@, w as nat),
{
    let c = count_chars(s);
    if c < w {
        push_spaces(v, w - c);
    }
    push_all(v, s);
}

/// Appends `s` left-aligned in `w` characters.
pub fn push_right_padded_chars(v: &mut Vec<u8>, s: &Vec<u8>, w: usize)
    ensures
        final(v)@ == old(v)@ + pad_right_chars(s@, w as nat),
{
    let c = count_chars(s);
    push_all(v, s);
    if c < w {
        push_spaces(v, w - c);
    }
}

/// A position or a size on the terminal, in columns and rows.
#[derive(PartialEq, Eq, Structural, Debug, Clone, Copy)]
pub struct XY {
    pub x: u16,
    pub y: u16,
}

impl XY {
    /// The origin.
    pub fn new() -> (r: Self)
        ensures
            r.x == 0 && r.y == 0,
    {
        XY { x: 0, y: 0 }
    }
}

/// " b"
pub open spec fn lit_b() -> Seq<u8> {
    seq![32u8, 98u8]
}

fn push_lit_b(v: &mut Vec<u8>)
    ensures
        final(v)@ == old(v)@ + lit_b(),
{
    let s: Vec<u8> = vec![32u8, 98u8];
    push_padded(v, &s, 0);
}

/// " Kb"
pub open spec fn lit_kb() -> Seq<u8> {
    seq![32u8, 75u8, 98u8]
}

fn push_lit_kb(v: &mut Vec<u8>)
    ensures
        final(v)@ == old(v)@ + lit_kb(),
{
    let s: Vec<u8> = vec![32u8, 75u8, 98u8];
    push_padded(v, &s, 0);
}

/// " Mb"
pub open spec fn lit_mb() -> Seq<u8> {
    seq![32u8, 77u8, 98u8]
}

fn push_lit_mb(v: &mut Vec<u8>)
    ensures
        final(v)@ == old(v)@ + lit_mb(),
{
    let s: Vec<u8> = vec![32u8, 77u8, 98u8];
    push_padded(v, &s, 0);
}

/// " Gb"
pub open spec fn lit_gb() -> Seq<u8> {
    seq![32u8, 71u8, 98u8]
}

fn push_lit_gb(v: &mut Vec<u8>)
    ensures
        final(v)@ == old(v)@ + lit_gb(),
{
    let s: Vec<u8> = vec![32u8, 71u8, 98u8];
    push_padded(v, &s, 0);
}

/// Two spaces and a dash right-aligned in five columns.
pub open spec fn lit_dash() -> Seq<u8> {
    seq![32u8, 32u8, 32u8, 32u8, 32u8, 32u8, 45u8]
}

fn push_lit_dash(v: &mut Vec<u8>)
    ensures
        final(v)@ == old(v)@ + lit_dash(),
{
    let s: Vec<u8> = vec![32u8, 32u8, 32u8, 32u8, 32u8, 32u8, 45u8];
    push_padded(v, &s, 0);
}

/// The red bracket and white text that open a process name.
pub open spec fn lit_head() -> Seq<u8> {
    seq![27u8, 91u8, 57u8, 49u8, 109u8, 32u8, 93u8, 32u8, 27u8, 91u8, 51u8, 55u8, 109u8]
}

fn push_lit_head(v: &mut Vec<u8>)
    ensures
        final(v)@ == old(v)@ + lit_head(),
{
    let s: Vec<u8> = vec![27u8, 91u8, 57u8, 49u8, 109u8, 32u8, 93u8, 32u8, 27u8, 91u8, 51u8, 55u8, 109u8];
    push_padded(v, &s, 0);
}

/// Resets the colours.
pub open spec fn lit_reset() -> Seq<u8> {
    seq![27u8, 91u8, 48u8, 109u8]
}

fn push_lit_reset(v: &mut Vec<u8>)
    ensures
        final(v)@ == old(v)@ + lit_reset(),
{
    let s: Vec<u8> = vec![27u8, 91u8, 48u8, 109u8];
    push_padded(v, &s, 0);
}

/// Grey text.
pub open spec fn lit_grey() -> Seq<u8> {
    seq![27u8, 91u8, 51u8, 56u8, 59u8, 53u8, 59u8, 50u8, 52u8, 52u8, 109u8]
}

fn push_lit_grey(v: &mut Vec<u8>)
    ensures
        final(v)@ == old(v)@ + lit_grey(),
{
    let s: Vec<u8> = vec![27u8, 91u8, 51u8, 56u8, 59u8, 53u8, 59u8, 50u8, 52u8, 52u8, 109u8];
    push_padded(v, &s, 0);
}

/// Blue text.
pub open spec fn lit_blue() -> Seq<u8> {
    seq![27u8, 91u8, 57u8, 52u8, 109u8]
}

fn push_lit_blue(v: &mut Vec<u8>)
    ensures
        final(v)@ == old(v)@ + lit_blue(),
{
    let s: Vec<u8> = vec![27u8, 91u8, 57u8, 52u8, 109u8];
    push_padded(v, &s, 0);
}

/// Green text.
pub open spec fn lit_green() -> Seq<u8> {
    seq![27u8, 91u8, 57u8, 50u8, 109u8]
}

fn push_lit_green(v: &mut Vec<u8>)
    ensures
        final(v)@ == old(v)@ + lit_green(),
{
    let s: Vec<u8> = vec![27u8, 91u8, 57u8, 50u8, 109u8];
    push_padded(v, &s, 0);
}

/// The unit names, from bytes to yottabytes.
pub open spec fn unit_name(e: nat) -> Seq<u8> {
    if e == 0 { seq![98u8] }
    else if e == 1 { seq![75u8, 98u8] }
    else if e == 2 { seq![77u8, 98u8] }
    else if e == 3 { seq![71u8, 98u8] }
    else if e == 4 { seq![84u8, 98u8] }
    else if e == 5 { seq![80u8, 98u8] }
    else if e == 6 { seq![69u8, 98u8] }
    else if e == 7 { seq![90u8, 98u8] }
    else { seq![89u8, 98u8] }
}

fn push_unit(v: &mut Vec<u8>, e: u128)
    requires
        e <= 8,
    ensures
        final(v)@ == old(v)@ + unit_name(e as nat),
{
    let s: Vec<u8> = if e == 0 { vec![98u8] }
        else if e == 1 { vec![75u8, 98u8] }
        else if e == 2 { vec![77u8, 98u8] }
        else if e == 3 { vec![71u8, 98u8] }
        else if e == 4 { vec![84u8, 98u8] }
        else if e == 5 { vec![80u8, 98u8] }
        else if e == 6 { vec![69u8, 98u8] }
        else if e == 7 { vec![90u8, 98u8] }
        else { vec![89u8, 98u8] };
    push_padded(v, &s, 0);
}

/// How many times 1024 goes into `x`, repeatedly: the whole part of its
/// logarithm to base 1024.
pub open spec fn log1024(x: nat) -> nat
    decreases x,
{
    if x < 1024 { 0 } else { 1 + log1024(x / 1024) }
}

proof fn lemma_log1024_bound(x: nat, k: nat)
    requires
        x < powu(1024, k),
    ensures
        log1024(x) < k || (k == 0 && x == 0),
    decreases k,
{
    if k == 0 {
        assert(powu(1024, 0) == 1);
    } else if x >= 1024 {
        assert(powu(1024, k) == 1024 * powu(1024, (k - 1) as nat));
        assert(x / 1024 < powu(1024, (k - 1) as nat)) by (nonlinear_arith)
            requires x < 1024 * powu(1024, (k - 1) as nat);
        lemma_log1024_bound(x / 1024, (k - 1) as nat);
    }
}

/// The unit exponent that the monitor's floating-point logarithm gives a
/// byte count whose nearest double is `x`: the whole part of its logarithm
/// to base 1024, one more just below 2^50 (within 3) and 2^60 (within 6144),
/// where that logarithm rounds up to the next whole number.
pub open spec fn float_exponent(x: nat) -> nat {
    let e = log1024(x);
    if (e == 4 && x + 3 >= 1125899906842624) || (e == 5 && x + 6144 >= 1152921504606846976) {
        e + 1
    } else {
        e
    }
}

/// `x` in units of `1024^e`, written with `d` decimals (nearest, ties to
/// even) and right-aligned in `w` columns.
pub open spec fn scaled_text(x: nat, e: nat, d: nat, w: nat) -> Seq<u8> {
    pad_left(fixed_point(round_half_even(x * powu(10, d), powu(1024, e)), d), w)
}

/// A byte count (as its nearest double `x`, at least 1) written the
/// monitor's way: bytes in five columns, kilobytes and megabytes as whole
/// numbers in four, gigabytes with one decimal from 10 on and two below,
/// larger units with one decimal.
pub open spec fn bytes_text(x: nat) -> Seq<u8> {
    let e = float_exponent(x);
    if e == 3 {
        scaled_text(x, 3, if x >= 10 * powu(1024, 3) { 1 } else { 2 }, 4) + lit_gb()
    } else if e == 2 {
        scaled_text(x, 2, 0, 4) + lit_mb()
    } else if e == 1 {
        scaled_text(x, 1, 0, 4) + lit_kb()
    } else if e == 0 {
        scaled_text(x, 0, 0, 5) + lit_b()
    } else {
        scaled_text(x, e, 1, 4) + seq![32u8] + unit_name(e)
    }
}

fn exponent_of(x: u128) -> (r: u128)
    requires
        1 <= x <= 18446744073709551616,
    ensures
        r == float_exponent(x as nat),
        r <= 7,
{
    proof {
        reveal_with_fuel(powu, 8);
        assert(powu(1024, 7) == 1180591620717411303424);
        lemma_log1024_bound(x as nat, 7);
    }
    let mut y = x;
    let mut e: u128 = 0;
    while y >= 1024
        invariant
            e + log1024(y as nat) == log1024(x as nat),
            e <= 7,
            log1024(x as nat) <= 6,
        decreases y,
    {
        y = y / 1024;
        e = e + 1;
    }
    if (e == 4 && x + 3 >= 1125899906842624) || (e == 5 && x + 6144 >= 1152921504606846976) {
        e + 1
    } else {
        e
    }
}

fn push_scaled(v: &mut Vec<u8>, x: u128, e: u128, d: usize, w: usize)
    requires
        x <= 18446744073709551616,
        e <= 7,
        d <= 2,
    ensures
        final(v)@ == old(v)@ + scaled_text(x as nat, e as nat, d as nat, w as nat),
{
    let mut p: u128 = 1;
    let mut k: u128 = 0;
    proof {
        reveal_with_fuel(powu, 8);
        assert(powu(1024, 7) == 1180591620717411303424);
    }
    while k < e
        invariant
            k <= e <= 7,
            p == powu(1024, k as nat),
            p <= powu(1024, 7),
            powu(1024, 7) == 1180591620717411303424,
        decreases e - k,
    {
        proof {
            lemma_pow_le(k as nat);
        }
        p = p * 1024;
        k = k + 1;
    }
    let m: u128 = if d == 0 { 1 } else if d == 1 { 10 } else { 100 };
    proof {
        reveal_with_fuel(powu, 3);
        assert(m == powu(10, d as nat));
        lemma_powu_pos(1024, e as nat);
        assert(x * m <= 1844674407370955161600u128) by (nonlinear_arith)
            requires x <= 18446744073709551616u128, m <= 100;
    }
    let n = div_round_half_even(x * m, p);
    let mut digits: Vec<u8> = Vec::new();
    push_fixed(&mut digits, n, d);
    push_padded(v, &digits, w);
}

proof fn lemma_pow_le(k: nat)
    requires
        k < 7,
    ensures
        powu(1024, k + 1) <= powu(1024, 7),
        powu(1024, k + 1) == powu(1024, k) * 1024,
{
    reveal_with_fuel(powu, 8);
}

fn push_bytes_text(v: &mut Vec<u8>, x: u128)
    requires
        1 <= x <= 18446744073709551616,
    ensures
        final(v)@ == old(v)@ + bytes_text(x as nat),
{
    let e = exponent_of(x);
    proof {
        reveal_with_fuel(powu, 4);
    }
    if e == 3 {
        let d: usize = if x >= 10737418240 { 1 } else { 2 };
        push_scaled(v, x, 3, d, 4);
        push_lit_gb(v);
    } else if e == 2 {
        push_scaled(v, x, 2, 0, 4);
        push_lit_mb(v);
    } else if e == 1 {
        push_scaled(v, x, 1, 0, 4);
        push_lit_kb(v);
    } else if e == 0 {
        push_scaled(v, x, 0, 0, 5);
        push_lit_b(v);
    } else {
        push_scaled(v, x, e, 1, 4);
        v.push(32u8);
        push_unit(v, e);
    }
}

proof fn lemma_log1024_mono(x: nat, y: nat)
    requires
        x <= y,
    ensures
        log1024(x) <= log1024(y),
    decreases y,
{
    if x >= 1024 {
        vstd::arithmetic::div_mod::lemma_div_is_ordered(x as int, y as int, 1024);
        vstd::arithmetic::div_mod::lemma_div_decreases(y as int, 1024);
        lemma_log1024_mono(x / 1024, y / 1024);
    }
}

proof fn lemma_float_exponent_mono(x: nat, y: nat)
    requires
        x <= y,
    ensures
        float_exponent(x) <= float_exponent(y),
{
    lemma_log1024_mono(x, y);
}

/// The unit in which `convert_with_padding` writes a byte count, as an
/// index into b, Kb, Mb, Gb, Tb, ...
pub open spec fn convert_unit(num: u64) -> nat {
    if num == 0 { 0 } else { float_exponent(to_f64(num as nat)) }
}

/// `s` ends with a space and the name of unit `e`.
pub open spec fn ends_with_unit(s: Seq<u8>, e: nat) -> bool {
    let u = seq![32u8] + unit_name(e);
    s.len() >= u.len() && s.subrange(s.len() - u.len(), s.len() as int) == u
}

/// A larger byte count is never written in a smaller unit.
pub proof fn law_larger_count_no_smaller_unit(a: u64, b: u64)
    requires
        a <= b,
    ensures
        convert_unit(a) <= convert_unit(b),
{
    if a != 0 {
        lemma_to_f64_mono(a as nat, b as nat);
        lemma_float_exponent_mono(to_f64(a as nat), to_f64(b as nat));
    }
}

/// What `convert_with_padding` writes for a byte count.
pub open spec fn spec_convert_with_padding(num: u64) -> Seq<u8> {
    if num == 0 {
        pad_left(dec(0), 5) + lit_b()
    } else {
        bytes_text(to_f64(num as nat))
    }
}

/// Writes a byte count the monitor's way (see `bytes_text`) into `buffer`,
/// which it clears first; zero is "    0 b".
pub fn convert_with_padding(buffer: &mut Vec<u8>, num: u64)
    ensures
        final(buffer)@ == spec_convert_with_padding(num),
        ends_with_unit(final(buffer)@, convert_unit(num)),
{
    buffer.clear();
    if num != 0 {
        let x = u64_to_f64(num);
        push_bytes_text(buffer, x);
        proof {
            lemma_bytes_text_unit(x as nat);
        }
    } else {
        push_dec_padded(buffer, 0, 5);
        push_lit_b(buffer);
        proof {
            let s = buffer@;
            assert(s.subrange(s.len() - 2, s.len() as int) =~= seq![32u8] + unit_name(0));
        }
    }
}

proof fn lemma_bytes_text_unit(x: nat)
    ensures
        ends_with_unit(bytes_text(x), float_exponent(x)),
{
    let e = float_exponent(x);
    let s = bytes_text(x);
    let u = seq![32u8] + unit_name(e);
    if e == 3 {
        assert(s.subrange(s.len() - u.len(), s.len() as int) =~= u);
    } else if e == 2 {
        assert(s.subrange(s.len() - u.len(), s.len() as int) =~= u);
    } else if e == 1 {
        assert(s.subrange(s.len() - u.len(), s.len() as int) =~= u);
    } else if e == 0 {
        assert(s.subrange(s.len() - u.len(), s.len() as int) =~= u);
    } else {
        let w = scaled_text(x, e, 1, 4);
        assert(s == w + seq![32u8] + unit_name(e));
        assert(s.subrange(s.len() - u.len(), s.len() as int) =~= u);
    }
}

/// The magnitude of `n`.
pub open spec fn magnitude(n: i64) -> nat {
    if n < 0 { (0 - n) as nat } else { n as nat }
}

fn magnitude_u64(n: i64) -> (r: u64)
    ensures
        r == magnitude(n),
{
    if n < 0 {
        ((0 - (n + 1)) as u64) + 1
    } else {
        n as u64
    }
}

/// What `convert_with_padding_proc` writes: the colour, then a positive size
/// as `bytes_text` writes it, a negative one as a whole number of bytes in
/// five columns, and a dash for zero.
pub open spec fn spec_convert_proc(num: i64, color: Seq<u8>) -> Seq<u8> {
    if num == 0 {
        color + lit_dash()
    } else if num > 0 {
        color + bytes_text(to_f64(num as nat))
    } else {
        color + pad_left(seq![45u8] + dec(to_f64(magnitude(num))), 5) + lit_b()
    }
}

/// Writes the memory of a process into `buffer` (cleared first), in
/// `color` (see `spec_convert_proc`).
pub fn convert_with_padding_proc(buffer: &mut Vec<u8>, num: i64, color: &[u8])
    ensures
        final(buffer)@ == spec_convert_proc(num, color@),
{
    buffer.clear();
    push_truncated(buffer, color, color.len());
    if num != 0 {
        let m = magnitude_u64(num);
        let x = u64_to_f64(m);
        if num > 0 {
            push_bytes_text(buffer, x);
        } else {
            let mut t: Vec<u8> = vec![45u8];
            push_dec(&mut t, x);
            push_padded(buffer, &t, 5);
            push_lit_b(buffer);
        }
    } else {
        push_lit_dash(buffer);
    }
}

/// A byte string may be cut at `n` without splitting a UTF-8 character:
/// `n` is past its end or no continuation byte stands there.
pub open spec fn char_boundary(s: Seq<u8>, n: int) -> bool {
    n >= s.len() || !(128 <= s[n] <= 191)
}

/// `s` cut to `n` bytes (unchanged when shorter).
pub open spec fn truncated(s: Seq<u8>, n: int) -> Seq<u8> {
    if n >= s.len() { s } else { s.take(n) }
}

/// `a - b`, or 0 when `b` is larger.
pub open spec fn sat_sub(a: int, b: int) -> int {
    if a >= b { a - b } else { 0 }
}

/// The PID right-aligned in `pidlen` columns and a space.
pub open spec fn pid_text(pid: u32, pidlen: usize) -> Seq<u8> {
    pad_left(dec(pid as nat), pidlen as nat) + seq![32u8]
}

/// The tail of a process line: PID, program name (blue for a kernel
/// thread, green for a program) and grey arguments, cut to fit `maxlen`
/// bytes after the three of its opening bracket: first the arguments are
/// cut, then the name, then the PID.
pub open spec fn spec_maxstr(exec: Seq<u8>, cmd: Seq<u8>, is_not_exec: bool, pid: u32, pidlen: usize, maxlen: usize) -> Seq<u8> {
    let color = if is_not_exec { lit_blue() } else { lit_green() };
    let p = pid_text(pid, pidlen);
    if p.len() + 3 > maxlen {
        lit_head() + truncated(p, sat_sub(maxlen as int, 3)) + lit_reset()
    } else if exec.len() + p.len() + 3 > maxlen {
        lit_head() + p + lit_reset() + color + truncated(exec, sat_sub(maxlen as int, (p.len() + 3) as int)) + lit_reset()
    } else if cmd.len() + exec.len() + p.len() + 3 > maxlen {
        lit_head() + p + lit_reset() + color + exec + lit_grey()
            + truncated(cmd, sat_sub(maxlen as int, (exec.len() + p.len() + 3) as int)) + lit_reset()
    } else {
        lit_head() + p + lit_reset() + color + exec + lit_grey() + cmd + lit_reset()
    }
}

fn push_truncated(v: &mut Vec<u8>, s: &[u8], n: usize)
    ensures
        final(v)@ == old(v)@ + truncated(s@, n as int),
{
    let len = s.len();
    let end = if n < len { n } else { len };
    let ghost mid = v@;
    let mut k: usize = 0;
    while k < end
        invariant
            end <= len == s@.len(),
            k <= end,
            v@ == mid + s@.take(k as int),
        decreases end - k,
    {
        v.push(s[k]);
        proof {
            assert(s@.take(k + 1) == s@.take(k as int).push(s@[k as int]));
        }
        k = k + 1;
    }
    proof {
        if n >= len {
            assert(s@.take(len as int) == s@);
        }
    }
}

/// Builds the tail of a process line (see `spec_maxstr`).
pub fn maxstr(exec: &[u8], cmd: &[u8], is_not_exec: bool, pid: u32, pidlen: usize, maxlen: usize) -> (r: Vec<u8>)
    requires
        maxstr_args_ok(exec@, cmd@, pid, pidlen, maxlen),
    ensures
        r@ == spec_maxstr(exec@, cmd@, is_not_exec, pid, pidlen, maxlen),
{
    let mut p: Vec<u8> = Vec::new();
    push_dec_padded(&mut p, pid as u128, pidlen);
    p.push(32u8);
    proof {
        lemma_pad_len(dec(pid as nat), pidlen as nat);
        lemma_dec_short(pid as nat);
    }
    let plen = p.len();
    let mut r: Vec<u8> = Vec::new();
    push_lit_head(&mut r);
    if plen + 3 > maxlen {
        let n = if maxlen >= 3 { maxlen - 3 } else { 0 };
        push_truncated(&mut r, p.as_slice(), n);
        push_lit_reset(&mut r);
        return r;
    }
    push_padded(&mut r, &p, 0);
    push_lit_reset(&mut r);
    if is_not_exec {
        push_lit_blue(&mut r);
    } else {
        push_lit_green(&mut r);
    }
    if exec.len() + plen + 3 > maxlen {
        let n = if maxlen >= plen + 3 { maxlen - (plen + 3) } else { 0 };
        push_truncated(&mut r, exec, n);
        push_lit_reset(&mut r);
        return r;
    }
    push_truncated(&mut r, exec, exec.len());
    push_lit_grey(&mut r);
    if cmd.len() + exec.len() + plen + 3 > maxlen {
        let n = if maxlen >= exec.len() + plen + 3 { maxlen - (exec.len() + plen + 3) } else { 0 };
        push_truncated(&mut r, cmd, n);
    } else {
        push_truncated(&mut r, cmd, cmd.len());
    }
    push_lit_reset(&mut r);
    r
}

proof fn lemma_pad_len(s: Seq<u8>, w: nat)
    ensures
        pad_left(s, w).len() == if s.len() >= w { s.len() } else { w },
{
}

proof fn lemma_dec_short(n: nat)
    requires
        n <= u32::MAX,
    ensures
        dec(n).len() <= 10,
{
    reveal_with_fuel(powu, 11);
    assert(powu(10, 10) == 10000000000);
    lemma_dec_len_bound(n, 10);
}

proof fn lemma_dec_len_bound(n: nat, k: nat)
    requires
        n < powu(10, k),
    ensures
        dec(n).len() <= k || (k == 0),
    decreases k,
{
    if k > 0 && n >= 10 {
        assert(powu(10, k) == 10 * powu(10, (k - 1) as nat));
        assert(n / 10 < powu(10, (k - 1) as nat)) by (nonlinear_arith)
            requires n < 10 * powu(10, (k - 1) as nat);
        lemma_dec_len_bound(n / 10, (k - 1) as nat);
    }
    if k == 10 {
        reveal_with_fuel(powu, 11);
    }
}

/// `maxstr` can be built from these: the sizes fit in memory, and each
/// name that is cut is cut between characters.
pub open spec fn maxstr_args_ok(exec: Seq<u8>, cmd: Seq<u8>, pid: u32, pidlen: usize, maxlen: usize) -> bool {
    let p = pid_text(pid, pidlen);
    &&& pidlen < usize::MAX - 16
    &&& exec.len() + cmd.len() + pidlen + 16 < usize::MAX
    &&& !(p.len() + 3 > maxlen) && exec.len() + p.len() + 3 > maxlen ==> char_boundary(exec, sat_sub(maxlen as int, (p.len() + 3) as int))
    &&& !(p.len() + 3 > maxlen) && !(exec.len() + p.len() + 3 > maxlen) && cmd.len() + exec.len() + p.len() + 3 > maxlen
        ==> char_boundary(cmd, sat_sub(maxlen as int, (exec.len() + p.len() + 3) as int))
}

fn boundary_at(s: &[u8], n: usize) -> (r: bool)
    ensures
        r == char_boundary(s@, n as int),
{
    n >= s.len() || !(128 <= s[n] && s[n] <= 191)
}

/// Whether `maxstr` can be built from these (see `maxstr_args_ok`).
pub fn maxstr_fits(exec: &[u8], cmd: &[u8], pid: u32, pidlen: usize, maxlen: usize) -> (r: bool)
    ensures
        r == maxstr_args_ok(exec@, cmd@, pid, pidlen, maxlen),
{
    if pidlen >= usize::MAX - 16 {
        return false;
    }
    if exec.len() as u128 + cmd.len() as u128 + pidlen as u128 + 16 >= usize::MAX as u128 {
        return false;
    }
    let mut p: Vec<u8> = Vec::new();
    push_dec_padded(&mut p, pid as u128, pidlen);
    p.push(32u8);
    proof {
        lemma_pad_len(dec(pid as nat), pidlen as nat);
        lemma_dec_short(pid as nat);
        assert(p@ == pid_text(pid, pidlen));
    }
    let plen = p.len();
    if plen + 3 > maxlen {
        return true;
    }
    if exec.len() + plen + 3 > maxlen {
        return boundary_at(exec, maxlen - (plen + 3));
    }
    if cmd.len() + exec.len() + plen + 3 > maxlen {
        return boundary_at(cmd, maxlen - (exec.len() + plen + 3));
    }
    true
}

} // verus!
