use vstd::prelude::*;
use crate::text::{decimal, fixed_digits, repeat_char, push_char, push_decimal, push_fixed_digits, push_repeated, push_text};

verus! {

/// A unit in which an amount of memory is shown.
#[derive(Copy, Clone, Debug)]
pub enum MemoryUnit {
    Bytes,
    KiB,
    MiB,
    GiB,
}

/// `2^e`.
pub open spec fn two_pow(e: nat) -> nat
    decreases e,
{
    if e == 0 { 1 } else { 2 * two_pow((e - 1) as nat) }
}

/// `10^e`.
pub open spec fn pow10(e: nat) -> nat
    decreases e,
{
    if e == 0 { 1 } else { 10 * pow10((e - 1) as nat) }
}

/// `5^e`.
pub open spec fn pow5(e: nat) -> nat
    decreases e,
{
    if e == 0 { 1 } else { 5 * pow5((e - 1) as nat) }
}

/// The number of low bits that `n as f64` cannot hold: `n` needs
/// `53 + f64_drop_bits(n)` significant bits at most.
pub open spec fn f64_drop_bits(n: nat) -> nat
    decreases n,
{
    if n < 9007199254740992 { 0 } else { 1 + f64_drop_bits(n / 2) }
}

/// `a / d` rounded to the nearest integer, ties to the even one.
pub open spec fn round_half_even(a: nat, d: nat) -> nat {
    let q = a / d;
    let r = a % d;
    if 2 * r > d || (2 * r == d && q % 2 == 1) { q + 1 } else { q }
}

/// The value of `n as f64`: `n` rounded to 53 significant bits, ties to even.
pub open spec fn nearest_f64(n: nat) -> nat {
    let s = f64_drop_bits(n);
    if s == 0 { n } else { round_half_even(n, two_pow(s)) * two_pow(s) }
}

/// `q / 10^p` written with `p` digits after the decimal point, as `{:.p}` writes it.
pub open spec fn fixed_point(q: nat, p: nat) -> Seq<char> {
    if p == 0 {
        decimal(q)
    } else {
        decimal(q / pow10(p)) + seq!['.'] + fixed_digits(q % pow10(p), p)
    }
}

/// `n / 2^shift` as `f64` arithmetic computes it, written with `p` digits after the point.
pub open spec fn scaled_text(n: nat, shift: nat, p: nat) -> Seq<char> {
    fixed_point(round_half_even(nearest_f64(n) * pow10(p), two_pow(shift)), p)
}

/// The power of two by which a unit divides a byte count.
pub open spec fn unit_shift(unit: MemoryUnit) -> nat {
    match unit {
        MemoryUnit::Bytes => 0,
        MemoryUnit::KiB => 10,
        MemoryUnit::MiB => 20,
        MemoryUnit::GiB => 30,
    }
}

/// The unit chosen when none is given: the largest one in which the amount is at least 1.
pub open spec fn automatic_unit(n: u64) -> MemoryUnit {
    if n < 1024 {
        MemoryUnit::Bytes
    } else if n < 1024 * 1024 {
        MemoryUnit::KiB
    } else if n < 1024 * 1024 * 1024 {
        MemoryUnit::MiB
    } else {
        MemoryUnit::GiB
    }
}

/// The text of `n` bytes in `unit`, with `p` digits after the point for the
/// units above bytes.
pub open spec fn memory_text(n: u64, unit: MemoryUnit, p: nat) -> Seq<char> {
    match unit {
        MemoryUnit::Bytes => if n == 1 { "1 byte"@ } else { decimal(n as nat) + " bytes"@ },
        MemoryUnit::KiB => scaled_text(n as nat, 10, p) + " KiB"@,
        MemoryUnit::MiB => scaled_text(n as nat, 20, p) + " MiB"@,
        MemoryUnit::GiB => scaled_text(n as nat, 30, p) + " GiB"@,
    }
}

proof fn lemma_two_pow_values()
    ensures
        two_pow(10) == 1024,
        two_pow(20) == 1048576,
        two_pow(30) == 1073741824,
        two_pow(53) == 9007199254740992,
{
    reveal_with_fuel(two_pow, 54);
}

proof fn lemma_pow_bounds()
    ensures
        pow10(29) == 100000000000000000000000000000,
        pow5(30) == 931322574615478515625,
{
    reveal_with_fuel(pow10, 30);
    reveal_with_fuel(pow5, 31);
}

proof fn lemma_two_pow_pos(e: nat)
    ensures
        two_pow(e) > 0,
    decreases e,
{
    if e > 0 {
        lemma_two_pow_pos((e - 1) as nat);
    }
}

proof fn lemma_pow10_pos(e: nat)
    ensures
        pow10(e) > 0,
    decreases e,
{
    if e > 0 {
        lemma_pow10_pos((e - 1) as nat);
    }
}

proof fn lemma_pow10_monotone(a: nat, b: nat)
    requires
        a <= b,
    ensures
        pow10(a) <= pow10(b),
    decreases b,
{
    if a < b {
        lemma_pow10_monotone(a, (b - 1) as nat);
        lemma_pow10_pos((b - 1) as nat);
    }
}

proof fn lemma_pow5_monotone(a: nat, b: nat)
    requires
        a <= b,
    ensures
        pow5(a) <= pow5(b),
        pow5(a) > 0,
    decreases b,
{
    if a < b {
        lemma_pow5_monotone(a, (b - 1) as nat);
    } else if a > 0 {
        lemma_pow5_monotone((a - 1) as nat, (a - 1) as nat);
    }
}

proof fn lemma_pow10_adds(a: nat, b: nat)
    ensures
        pow10(a + b) == pow10(a) * pow10(b),
    decreases b,
{
    if b > 0 {
        let b1 = (b - 1) as nat;
        lemma_pow10_adds(a, b1);
        let x = pow10(a);
        let y = pow10(b1);
        let z = pow10(a + b1);
        assert(a + b1 + 1 == a + b);
        assert(pow10(a + b) == 10 * z);
        assert(pow10(b) == 10 * y);
        assert(10 * z == x * (10 * y)) by (nonlinear_arith)
            requires z == x * y;
    } else {
        assert(pow10(0) == 1);
        assert(a + b == a);
    }
}

proof fn lemma_pow10_split(e: nat)
    ensures
        pow10(e) == two_pow(e) * pow5(e),
    decreases e,
{
    if e > 0 {
        let e1 = (e - 1) as nat;
        lemma_pow10_split(e1);
        let a = two_pow(e1);
        let b = pow5(e1);
        let c = pow10(e1);
        assert(pow10(e) == 10 * c);
        assert(two_pow(e) == 2 * a);
        assert(pow5(e) == 5 * b);
        let tp = two_pow(e);
        let fp = pow5(e);
        assert(pow10(e) == tp * fp) by (nonlinear_arith)
            requires pow10(e) == 10 * c, tp == 2 * a, fp == 5 * b, c == a * b;
        assert(pow10(e) == two_pow(e) * pow5(e));
    } else {
        assert(pow10(e) == 1 && two_pow(e) == 1 && pow5(e) == 1);
        assert(two_pow(e) * pow5(e) == 1) by (nonlinear_arith)
            requires two_pow(e) == 1, pow5(e) == 1;
    }
}

/// Trailing zero digits: `x * 10^j` in `w + j` digits is `x` in `w` digits, then `j` zeros.
proof fn lemma_fixed_digits_zeros(x: nat, w: nat, j: nat)
    ensures
        fixed_digits(x * pow10(j), w + j) =~= fixed_digits(x, w) + repeat_char('0', j),
    decreases j,
{
    if j > 0 {
        let j1 = (j - 1) as nat;
        lemma_fixed_digits_zeros(x, w, j1);
        let y = x * pow10(j1);
        let z = x * pow10(j);
        assert(pow10(j) == 10 * pow10(j1));
        assert(z == y * 10) by (nonlinear_arith)
            requires pow10(j) == 10 * pow10(j1), y == x * pow10(j1), z == x * pow10(j);
        assert(z / 10 == y);
        assert(z % 10 == 0);
        assert(w + j1 + 1 == w + j);
        assert(fixed_digits(z, w + j) == fixed_digits(z / 10, (w + j - 1) as nat).push(crate::text::digit_char(z % 10)));
        assert(crate::text::digit_char(0) == '0');
        assert(fixed_digits(y, w + j1) =~= fixed_digits(x, w) + repeat_char('0', j1));
        assert(repeat_char('0', j) =~= repeat_char('0', j1).push('0'));
    } else {
        assert(pow10(0) == 1);
        assert(x * 1 == x);
        assert(repeat_char('0', 0) =~= Seq::<char>::empty());
    }
}

/// The value of `n as f64`, exactly, as an integer.
fn nearest_f64_value(n: u64) -> (m: u128)
    ensures
        m == nearest_f64(n as nat),
        m <= 18446744073709551616,
{
    proof {
        lemma_two_pow_values();
    }
    let mut s: u32 = 0;
    let mut d: u128 = 1;
    let mut q: u128 = n as u128;
    while q >= 9007199254740992
        invariant
            d == two_pow(s as nat),
            q == (n as nat) / (d as nat),
            f64_drop_bits(n as nat) == s + f64_drop_bits(q as nat),
            d <= 2048,
            s <= 11,
            two_pow(53) == 9007199254740992,
        decreases q,
    {
        proof {
            lemma_two_pow_pos(s as nat);
            if d >= 2048 {
                vstd::arithmetic::div_mod::lemma_div_is_ordered_by_denominator(n as int, 2048, d as int);
                assert((n as int) / 2048 < 9007199254740992);
            }
            assert(d < 2048);
            if s >= 11 {
                assert(two_pow(11) == 2048) by { reveal_with_fuel(two_pow, 12); }
                lemma_two_pow_ge(11, s as nat);
            }
            lemma_two_pow_ge(s as nat, 10);
            lemma_two_pow_values();
            assert(d <= 1024);
            vstd::arithmetic::div_mod::lemma_div_denominator(n as int, d as int, 2);
            assert(f64_drop_bits(q as nat) == 1 + f64_drop_bits((q / 2) as nat));
        }
        q = q / 2;
        d = d * 2;
        s = s + 1;
    }
    proof {
        assert(f64_drop_bits(q as nat) == 0);
        lemma_two_pow_pos(s as nat);
    }
    if s == 0 {
        proof {
            assert(d == 1);
        }
        return n as u128;
    }
    let r = (n as u128) % d;
    let half = d / 2;
    let q2 = if r > half || (r == half && q % 2 == 1) { q + 1 } else { q };
    proof {
        assert(two_pow(s as nat) == 2 * two_pow((s - 1) as nat));
        assert(2 * r > d <==> r > half);
        assert(2 * r == d <==> r == half);
        assert(q2 * d <= 9007199254740992 * 2048) by (nonlinear_arith)
            requires q2 <= 9007199254740992, d <= 2048;
    }
    q2 * d
}

proof fn lemma_two_pow_ge(a: nat, b: nat)
    requires
        a <= b,
    ensures
        two_pow(a) <= two_pow(b),
    decreases b,
{
    if a < b {
        lemma_two_pow_ge(a, (b - 1) as nat);
    }
}

/// `m * 10^p` split around the divisor `d`, for `p` below the unit's shift.
proof fn lemma_split_scaled(m: nat, d: nat, t: nat, ip: nat, r0: nat, f: nat, rem: nat)
    requires
        d > 0,
        t > 0,
        ip == m / d,
        r0 == m % d,
        f == (r0 * t) / d,
        rem == (r0 * t) % d,
    ensures
        (m * t) / d == ip * t + f,
        (m * t) % d == rem,
        f < t,
{
    vstd::arithmetic::div_mod::lemma_fundamental_div_mod(m as int, d as int);
    vstd::arithmetic::div_mod::lemma_fundamental_div_mod((r0 * t) as int, d as int);
    assert(m * t == (ip * t + f) * d + rem) by (nonlinear_arith)
        requires m == d * ip + r0, r0 * t == d * f + rem;
    vstd::arithmetic::div_mod::lemma_fundamental_div_mod_converse((m * t) as int, d as int, (ip * t + f) as int, rem as int);
    assert(r0 < d);
    assert(f < t) by (nonlinear_arith)
        requires r0 * t == d * f + rem, r0 < d, rem >= 0, d > 0, t > 0;
}

/// `m * 10^p` is a multiple of `2^shift` when `p` reaches the shift.
proof fn lemma_exact_scaled(m: nat, shift: nat, p: nat, ip: nat, r0: nat)
    requires
        shift <= p,
        ip == m / two_pow(shift),
        r0 == m % two_pow(shift),
    ensures
        (m * pow10(p)) % two_pow(shift) == 0,
        (m * pow10(p)) / two_pow(shift) == ip * pow10(p) + r0 * pow5(shift) * pow10((p - shift) as nat),
        r0 * pow5(shift) < pow10(shift),
{
    let d = two_pow(shift);
    let j = (p - shift) as nat;
    lemma_two_pow_pos(shift);
    lemma_pow10_adds(shift, j);
    lemma_pow10_split(shift);
    lemma_pow5_monotone(shift, shift);
    vstd::arithmetic::div_mod::lemma_fundamental_div_mod(m as int, d as int);
    let f = r0 * pow5(shift) * pow10(j);
    assert(m * pow10(p) == (ip * pow10(p) + f) * d) by (nonlinear_arith)
        requires
            m == d * ip + r0,
            pow10(p) == pow10(shift) * pow10(j),
            pow10(shift) == d * pow5(shift),
            f == r0 * pow5(shift) * pow10(j);
    vstd::arithmetic::div_mod::lemma_fundamental_div_mod_converse((m * pow10(p)) as int, d as int, (ip * pow10(p) + f) as int, 0);
    assert(r0 * pow5(shift) < pow10(shift)) by (nonlinear_arith)
        requires r0 < d, pow10(shift) == d * pow5(shift), pow5(shift) > 0;
}

/// Computes `b^e` for the bases 5 and 10 within `u128`.
fn small_power(b: u128, e: u32) -> (r: u128)
    requires
        b == 5 || b == 10,
        b == 5 ==> e <= 30,
        b == 10 ==> e <= 29,
    ensures
        b == 5 ==> r == pow5(e as nat),
        b == 10 ==> r == pow10(e as nat),
{
    proof {
        lemma_pow_bounds();
    }
    let mut r: u128 = 1;
    let mut i: u32 = 0;
    while i < e
        invariant
            0 <= i <= e,
            b == 5 || b == 10,
            b == 5 ==> e <= 30 && r == pow5(i as nat),
            b == 10 ==> e <= 29 && r == pow10(i as nat),
            pow10(29) == 100000000000000000000000000000,
            pow5(30) == 931322574615478515625,
        decreases e - i,
    {
        proof {
            if b == 5 {
                lemma_pow5_monotone((i + 1) as nat, 30);
            } else {
                lemma_pow10_monotone((i + 1) as nat, 29);
            }
        }
        r = r * b;
        i = i + 1;
    }
    r
}

/// Appends `n / 2^shift` as `f64` arithmetic computes it, with `p` digits after the point.
fn push_scaled(s: &mut String, n: u64, shift: u32, d: u128, p: usize)
    requires
        shift == 10 || shift == 20 || shift == 30,
        d == two_pow(shift as nat),
    ensures
        final(s)@ == old(s)@ + scaled_text(n as nat, shift as nat, p as nat),
{
    proof {
        lemma_two_pow_values();
        lemma_pow_bounds();
        lemma_two_pow_pos(shift as nat);
    }
    let m = nearest_f64_value(n);
    let ip = m / d;
    let r0 = m % d;
    if p >= shift as usize {
        let five = small_power(5, shift);
        proof {
            assert(d <= 1073741824);
            lemma_pow5_monotone(shift as nat, 30);
            assert(r0 * five < 1000000000000000000000000000000) by (nonlinear_arith)
                requires r0 < 1073741824, five <= 931322574615478515625;
        }
        let frac = r0 * five;
        proof {
            lemma_exact_scaled(m as nat, shift as nat, p as nat, ip as nat, r0 as nat);
            lemma_fixed_digits_zeros((r0 * five) as nat, shift as nat, (p - shift) as nat);
            lemma_pow10_pos(p as nat);
            let q: nat = (ip as nat) * pow10(p as nat) + (r0 as nat) * pow5(shift as nat) * pow10((p - shift) as nat);
            let fr: nat = (r0 as nat) * pow5(shift as nat) * pow10((p - shift) as nat);
            lemma_pow10_adds(shift as nat, (p - shift) as nat);
            lemma_pow10_pos((p - shift) as nat);
            assert(fr < pow10(p as nat)) by (nonlinear_arith)
                requires fr == r0 * pow5(shift as nat) * pow10((p - shift) as nat),
                    r0 * pow5(shift as nat) < pow10(shift as nat),
                    pow10(p as nat) == pow10(shift as nat) * pow10((p - shift) as nat),
                    pow10((p - shift) as nat) > 0;
            vstd::arithmetic::div_mod::lemma_fundamental_div_mod_converse(q as int, pow10(p as nat) as int, ip as int, fr as int);
            assert(round_half_even((m as nat) * pow10(p as nat), d as nat) == q);
        }
        push_decimal(s, ip);
        push_char(s, '.');
        push_fixed_digits(s, frac, shift);
        push_repeated(s, '0', p - shift as usize);
        proof {
            let fr: nat = (r0 as nat) * pow5(shift as nat) * pow10((p - shift) as nat);
            assert(fixed_digits(fr, p as nat) =~= fixed_digits((r0 * five) as nat, shift as nat) + repeat_char('0', (p - shift) as nat)) by {
                assert(shift as nat + (p - shift) as nat == p as nat);
            }
            assert(crate::text::digit_char(0) == '0') by {
                assert((48u8 as char) == '0');
            }
        }
    } else {
        let t = small_power(10, p as u32);
        proof {
            lemma_pow10_monotone(p as nat, 29);
            assert(d <= 1073741824);
            assert(r0 * t < 340282366920938463463374607431768211455) by (nonlinear_arith)
                requires r0 < 1073741824, t <= 100000000000000000000000000000;
        }
        let x = r0 * t;
        let f = x / d;
        let rem = x % d;
        let parity = if p == 0 { ip % 2 } else { f % 2 };
        let up = rem > d / 2 || (rem * 2 == d && parity == 1);
        proof {
            lemma_pow10_pos(p as nat);
            lemma_split_scaled(m as nat, d as nat, t as nat, ip as nat, r0 as nat, f as nat, rem as nat);
            let q0 = ip * t + f;
            if p == 0 {
                assert(t == 1);
                assert(x == r0 * 1);
                assert(f == 0) by {
                    vstd::arithmetic::div_mod::lemma_small_div_converse(x as int, d as int);
                }
                assert(q0 == ip) by (nonlinear_arith)
                    requires q0 == ip * t + f, t == 1, f == 0;
            } else {
                assert(t == 10 * pow10((p - 1) as nat));
                let k = (ip as nat) * 5 * pow10((p - 1) as nat);
                assert((ip as nat) * (t as nat) == 2 * k) by (nonlinear_arith)
                    requires t == 10 * pow10((p - 1) as nat), k == (ip as nat) * 5 * pow10((p - 1) as nat);
                assert(q0 % 2 == f % 2);
            }
            assert(2 * rem > d <==> rem > d / 2);
        }
        let mut ip2 = ip;
        let mut f2 = f;
        if up {
            if f + 1 == t {
                ip2 = ip + 1;
                f2 = 0;
            } else {
                f2 = f + 1;
            }
        }
        proof {
            let q = round_half_even((m as nat) * pow10(p as nat), d as nat);
            let q0 = (ip as nat) * (t as nat) + (f as nat);
            assert(((m as nat) * pow10(p as nat)) / (d as nat) == q0);
            assert(((m as nat) * pow10(p as nat)) % (d as nat) == rem);
            assert(up ==> q == q0 + 1);
            assert(!up ==> q == q0);
            if up && f + 1 == t {
                assert((ip2 as nat) * (t as nat) == (ip as nat) * (t as nat) + (t as nat)) by (nonlinear_arith)
                    requires ip2 == ip + 1;
            }
            assert(q == ip2 * t + f2);
            vstd::arithmetic::div_mod::lemma_fundamental_div_mod_converse(q as int, t as int, ip2 as int, f2 as int);
        }
        if p == 0 {
            push_decimal(s, ip2);
            proof {
                assert(t == 1);
            }
        } else {
            push_decimal(s, ip2);
            push_char(s, '.');
            push_fixed_digits(s, f2, p as u32);
        }
    }
}

/// An amount of memory in bytes, with the unit to show it in (none: chosen by size).
pub struct MemoryDisplay(pub u64, pub Option<MemoryUnit>);

impl MemoryDisplay {
    /// The unit in which the amount is shown.
    pub open spec fn shown_unit(self) -> MemoryUnit {
        match self.1 {
            Some(unit) => unit,
            None => automatic_unit(self.0),
        }
    }

    /// The text of the amount with `precision` digits after the point (bytes are whole).
    pub fn to_string_with_precision(&self, precision: usize) -> (text: String)
        ensures
            text@ == memory_text(self.0, self.shown_unit(), precision as nat),
    {
        let n = self.0;
        let unit = match self.1 {
            Some(unit) => unit,
            None => {
                if n < 1024 {
                    MemoryUnit::Bytes
                } else if n < 1024 * 1024 {
                    MemoryUnit::KiB
                } else if n < 1024 * 1024 * 1024 {
                    MemoryUnit::MiB
                } else {
                    MemoryUnit::GiB
                }
            },
        };
        proof {
            lemma_two_pow_values();
        }
        let mut text = String::new();
        match unit {
            MemoryUnit::Bytes => {
                if n == 1 {
                    push_text(&mut text, "1 byte");
                } else {
                    push_decimal(&mut text, n as u128);
                    push_text(&mut text, " bytes");
                }
            },
            MemoryUnit::KiB => {
                push_scaled(&mut text, n, 10, 1024, precision);
                push_text(&mut text, " KiB");
            },
            MemoryUnit::MiB => {
                push_scaled(&mut text, n, 20, 1048576, precision);
                push_text(&mut text, " MiB");
            },
            MemoryUnit::GiB => {
                push_scaled(&mut text, n, 30, 1073741824, precision);
                push_text(&mut text, " GiB");
            },
        }
        proof {
            assert(memory_text(self.0, self.shown_unit(), precision as nat) =~= text@);
        }
        text
    }

    /// The text of the amount as `{}` shows it: one digit after the point.
    pub fn to_string(&self) -> (text: String)
        ensures
            text@ == memory_text(self.0, self.shown_unit(), 1),
    {
        self.to_string_with_precision(1)
    }
}

/// Shows a byte count as an amount of memory.
pub trait MemoryDisplayExt {
    /// In the unit that suits its size.
    fn display_memory(&self) -> MemoryDisplay;

    /// In the given unit.
    fn display_memory_in(&self, memory_unit: MemoryUnit) -> MemoryDisplay;
}

impl MemoryDisplayExt for u64 {
    fn display_memory(&self) -> (display: MemoryDisplay)
        ensures
            display.0 == *self,
            display.1 is None,
    {
        MemoryDisplay(*self, None)
    }

    fn display_memory_in(&self, memory_unit: MemoryUnit) -> (display: MemoryDisplay)
        ensures
            display.0 == *self,
            display.1 == Some(memory_unit),
    {
        MemoryDisplay(*self, Some(memory_unit))
    }
}

/// The text of a time span of `secs` whole seconds as an imprecise "... ago".
pub open spec fn imprecise_ago_text(secs: u64) -> Seq<char> {
    if secs == 0 {
        "just now"@
    } else if secs == 1 {
        "1 second ago"@
    } else if secs < 60 {
        decimal(secs as nat) + " seconds ago"@
    } else if secs < 120 {
        "1 minute ago"@
    } else if secs < 3600 {
        decimal((secs / 60) as nat) + " minutes ago"@
    } else if secs < 7200 {
        "1 hour ago"@
    } else {
        decimal((secs / 3600) as nat) + " hours ago"@
    }
}

/// The number of whole seconds in a duration, as `Duration::as_secs` gives it.
pub uninterp spec fn whole_secs_of(duration: std::time::Duration) -> u64;

/// `Duration::as_secs`: the number of whole seconds in the duration, a function
/// of the duration alone (the fractional part is dropped).
#[verifier::external_body]
fn duration_whole_secs(duration: &std::time::Duration) -> (secs: u64)
    ensures
        secs == whole_secs_of(*duration),
{
    duration.as_secs()
}

/// A time span shown as an imprecise "... ago", by its whole seconds.
pub struct DurationDisplayImpreciseAgo(pub u64);

impl DurationDisplayImpreciseAgo {
    /// The text, as `{}` shows it.
    pub fn to_string(&self) -> (text: String)
        ensures
            text@ == imprecise_ago_text(self.0),
    {
        let secs = self.0;
        let mut text = String::new();
        if secs == 0 {
            push_text(&mut text, "just now");
        } else if secs == 1 {
            push_text(&mut text, "1 second ago");
        } else if secs < 60 {
            push_decimal(&mut text, secs as u128);
            push_text(&mut text, " seconds ago");
        } else if secs < 120 {
            push_text(&mut text, "1 minute ago");
        } else if secs < 3600 {
            push_decimal(&mut text, (secs / 60) as u128);
            push_text(&mut text, " minutes ago");
        } else if secs < 7200 {
            push_text(&mut text, "1 hour ago");
        } else {
            push_decimal(&mut text, (secs / 3600) as u128);
            push_text(&mut text, " hours ago");
        }
        proof {
            assert(imprecise_ago_text(self.0) =~= text@);
        }
        text
    }
}

/// Shows a time span as an imprecise "... ago".
pub trait DurationDisplayExt {
    fn display_imprecise_ago(&self) -> DurationDisplayImpreciseAgo;
}

impl DurationDisplayExt for std::time::Duration {
    /// The span by its whole seconds; what the clock gave is left to the caller.
    fn display_imprecise_ago(&self) -> (display: DurationDisplayImpreciseAgo)
        ensures
            display.0 == whole_secs_of(*self),
    {
        DurationDisplayImpreciseAgo(duration_whole_secs(self))
    }
}

} // verus!
