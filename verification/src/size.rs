//! Byte counts as people read them: bytes, or kibibyte multiples with a fixed
//! number of decimals, computed exactly as formatting the `f64` quotient
//! would print them.
use vstd::prelude::*;
use crate::text::{char_of_digit, concat, decimal, push_char, u64_to_string};

verus! {

/// One kibibyte.
pub const KB: u64 = 1024;
/// One mebibyte.
pub const MB: u64 = 1048576;
/// One gibibyte.
pub const GB: u64 = 1073741824;

/// The distance between neighbouring `f64` values around `n`: 1 below 2^53,
/// doubled for each further bit of `n`.
pub open spec fn f64_step(n: nat) -> nat
    decreases n,
{
    if n < 0x20_0000_0000_0000 {
        1
    } else {
        2 * f64_step(n / 2)
    }
}

/// `a / d` rounded to the nearest integer, a tie going to the even one.
pub open spec fn div_round_even(a: nat, d: nat) -> nat {
    let q = a / d;
    let r = a % d;
    if 2 * r > d || (2 * r == d && q % 2 == 1) {
        q + 1
    } else {
        q
    }
}

/// The value of `n as f64`: the nearest multiple of the step, ties to even.
pub open spec fn f64_nearest(n: nat) -> nat {
    div_round_even(n, f64_step(n)) * f64_step(n)
}

/// Ten to the power `k`.
pub open spec fn pow10(k: nat) -> nat
    decreases k,
{
    if k == 0 {
        1
    } else {
        10 * pow10((k - 1) as nat)
    }
}

/// The last `places` decimal digits of `f`, with leading zeros.
pub open spec fn fraction_digits(f: nat, places: nat) -> Seq<char>
    decreases places,
{
    if places == 0 {
        seq![]
    } else {
        fraction_digits(f / 10, (places - 1) as nat).push((('0' as nat) + f % 10) as char)
    }
}

/// `c / 10^places` written with `places` decimals.
pub open spec fn fixed_text(c: nat, places: nat) -> Seq<char> {
    decimal(c / pow10(places)) + "."@ + fraction_digits(c % pow10(places), places)
}

/// What `format!("{:.p$}", n as f64 / unit as f64)` prints: the `f64` nearest
/// `n`, divided by `unit`, rounded to `places` decimals with ties to even.
pub open spec fn scaled_text(n: nat, unit: nat, places: nat) -> Seq<char> {
    fixed_text(div_round_even(f64_nearest(n) * pow10(places), unit), places)
}

/// The readable size of `bytes`: plain bytes below one KB, else the largest
/// of KB, MB and GB that it reaches, with two decimals.
pub open spec fn file_size_text(bytes: nat) -> Seq<char> {
    if bytes >= GB {
        scaled_text(bytes, GB as nat, 2) + " GB"@
    } else if bytes >= MB {
        scaled_text(bytes, MB as nat, 2) + " MB"@
    } else if bytes >= KB {
        scaled_text(bytes, KB as nat, 2) + " KB"@
    } else {
        decimal(bytes) + " B"@
    }
}

/// The value of `n as f64`, as an integer.
fn f64_value(n: u64) -> (r: u128)
    ensures
        r == f64_nearest(n as nat),
        r <= n + 0x1000,
{
    let mut step: u128 = 1;
    let mut m: u64 = n;
    while m >= 0x20_0000_0000_0000
        invariant
            f64_step(n as nat) == step * f64_step(m as nat),
            m == n as nat / step as nat,
            1 <= step <= 0x1000,
            step * m <= n,
        decreases m,
    {
        proof {
            assert(step < 0x800) by (nonlinear_arith)
                requires
                    step * m <= n,
                    m >= 0x20_0000_0000_0000,
                    n < 0x1_0000_0000_0000_0000,
            ;
            vstd::arithmetic::div_mod::lemma_div_denominator(n as int, step as int, 2);
            assert(f64_step(n as nat) == (step * 2) * f64_step((m / 2) as nat)) by (nonlinear_arith)
                requires
                    f64_step(n as nat) == step * f64_step(m as nat),
                    f64_step(m as nat) == 2 * f64_step((m / 2) as nat),
            ;
            assert((step * 2) * (m / 2) <= step * m) by (nonlinear_arith)
                requires
                    1 <= step,
            ;
        }
        m = m / 2;
        step = step * 2;
    }
    assert(f64_step(m as nat) == 1);
    assert(f64_step(n as nat) == step) by (nonlinear_arith)
        requires
            f64_step(n as nat) == step * f64_step(m as nat),
            f64_step(m as nat) == 1,
    ;
    let q: u128 = n as u128 / step;
    let r: u128 = n as u128 % step;
    let up: bool = 2 * r > step || (2 * r == step && q % 2 == 1);
    let k: u128 = if up { q + 1 } else { q };
    assert(k * step <= n + step) by (nonlinear_arith)
        requires
            q == n as nat / step as nat,
            k <= q + 1,
            1 <= step,
    {
        vstd::arithmetic::div_mod::lemma_fundamental_div_mod(n as int, step as int);
    }
    k * step
}

/// The whole part of a scaled size fits in 64 bits: the quotient of a value
/// near a `u64` by at least one kibibyte, times and then divided by `p`.
proof fn lemma_whole_part_bound(f: nat, p: nat, unit: nat, q: nat, c: nat)
    requires
        f <= 0x1_0000_0000_0000_1000,
        1 <= p,
        unit >= 1024,
        q == (f * p) / unit,
        c <= q + 1,
    ensures
        c / p < 0x1_0000_0000_0000_0000,
{
    let bound: nat = 0x40_0000_0000_0004;
    vstd::arithmetic::div_mod::lemma_div_is_ordered_by_denominator((f * p) as int, 1024, unit as int);
    assert(f * p <= 1024 * (bound * p)) by (nonlinear_arith)
        requires
            f <= 0x1_0000_0000_0000_1000,
            bound == 0x40_0000_0000_0004,
            1 <= p,
    ;
    vstd::arithmetic::div_mod::lemma_div_is_ordered((f * p) as int, (1024 * (bound * p)) as int, 1024);
    vstd::arithmetic::div_mod::lemma_div_multiples_vanish((bound * p) as int, 1024);
    assert(q <= bound * p);
    assert(c <= bound * p + 1);
    vstd::arithmetic::mul::lemma_mul_is_distributive_add(p as int, bound as int, 2);
    vstd::arithmetic::mul::lemma_mul_is_commutative(p as int, bound as int);
    assert(c < p * (bound + 2));
    vstd::arithmetic::div_mod::lemma_multiply_divide_lt(c as int, p as int, (bound + 2) as int);
}

/// The last `places` decimal digits of `f`, with leading zeros.
fn fraction_string(f: u64, places: u32) -> (r: String)
    ensures
        r@ == fraction_digits(f as nat, places as nat),
    decreases places,
{
    if places == 0 {
        String::new()
    } else {
        let mut r = fraction_string(f / 10, places - 1);
        push_char(&mut r, char_of_digit(f % 10));
        r
    }
}

/// Ten to the power `k`, for the few decimals shown.
fn pow10_exec(k: u32) -> (r: u64)
    requires
        k <= 3,
    ensures
        r == pow10(k as nat),
        1 <= r <= 1000,
{
    reveal_with_fuel(pow10, 4);
    if k == 0 {
        1
    } else if k == 1 {
        10
    } else if k == 2 {
        100
    } else {
        1000
    }
}

/// `n as f64 / unit as f64` written with `places` decimals, as `format!`
/// prints it; `unit` is a power of two from one kibibyte up, so the quotient
/// is exact.
pub fn scaled_decimal(n: u64, unit: u64, places: u32) -> (r: String)
    requires
        unit == KB || unit == MB || unit == GB,
        places <= 3,
    ensures
        r@ == scaled_text(n as nat, unit as nat, places as nat),
{
    let f = f64_value(n);
    let p = pow10_exec(places);
    assert(f * p <= 0x1_0000_0000_0000_1000 * 1000) by (nonlinear_arith)
        requires
            f <= 0x1_0000_0000_0000_1000,
            p <= 1000,
    ;
    let a: u128 = f * p as u128;
    let q: u128 = a / unit as u128;
    let rem: u128 = a % unit as u128;
    let up: bool = 2 * rem > unit as u128 || (2 * rem == unit as u128 && q % 2 == 1);
    let c: u128 = if up { q + 1 } else { q };
    let whole: u128 = c / p as u128;
    proof {
        lemma_whole_part_bound(f as nat, p as nat, unit as nat, q as nat, c as nat);
    }
    let frac: u128 = c % p as u128;
    let text = concat(u64_to_string(whole as u64).as_str(), ".");
    concat(text.as_str(), fraction_string(frac as u64, places).as_str())
}

/// A byte count for display: plain bytes below one KB, else KB, MB or GB with
/// two decimals.
pub fn format_file_size(bytes: u64) -> (r: String)
    ensures
        r@ == file_size_text(bytes as nat),
{
    if bytes >= GB {
        concat(scaled_decimal(bytes, GB, 2).as_str(), " GB")
    } else if bytes >= MB {
        concat(scaled_decimal(bytes, MB, 2).as_str(), " MB")
    } else if bytes >= KB {
        concat(scaled_decimal(bytes, KB, 2).as_str(), " KB")
    } else {
        concat(u64_to_string(bytes).as_str(), " B")
    }
}

} // verus!
