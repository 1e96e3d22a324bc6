//! Sizes in bytes, for people to read.

use vstd::prelude::*;

use crate::number::{signed_text, unsigned_text};

verus! {

/// `n / d` as a whole number, rounded to the nearest, a tie to the even one.
pub open spec fn half_even(n: int, d: int) -> int {
    if 2 * (n % d) > d || (2 * (n % d) == d && (n / d) % 2 == 1) {
        n / d + 1
    } else {
        n / d
    }
}

/// The distance between neighbouring numbers of 53 significant bits about `n`.
pub open spec fn grain(n: int) -> int
    decreases n,
{
    if n < 0x20_0000_0000_0000 {
        1
    } else {
        2 * grain(n / 2)
    }
}

/// `n` to 53 significant bits, the precision of a double.
pub open spec fn to_53_bits(n: int) -> int {
    half_even(n, grain(n)) * grain(n)
}

pub const KB: u64 = 0x400;

pub const MB: u64 = 0x10_0000;

pub const GB: u64 = 0x4000_0000;

pub const TB: u64 = 0x100_0000_0000;

/// A number of tenths, with one digit after the point.
pub open spec fn tenths_text(tenths: int) -> Seq<char> {
    crate::number::decimal(tenths / 10) + "."@ + crate::number::decimal(tenths % 10)
}

/// A size in units of `unit` bytes, to one digit after the point.
pub open spec fn scaled_text(bytes: int, unit: int, name: Seq<char>) -> Seq<char> {
    tenths_text(half_even(to_53_bits(bytes) * 10, unit)) + " "@ + name
}

/// A size in the largest unit of which it holds one, or none for a size that is
/// not positive.
pub open spec fn size_text(bytes: int) -> Option<Seq<char>> {
    if bytes <= 0 {
        None
    } else if bytes < KB {
        Some(crate::number::decimal(bytes) + " "@ + "B"@)
    } else if bytes < MB {
        Some(scaled_text(bytes, KB as int, "KB"@))
    } else if bytes < GB {
        Some(scaled_text(bytes, MB as int, "MB"@))
    } else if bytes < TB {
        Some(scaled_text(bytes, GB as int, "GB"@))
    } else {
        Some(scaled_text(bytes, TB as int, "TB"@))
    }
}

fn find_grain(n: u64) -> (g: u64)
    requires
        n > 0,
    ensures
        g == grain(n as int),
        0 < g <= n,
    decreases n,
{
    if n < 0x20_0000_0000_0000 {
        1
    } else {
        2 * find_grain(n / 2)
    }
}

fn divide_half_even(n: u128, d: u128) -> (q: u128)
    requires
        0 < d <= u64::MAX,
        n <= 10 * u64::MAX,
    ensures
        q == half_even(n as int, d as int),
        q <= n / d + 1,
{
    let q: u128 = n / d;
    let r: u128 = n % d;
    assert(q <= n) by (nonlinear_arith)
        requires
            q == n / d,
            d > 0,
    ;
    if 2 * r > d || (2 * r == d && q % 2 == 1) {
        q + 1
    } else {
        q
    }
}

/// `n` to the precision of a double.
fn round_to_double(n: u64) -> (f: u64)
    requires
        0 < n <= i64::MAX,
    ensures
        f == to_53_bits(n as int),
{
    let g = find_grain(n);
    let q: u128 = divide_half_even(n as u128, g as u128);
    proof {
        let m = n as int;
        let d = g as int;
        vstd::arithmetic::div_mod::lemma_fundamental_div_mod(m, d);
        assert(q * d <= m + d) by (nonlinear_arith)
            requires
                q <= m / d + 1,
                m == d * (m / d) + m % d,
                0 <= m % d,
                d > 0,
        ;
        assert(0 <= q * d) by (nonlinear_arith)
            requires
                q >= 0,
                d > 0,
        ;
    }
    (q * (g as u128)) as u64
}

fn scaled(bytes: u64, unit: u64, name: &str) -> (text: String)
    requires
        0 < bytes <= i64::MAX,
        KB <= unit,
    ensures
        text@ == scaled_text(bytes as int, unit as int, name@),
{
    let f = round_to_double(bytes);
    let tenths: u128 = divide_half_even(f as u128 * 10, unit as u128);
    proof {
        let n = f as int * 10;
        let d = unit as int;
        assert(n / d <= n / 0x400) by (nonlinear_arith)
            requires
                n >= 0,
                d >= 0x400,
        ;
    }
    let tenths: u64 = tenths as u64;
    let mut text = unsigned_text(tenths / 10);
    text.append(".");
    text.append(unsigned_text(tenths % 10).as_str());
    text.append(" ");
    text.append(name);
    text
}

/// Format bytes as a human-readable size; None for non-positive.
pub fn human_size(bytes: i64) -> (text: Option<String>)
    ensures
        crate::api::opt_text(text) == size_text(bytes as int),
{
    if bytes <= 0 {
        return None;
    }
    let n = bytes as u64;
    Some(
        if n < KB {
            let mut text = signed_text(bytes);
            text.append(" ");
            text.append("B");
            text
        } else if n < MB {
            scaled(n, KB, "KB")
        } else if n < GB {
            scaled(n, MB, "MB")
        } else if n < TB {
            scaled(n, GB, "GB")
        } else {
            scaled(n, TB, "TB")
        },
    )
}

/// A size of less than 2^53 bytes is shown as it is, to the nearest tenth of its
/// unit: rounding to a double changes nothing.
pub proof fn law_double_keeps_small_sizes(bytes: int)
    requires
        0 <= bytes < 0x20_0000_0000_0000,
    ensures
        to_53_bits(bytes) == bytes,
{
    assert(grain(bytes) == 1);
    assert(bytes / 1 == bytes && bytes % 1 == 0);
}

/// Rounding is to the nearest: it is off by half a unit at most.
pub proof fn law_rounding_is_to_the_nearest(n: int, d: int)
    requires
        d > 0,
    ensures
        -d <= 2 * (n - d * half_even(n, d)) <= d,
{
    vstd::arithmetic::div_mod::lemma_fundamental_div_mod(n, d);
    assert(d * (n / d + 1) == d * (n / d) + d) by (nonlinear_arith);
}

} // verus!
