//! Unit conversions of the report: milliwatts to watts, bytes to GiB,
//! version numbers, and the mean of sensor readings, with their numerals.

use vstd::prelude::*;
use vstd::string::*;
use crate::text::{decimal, decimal_string, digit, digit_char, push_char, push_decimal};

verus! {

/// Milliwatts as whole watts, rounded to the nearest, a half upwards.
pub open spec fn round_watts(mw: nat) -> nat {
    (mw + 500) / 1000
}

/// Bytes as hundredths of a GiB, rounded to the nearest, a half upwards.
pub open spec fn gib_hundredths(bytes: nat) -> nat {
    (bytes * 100 + 0x2000_0000) / 0x4000_0000
}

/// A count of hundredths as a numeral with two decimal places.
pub open spec fn fixed2(hundredths: nat) -> Seq<char> {
    decimal(hundredths / 100).push('.').push(digit_char(((hundredths / 10) % 10) as int)).push(
        digit_char((hundredths % 10) as int),
    )
}

/// A count of tenths as a numeral with one decimal place.
pub open spec fn fixed1(tenths: nat) -> Seq<char> {
    decimal(tenths / 10).push('.').push(digit_char((tenths % 10) as int))
}

/// A version number that counts thousandths (12020 for 12.02) as a numeral
/// with one decimal place, rounded to the nearest tenth, a half away from
/// zero.
pub open spec fn version_text(v: int) -> Seq<char> {
    if v < 0 {
        seq!['-'] + fixed1(((-v + 50) / 100) as nat)
    } else {
        fixed1(((v + 50) / 100) as nat)
    }
}

/// The sum of the readings.
pub open spec fn sum(s: Seq<u32>) -> nat
    decreases s.len(),
{
    if s.len() == 0 {
        0
    } else {
        sum(s.drop_last()) + s.last() as nat
    }
}

/// The arithmetic mean of the readings, rounded to the nearest whole
/// number, a half upwards. Of no readings there is no mean.
pub open spec fn mean(s: Seq<u32>) -> Option<nat> {
    if s.len() == 0 {
        None
    } else {
        Some((2 * sum(s) + s.len()) / (2 * s.len()))
    }
}

/// No sum is larger than as many times the largest reading.
pub proof fn lemma_sum_bound(s: Seq<u32>)
    ensures
        sum(s) <= s.len() * 0xffff_ffff,
    decreases s.len(),
{
    if s.len() > 0 {
        lemma_sum_bound(s.drop_last());
        assert(sum(s.drop_last()) + s.last() <= (s.len() - 1) * 0xffff_ffff + 0xffff_ffff);
        assert((s.len() - 1) * 0xffff_ffff + 0xffff_ffff == s.len() * 0xffff_ffff)
            by (nonlinear_arith);
    }
}

/// Milliwatts as whole watts.
pub fn watts(mw: u32) -> (w: u32)
    ensures
        w == round_watts(mw as nat),
{
    ((mw as u64 + 500) / 1000) as u32
}

/// Bytes as hundredths of a GiB.
pub fn hundredths_of_gib(bytes: u64) -> (h: u64)
    ensures
        h == gib_hundredths(bytes as nat),
{
    let scaled: u128 = bytes as u128 * 100 + 0x2000_0000;
    (scaled / 0x4000_0000) as u64
}

/// The numeral of `hundredths` with two decimal places.
pub fn fixed2_string(hundredths: u64) -> (out: String)
    ensures
        out@ == fixed2(hundredths as nat),
{
    let mut out = decimal_string(hundredths / 100);
    push_char(&mut out, '.');
    push_char(&mut out, digit((hundredths / 10) % 10));
    push_char(&mut out, digit(hundredths % 10));
    out
}

/// The numeral of a version number that counts thousandths.
pub fn version_string(v: i32) -> (out: String)
    ensures
        out@ == version_text(v as int),
{
    let mut out = String::new();
    let wide: i64 = v as i64;
    let magnitude: u64 = if wide < 0 {
        push_char(&mut out, '-');
        (-wide) as u64
    } else {
        wide as u64
    };
    let tenths: u64 = (magnitude + 50) / 100;
    push_decimal(&mut out, tenths / 10);
    push_char(&mut out, '.');
    push_char(&mut out, digit(tenths % 10));
    assert(out@ =~= version_text(v as int));
    out
}

/// The mean of the readings, rounded to the nearest whole number, a half
/// upwards; `None` of no readings.
pub fn mean_of(readings: &Vec<u32>) -> (m: Option<u32>)
    ensures
        match m {
            Some(v) => mean(readings@) == Some(v as nat),
            None => mean(readings@).is_none(),
        },
{
    let n = readings.len();
    if n == 0 {
        return None;
    }
    let mut total: u128 = 0;
    let mut i: usize = 0;
    while i < n
        invariant
            i <= n == readings@.len(),
            total == sum(readings@.take(i as int)),
        decreases n - i,
    {
        proof {
            lemma_sum_bound(readings@.take(i as int));
            assert(readings@.take(i + 1).drop_last() =~= readings@.take(i as int));
            assert(i * 0xffff_ffff <= 0xffff_ffff_ffff_ffff * 0xffff_ffff) by (nonlinear_arith)
                requires
                    i <= 0xffff_ffff_ffff_ffff,
            ;
        }
        total = total + readings[i] as u128;
        i += 1;
    }
    proof {
        assert(readings@.take(n as int) =~= readings@);
        lemma_sum_bound(readings@);
        assert(n * 0xffff_ffff <= 0xffff_ffff_ffff_ffff * 0xffff_ffff) by (nonlinear_arith)
            requires
                n <= 0xffff_ffff_ffff_ffff,
        ;
        assert((2 * total + n) / (2 * n) <= 0xffff_ffff) by (nonlinear_arith)
            requires
                total <= n * 0xffff_ffff,
                n > 0,
        ;
    }
    let count: u128 = n as u128;
    Some(((2 * total + count) / (2 * count)) as u32)
}

} // verus!
