//! Sizes in words: bytes below a kibibyte, else kibibytes, mebibytes or
//! gibibytes with two decimal places.
//!
//! The figures are those of binary floating point with 53 significant
//! bits, computed here in whole numbers: a size is first rounded to the
//! nearest such number, then divided, then rounded to hundredths, each
//! time with a tie going to the even neighbour.

use vstd::prelude::*;
use crate::text::{decimal, decimal_text, digit_char, digit_of, push_char};
use crate::planner::PlanStats;

verus! {

/// The number of bytes in a kibibyte.
pub const KIB: u64 = 1024;

/// The number of bytes in a mebibyte.
pub const MIB: u64 = 1_048_576;

/// The number of bytes in a gibibyte.
pub const GIB: u64 = 1_073_741_824;

/// The quotient of `num` by `den`, rounded to the nearest whole number, a
/// tie going to the even one.
pub open spec fn round_half_even(num: nat, den: nat) -> nat {
    let q = num / den;
    let r = num % den;
    if 2 * r > den || (2 * r == den && q % 2 == 1) {
        q + 1
    } else {
        q
    }
}

/// The distance between neighbouring numbers of 53 significant bits at the
/// height of `size`.
pub open spec fn spacing(size: nat) -> nat {
    if size < 9_007_199_254_740_992 {
        1
    } else if size < 18_014_398_509_481_984 {
        2
    } else if size < 36_028_797_018_963_968 {
        4
    } else if size < 72_057_594_037_927_936 {
        8
    } else if size < 144_115_188_075_855_872 {
        16
    } else if size < 288_230_376_151_711_744 {
        32
    } else if size < 576_460_752_303_423_488 {
        64
    } else if size < 1_152_921_504_606_846_976 {
        128
    } else if size < 2_305_843_009_213_693_952 {
        256
    } else if size < 4_611_686_018_427_387_904 {
        512
    } else if size < 9_223_372_036_854_775_808 {
        1024
    } else {
        2048
    }
}

/// `size` rounded to the nearest number of 53 significant bits.
pub open spec fn rounded_size(size: nat) -> nat {
    round_half_even(size, spacing(size)) * spacing(size)
}

/// A number of hundredths written with two decimal places.
pub open spec fn two_places(hundredths: nat) -> Seq<char> {
    decimal(hundredths / 100).push('.').push(digit_char(hundredths / 10 % 10)).push(
        digit_char(hundredths % 10),
    )
}

/// A size in words.
pub open spec fn size_text(size: nat) -> Seq<char> {
    if size < KIB {
        decimal(size) + " B"@
    } else if size < MIB {
        two_places(round_half_even(size * 100, KIB as nat)) + " KB"@
    } else if size < GIB {
        two_places(round_half_even(size * 100, MIB as nat)) + " MB"@
    } else {
        two_places(round_half_even(rounded_size(size) * 100, GIB as nat)) + " GB"@
    }
}

fn round_half_even_of(num: u128, den: u128) -> (r: u128)
    requires
        den > 0,
        num < 0x1_0000_0000_0000_0000_0000_0000_0,
        den < 0x1_0000_0000_0000_0000_0000_0000_0,
    ensures
        r == round_half_even(num as nat, den as nat),
{
    let q = num / den;
    let rest = num % den;
    if 2 * rest > den || (2 * rest == den && q % 2 == 1) {
        q + 1
    } else {
        q
    }
}

fn spacing_of(size: u64) -> (r: u64)
    ensures
        r == spacing(size as nat),
        1 <= r <= 2048,
{
    if size < 9_007_199_254_740_992 {
        1
    } else if size < 18_014_398_509_481_984 {
        2
    } else if size < 36_028_797_018_963_968 {
        4
    } else if size < 72_057_594_037_927_936 {
        8
    } else if size < 144_115_188_075_855_872 {
        16
    } else if size < 288_230_376_151_711_744 {
        32
    } else if size < 576_460_752_303_423_488 {
        64
    } else if size < 1_152_921_504_606_846_976 {
        128
    } else if size < 2_305_843_009_213_693_952 {
        256
    } else if size < 4_611_686_018_427_387_904 {
        512
    } else if size < 9_223_372_036_854_775_808 {
        1024
    } else {
        2048
    }
}

fn two_places_text(hundredths: u128) -> (r: String)
    requires
        hundredths < 0x1_0000_0000_0000_0000,
    ensures
        r@ == two_places(hundredths as nat),
{
    let mut out = decimal_text((hundredths / 100) as u64);
    push_char(&mut out, '.');
    push_char(&mut out, digit_of((hundredths / 10 % 10) as u8));
    push_char(&mut out, digit_of((hundredths % 10) as u8));
    out
}

impl PlanStats {
    /// The total size in words.
    pub fn format_size(&self) -> (r: String)
        ensures
            r@ == size_text(self.total_size as nat),
    {
        let size = self.total_size;
        if size < KIB {
            let mut out = decimal_text(size);
            out.append(" B");
            out
        } else if size < MIB {
            let h = round_half_even_of((size as u128) * 100, KIB as u128);
            assert(h <= (size as u128) * 100 / 1024 + 1);
            let mut out = two_places_text(h);
            out.append(" KB");
            out
        } else if size < GIB {
            let h = round_half_even_of((size as u128) * 100, MIB as u128);
            assert(h <= (size as u128) * 100 / 1_048_576 + 1);
            let mut out = two_places_text(h);
            out.append(" MB");
            out
        } else {
            let unit = spacing_of(size);
            let steps = round_half_even_of(size as u128, unit as u128);
            assert(steps <= (size as u128) / (unit as u128) + 1);
            assert(steps <= (size as u128) + 1);
            assert(steps * (unit as u128) <= 0x1_0000_0000_0000_0001 * 2048) by (nonlinear_arith)
                requires
                    steps <= 0x1_0000_0000_0000_0001,
                    unit <= 2048,
            ;
            let rounded: u128 = steps * (unit as u128);
            let h = round_half_even_of(rounded * 100, GIB as u128);
            assert(h <= rounded * 100 / 1_073_741_824 + 1);
            let mut out = two_places_text(h);
            out.append(" GB");
            out
        }
    }
}

} // verus!
