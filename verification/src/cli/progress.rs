//! Numbers and sizes as they are shown to a reader.

use crate::text::{decimal, decimal_string, digit_char};
use vstd::prelude::*;
use vstd::string::*;

verus! {

/// The three digits of a number below a thousand, with leading zeros.
pub open spec fn three_digits(n: nat) -> Seq<char> {
    seq![digit_char(n / 100), digit_char((n / 10) % 10), digit_char(n % 10)]
}

/// The decimal numeral of `n` with a comma before every group of three
/// digits, counted from the right.
pub open spec fn grouped(n: nat) -> Seq<char>
    decreases n,
{
    if n < 1000 {
        decimal(n)
    } else {
        grouped(n / 1000) + ","@ + three_digits(n % 1000)
    }
}

fn digit_text(d: u64) -> (s: String)
    requires
        d < 10,
    ensures
        s@ == seq![digit_char(d as nat)],
{
    let s = decimal_string(d as u128);
    proof {
        reveal_with_fuel(decimal, 1);
    }
    s
}

fn grouped_u128(n: u128) -> (text: String)
    ensures
        text@ == grouped(n as nat),
    decreases n,
{
    if n < 1000 {
        decimal_string(n)
    } else {
        let mut text = grouped_u128(n / 1000);
        let rest = (n % 1000) as u64;
        text.append(",");
        text.append(digit_text(rest / 100).as_str());
        text.append(digit_text((rest / 10) % 10).as_str());
        text.append(digit_text(rest % 10).as_str());
        proof {
            assert(text@ =~= grouped((n / 1000) as nat) + ","@ + three_digits((n % 1000) as nat));
        }
        text
    }
}

/// `num` in decimal, with commas between groups of three digits.
pub fn format_number(num: usize) -> (text: String)
    ensures
        text@ == grouped(num as nat),
{
    grouped_u128(num as u128)
}

/// Two to the power of `exponent`.
pub open spec fn pow2(exponent: nat) -> nat
    decreases exponent,
{
    if exponent == 0 {
        1
    } else {
        2 * pow2((exponent - 1) as nat)
    }
}

/// `numerator / denominator` rounded to the nearest whole number, and to
/// the even one of the two where it lies halfway between them.
pub open spec fn rounded_quotient(numerator: nat, denominator: nat) -> nat {
    let quotient = numerator / denominator;
    let rest = numerator % denominator;
    if 2 * rest > denominator || (2 * rest == denominator && quotient % 2 == 1) {
        quotient + 1
    } else {
        quotient
    }
}

/// A byte count as a machine number with fifty-three significant bits holds
/// it: a count below two to the fifty-third is held as it is, a larger one
/// is rounded to the nearest count that fits, and to the even one of the
/// two where it lies halfway between them.
pub open spec fn held(bytes: u64) -> nat {
    if bytes < 0x20_0000_0000_0000 {
        bytes as nat
    } else if bytes < 0x40_0000_0000_0000 {
        rounded_quotient(bytes as nat, 2) * 2
    } else if bytes < 0x80_0000_0000_0000 {
        rounded_quotient(bytes as nat, 4) * 4
    } else if bytes < 0x100_0000_0000_0000 {
        rounded_quotient(bytes as nat, 8) * 8
    } else if bytes < 0x200_0000_0000_0000 {
        rounded_quotient(bytes as nat, 16) * 16
    } else if bytes < 0x400_0000_0000_0000 {
        rounded_quotient(bytes as nat, 32) * 32
    } else if bytes < 0x800_0000_0000_0000 {
        rounded_quotient(bytes as nat, 64) * 64
    } else if bytes < 0x1000_0000_0000_0000 {
        rounded_quotient(bytes as nat, 128) * 128
    } else if bytes < 0x2000_0000_0000_0000 {
        rounded_quotient(bytes as nat, 256) * 256
    } else if bytes < 0x4000_0000_0000_0000 {
        rounded_quotient(bytes as nat, 512) * 512
    } else if bytes < 0x8000_0000_0000_0000 {
        rounded_quotient(bytes as nat, 1024) * 1024
    } else {
        rounded_quotient(bytes as nat, 2048) * 2048
    }
}

/// The names of the units of size, from bytes up.
pub open spec fn unit_name(index: nat) -> Seq<char> {
    if index == 0 {
        "B"@
    } else if index == 1 {
        "KiB"@
    } else if index == 2 {
        "MiB"@
    } else if index == 3 {
        "GiB"@
    } else {
        "TiB"@
    }
}

/// How many bytes make one of the unit `index`.
pub open spec fn unit_size(index: nat) -> nat {
    if index == 0 {
        1
    } else if index == 1 {
        0x400
    } else if index == 2 {
        0x10_0000
    } else if index == 3 {
        0x4000_0000
    } else {
        0x100_0000_0000
    }
}

/// The unit in which a size is shown: the largest, up to the unit `largest`,
/// of which the size holds one or more.
pub open spec fn unit_for(size: nat, largest: nat) -> nat
    decreases largest,
{
    if largest > 0 && size >= unit_size(largest) {
        largest
    } else if largest > 0 {
        unit_for(size, (largest - 1) as nat)
    } else {
        0
    }
}

/// A size as it is shown, in units up to the unit `largest`: a size below a
/// kibibyte as a whole number of bytes; a larger one in the unit that suits
/// it, rounded to one decimal place.
pub open spec fn shown_size(bytes: u64, largest: nat) -> Seq<char> {
    let unit = unit_for(held(bytes), largest);
    let tenths = rounded_quotient(held(bytes) * 10, unit_size(unit));
    if unit == 0 {
        decimal(bytes as nat) + " B"@
    } else {
        decimal(tenths / 10) + "."@ + seq![digit_char(tenths % 10)] + " "@ + unit_name(unit)
    }
}

fn rounded_division(numerator: u128, denominator: u128) -> (rounded: u128)
    requires
        denominator > 0,
        denominator <= 0x100_0000_0000,
        numerator <= 0xffff_ffff_ffff_ffff_ffff,
    ensures
        rounded == rounded_quotient(numerator as nat, denominator as nat),
{
    let quotient = numerator / denominator;
    let rest = numerator % denominator;
    if 2 * rest > denominator || (2 * rest == denominator && quotient % 2 == 1) {
        quotient + 1
    } else {
        quotient
    }
}

fn held_bytes(bytes: u64) -> (size: u128)
    ensures
        size == held(bytes),
        size <= 0x1_0000_0000_0000_0000,
{
    let b = bytes as u128;
    if bytes < 0x20_0000_0000_0000 {
        b
    } else if bytes < 0x40_0000_0000_0000 {
        rounded_division(b, 2) * 2
    } else if bytes < 0x80_0000_0000_0000 {
        rounded_division(b, 4) * 4
    } else if bytes < 0x100_0000_0000_0000 {
        rounded_division(b, 8) * 8
    } else if bytes < 0x200_0000_0000_0000 {
        rounded_division(b, 16) * 16
    } else if bytes < 0x400_0000_0000_0000 {
        rounded_division(b, 32) * 32
    } else if bytes < 0x800_0000_0000_0000 {
        rounded_division(b, 64) * 64
    } else if bytes < 0x1000_0000_0000_0000 {
        rounded_division(b, 128) * 128
    } else if bytes < 0x2000_0000_0000_0000 {
        rounded_division(b, 256) * 256
    } else if bytes < 0x4000_0000_0000_0000 {
        rounded_division(b, 512) * 512
    } else if bytes < 0x8000_0000_0000_0000 {
        rounded_division(b, 1024) * 1024
    } else {
        rounded_division(b, 2048) * 2048
    }
}

/// A size as it is shown, in units up to the unit `largest`. There are
/// four units above the byte: a larger number stands for the fourth.
pub fn show_size(bytes: u64, largest: u8) -> (text: String)
    ensures
        text@ == shown_size(
            bytes,
            if largest <= 4 {
                largest as nat
            } else {
                4
            },
        ),
{
    let size = held_bytes(bytes);
    let top: u8 = if largest <= 4 {
        largest
    } else {
        4
    };
    let mut unit: u8 = top;
    while unit > 0 && size < unit_bytes(unit)
        invariant
            unit <= top <= 4,
            unit_for(size as nat, top as nat) == unit_for(size as nat, unit as nat),
        decreases unit,
    {
        unit -= 1;
    }
    if unit == 0 {
        let mut text = decimal_string(bytes as u128);
        text.append(" B");
        return text;
    }
    let tenths = rounded_division(size * 10, unit_bytes(unit));
    let mut text = decimal_string(tenths / 10);
    text.append(".");
    text.append(digit_text((tenths % 10) as u64).as_str());
    text.append(" ");
    text.append(unit_label(unit));
    text
}

fn unit_bytes(unit: u8) -> (size: u128)
    ensures
        size == unit_size(unit as nat),
        0 < size <= 0x100_0000_0000,
{
    if unit == 0 {
        1
    } else if unit == 1 {
        0x400
    } else if unit == 2 {
        0x10_0000
    } else if unit == 3 {
        0x4000_0000
    } else {
        0x100_0000_0000
    }
}

fn unit_label(unit: u8) -> (label: &'static str)
    ensures
        label@ == unit_name(unit as nat),
{
    if unit == 0 {
        "B"
    } else if unit == 1 {
        "KiB"
    } else if unit == 2 {
        "MiB"
    } else if unit == 3 {
        "GiB"
    } else {
        "TiB"
    }
}

/// A size as it is shown, in units up to the tebibyte.
pub fn format_bytes(bytes: u64) -> (text: String)
    ensures
        text@ == shown_size(bytes, 4),
{
    show_size(bytes, 4)
}

} // verus!
