//! Rendering of numbers for the console report: plain decimals, zero-padded
//! fields, and byte sizes in fixed binary units with two decimal places.

use vstd::prelude::*;

verus! {

pub const KIB: u64 = 1024;

pub const MIB: u64 = 1048576;

pub const GIB: u64 = 1073741824;

pub const TIB: u64 = 1099511627776;

pub const PIB: u64 = 1125899906842624;

pub const EIB: u64 = 1152921504606846976;

pub open spec fn spec_digit(d: nat) -> char {
    if d == 0 {
        '0'
    } else if d == 1 {
        '1'
    } else if d == 2 {
        '2'
    } else if d == 3 {
        '3'
    } else if d == 4 {
        '4'
    } else if d == 5 {
        '5'
    } else if d == 6 {
        '6'
    } else if d == 7 {
        '7'
    } else if d == 8 {
        '8'
    } else {
        '9'
    }
}

/// The decimal rendering of a number, most significant digit first.
pub open spec fn dec_str(n: nat) -> Seq<char>
    decreases n,
{
    if n < 10 {
        seq![spec_digit(n)]
    } else {
        dec_str(n / 10) + seq![spec_digit(n % 10)]
    }
}

/// The decimal rendering zero-padded to at least two digits.
pub open spec fn pad2_str(n: nat) -> Seq<char> {
    if n < 10 {
        seq!['0'] + dec_str(n)
    } else {
        dec_str(n)
    }
}

/// The decimal rendering zero-padded to at least four digits.
pub open spec fn pad4_str(n: nat) -> Seq<char> {
    if n < 10 {
        seq!['0', '0', '0'] + dec_str(n)
    } else if n < 100 {
        seq!['0', '0'] + dec_str(n)
    } else if n < 1000 {
        seq!['0'] + dec_str(n)
    } else {
        dec_str(n)
    }
}

/// A byte count scaled to the unit `u`, with two decimal places and the
/// unit's suffix: whole part, point, truncated hundredths.
pub open spec fn scaled_str(b: u64, u: u64, suffix: Seq<char>) -> Seq<char>
    recommends
        u > 0,
{
    dec_str((b as nat) / (u as nat)) + seq!['.'] + pad2_str(
        ((b as nat) % (u as nat)) * 100 / (u as nat),
    ) + suffix
}

/// A byte count in the fixed binary-unit format of the console report:
/// a plain count below one KiB, otherwise the largest fitting unit with two
/// decimal places.
pub open spec fn size_str(b: u64) -> Seq<char> {
    if b < KIB {
        dec_str(b as nat) + " B"@
    } else if b < MIB {
        scaled_str(b, KIB, " KiB"@)
    } else if b < GIB {
        scaled_str(b, MIB, " MiB"@)
    } else if b < TIB {
        scaled_str(b, GIB, " GiB"@)
    } else if b < PIB {
        scaled_str(b, TIB, " TiB"@)
    } else if b < EIB {
        scaled_str(b, PIB, " PiB"@)
    } else {
        scaled_str(b, EIB, " EiB"@)
    }
}

/// Relies on String::push: appends exactly one character to the string.
#[verifier::external_body]
pub(crate) fn push_char(out: &mut String, c: char)
    ensures
        final(out)@ == old(out)@ + seq![c],
{
    out.push(c);
}

fn digit_char(d: u64) -> (c: char)
    requires
        d < 10,
    ensures
        c == spec_digit(d as nat),
{
    if d == 0 {
        '0'
    } else if d == 1 {
        '1'
    } else if d == 2 {
        '2'
    } else if d == 3 {
        '3'
    } else if d == 4 {
        '4'
    } else if d == 5 {
        '5'
    } else if d == 6 {
        '6'
    } else if d == 7 {
        '7'
    } else if d == 8 {
        '8'
    } else {
        '9'
    }
}

/// Appends the decimal rendering of `n`.
pub fn push_u64(out: &mut String, n: u64)
    ensures
        final(out)@ == old(out)@ + dec_str(n as nat),
    decreases n,
{
    if n >= 10 {
        push_u64(out, n / 10);
        push_char(out, digit_char(n % 10));
        proof {
            assert(out@ =~= old(out)@ + dec_str(n as nat));
        }
    } else {
        push_char(out, digit_char(n));
    }
}

/// Appends the decimal rendering of `n`, zero-padded to two digits.
pub fn push_pad2(out: &mut String, n: u64)
    ensures
        final(out)@ == old(out)@ + pad2_str(n as nat),
{
    if n < 10 {
        push_char(out, '0');
        push_u64(out, n);
        proof {
            assert(out@ =~= old(out)@ + pad2_str(n as nat));
        }
    } else {
        push_u64(out, n);
    }
}

/// Appends the decimal rendering of `n`, zero-padded to four digits.
pub fn push_pad4(out: &mut String, n: u64)
    ensures
        final(out)@ == old(out)@ + pad4_str(n as nat),
{
    if n < 10 {
        push_char(out, '0');
        push_char(out, '0');
        push_char(out, '0');
    } else if n < 100 {
        push_char(out, '0');
        push_char(out, '0');
    } else if n < 1000 {
        push_char(out, '0');
    }
    push_u64(out, n);
    proof {
        assert(out@ =~= old(out)@ + pad4_str(n as nat));
    }
}

fn push_scaled(out: &mut String, b: u64, u: u64, suffix: &str)
    requires
        u > 0,
    ensures
        final(out)@ == old(out)@ + scaled_str(b, u, suffix@),
{
    push_u64(out, b / u);
    push_char(out, '.');
    let rem = b % u;
    let frac128: u128 = (rem as u128) * 100 / (u as u128);
    proof {
        assert((rem as int) * 100 / (u as int) < 100) by (nonlinear_arith)
            requires
                0 < u,
                0 <= rem < u,
        ;
        assert(frac128 == (rem as int) * 100 / (u as int));
    }
    let frac: u64 = frac128 as u64;
    push_pad2(out, frac);
    out.append(suffix);
    proof {
        assert(out@ =~= old(out)@ + scaled_str(b, u, suffix@));
    }
}

/// Appends the byte count `b` in the report's binary-unit format.
pub fn push_size(out: &mut String, b: u64)
    ensures
        final(out)@ == old(out)@ + size_str(b),
{
    if b < KIB {
        push_u64(out, b);
        out.append(" B");
        proof {
            assert(out@ =~= old(out)@ + size_str(b));
        }
    } else if b < MIB {
        push_scaled(out, b, KIB, " KiB");
    } else if b < GIB {
        push_scaled(out, b, MIB, " MiB");
    } else if b < TIB {
        push_scaled(out, b, GIB, " GiB");
    } else if b < PIB {
        push_scaled(out, b, TIB, " TiB");
    } else if b < EIB {
        push_scaled(out, b, PIB, " PiB");
    } else {
        push_scaled(out, b, EIB, " EiB");
    }
}

} // verus!
