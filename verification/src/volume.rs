use crate::decimal::{
    decimal, digit_char, digit_text, lemma_pow10_monotonic, lemma_pow10_positive, pow10,
    push_decimal,
};
use vstd::prelude::*;
use vstd::string::StringExecFns;

verus! {

/// A volume as an exact decimal fraction: `mantissa / 10^scale`. One is
/// full volume.
#[derive(Clone, Copy, Debug, PartialEq, Eq, Structural)]
pub struct Volume {
    pub mantissa: u64,
    pub scale: u32,
}

impl Volume {
    /// The volume is at most one.
    pub open spec fn in_unit_range(self) -> bool {
        self.mantissa <= pow10(self.scale as nat)
    }
}

/// The last `width` decimal digits of `x`, with leading zeros where `x` has
/// fewer.
pub open spec fn padded(x: nat, width: nat) -> Seq<char>
    decreases width,
{
    if width == 0 {
        Seq::empty()
    } else {
        padded(x / 10, (width - 1) as nat).push(digit_char(x % 10))
    }
}

/// How a volume is written: its whole part, and for a positive scale a
/// decimal point and exactly `scale` digits after it.
pub open spec fn volume_text(volume: Volume) -> Seq<char> {
    let unit = pow10(volume.scale as nat);
    if volume.scale == 0 {
        decimal(volume.mantissa as nat)
    } else {
        decimal(volume.mantissa as nat / unit) + seq!['.'] + padded(
            volume.mantissa as nat % unit,
            volume.scale as nat,
        )
    }
}

proof fn lemma_pow10_of_20()
    ensures
        pow10(20) == 100_000_000_000_000_000_000,
        pow10(20) > u64::MAX,
{
    reveal_with_fuel(pow10, 21);
}

proof fn lemma_padded_leading_zero(x: nat, width: nat)
    requires
        width >= 1,
        x < pow10((width - 1) as nat),
    ensures
        padded(x, width) == seq!['0'] + padded(x, (width - 1) as nat),
    decreases width,
{
    if width == 1 {
        assert(padded(x, 1) =~= seq!['0'] + padded(x, 0)) by {
            reveal_with_fuel(padded, 2);
        }
    } else {
        lemma_padded_leading_zero(x / 10, (width - 1) as nat);
        assert(padded(x, width) =~= seq!['0'] + padded(x, (width - 1) as nat));
    }
}

/// Ten to the power of `n`, if it fits.
fn power_of_ten(n: u32) -> (power: Option<u64>)
    ensures
        match power {
            Some(p) => p == pow10(n as nat),
            None => pow10(n as nat) > u64::MAX,
        },
{
    let mut power: u64 = 1;
    let mut i: u32 = 0;
    while i < n
        invariant
            i <= n,
            power == pow10(i as nat),
        decreases n - i,
    {
        match power.checked_mul(10) {
            Some(p) => {
                power = p;
            },
            None => {
                proof {
                    lemma_pow10_monotonic((i + 1) as nat, n as nat);
                }
                return None;
            },
        }
        i = i + 1;
    }
    Some(power)
}

fn push_padded_short(line: &mut String, x: u64, width: u32)
    ensures
        final(line)@ == old(line)@ + padded(x as nat, width as nat),
    decreases width,
{
    if width > 0 {
        push_padded_short(line, x / 10, width - 1);
        line.append(digit_text((x % 10) as u32));
        assert(line@ =~= old(line)@ + padded(x as nat, width as nat));
    } else {
        assert(line@ =~= old(line)@ + padded(x as nat, width as nat));
    }
}

fn push_padded(line: &mut String, x: u64, width: u32)
    ensures
        final(line)@ == old(line)@ + padded(x as nat, width as nat),
{
    let mut left: u32 = width;
    assert(line@ + padded(x as nat, left as nat) =~= old(line)@ + padded(x as nat, width as nat));
    while left > 20
        invariant
            left <= width,
            line@ + padded(x as nat, left as nat) == old(line)@ + padded(x as nat, width as nat),
        decreases left,
    {
        proof {
            reveal_strlit("0");
            lemma_pow10_of_20();
            lemma_pow10_monotonic(20, (left - 1) as nat);
            lemma_padded_leading_zero(x as nat, left as nat);
        }
        let ghost before = line@;
        line.append("0");
        left = left - 1;
        assert(line@ + padded(x as nat, left as nat) =~= before + (seq!['0'] + padded(
            x as nat,
            left as nat,
        )));
    }
    push_padded_short(line, x, left);
}

impl Volume {
    /// Whether the volume is at most one, the loudest that may be asked for.
    pub fn is_in_unit_range(&self) -> (yes: bool)
        ensures
            yes == self.in_unit_range(),
    {
        match power_of_ten(self.scale) {
            Some(unit) => self.mantissa <= unit,
            None => true,
        }
    }

    /// Writes the volume as a decimal number, the form in which the control
    /// utility takes it.
    pub fn to_text(&self) -> (text: String)
        ensures
            text@ == volume_text(*self),
    {
        let mut text: String = String::new();
        if self.scale == 0 {
            push_decimal(&mut text, self.mantissa);
            assert(text@ =~= volume_text(*self));
            return text;
        }
        let (whole, fraction): (u64, u64) = match power_of_ten(self.scale) {
            Some(unit) => {
                proof {
                    lemma_pow10_positive(self.scale as nat);
                }
                (self.mantissa / unit, self.mantissa % unit)
            },
            None => {
                proof {
                    let unit = pow10(self.scale as nat);
                    let m = self.mantissa as nat;
                    assert(m / unit == 0 && m % unit == m) by (nonlinear_arith)
                        requires
                            m < unit,
                    ;
                }
                (0, self.mantissa)
            },
        };
        push_decimal(&mut text, whole);
        proof {
            reveal_strlit(".");
        }
        text.append(".");
        push_padded(&mut text, fraction, self.scale);
        assert(text@ =~= volume_text(*self));
        text
    }
}

} // verus!
