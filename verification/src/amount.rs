//! Token amounts in yoctoNEAR, the smallest unit of the native token.
//!
//! Arithmetic on amounts saturates: a sum that would pass the largest
//! representable amount stays at it, and a difference that would fall below
//! zero stays at zero.

use near_sdk::NearToken;
use vstd::prelude::*;
use vstd::string::*;

verus! {

/// The reservation withheld from a donor's first donation: one thousandth of
/// a whole token, in yoctoNEAR.
pub const STORAGE_COST: u128 = 1_000_000_000_000_000_000_000;

/// The largest representable amount, in yoctoNEAR. Sums saturate here.
pub const MAX_AMOUNT: u128 = 0xffff_ffff_ffff_ffff_ffff_ffff_ffff_ffff;

/// The sum of two amounts, held at `MAX_AMOUNT` where it would pass it.
pub open spec fn saturating_sum(a: nat, b: nat) -> nat {
    if a + b > MAX_AMOUNT {
        MAX_AMOUNT as nat
    } else {
        a + b
    }
}

/// The difference of two amounts, held at zero where it would fall below it.
pub open spec fn saturating_difference(a: nat, b: nat) -> nat {
    if a >= b {
        (a - b) as nat
    } else {
        0
    }
}

/// Calls `near_sdk::NearToken::saturating_add` on two amounts given in
/// yoctoNEAR. The token type adds the two `u128` values with saturation, so
/// the result is taken to be their sum held at `u128::MAX`.
#[verifier::external_body]
fn token_saturating_add(a: u128, b: u128) -> (r: u128)
    ensures
        r == saturating_sum(a as nat, b as nat),
{
    NearToken::from_yoctonear(a).saturating_add(NearToken::from_yoctonear(b)).as_yoctonear()
}

/// Calls `near_sdk::NearToken::saturating_sub` on two amounts given in
/// yoctoNEAR. The token type subtracts the two `u128` values with saturation,
/// so the result is taken to be their difference held at zero.
#[verifier::external_body]
fn token_saturating_sub(a: u128, b: u128) -> (r: u128)
    ensures
        r == saturating_difference(a as nat, b as nat),
{
    NearToken::from_yoctonear(a).saturating_sub(NearToken::from_yoctonear(b)).as_yoctonear()
}

/// The character that writes the digit `d`, for `d` below ten.
pub open spec fn digit_char(d: nat) -> char {
    if d == 0 {
        '0'
    } else if d == 1 {
        '1'
    } else if d == 2 {
        '2'
    } else if d == 3 {
        '3'
    } else if d == 4 {
        '4'
    } else if d == 5 {
        '5'
    } else if d == 6 {
        '6'
    } else if d == 7 {
        '7'
    } else if d == 8 {
        '8'
    } else {
        '9'
    }
}

/// The number `n` written in base ten: plain digits, most significant first,
/// with no sign, separator or leading zero (zero itself is the single digit
/// `0`).
pub open spec fn decimal(n: nat) -> Seq<char>
    decreases n,
{
    if n < 10 {
        seq![digit_char(n)]
    } else {
        decimal(n / 10).push(digit_char(n % 10))
    }
}

/// The one-character text of the digit `d`.
fn digit_text(d: u128) -> (r: &'static str)
    requires
        d < 10,
    ensures
        r@ == seq![digit_char(d as nat)],
{
    proof {
        reveal_strlit("0");
        reveal_strlit("1");
        reveal_strlit("2");
        reveal_strlit("3");
        reveal_strlit("4");
        reveal_strlit("5");
        reveal_strlit("6");
        reveal_strlit("7");
        reveal_strlit("8");
        reveal_strlit("9");
    }
    let r = if d == 0 {
        "0"
    } else if d == 1 {
        "1"
    } else if d == 2 {
        "2"
    } else if d == 3 {
        "3"
    } else if d == 4 {
        "4"
    } else if d == 5 {
        "5"
    } else if d == 6 {
        "6"
    } else if d == 7 {
        "7"
    } else if d == 8 {
        "8"
    } else {
        "9"
    };
    assert(r@ =~= seq![digit_char(d as nat)]);
    r
}

/// Appends `n`, written in base ten, to `out`.
pub fn append_decimal(out: &mut String, n: u128)
    ensures
        final(out)@ == old(out)@ + decimal(n as nat),
    decreases n,
{
    if n >= 10 {
        append_decimal(out, n / 10);
    }
    out.append(digit_text(n % 10));
    assert(out@ =~= old(out)@ + decimal(n as nat));
}

/// A non-negative quantity of the native token, counted in yoctoNEAR.
#[derive(Clone, Copy, Debug, PartialEq, Eq, Structural)]
pub struct Amount {
    pub yocto: u128,
}

impl View for Amount {
    type V = nat;

    open spec fn view(&self) -> nat {
        self.yocto as nat
    }
}

impl Amount {
    /// The amount of no tokens at all.
    pub fn zero() -> (r: Amount)
        ensures
            r@ == 0,
    {
        Amount { yocto: 0 }
    }

    /// The amount of `yocto` yoctoNEAR.
    pub fn from_yoctonear(yocto: u128) -> (r: Amount)
        ensures
            r@ == yocto,
    {
        Amount { yocto }
    }

    /// This amount as a count of yoctoNEAR.
    pub fn as_yoctonear(&self) -> (r: u128)
        ensures
            r == self@,
    {
        self.yocto
    }

    /// Whether this is the amount of no tokens.
    pub fn is_zero(&self) -> (r: bool)
        ensures
            r == (self@ == 0),
    {
        self.yocto == 0
    }

    /// Whether this amount is strictly larger than `other`.
    pub fn exceeds(&self, other: Amount) -> (r: bool)
        ensures
            r == (self@ > other@),
    {
        self.yocto > other.yocto
    }

    /// This amount as text: its count of yoctoNEAR in plain base-ten digits,
    /// without separators or a unit.
    pub fn to_decimal_string(&self) -> (r: String)
        ensures
            r@ == decimal(self@),
    {
        let mut out = String::new();
        append_decimal(&mut out, self.yocto);
        out
    }

    /// The sum of this amount and `rhs`, saturating at `MAX_AMOUNT`.
    pub fn saturating_add(self, rhs: Amount) -> (r: Amount)
        ensures
            r@ == saturating_sum(self@, rhs@),
    {
        Amount { yocto: token_saturating_add(self.yocto, rhs.yocto) }
    }

    /// This amount less `rhs`, saturating at zero.
    pub fn saturating_sub(self, rhs: Amount) -> (r: Amount)
        ensures
            r@ == saturating_difference(self@, rhs@),
    {
        Amount { yocto: token_saturating_sub(self.yocto, rhs.yocto) }
    }
}

} // verus!
