//! Monetary amounts in canonical form: an exact count of hundredths.
use vstd::prelude::*;

verus! {

/// Largest magnitude of a mantissa that a 96-bit decimal can hold.
pub const MAX_MANTISSA: i128 = 0xFFFF_FFFF_FFFF_FFFF_FFFF_FFFF;

/// Largest number of fractional digits that a decimal can carry.
pub const MAX_SCALE: u32 = 28;

pub open spec fn pow10(n: nat) -> nat
    decreases n,
{
    if n == 0 {
        1
    } else {
        10 * pow10((n - 1) as nat)
    }
}

/// `n / d` rounded to the nearest integer, ties going to the even neighbour.
pub open spec fn round_half_even(n: nat, d: nat) -> nat
    recommends
        d > 0,
{
    let q = n / d;
    let r = n % d;
    if 2 * r > d || (2 * r == d && q % 2 == 1) {
        q + 1
    } else {
        q
    }
}

/// `m / d` rounded to the nearest integer, ties to even; the sign is kept.
pub open spec fn round_signed(m: int, d: nat) -> int {
    if m < 0 {
        -(round_half_even((-m) as nat, d) as int)
    } else {
        round_half_even(m as nat, d) as int
    }
}

/// Whether `mantissa * 10^-scale` is a value that a decimal can represent.
pub open spec fn representable(mantissa: int, scale: nat) -> bool {
    &&& scale <= MAX_SCALE
    &&& -MAX_MANTISSA <= mantissa <= MAX_MANTISSA
}

/// The value `mantissa * 10^-scale`, rounded to two fractional digits,
/// as a whole number of hundredths.
pub open spec fn canonical_cents(mantissa: int, scale: nat) -> int {
    if scale <= 2 {
        mantissa * pow10((2 - scale) as nat)
    } else {
        round_signed(mantissa, pow10((scale - 2) as nat))
    }
}

/// Relies on rust_decimal's `Decimal::try_from_i128_with_scale`, which refuses
/// a scale over 28 or a mantissa beyond 96 bits, and on `Decimal::round_dp(2)`,
/// which keeps a value of at most two fractional digits as it is and otherwise
/// rounds the magnitude half to even and keeps the sign.
#[verifier::external_body]
fn decimal_round_dp2(mantissa: i128, scale: u32) -> (r: Option<(i128, u32)>)
    ensures
        r.is_some() <==> representable(mantissa as int, scale as nat),
        r.is_some() && scale <= 2 ==> r == Some((mantissa, scale)),
        r is Some && scale > 2 ==> r.unwrap().1 == 2 && r.unwrap().0 == round_signed(
            mantissa as int,
            pow10((scale - 2) as nat),
        ),
{
    match rust_decimal::Decimal::try_from_i128_with_scale(mantissa, scale) {
        Ok(d) => {
            let rounded = d.round_dp(2);
            Some((rounded.mantissa(), rounded.scale()))
        },
        Err(_) => None,
    }
}

/// Why an amount could not be brought to canonical form.
#[derive(Debug, Clone, Copy, PartialEq, Eq, Structural)]
pub enum AmountError {
    InvalidAmount,
}

/// A monetary value held exactly as a whole number of hundredths of the
/// major currency unit (for pounds: pence).
#[derive(Debug, Clone, Copy, PartialEq, Eq, Structural)]
pub struct Amount {
    pub cents: i128,
}

impl Amount {
    /// The value `mantissa * 10^-scale` rounded half to even to two
    /// fractional digits; `InvalidAmount` where no decimal can hold it.
    pub fn from_decimal(mantissa: i128, scale: u32) -> (r: Result<Amount, AmountError>)
        ensures
            r is Err <==> !representable(mantissa as int, scale as nat),
            r matches Ok(a) ==> a.cents == canonical_cents(mantissa as int, scale as nat),
    {
        match decimal_round_dp2(mantissa, scale) {
            None => Err(AmountError::InvalidAmount),
            Some((m, s)) => {
                if s <= 2 {
                    // the rounded value already has at most two digits
                    reveal_with_fuel(pow10, 3);
                    let cents: i128 = if s == 2 {
                        proof {
                            lemma_canonical_two_digits(m as int);
                        }
                        m
                    } else if s == 1 {
                        assert(pow10(1) == 10);
                        assert(canonical_cents(m as int, 1) == m * pow10(1));
                        m * 10
                    } else {
                        assert(pow10(2) == 100);
                        assert(canonical_cents(m as int, 0) == m * pow10(2));
                        m * 100
                    };
                    assert(cents == canonical_cents(mantissa as int, scale as nat));
                    Ok(Amount { cents })
                } else {
                    Err(AmountError::InvalidAmount)
                }
            },
        }
    }

    /// An amount given in minor units (hundredths): 12345 is 123.45.
    pub fn from_minor_units(minor: i64) -> (r: Amount)
        ensures
            r.cents == minor as int,
            r.cents == canonical_cents(minor as int, 2),
    {
        proof { lemma_canonical_two_digits(minor as int); }
        Amount { cents: minor as i128 }
    }

    /// The same amount, brought to canonical form once more.
    pub fn normalize(&self) -> (r: Amount)
        ensures
            r.cents == canonical_cents(self.cents as int, 2),
            r == *self,
    {
        proof { lemma_canonical_two_digits(self.cents as int); }
        *self
    }

    pub fn is_positive(&self) -> (r: bool)
        ensures
            r == (self.cents > 0),
    {
        self.cents > 0
    }
}

/// Normalizing a canonical amount changes nothing: normalizing twice gives
/// the same value as normalizing once.
pub proof fn lemma_normalize_idempotent(mantissa: int, scale: nat)
    ensures
        canonical_cents(canonical_cents(mantissa, scale), 2) == canonical_cents(mantissa, scale),
{
    lemma_canonical_two_digits(canonical_cents(mantissa, scale));
}

/// A whole number of hundredths is already canonical.
pub proof fn lemma_canonical_two_digits(cents: int)
    ensures
        canonical_cents(cents, 2) == cents,
{
    assert(pow10(0) == 1);
    assert((2 - 2) as nat == 0);
    assert(canonical_cents(cents, 2) == cents * pow10(0));
}

} // verus!
