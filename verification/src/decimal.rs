//! Fixed-precision decimal numbers: an integer mantissa and a power-of-ten scale.
//!
//! Prices and amounts arrive as decimal text and must be ordered exactly, so
//! they are never held in binary floating point. Parsing, ordering and
//! subtraction are done by the `rust_decimal` crate; this module holds the
//! numbers as plain integers in between.

use std::str::FromStr;
use vstd::arithmetic::power::pow;
use vstd::prelude::*;

verus! {

/// Largest scale of a decimal: a value has at most 28 digits after the point.
pub const MAX_SCALE: u32 = 28;

/// Largest magnitude of a mantissa: 2^96 - 1.
pub const MAX_MANTISSA: i128 = 0xFFFF_FFFF_FFFF_FFFF_FFFF_FFFF;

/// Ten to the power `e`.
pub open spec fn pow10(e: nat) -> int {
    pow(10, e)
}

/// Whether a mantissa and a scale are those of a representable decimal.
pub open spec fn in_range(mantissa: int, scale: nat) -> bool {
    &&& scale <= MAX_SCALE
    &&& -MAX_MANTISSA <= mantissa <= MAX_MANTISSA
}

/// The number of 10^-28 units in `mantissa / 10^scale`.
///
/// Two decimals are numerically equal exactly when their units are equal,
/// and ordered as their units are.
pub open spec fn units_of(mantissa: int, scale: nat) -> int {
    mantissa * pow10((MAX_SCALE - scale) as nat)
}

/// What `rust_decimal` reads from a piece of text: the mantissa and scale of
/// the decimal, or `None` where it rejects the text.
pub uninterp spec fn parsed_decimal(text: Seq<char>) -> Option<(int, nat)>;

/// What `rust_decimal` gives for `a - b`, each number written as (mantissa,
/// scale): the difference, or `None` where it does not fit a decimal.
pub uninterp spec fn decimal_difference(a: (int, nat), b: (int, nat)) -> Option<(int, nat)>;

/// The value `mantissa / 10^scale`.
#[derive(Clone, Copy, Debug)]
pub struct Decimal {
    mantissa: i128,
    scale: u32,
}

impl View for Decimal {
    type V = (int, nat);

    closed spec fn view(&self) -> (int, nat) {
        (self.mantissa as int, self.scale as nat)
    }
}

impl Decimal {
    /// Every decimal that exists at run time is representable.
    #[verifier::type_invariant]
    pub closed spec fn wf(self) -> bool {
        in_range(self.mantissa as int, self.scale as nat)
    }

    /// The value in units of 10^-28.
    pub open spec fn units(self) -> int {
        units_of(self@.0, self@.1)
    }

    /// The decimal with the given mantissa and scale.
    pub closed spec fn of(parts: (int, nat)) -> Decimal {
        Decimal { mantissa: parts.0 as i128, scale: parts.1 as u32 }
    }

    /// A decimal is determined by its mantissa and scale.
    pub proof fn lemma_view_determines(a: Decimal, b: Decimal)
        requires
            a@ == b@,
        ensures
            a == b,
    {
    }

    /// `of` gives back the decimal whose parts it is handed.
    pub proof fn lemma_of_view(self)
        ensures
            Decimal::of(self@) == self,
    {
    }

    /// The decimal `mantissa / 10^scale`, unless it is not representable.
    pub fn new(mantissa: i128, scale: u32) -> (r: Option<Decimal>)
        ensures
            r is Some <==> in_range(mantissa as int, scale as nat),
            r matches Some(d) ==> d@ == (mantissa as int, scale as nat) && d.wf(),
    {
        if scale <= MAX_SCALE && -MAX_MANTISSA <= mantissa && mantissa <= MAX_MANTISSA {
            Some(Decimal { mantissa, scale })
        } else {
            None
        }
    }

    /// The whole number `n`.
    pub fn from_i32(n: i32) -> (d: Decimal)
        ensures
            d@ == (n as int, 0nat),
            d.wf(),
    {
        Decimal { mantissa: n as i128, scale: 0 }
    }

    pub fn mantissa(&self) -> (m: i128)
        ensures
            m == self@.0,
    {
        self.mantissa
    }

    pub fn scale(&self) -> (s: u32)
        ensures
            s == self@.1,
    {
        self.scale
    }

    /// Reads a decimal from text such as `"27000.15"`.
    pub fn parse(text: &str) -> (r: Option<Decimal>)
        ensures
            r is Some <==> parsed_decimal(text@) is Some,
            r matches Some(d) ==> Some(d@) == parsed_decimal(text@) && d.wf(),
    {
        decimal_from_str(text)
    }

    /// Whether `self` is numerically smaller than `other`.
    pub fn lt(&self, other: &Decimal) -> (r: bool)
        ensures
            r == (self.units() < other.units()),
    {
        proof {
            use_type_invariant(self);
            use_type_invariant(other);
        }
        decimal_lt(self, other)
    }

    /// `self - other`, or `None` where the difference is not representable.
    pub fn checked_sub(&self, other: &Decimal) -> (r: Option<Decimal>)
        ensures
            r is Some <==> decimal_difference(self@, other@) is Some,
            r matches Some(d) ==> Some(d@) == decimal_difference(self@, other@) && d.wf(),
    {
        proof {
            use_type_invariant(self);
            use_type_invariant(other);
        }
        decimal_checked_sub(self, other)
    }
}

/// `rust_decimal::Decimal::from_str`, with the result taken apart by
/// `mantissa()` and `scale()`. The text decides the result; the parts of any
/// `rust_decimal::Decimal` are a mantissa below 2^96 in magnitude and a scale
/// of at most 28.
#[verifier::external_body]
fn decimal_from_str(text: &str) -> (r: Option<Decimal>)
    ensures
        r is Some <==> parsed_decimal(text@) is Some,
        r matches Some(d) ==> Some(d@) == parsed_decimal(text@) && d.wf(),
{
    match rust_decimal::Decimal::from_str(text) {
        Ok(d) => Some(Decimal { mantissa: d.mantissa(), scale: d.scale() }),
        Err(_) => None,
    }
}

/// The `<` of `rust_decimal::Decimal`, on the two numbers rebuilt by
/// `from_i128_with_scale`. It orders decimals by their numeric value, whatever
/// their scales: `m1 / 10^e1 < m2 / 10^e2`, which is the order of their units.
#[verifier::external_body]
fn decimal_lt(a: &Decimal, b: &Decimal) -> (r: bool)
    requires
        a.wf(),
        b.wf(),
    ensures
        r == (a.units() < b.units()),
{
    rust_decimal::Decimal::from_i128_with_scale(a.mantissa, a.scale)
        < rust_decimal::Decimal::from_i128_with_scale(b.mantissa, b.scale)
}

/// `rust_decimal::Decimal::checked_sub`, on the two numbers rebuilt by
/// `from_i128_with_scale`, with the result taken apart by `mantissa()` and
/// `scale()`. The two numbers decide the result.
#[verifier::external_body]
fn decimal_checked_sub(a: &Decimal, b: &Decimal) -> (r: Option<Decimal>)
    requires
        a.wf(),
        b.wf(),
    ensures
        r is Some <==> decimal_difference(a@, b@) is Some,
        r matches Some(d) ==> Some(d@) == decimal_difference(a@, b@) && d.wf(),
{
    let x = rust_decimal::Decimal::from_i128_with_scale(a.mantissa, a.scale);
    let y = rust_decimal::Decimal::from_i128_with_scale(b.mantissa, b.scale);
    match x.checked_sub(y) {
        Some(d) => Some(Decimal { mantissa: d.mantissa(), scale: d.scale() }),
        None => None,
    }
}

} // verus!
