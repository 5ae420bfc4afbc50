//! Exact decimal amounts (prices, balances), held as the mantissa and the
//! scale of a `rust_decimal::Decimal`.

use vstd::prelude::*;

verus! {

/// The largest mantissa magnitude a decimal can hold: 2^96 - 1.
pub const MAX_MANTISSA: i128 = 79228162514264337593543950335i128;

/// The largest scale (digits after the point) a decimal can hold.
pub const MAX_SCALE: u32 = 28u32;

/// 10 to the power `n`.
pub open spec fn pow10(n: nat) -> int
    decreases n,
{
    if n == 0 {
        1
    } else {
        10 * pow10((n - 1) as nat)
    }
}

/// A decimal number `mantissa * 10^(-scale)`, with its sign bit (which a
/// zero may carry too: `rust_decimal` keeps a negative zero).
#[derive(Clone, Copy, Debug)]
pub struct Amount {
    mantissa: i128,
    scale: u32,
    negative: bool,
}

impl Amount {
    /// The mantissa and scale fit a decimal.
    #[verifier::type_invariant]
    pub open spec fn wf(self) -> bool {
        &&& self.spec_scale() <= MAX_SCALE
        &&& -MAX_MANTISSA <= self.spec_mantissa() <= MAX_MANTISSA
        &&& (self.spec_mantissa() < 0 ==> self.spec_negative())
        &&& (self.spec_mantissa() > 0 ==> !self.spec_negative())
    }

    pub closed spec fn spec_mantissa(self) -> int {
        self.mantissa as int
    }

    pub closed spec fn spec_scale(self) -> nat {
        self.scale as nat
    }

    /// The sign bit: set for a negative number, and for a negative zero.
    pub closed spec fn spec_negative(self) -> bool {
        self.negative
    }

    /// The value scaled to the finest scale: `value * 10^28`, an integer.
    /// Two amounts are numerically equal exactly when their keys are.
    pub open spec fn key(self) -> int {
        self.spec_mantissa() * pow10((MAX_SCALE - self.spec_scale()) as nat)
    }

    /// The amount `mantissa * 10^(-scale)`; `None` where it does not fit a decimal.
    pub fn new(mantissa: i128, scale: u32) -> (r: Option<Amount>)
        ensures
            r is Some <==> (scale <= MAX_SCALE && -MAX_MANTISSA <= mantissa <= MAX_MANTISSA),
            r matches Some(a) ==> a.spec_mantissa() == mantissa && a.spec_scale() == scale
                && a.spec_negative() == (mantissa < 0),
    {
        if scale <= MAX_SCALE && -MAX_MANTISSA <= mantissa && mantissa <= MAX_MANTISSA {
            Some(Amount { mantissa, scale, negative: mantissa < 0 })
        } else {
            None
        }
    }

    /// The amount `mantissa * 10^(-scale)` with the sign bit `negative`;
    /// `None` where it does not fit a decimal or the sign bit contradicts a
    /// non-zero mantissa.
    pub fn with_sign(mantissa: i128, scale: u32, negative: bool) -> (r: Option<Amount>)
        ensures
            r is Some <==> (scale <= MAX_SCALE && -MAX_MANTISSA <= mantissa <= MAX_MANTISSA
                && (mantissa < 0 ==> negative) && (mantissa > 0 ==> !negative)),
            r matches Some(a) ==> a.spec_mantissa() == mantissa && a.spec_scale() == scale
                && a.spec_negative() == negative,
    {
        if scale <= MAX_SCALE && -MAX_MANTISSA <= mantissa && mantissa <= MAX_MANTISSA
            && (mantissa >= 0 || negative) && (mantissa <= 0 || !negative) {
            Some(Amount { mantissa, scale, negative })
        } else {
            None
        }
    }

    /// The whole number `n`.
    pub fn from_u64(n: u64) -> (r: Amount)
        ensures
            r.spec_mantissa() == n,
            r.spec_scale() == 0,
            !r.spec_negative(),
    {
        Amount { mantissa: n as i128, scale: 0, negative: false }
    }

    pub fn mantissa(&self) -> (r: i128)
        ensures
            r == self.spec_mantissa(),
    {
        self.mantissa
    }

    pub fn scale(&self) -> (r: u32)
        ensures
            r == self.spec_scale(),
    {
        self.scale
    }

    /// The sign bit.
    pub fn is_sign_negative(&self) -> (r: bool)
        ensures
            r == self.spec_negative(),
    {
        self.negative
    }
}

} // verus!

verus! {

/// `k` zero digits.
pub open spec fn zeros(k: nat) -> Seq<char> {
    Seq::new(k, |i: int| '0')
}

/// The absolute value.
pub open spec fn abs(m: int) -> nat {
    if m < 0 {
        (-m) as nat
    } else {
        m as nat
    }
}

/// The text `rust_decimal` prints for an amount (`Display`, no precision
/// asked): a minus sign when the sign bit is set (a negative zero too), the whole part ("0" when there is
/// none), and, when the scale is not zero, a point and exactly `scale`
/// fractional digits.
pub open spec fn amount_text(a: Amount) -> Seq<char> {
    let s = a.spec_scale();
    let d = crate::text::digits(abs(a.spec_mantissa()));
    let padded = if d.len() < s {
        zeros((s - d.len()) as nat) + d
    } else {
        d
    };
    let w = padded.len() - s;
    let whole = padded.take(w);
    let frac = padded.skip(w);
    (if a.spec_negative() {
        seq!['-']
    } else {
        Seq::<char>::empty()
    }) + (if whole.len() == 0 {
        seq!['0']
    } else {
        whole
    }) + (if s > 0 {
        seq!['.'] + frac
    } else {
        Seq::<char>::empty()
    })
}

/// Prints the amount with `rust_decimal::Decimal`'s `Display`.
#[verifier::external_body]
pub(crate) fn amount_to_string(a: &Amount) -> (r: String)
    requires
        a.wf(),
    ensures
        r@ == amount_text(*a),
{
    let mut d = rust_decimal::Decimal::from_i128_with_scale(a.mantissa, a.scale);
    d.set_sign_negative(a.negative);
    d.to_string()
}

/// The amount `rust_decimal::Decimal::from_str_radix(text, radix)` reads
/// (by its mantissa, scale and sign); `None` where it refuses the text.
pub uninterp spec fn decimal_parse_radix(text: Seq<char>, radix: u32) -> Option<Amount>;

/// Reads `text` as a number in base `radix` with `Decimal::from_str_radix`.
#[verifier::external_body]
pub(crate) fn parse_radix(text: &str, radix: u32) -> (r: Option<Amount>)
    ensures
        r == decimal_parse_radix(text@, radix),
{
    match rust_decimal::Decimal::from_str_radix(text, radix) {
        Ok(d) => Some(Amount { mantissa: d.mantissa(), scale: d.scale(), negative: d.is_sign_negative() }),
        Err(_) => None,
    }
}

/// The amount `Decimal::from_scientific(text)` reads; `None` where it
/// refuses the text.
pub uninterp spec fn decimal_from_scientific(text: Seq<char>) -> Option<Amount>;

/// Reads `text` in scientific notation with `Decimal::from_scientific`.
#[verifier::external_body]
pub(crate) fn from_scientific(text: &str) -> (r: Option<Amount>)
    ensures
        r == decimal_from_scientific(text@),
{
    match rust_decimal::Decimal::from_scientific(text) {
        Ok(d) => Some(Amount { mantissa: d.mantissa(), scale: d.scale(), negative: d.is_sign_negative() }),
        Err(_) => None,
    }
}

/// The quotient `Decimal::checked_div(a, b)` gives: `a / b` rounded to what
/// a decimal holds; `None` where `b` is zero or the quotient overflows.
pub uninterp spec fn decimal_checked_quotient(a: Amount, b: Amount) -> Option<Amount>;

/// Divides with `Decimal::checked_div`, the form of `/` that reports a zero
/// divisor or an overflow instead of panicking. A zero divisor gives `None`.
#[verifier::external_body]
pub(crate) fn checked_quotient(a: &Amount, b: &Amount) -> (r: Option<Amount>)
    requires
        a.wf(),
        b.wf(),
    ensures
        r == decimal_checked_quotient(*a, *b),
        b.key() == 0 ==> r is None,
{
    let mut x = rust_decimal::Decimal::from_i128_with_scale(a.mantissa, a.scale);
    x.set_sign_negative(a.negative);
    let mut y = rust_decimal::Decimal::from_i128_with_scale(b.mantissa, b.scale);
    y.set_sign_negative(b.negative);
    match x.checked_div(y) {
        Some(d) => Some(Amount { mantissa: d.mantissa(), scale: d.scale(), negative: d.is_sign_negative() }),
        None => None,
    }
}

} // verus!
