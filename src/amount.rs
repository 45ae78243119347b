//! Bitcoin amount with millisatoshi precision.
//!
//! [`Amount`] never exceeds 21 million bitcoins. Constructors from raw values
//! and parsing return typed errors; arithmetic requires the result to stay in
//! range.

use vstd::prelude::*;
use bitcoin_units::Amount as BtcAmount;
use crate::text::{dec_text, ends_with, has_suffix, is_unsigned_text, parse_u64, u64_text, unsigned_value};

verus! {

pub const SATS_IN_BTC: u64 = 100_000_000;

/// The supply cap in satoshis.
pub const MAX_MONEY_SAT: u64 = 21_000_000 * SATS_IN_BTC;

/// The supply cap in millisatoshis.
pub const MAX_MONEY_MSAT: u64 = MAX_MONEY_SAT * 1000;

/// Number of millisatoshis, at most 21 million bitcoins.
///
/// The text form is the decimal number followed by ` msat`, e.g. `42 msat`.
#[derive(Clone, Copy, PartialEq, Eq, Structural, PartialOrd, Ord, Hash, Debug)]
pub struct Amount(u64);

impl View for Amount {
    type V = u64;

    closed spec fn view(&self) -> u64 {
        self.0
    }
}

/// The unit whose value exceeded the supply cap.
#[derive(Clone, Copy, PartialEq, Eq, Structural, Debug)]
pub enum Denomination {
    Millisatoshis,
    Satoshis,
}

/// Error returned when a conversion exceeds the Bitcoin supply cap.
#[derive(Clone, Copy, Debug)]
pub struct OverflowError {
    amount: u64,
    denomination: Denomination,
}

/// Error returned when a conversion to satoshis fails because the value is not
/// a whole number of satoshis.
#[derive(Clone, Copy, Debug)]
pub struct FractionError {
    amount: u64,
}

/// Why the text of an amount was refused.
#[derive(Clone, Copy, Debug)]
enum ParseErrorInner {
    InvalidInteger,
    Overflow(OverflowError),
}

/// Error returned when parsing the text of an amount fails.
#[derive(Clone, Debug)]
pub struct ParseError {
    input: String,
    reason: ParseErrorInner,
}

/// The text of a value in millisatoshis: `<n> msat`.
pub open spec fn amount_text(msat: u64) -> Seq<char> {
    dec_text(msat as nat) + " msat"@
}

/// The number part of amount text: the input without a trailing ` msat`.
pub open spec fn amount_digits(s: Seq<char>) -> Seq<char> {
    if has_suffix(s, " msat"@) {
        s.subrange(0, s.len() - 5)
    } else {
        s
    }
}

/// The input is a decimal integer that fits in a `u64`, with or without ` msat`.
pub open spec fn is_amount_integer(s: Seq<char>) -> bool {
    is_unsigned_text(amount_digits(s)) && unsigned_value(amount_digits(s)) <= u64::MAX
}

/// The input reads as an amount within the supply cap.
pub open spec fn is_amount_text(s: Seq<char>) -> bool {
    is_unsigned_text(amount_digits(s)) && unsigned_value(amount_digits(s)) <= MAX_MONEY_MSAT
}

/// The millisatoshis that amount text stands for.
pub open spec fn amount_text_value(s: Seq<char>) -> nat {
    unsigned_value(amount_digits(s))
}

impl OverflowError {
    pub closed spec fn spec_amount(&self) -> u64 {
        self.amount
    }

    pub closed spec fn spec_denomination(&self) -> Denomination {
        self.denomination
    }

    /// The value that exceeded the cap.
    pub fn amount(&self) -> (r: u64)
        ensures
            r == self.spec_amount(),
    {
        self.amount
    }

    /// The unit in which the value was given.
    pub fn denomination(&self) -> (r: Denomination)
        ensures
            r == self.spec_denomination(),
    {
        self.denomination
    }
}

impl FractionError {
    pub closed spec fn spec_amount(&self) -> u64 {
        self.amount
    }

    /// The millisatoshis that could not be converted.
    pub fn amount(&self) -> (r: u64)
        ensures
            r == self.spec_amount(),
    {
        self.amount
    }
}

impl ParseError {
    pub closed spec fn spec_input(&self) -> Seq<char> {
        self.input@
    }

    /// `Some(e)`: the text was an integer above the supply cap; `None`: the
    /// text was not an unsigned integer that fits in a `u64`.
    pub closed spec fn spec_overflow(&self) -> Option<OverflowError> {
        match self.reason {
            ParseErrorInner::InvalidInteger => None,
            ParseErrorInner::Overflow(e) => Some(e),
        }
    }

    /// The text that was refused.
    pub fn input(&self) -> (r: &str)
        ensures
            r@ == self.spec_input(),
    {
        self.input.as_str()
    }

    /// Whether the text was not an unsigned integer that fits in a `u64`.
    pub fn is_invalid_integer(&self) -> (r: bool)
        ensures
            r == (self.spec_overflow() is None),
    {
        match self.reason {
            ParseErrorInner::InvalidInteger => true,
            ParseErrorInner::Overflow(_) => false,
        }
    }

    /// The overflow behind the error, where the integer exceeded the cap.
    pub fn overflow(&self) -> (r: Option<OverflowError>)
        ensures
            r == self.spec_overflow(),
    {
        match self.reason {
            ParseErrorInner::InvalidInteger => None,
            ParseErrorInner::Overflow(e) => Some(e),
        }
    }
}

impl Amount {
    /// Zero bitcoins.
    pub fn zero() -> (r: Amount)
        ensures
            r@ == 0,
    {
        Amount(0)
    }

    /// One millisatoshi.
    pub fn one_msat() -> (r: Amount)
        ensures
            r@ == 1,
    {
        Amount(1)
    }

    /// One satoshi.
    pub fn one_sat() -> (r: Amount)
        ensures
            r@ == 1000,
    {
        Amount(1000)
    }

    /// One bitcoin.
    pub fn one_btc() -> (r: Amount)
        ensures
            r@ == 1000 * SATS_IN_BTC,
    {
        Amount(1000 * SATS_IN_BTC)
    }

    /// 21 million bitcoins.
    pub fn max_value() -> (r: Amount)
        ensures
            r@ == MAX_MONEY_MSAT,
    {
        Amount(MAX_MONEY_MSAT)
    }

    /// Every amount stays within the supply cap.
    #[verifier::type_invariant]
    spec fn within_cap(self) -> bool {
        self.0 <= MAX_MONEY_MSAT
    }

    /// Constructs the amount from raw millisatoshis, refusing values above the
    /// supply cap.
    pub fn from_msat(msat: u64) -> (r: Result<Amount, OverflowError>)
        ensures
            match r {
                Ok(a) => msat <= MAX_MONEY_MSAT && a@ == msat,
                Err(e) => msat > MAX_MONEY_MSAT && e.spec_amount() == msat
                    && e.spec_denomination() == Denomination::Millisatoshis,
            },
    {
        if msat > MAX_MONEY_MSAT {
            Err(OverflowError { amount: msat, denomination: Denomination::Millisatoshis })
        } else {
            Ok(Amount(msat))
        }
    }

    /// Constructs the amount from raw satoshis, refusing values above the
    /// supply cap.
    pub fn from_sat(sat: u64) -> (r: Result<Amount, OverflowError>)
        ensures
            match r {
                Ok(a) => sat <= MAX_MONEY_SAT && a@ == sat * 1000,
                Err(e) => sat > MAX_MONEY_SAT && e.spec_amount() == sat
                    && e.spec_denomination() == Denomination::Satoshis,
            },
    {
        if sat > MAX_MONEY_SAT {
            Err(OverflowError { amount: sat, denomination: Denomination::Satoshis })
        } else {
            Ok(Amount(sat * 1000))
        }
    }

    /// The value in millisatoshis.
    pub fn to_msat(self) -> (r: u64)
        ensures
            r == self@,
            r <= MAX_MONEY_MSAT,
    {
        proof {
            use_type_invariant(&self);
        }
        self.0
    }

    /// The value in whole satoshis, refused when it holds a fraction of one.
    pub fn to_sat(self) -> (r: Result<u64, FractionError>)
        ensures
            match r {
                Ok(v) => self@ % 1000 == 0 && v == self@ / 1000,
                Err(e) => self@ % 1000 != 0 && e.spec_amount() == self@,
            },
    {
        if self.0 % 1000 == 0 {
            Ok(self.0 / 1000)
        } else {
            Err(FractionError { amount: self.0 })
        }
    }

    /// Satoshis, rounding down.
    pub fn to_sat_floor(self) -> (r: u64)
        ensures
            r == self@ / 1000,
    {
        self.0 / 1000
    }

    /// Satoshis, rounding up.
    pub fn to_sat_ceiling(self) -> (r: u64)
        ensures
            r == (self@ + 999) / 1000,
    {
        proof {
            use_type_invariant(&self);
        }
        (self.0 + 999) / 1000
    }

    /// Satoshis, rounding to the nearest; a half rounds up.
    pub fn to_sat_round(self) -> (r: u64)
        ensures
            r == (self@ + 500) / 1000,
    {
        proof {
            use_type_invariant(&self);
        }
        (self.0 + 500) / 1000
    }

    /// Reads `<n>` or `<n> msat` into the amount or the reason for refusing it.
    fn parse_raw(s: &str) -> (r: Result<Amount, ParseErrorInner>)
        ensures
            match r {
                Ok(a) => is_amount_text(s@) && a@ == amount_text_value(s@),
                Err(ParseErrorInner::InvalidInteger) => !is_amount_integer(s@),
                Err(ParseErrorInner::Overflow(e)) => is_amount_integer(s@) && !is_amount_text(s@)
                    && e.amount == amount_text_value(s@) && e.denomination
                    == Denomination::Millisatoshis,
            },
    {
        proof {
            reveal_strlit(" msat");
        }
        let digits: &str = if ends_with(s, " msat") {
            let n = s.unicode_len();
            s.substring_char(0, n - 5)
        } else {
            s
        };
        assert(digits@ == amount_digits(s@));
        match parse_u64(digits) {
            None => Err(ParseErrorInner::InvalidInteger),
            Some(v) => match Amount::from_msat(v) {
                Ok(a) => Ok(a),
                Err(e) => Err(ParseErrorInner::Overflow(e)),
            },
        }
    }

    /// Parses an unsigned decimal integer of millisatoshis, optionally followed
    /// by ` msat`, up to the supply cap.
    pub fn parse(s: &str) -> (r: Result<Amount, ParseError>)
        ensures
            match r {
                Ok(a) => is_amount_text(s@) && a@ == amount_text_value(s@),
                Err(e) => !is_amount_text(s@) && e.spec_input() == s@ && match e.spec_overflow() {
                    None => !is_amount_integer(s@),
                    Some(o) => is_amount_integer(s@) && o.spec_amount() == amount_text_value(s@)
                        && o.spec_denomination() == Denomination::Millisatoshis,
                },
            },
    {
        match Amount::parse_raw(s) {
            Ok(a) => Ok(a),
            Err(reason) => Err(ParseError { input: s.to_string(), reason }),
        }
    }

    /// The text form: the decimal number of millisatoshis followed by ` msat`.
    /// It parses back to the same amount.
    pub fn to_string(&self) -> (r: String)
        ensures
            r@ == amount_text(self@),
            is_amount_text(r@) && amount_text_value(r@) == self@,
    {
        proof {
            use_type_invariant(self);
            lemma_text_round_trip(*self);
        }
        let mut r = u64_text(self.0);
        r.append(" msat");
        r
    }

    /// The sum; it must stay within the supply cap.
    pub fn add(self, rhs: Amount) -> (r: Amount)
        requires
            self@ + rhs@ <= MAX_MONEY_MSAT,
        ensures
            r@ == self@ + rhs@,
    {
        Amount(self.0 + rhs.0)
    }

    /// Adds `rhs` in place; the sum must stay within the supply cap.
    pub fn add_assign(&mut self, rhs: Amount)
        requires
            old(self)@ + rhs@ <= MAX_MONEY_MSAT,
        ensures
            final(self)@ == old(self)@ + rhs@,
    {
        *self = self.add(rhs);
    }

    /// The difference; `rhs` must not exceed `self`.
    pub fn sub(self, rhs: Amount) -> (r: Amount)
        requires
            rhs@ <= self@,
        ensures
            r@ == self@ - rhs@,
    {
        proof {
            use_type_invariant(&self);
        }
        Amount(self.0 - rhs.0)
    }

    /// Subtracts `rhs` in place; `rhs` must not exceed the value.
    pub fn sub_assign(&mut self, rhs: Amount)
        requires
            rhs@ <= old(self)@,
        ensures
            final(self)@ == old(self)@ - rhs@,
    {
        *self = self.sub(rhs);
    }

    /// The product with a scalar; it must stay within the supply cap.
    pub fn mul(self, rhs: u64) -> (r: Amount)
        requires
            self@ * rhs <= MAX_MONEY_MSAT,
        ensures
            r@ == self@ * rhs,
    {
        Amount(self.0 * rhs)
    }

    /// Multiplies in place; the product must stay within the supply cap.
    pub fn mul_assign(&mut self, rhs: u64)
        requires
            old(self)@ * rhs <= MAX_MONEY_MSAT,
        ensures
            final(self)@ == old(self)@ * rhs,
    {
        *self = self.mul(rhs);
    }

    /// The quotient by a non-zero scalar, rounding down.
    pub fn div(self, rhs: u64) -> (r: Amount)
        requires
            rhs > 0,
        ensures
            r@ == self@ / rhs,
    {
        proof {
            use_type_invariant(&self);
        }
        Amount(self.0 / rhs)
    }

    /// Divides in place by a non-zero scalar, rounding down.
    pub fn div_assign(&mut self, rhs: u64)
        requires
            rhs > 0,
        ensures
            final(self)@ == old(self)@ / rhs,
    {
        *self = self.div(rhs);
    }

    /// The remainder of the division by a non-zero scalar.
    pub fn rem(self, rhs: u64) -> (r: Amount)
        requires
            rhs > 0,
        ensures
            r@ == self@ % rhs,
    {
        proof {
            use_type_invariant(&self);
            let x = self.0;
            assert(x % rhs <= x) by (nonlinear_arith)
                requires
                    rhs > 0,
            ;
        }
        Amount(self.0 % rhs)
    }

    /// Replaces the value by its remainder of the division by a non-zero scalar.
    pub fn rem_assign(&mut self, rhs: u64)
        requires
            rhs > 0,
        ensures
            final(self)@ == old(self)@ % rhs,
    {
        *self = self.rem(rhs);
    }
}

impl Default for Amount {
    fn default() -> (r: Amount)
        ensures
            r@ == 0,
    {
        Amount(0)
    }
}

impl core::str::FromStr for Amount {
    type Err = ParseError;

    fn from_str(s: &str) -> Result<Amount, ParseError> {
        Amount::parse(s)
    }
}

/// The three roundings to satoshis are ordered, and agree with the exact
/// conversion whenever the amount is a whole number of satoshis.
pub proof fn lemma_sat_roundings(a: Amount)
    ensures
        a@ / 1000 <= (a@ + 500) / 1000 <= (a@ + 999) / 1000,
        a@ % 1000 == 0 ==> a@ / 1000 == (a@ + 500) / 1000 && a@ / 1000 == (a@ + 999) / 1000,
{
}

/// The text of every amount parses back to the same amount.
pub proof fn lemma_text_round_trip(a: Amount)
    requires
        a@ <= MAX_MONEY_MSAT,
    ensures
        is_amount_text(amount_text(a@)),
        amount_text_value(amount_text(a@)) == a@,
{
    reveal_strlit(" msat");
    let d = dec_text(a@ as nat);
    let s = amount_text(a@);
    assert(s.subrange(s.len() - 5, s.len() as int) =~= " msat"@);
    assert(s.subrange(0, s.len() - 5) =~= d);
    crate::text::lemma_dec_text(a@ as nat);
}

/// Bitcoin amount of the `bitcoin-units` crate, in whole satoshis.
#[verifier::external_type_specification]
#[verifier::external_body]
pub struct ExBtcAmount(BtcAmount);

/// Relies on `bitcoin_units::Amount::to_sat`: the satoshis held by the amount.
pub assume_specification[ BtcAmount::to_sat ](a: BtcAmount) -> u64;

/// Relies on `bitcoin_units::Amount::from_sat`: an amount of the given satoshis.
pub assume_specification[ BtcAmount::from_sat ](satoshi: u64) -> BtcAmount;

impl Amount {
    /// Converts a whole-satoshi bitcoin amount, refusing one above the supply cap.
    pub fn from_bitcoin_amount(value: BtcAmount) -> (r: Result<Amount, OverflowError>)
        ensures
            match r {
                Ok(a) => a@ % 1000 == 0,
                Err(e) => e.spec_amount() > MAX_MONEY_SAT && e.spec_denomination()
                    == Denomination::Satoshis,
            },
    {
        Amount::from_sat(value.to_sat())
    }

    /// Converts to a whole-satoshi bitcoin amount, refusing a value with a
    /// fraction of a satoshi.
    pub fn to_bitcoin_amount(self) -> (r: Result<BtcAmount, FractionError>)
        ensures
            match r {
                Ok(_) => self@ % 1000 == 0,
                Err(e) => self@ % 1000 != 0 && e.spec_amount() == self@,
            },
    {
        match self.to_sat() {
            Ok(sat) => Ok(BtcAmount::from_sat(sat)),
            Err(e) => Err(e),
        }
    }
}

} // verus!
