//! Amounts. Their floating-point value is never inspected here: a caller
//! parses each amount and hands over its value, its magnitude, how it
//! compares with zero and its fixed-point renderings; the importers only
//! branch on the comparison and copy the rest into records.
use vstd::prelude::*;

verus! {

/// How a parsed floating-point amount compares with zero (`NaN` compares
/// with nothing).
#[derive(Clone, Copy, Debug, PartialEq, Eq, Structural)]
pub enum Sign {
    Negative,
    Zero,
    Positive,
    NotANumber,
}

impl Sign {
    /// `x < 0.0`
    pub open spec fn lt_zero(self) -> bool {
        self == Sign::Negative
    }

    /// `x >= 0.0`
    pub open spec fn ge_zero(self) -> bool {
        self == Sign::Zero || self == Sign::Positive
    }

    /// `x > 0.0`
    pub open spec fn gt_zero(self) -> bool {
        self == Sign::Positive
    }

    /// `x.abs() > 0.0`
    pub open spec fn nonzero(self) -> bool {
        self == Sign::Negative || self == Sign::Positive
    }

    pub fn is_negative(&self) -> (r: bool)
        ensures
            r == self.lt_zero(),
    {
        match self {
            Sign::Negative => true,
            _ => false,
        }
    }

    pub fn is_non_negative(&self) -> (r: bool)
        ensures
            r == self.ge_zero(),
    {
        match self {
            Sign::Zero => true,
            Sign::Positive => true,
            _ => false,
        }
    }

    pub fn is_positive(&self) -> (r: bool)
        ensures
            r == self.gt_zero(),
    {
        match self {
            Sign::Positive => true,
            _ => false,
        }
    }

    pub fn is_nonzero(&self) -> (r: bool)
        ensures
            r == self.nonzero(),
    {
        match self {
            Sign::Negative => true,
            Sign::Positive => true,
            _ => false,
        }
    }
}

/// A parsed amount: its value, its magnitude (`value.abs()`), how the value
/// compares with zero, and its fixed-point renderings: with eight decimals
/// (`format!("{:.8}", value)` and `format!("{:.8}", value.abs())`) and the
/// magnitude with six (`format!("{:.6}", value.abs())`).
pub struct Amount<A> {
    pub value: A,
    pub magnitude: A,
    pub sign: Sign,
    pub fixed8: String,
    pub magnitude_fixed8: String,
    pub magnitude_fixed6: String,
}

pub struct AmountV<A> {
    pub value: A,
    pub magnitude: A,
    pub sign: Sign,
    pub fixed8: Seq<char>,
    pub magnitude_fixed8: Seq<char>,
    pub magnitude_fixed6: Seq<char>,
}

impl<A> View for Amount<A> {
    type V = AmountV<A>;

    open spec fn view(&self) -> AmountV<A> {
        AmountV {
            value: self.value,
            magnitude: self.magnitude,
            sign: self.sign,
            fixed8: self.fixed8@,
            magnitude_fixed8: self.magnitude_fixed8@,
            magnitude_fixed6: self.magnitude_fixed6@,
        }
    }
}

pub open spec fn opt_amount_views<A>(v: Seq<Option<Amount<A>>>) -> Seq<Option<AmountV<A>>> {
    v.map_values(
        |o: Option<Amount<A>>|
            match o {
                Some(a) => Some(a@),
                None => None,
            },
    )
}

impl<A: Copy> Amount<A> {
    pub fn copy(&self) -> (r: Amount<A>)
        ensures
            r@ == self@,
    {
        Amount {
            value: self.value,
            magnitude: self.magnitude,
            sign: self.sign,
            fixed8: self.fixed8.clone(),
            magnitude_fixed8: self.magnitude_fixed8.clone(),
            magnitude_fixed6: self.magnitude_fixed6.clone(),
        }
    }
}

} // verus!
