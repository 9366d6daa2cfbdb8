//! Values of varying precision sent by and to control surfaces.
use vstd::prelude::*;

use std::cmp::Ordering;

verus! {

/// A 7-bit integer, as carried by MIDI data bytes.
#[derive(Debug, Clone, Copy)]
pub struct U7(u8);

impl U7 {
    /// The integer held.
    pub closed spec fn value(self) -> u8 {
        self.0
    }

    /// The integer held is below 128.
    #[verifier::type_invariant]
    pub open spec fn in_range(self) -> bool {
        self.value() < 128
    }

    /// Keeps the low 7 bits of `raw`.
    pub fn from_int_lossy(raw: u8) -> (r: U7)
        ensures
            r.value() == raw % 128,
    {
        U7(raw % 128)
    }

    /// `raw` as a 7-bit integer, if it is below 128.
    pub fn try_from(raw: u8) -> (r: Option<U7>)
        ensures
            r is Some == (raw < 128),
            r matches Some(v) ==> v.value() == raw,
    {
        if raw < 128 {
            Some(U7(raw))
        } else {
            None
        }
    }

    /// The largest 7-bit integer, 127.
    pub fn max_value() -> (r: U7)
        ensures
            r.value() == 127,
    {
        U7(127)
    }

    /// The integer held.
    pub fn as_int(self) -> (r: u8)
        ensures
            r == self.value(),
            r < 128,
    {
        proof {
            use_type_invariant(&self);
        }
        self.0
    }
}

/// Widening of the components of a value to 16 bits.
pub trait WidenToU16 {
    fn as_u16_value(self) -> (r: u16)
        ensures
            r as int == self.widened(),
    ;

    spec fn widened(self) -> int;
}

impl WidenToU16 for U7 {
    fn as_u16_value(self) -> (r: u16) {
        self.as_int() as u16
    }

    open spec fn widened(self) -> int {
        self.value() as int
    }
}

impl WidenToU16 for u8 {
    fn as_u16_value(self) -> (r: u16) {
        self as u16
    }

    open spec fn widened(self) -> int {
        self as int
    }
}

/// The 7-bit integer holding `v` (meaningful for `v` below 128).
pub closed spec fn u7_of(v: u8) -> U7 {
    U7(v)
}

/// A 7-bit integer is determined by the integer it holds.
pub broadcast proof fn lemma_u7_of_u7(a: U7)
    ensures
        #[trigger] u7_of(a.value()) == a,
{
}

/// A value of varying precision used with control surfaces. The contents are
/// treated as a fraction of the inner type's maximum, and converting between
/// precisions scales them (rounding down).
#[derive(Debug, Clone, Copy)]
pub enum ScalableValue {
    U7(U7),
    U8(u8),
    U16(u16),
}

/// The precision of a value: 0 for 7 bits, 1 for 8 bits, 2 for 16 bits.
pub open spec fn precision(v: ScalableValue) -> int {
    match v {
        ScalableValue::U7(_) => 0,
        ScalableValue::U8(_) => 1,
        ScalableValue::U16(_) => 2,
    }
}

impl ScalableValue {
    /// The value scaled to 7 bits.
    pub open spec fn spec_u7(self) -> int {
        match self {
            ScalableValue::U7(n) => n.value() as int,
            ScalableValue::U8(n) => (n / 2) as int,
            ScalableValue::U16(n) => (n / 514) as int,
        }
    }

    /// The value scaled to 8 bits.
    pub open spec fn spec_u8(self) -> int {
        match self {
            ScalableValue::U7(n) => n.value() * 255 / 127,
            ScalableValue::U8(n) => n as int,
            ScalableValue::U16(n) => (n / 257) as int,
        }
    }

    /// The value scaled to 16 bits.
    pub open spec fn spec_u16(self) -> int {
        match self {
            ScalableValue::U7(n) => n.value() * 65535 / 127,
            ScalableValue::U8(n) => n * 257,
            ScalableValue::U16(n) => n as int,
        }
    }

    /// The value scaled to the given precision.
    pub open spec fn at_precision(self, p: int) -> int {
        if p <= 0 {
            self.spec_u7()
        } else if p == 1 {
            self.spec_u8()
        } else {
            self.spec_u16()
        }
    }
}

/// The pair of values that two values are compared as: both scaled to the
/// finer of their two precisions.
pub open spec fn compared_as(a: ScalableValue, b: ScalableValue) -> (int, int) {
    let p = if precision(a) >= precision(b) {
        precision(a)
    } else {
        precision(b)
    };
    (a.at_precision(p), b.at_precision(p))
}

impl ScalableValue {
    /// Converts both values to the finer of their two precisions.
    pub fn normalize(&self, other: &Self) -> (r: (Self, Self))
        ensures
            precision(r.0) == precision(r.1),
            precision(r.0) == if precision(*self) >= precision(*other) {
                precision(*self)
            } else {
                precision(*other)
            },
            (r.0.at_precision(precision(r.0)), r.1.at_precision(precision(r.1))) == compared_as(
                *self,
                *other,
            ),
    {
        match (*self, *other) {
            (ScalableValue::U7(_), ScalableValue::U7(_)) => (*self, *other),
            (ScalableValue::U7(_), ScalableValue::U8(_)) => (ScalableValue::U8(self.as_u8()), *other),
            (ScalableValue::U7(_), ScalableValue::U16(_)) => (
                ScalableValue::U16(self.as_u16()),
                *other,
            ),
            (ScalableValue::U8(_), ScalableValue::U8(_)) => (*self, *other),
            (ScalableValue::U8(_), ScalableValue::U7(_)) => (*self, ScalableValue::U8(other.as_u8())),
            (ScalableValue::U8(_), ScalableValue::U16(_)) => (
                ScalableValue::U16(self.as_u16()),
                *other,
            ),
            (ScalableValue::U16(_), ScalableValue::U16(_)) => (*self, *other),
            (ScalableValue::U16(_), ScalableValue::U7(_)) => (
                *self,
                ScalableValue::U16(other.as_u16()),
            ),
            (ScalableValue::U16(_), ScalableValue::U8(_)) => (
                *self,
                ScalableValue::U16(other.as_u16()),
            ),
        }
    }

    /// The value scaled to 7 bits.
    pub fn as_u7(self) -> (r: U7)
        ensures
            r.value() == self.spec_u7(),
    {
        match self {
            ScalableValue::U7(n) => n,
            ScalableValue::U8(n) => U7::from_int_lossy(n / 2),
            ScalableValue::U16(n) => U7::from_int_lossy((n / 514) as u8),
        }
    }

    /// The value scaled to 8 bits.
    pub fn as_u8(self) -> (r: u8)
        ensures
            r == self.spec_u8(),
    {
        match self {
            ScalableValue::U7(n) => {
                let v = n.as_int() as u16;
                assert(v * 255 / 127 <= 255) by (nonlinear_arith)
                    requires
                        v < 128,
                ;
                ((v * 255) / 127) as u8
            },
            ScalableValue::U8(n) => n,
            ScalableValue::U16(n) => (n / 257) as u8,
        }
    }

    /// The value scaled to 16 bits.
    pub fn as_u16(self) -> (r: u16)
        ensures
            r == self.spec_u16(),
    {
        match self {
            ScalableValue::U7(n) => {
                let v = n.as_int() as u32;
                assert(v * 65535 / 127 <= 65535) by (nonlinear_arith)
                    requires
                        v < 128,
                ;
                ((v * 65535) / 127) as u16
            },
            ScalableValue::U8(n) => n as u16 * 257,
            ScalableValue::U16(n) => n,
        }
    }
}

/// The ordering of two integers.
pub open spec fn order_of(a: int, b: int) -> Ordering {
    if a < b {
        Ordering::Less
    } else if a == b {
        Ordering::Equal
    } else {
        Ordering::Greater
    }
}

/// Compares two normalized values of the same precision.
fn compare_normalized(a: ScalableValue, b: ScalableValue) -> (r: Ordering)
    requires
        precision(a) == precision(b),
    ensures
        r == order_of(a.at_precision(precision(a)), b.at_precision(precision(b))),
{
    let (x, y): (u16, u16) = match (a, b) {
        (ScalableValue::U7(x), ScalableValue::U7(y)) => (x.as_u16_value(), y.as_u16_value()),
        (ScalableValue::U8(x), ScalableValue::U8(y)) => (x.as_u16_value(), y.as_u16_value()),
        (ScalableValue::U16(x), ScalableValue::U16(y)) => (x, y),
        _ => (0, 0),
    };
    if x < y {
        Ordering::Less
    } else if x == y {
        Ordering::Equal
    } else {
        Ordering::Greater
    }
}

impl PartialEq for ScalableValue {
    fn eq(&self, other: &Self) -> (r: bool) {
        let (a, b) = self.normalize(other);
        match compare_normalized(a, b) {
            Ordering::Equal => true,
            _ => false,
        }
    }
}

impl vstd::std_specs::cmp::PartialEqSpecImpl for ScalableValue {
    open spec fn obeys_eq_spec() -> bool {
        true
    }

    open spec fn eq_spec(&self, other: &Self) -> bool {
        compared_as(*self, *other).0 == compared_as(*self, *other).1
    }
}

impl Eq for ScalableValue {

}

impl PartialOrd for ScalableValue {
    fn partial_cmp(&self, other: &Self) -> (r: Option<Ordering>) {
        let (a, b) = self.normalize(other);
        Some(compare_normalized(a, b))
    }
}

impl vstd::std_specs::cmp::PartialOrdSpecImpl for ScalableValue {
    open spec fn obeys_partial_cmp_spec() -> bool {
        true
    }

    open spec fn partial_cmp_spec(&self, other: &Self) -> Option<Ordering> {
        Some(order_of(compared_as(*self, *other).0, compared_as(*self, *other).1))
    }
}

impl ScalableValue {
    /// Compares two values at the finer of their precisions.
    pub fn cmp(&self, other: &Self) -> (r: Ordering)
        ensures
            r == order_of(compared_as(*self, *other).0, compared_as(*self, *other).1),
    {
        let (a, b) = self.normalize(other);
        compare_normalized(a, b)
    }
}

} // verus!
