//! Double-precision values, held by what the rest of the crate reads of them: the bit
//! pattern, by which they are compared, and the two forms in which they are written.

use vstd::prelude::*;

verus! {

/// The bits below the sign, above which a pattern is no number.
pub const INFINITY_BITS: u64 = 0x7ff0_0000_0000_0000;

/// The weight of the sign bit.
pub const SIGN_BIT: u64 = 0x8000_0000_0000_0000;

/// A double-precision value: its IEEE 754 bit pattern, how it reads in a sentence, and
/// the number literal that stands for it in JSON.
#[derive(Debug, PartialEq)]
pub struct Double {
    pub bits: u64,
    pub display: String,
    pub literal: String,
}

/// What a `Double` stands for.
#[verifier::ext_equal]
pub struct DoubleView {
    pub bits: u64,
    pub display: Seq<char>,
    pub literal: Seq<char>,
}

impl View for Double {
    type V = DoubleView;

    open spec fn view(&self) -> DoubleView {
        DoubleView { bits: self.bits, display: self.display@, literal: self.literal@ }
    }
}

impl DeepView for Double {
    type V = DoubleView;

    open spec fn deep_view(&self) -> DoubleView {
        self@
    }
}

/// The pattern without its sign.
pub open spec fn magnitude(bits: u64) -> int {
    bits as int % SIGN_BIT as int
}

/// Whether a pattern stands for a number, neither infinite nor undefined.
pub open spec fn finite(bits: u64) -> bool {
    magnitude(bits) < INFINITY_BITS
}

/// Whether a pattern stands for no number at all.
pub open spec fn undefined(bits: u64) -> bool {
    magnitude(bits) > INFINITY_BITS
}

/// An integer by which the patterns that stand for numbers are ordered as the numbers
/// are; the two zeros have the same one.
pub open spec fn rank(bits: u64) -> int {
    if bits >= SIGN_BIT {
        -magnitude(bits)
    } else {
        magnitude(bits)
    }
}

/// Whether the number behind `a` is smaller than the number behind `b`.
pub open spec fn below(a: u64, b: u64) -> bool {
    !undefined(a) && !undefined(b) && rank(a) < rank(b)
}

/// Whether two patterns stand for the same number.
pub open spec fn equal(a: u64, b: u64) -> bool {
    !undefined(a) && !undefined(b) && rank(a) == rank(b)
}

/// Whether a pattern stands for no number at all.
pub fn is_undefined(bits: u64) -> (r: bool)
    ensures
        r == undefined(bits),
{
    bits % SIGN_BIT > INFINITY_BITS
}

/// Whether the number behind `a` is smaller than the number behind `b`.
pub fn bits_below(a: u64, b: u64) -> (r: bool)
    ensures
        r == below(a, b),
{
    let x: u64 = a % SIGN_BIT;
    let y: u64 = b % SIGN_BIT;
    if x > INFINITY_BITS || y > INFINITY_BITS {
        false
    } else if a >= SIGN_BIT {
        if b >= SIGN_BIT {
            x > y
        } else {
            x > 0 || y > 0
        }
    } else if b >= SIGN_BIT {
        false
    } else {
        x < y
    }
}

impl Double {
    /// Whether the value is a number, neither infinite nor undefined.
    pub fn is_finite(&self) -> (r: bool)
        ensures
            r == finite(self.bits),
    {
        self.bits % SIGN_BIT < INFINITY_BITS
    }

    /// Whether the value is smaller than another.
    pub fn is_below(&self, other: &Double) -> (r: bool)
        ensures
            r == below(self.bits, other.bits),
    {
        bits_below(self.bits, other.bits)
    }

    /// Whether two values have the same bits and the same forms.
    pub fn same(&self, other: &Double) -> (r: bool)
        ensures
            r == (self@ == other@),
    {
        self.bits == other.bits && self.display == other.display && self.literal == other.literal
    }

    /// A value with the same bits and the same forms.
    pub fn copy(&self) -> (r: Double)
        ensures
            r@ == self@,
    {
        Double { bits: self.bits, display: self.display.clone(), literal: self.literal.clone() }
    }
}

/// A copy of a value that may be missing.
pub fn copy_option(value: &Option<Double>) -> (r: Option<Double>)
    ensures
        r.deep_view() == value.deep_view(),
{
    match value {
        Some(value) => Some(value.copy()),
        None => None,
    }
}

/// Zero.
pub open spec fn zero_view() -> DoubleView {
    DoubleView { bits: 0, display: "0"@, literal: "0.0"@ }
}

/// Ten.
pub open spec fn ten_view() -> DoubleView {
    DoubleView { bits: 0x4024_0000_0000_0000, display: "10"@, literal: "10.0"@ }
}

/// Zero.
pub fn zero() -> (r: Double)
    ensures
        r@ == zero_view(),
{
    Double { bits: 0, display: "0".to_string(), literal: "0.0".to_string() }
}

/// Ten.
pub fn ten() -> (r: Double)
    ensures
        r@ == ten_view(),
{
    Double { bits: 0x4024_0000_0000_0000, display: "10".to_string(), literal: "10.0".to_string() }
}

/// Whether two patterns stand for the same number.
pub fn bits_equal(a: u64, b: u64) -> (r: bool)
    ensures
        r == equal(a, b),
{
    !is_undefined(a) && !is_undefined(b) && !bits_below(a, b) && !bits_below(b, a)
}

} // verus!
