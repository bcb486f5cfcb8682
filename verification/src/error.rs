use vstd::prelude::*;
use crate::display::{int_text_of, nat_text, nat_to_text};
use vstd::string::StringExecFns;

verus! {

/// Numbers that write themselves out in decimal, the way their `Display`
/// does, for error reports.
pub trait NumberText: Sized {
    /// The decimal text of the number.
    spec fn spec_text(&self) -> Seq<char>;

    /// The text can be written (a decimal type has at most 38 places).
    spec fn spec_writable() -> bool;

    /// The decimal text of the number.
    fn text(&self) -> (r: String)
        requires
            Self::spec_writable(),
        ensures
            r@ == self.spec_text(),
    ;
}

/// Errors that the checked arithmetic of this crate reports.
///
/// Operands are kept in their decimal text form so that the error can be
/// shown without knowing the operand types.
#[derive(Clone, Debug, PartialEq, Eq)]
pub enum MathError {
    ParseNumber { input: String, reason: String },
    OverflowConversion { value: String },
    OverflowAdd { a: String, b: String },
    OverflowSub { a: String, b: String },
    OverflowMul { a: String, b: String },
    OverflowPow { a: String, b: String },
    OverflowShl { a: String, b: u32 },
    OverflowShr { a: String, b: u32 },
    OverflowNegation { value: String },
    InvalidNegation,
    DivisionByZero { a: String },
    RemainderByZero { a: String },
    NegativeMul { a: String, b: String },
    NegativeDiv { a: String, b: String },
    NegativeSqrt { a: String },
    SqrtFailed,
    ZeroLog,
}

pub type MathResult<T> = Result<T, MathError>;

/// The message of an error, as it is shown to a user.
pub open spec fn math_error_message(e: MathError) -> Seq<char> {
    match e {
        MathError::ParseNumber { input, reason } => "failed to parse string `"@ + input@ + "`: "@ + reason@,
        MathError::OverflowConversion { value } => "conversion overflow: "@ + value@,
        MathError::OverflowAdd { a, b } => "addition overflow: "@ + a@ + " + "@ + b@,
        MathError::OverflowSub { a, b } => "subtraction overflow: "@ + a@ + " - "@ + b@,
        MathError::OverflowMul { a, b } => "multiplication overflow: "@ + a@ + " * "@ + b@,
        MathError::OverflowPow { a, b } => "power overflow: "@ + a@ + " ^ "@ + b@,
        MathError::OverflowShl { a, b } => "left shift overflow: "@ + a@ + " << "@ + nat_text(b as int),
        MathError::OverflowShr { a, b } => "right shift overflow: "@ + a@ + " >> "@ + nat_text(b as int),
        MathError::OverflowNegation { value } => "negation overflow: -"@ + value@,
        MathError::InvalidNegation => "invalid negation"@,
        MathError::DivisionByZero { a } => "division by zero: "@ + a@ + " / 0"@,
        MathError::RemainderByZero { a } => "remainder by zero: "@ + a@ + " % 0"@,
        MathError::NegativeMul { a, b } => "multiply a non-negative lhs with a negative rhs: "@ + a@ + " * "@ + b@,
        MathError::NegativeDiv { a, b } => "divide a non-negative lhs with a negative rhs: "@ + a@ + " / "@ + b@,
        MathError::NegativeSqrt { a } => "square root of negative: sqrt("@ + a@ + ")"@,
        MathError::SqrtFailed => "square root failed"@,
        MathError::ZeroLog => "logarithm of zero"@,
    }
}

/// `e` is the error of raising ten to the power `k`.
pub open spec fn ten_pow_error(e: MathError, k: nat) -> bool {
    e matches MathError::OverflowPow { a: x, b: y } && x@ == int_text_of(10) && y@ == nat_text(k as int)
}

/// `e` is the error of multiplying `a` by `b`.
pub open spec fn mul_error(e: MathError, a: int, b: int) -> bool {
    e matches MathError::OverflowMul { a: x, b: y } && x@ == int_text_of(a) && y@ == int_text_of(b)
}

impl MathError {
    /// The message of the error, as it is shown to a user.
    pub fn message(&self) -> (r: String)
        ensures
            r@ == math_error_message(*self),
    {
        match self {
            MathError::ParseNumber { input, reason } => "failed to parse string `".to_owned().concat(input.as_str()).concat(
                "`: ",
            ).concat(reason.as_str()),
            MathError::OverflowConversion { value } => "conversion overflow: ".to_owned().concat(value.as_str()),
            MathError::OverflowAdd { a, b } => "addition overflow: ".to_owned().concat(a.as_str()).concat(" + ").concat(
                b.as_str(),
            ),
            MathError::OverflowSub { a, b } => "subtraction overflow: ".to_owned().concat(a.as_str()).concat(" - ").concat(
                b.as_str(),
            ),
            MathError::OverflowMul { a, b } => "multiplication overflow: ".to_owned().concat(a.as_str()).concat(
                " * ",
            ).concat(b.as_str()),
            MathError::OverflowPow { a, b } => "power overflow: ".to_owned().concat(a.as_str()).concat(" ^ ").concat(
                b.as_str(),
            ),
            MathError::OverflowShl { a, b } => "left shift overflow: ".to_owned().concat(a.as_str()).concat(
                " << ",
            ).concat(nat_to_text(*b as u128).as_str()),
            MathError::OverflowShr { a, b } => "right shift overflow: ".to_owned().concat(a.as_str()).concat(
                " >> ",
            ).concat(nat_to_text(*b as u128).as_str()),
            MathError::OverflowNegation { value } => "negation overflow: -".to_owned().concat(value.as_str()),
            MathError::InvalidNegation => "invalid negation".to_owned(),
            MathError::DivisionByZero { a } => "division by zero: ".to_owned().concat(a.as_str()).concat(" / 0"),
            MathError::RemainderByZero { a } => "remainder by zero: ".to_owned().concat(a.as_str()).concat(" % 0"),
            MathError::NegativeMul { a, b } => "multiply a non-negative lhs with a negative rhs: ".to_owned().concat(
                a.as_str(),
            ).concat(" * ").concat(b.as_str()),
            MathError::NegativeDiv { a, b } => "divide a non-negative lhs with a negative rhs: ".to_owned().concat(
                a.as_str(),
            ).concat(" / ").concat(b.as_str()),
            MathError::NegativeSqrt { a } => "square root of negative: sqrt(".to_owned().concat(a.as_str()).concat(")"),
            MathError::SqrtFailed => "square root failed".to_owned(),
            MathError::ZeroLog => "logarithm of zero".to_owned(),
        }
    }

    pub fn parse_number<T>(input: String, reason: String) -> (r: Self)
        ensures
            r matches MathError::ParseNumber { input: i, reason: re } && i == input && re == reason,
    {
        MathError::ParseNumber { input, reason }
    }

    pub fn overflow_conversion<A: NumberText, B>(source: A) -> (r: Self)
        requires
            A::spec_writable(),
        ensures
            r matches MathError::OverflowConversion { value: v } && v@ == source.spec_text(),
    {
        MathError::OverflowConversion { value: source.text() }
    }

    pub fn overflow_add<T: NumberText>(a: T, b: T) -> (r: Self)
        requires
            T::spec_writable(),
        ensures
            r matches MathError::OverflowAdd { a: x, b: y } && x@ == a.spec_text() && y@ == b.spec_text(),
    {
        MathError::OverflowAdd { a: a.text(), b: b.text() }
    }

    pub fn overflow_sub<T: NumberText>(a: T, b: T) -> (r: Self)
        requires
            T::spec_writable(),
        ensures
            r matches MathError::OverflowSub { a: x, b: y } && x@ == a.spec_text() && y@ == b.spec_text(),
    {
        MathError::OverflowSub { a: a.text(), b: b.text() }
    }

    pub fn overflow_mul<T1: NumberText, T2: NumberText>(a: T1, b: T2) -> (r: Self)
        requires
            T1::spec_writable(),
            T2::spec_writable(),
        ensures
            r matches MathError::OverflowMul { a: x, b: y } && x@ == a.spec_text() && y@ == b.spec_text(),
    {
        MathError::OverflowMul { a: a.text(), b: b.text() }
    }

    pub fn overflow_pow<T: NumberText>(a: T, b: u32) -> (r: Self)
        requires
            T::spec_writable(),
        ensures
            r matches MathError::OverflowPow { a: x, b: y } && x@ == a.spec_text() && y@ == nat_text(b as int),
    {
        MathError::OverflowPow { a: a.text(), b: nat_to_text(b as u128) }
    }

    pub fn overflow_shl<T: NumberText>(a: T, b: u32) -> (r: Self)
        requires
            T::spec_writable(),
        ensures
            r matches MathError::OverflowShl { a: x, b: bb } && x@ == a.spec_text() && bb == b,
    {
        MathError::OverflowShl { a: a.text(), b }
    }

    pub fn overflow_shr<T: NumberText>(a: T, b: u32) -> (r: Self)
        requires
            T::spec_writable(),
        ensures
            r matches MathError::OverflowShr { a: x, b: bb } && x@ == a.spec_text() && bb == b,
    {
        MathError::OverflowShr { a: a.text(), b }
    }

    pub fn overflow_negation<T: NumberText>(value: T) -> (r: Self)
        requires
            T::spec_writable(),
        ensures
            r matches MathError::OverflowNegation { value: v } && v@ == value.spec_text(),
    {
        MathError::OverflowNegation { value: value.text() }
    }

    pub fn division_by_zero<T: NumberText>(a: T) -> (r: Self)
        requires
            T::spec_writable(),
        ensures
            r matches MathError::DivisionByZero { a: x } && x@ == a.spec_text(),
    {
        MathError::DivisionByZero { a: a.text() }
    }

    pub fn remainder_by_zero<T: NumberText>(a: T) -> (r: Self)
        requires
            T::spec_writable(),
        ensures
            r matches MathError::RemainderByZero { a: x } && x@ == a.spec_text(),
    {
        MathError::RemainderByZero { a: a.text() }
    }

    pub fn negative_mul<A: NumberText, B: NumberText>(a: A, b: B) -> (r: Self)
        requires
            A::spec_writable(),
            B::spec_writable(),
        ensures
            r matches MathError::NegativeMul { a: x, b: y } && x@ == a.spec_text() && y@ == b.spec_text(),
    {
        MathError::NegativeMul { a: a.text(), b: b.text() }
    }

    pub fn negative_div<A: NumberText, B: NumberText>(a: A, b: B) -> (r: Self)
        requires
            A::spec_writable(),
            B::spec_writable(),
        ensures
            r matches MathError::NegativeDiv { a: x, b: y } && x@ == a.spec_text() && y@ == b.spec_text(),
    {
        MathError::NegativeDiv { a: a.text(), b: b.text() }
    }

    pub fn negative_sqrt<T: NumberText>(a: T) -> (r: Self)
        requires
            T::spec_writable(),
        ensures
            r matches MathError::NegativeSqrt { a: x } && x@ == a.spec_text(),
    {
        MathError::NegativeSqrt { a: a.text() }
    }

    pub fn zero_log() -> (r: Self)
        ensures
            r is ZeroLog,
    {
        MathError::ZeroLog
    }
}

} // verus!
