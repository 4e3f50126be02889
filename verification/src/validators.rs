//! The built-in input validators.
//!
//! The numeric validators compare by the value's own total order, generic
//! over any ordered numeric type through [`OrderedNumeric`] — no unit
//! coercion; the list validators compare only element count, generic over any
//! element type. Each one's `accepts` spec function states exactly which
//! values it rejects, and the [`crate::directives::OnInputValue`] contract
//! binds the executable check to it.

use crate::directives::OnInputValue;
use crate::error::InputValueError;
use crate::error::InputValueResult;
use crate::text::dec_int;
use crate::text::dec_nat;
use crate::text::i64_to_string;
use crate::text::u64_to_string;
use crate::text::usize_to_string;
use vstd::prelude::*;
use vstd::string::StringExecFns;

verus! {

/// The capability the numeric validators ask of a value type: an order and a
/// zero given by the value's mathematical form, and its decimal rendering.
pub trait OrderedNumeric: Sized {
    /// The mathematical value.
    spec fn num(&self) -> int;

    /// Whether this value is below the other.
    fn num_lt(&self, other: &Self) -> (r: bool)
        ensures
            r == (self.num() < other.num()),
    ;

    /// Whether this value equals the other.
    fn num_eq(&self, other: &Self) -> (r: bool)
        ensures
            r == (self.num() == other.num()),
    ;

    /// Whether this value is zero.
    fn num_is_zero(&self) -> (r: bool)
        ensures
            r == (self.num() == 0),
    ;

    /// The value in decimal.
    fn num_string(&self) -> (s: String)
        ensures
            s@ == dec_int(self.num()),
    ;
}

impl OrderedNumeric for i32 {
    open spec fn num(&self) -> int {
        *self as int
    }

    fn num_lt(&self, other: &Self) -> bool {
        *self < *other
    }

    fn num_eq(&self, other: &Self) -> bool {
        *self == *other
    }

    fn num_is_zero(&self) -> bool {
        *self == 0
    }

    fn num_string(&self) -> String {
        i64_to_string(*self as i64)
    }
}

impl OrderedNumeric for i64 {
    open spec fn num(&self) -> int {
        *self as int
    }

    fn num_lt(&self, other: &Self) -> bool {
        *self < *other
    }

    fn num_eq(&self, other: &Self) -> bool {
        *self == *other
    }

    fn num_is_zero(&self) -> bool {
        *self == 0
    }

    fn num_string(&self) -> String {
        i64_to_string(*self)
    }
}

impl OrderedNumeric for u64 {
    open spec fn num(&self) -> int {
        *self as int
    }

    fn num_lt(&self, other: &Self) -> bool {
        *self < *other
    }

    fn num_eq(&self, other: &Self) -> bool {
        *self == *other
    }

    fn num_is_zero(&self) -> bool {
        *self == 0
    }

    fn num_string(&self) -> (s: String)
        ensures
            s@ == dec_int(self.num()),
    {
        u64_to_string(*self)
    }
}

/// Number equal validator.
pub struct NumberEqual<T> {
    /// Input must equal this value.
    pub value: T,
}

impl<T: OrderedNumeric> OnInputValue<T> for NumberEqual<T> {
    open spec fn accepts(&self, value: T) -> bool {
        value.num() == self.value.num()
    }

    open spec fn transformed(&self, value: T) -> T {
        value
    }

    open spec fn reason(&self, value: T) -> Seq<char> {
        "the value is "@ + dec_int(value.num()) + ", must be equal to "@ + dec_int(
            self.value.num(),
        )
    }

    fn input_value(&self, value: T) -> (r: InputValueResult<T>) {
        if !value.num_eq(&self.value) {
            let mut s = String::new();
            s.append("the value is ");
            let d = value.num_string();
            s.append(d.as_str());
            s.append(", must be equal to ");
            let b = self.value.num_string();
            s.append(b.as_str());
            proof {
                assert(s@ =~= self.reason(value));
            }
            return Err(InputValueError::Custom(s));
        }
        Ok(value)
    }
}

/// Number greater-than validator.
pub struct NumberGreaterThan<T> {
    /// Input must be greater than this value.
    pub value: T,
}

impl<T: OrderedNumeric> OnInputValue<T> for NumberGreaterThan<T> {
    open spec fn accepts(&self, value: T) -> bool {
        value.num() > self.value.num()
    }

    open spec fn transformed(&self, value: T) -> T {
        value
    }

    open spec fn reason(&self, value: T) -> Seq<char> {
        "the value is "@ + dec_int(value.num()) + ", must be greater than "@ + dec_int(
            self.value.num(),
        )
    }

    fn input_value(&self, value: T) -> (r: InputValueResult<T>) {
        if !self.value.num_lt(&value) {
            let mut s = String::new();
            s.append("the value is ");
            let d = value.num_string();
            s.append(d.as_str());
            s.append(", must be greater than ");
            let b = self.value.num_string();
            s.append(b.as_str());
            proof {
                assert(s@ =~= self.reason(value));
            }
            return Err(InputValueError::Custom(s));
        }
        Ok(value)
    }
}

/// Number less-than validator; a value equal to the bound passes, as the
/// rejection test is strictly `value > bound`.
pub struct NumberLessThan<T> {
    /// Input must not exceed this value.
    pub value: T,
}

impl<T: OrderedNumeric> OnInputValue<T> for NumberLessThan<T> {
    open spec fn accepts(&self, value: T) -> bool {
        value.num() <= self.value.num()
    }

    open spec fn transformed(&self, value: T) -> T {
        value
    }

    open spec fn reason(&self, value: T) -> Seq<char> {
        "the value is "@ + dec_int(value.num()) + ", must be less than "@ + dec_int(
            self.value.num(),
        )
    }

    fn input_value(&self, value: T) -> (r: InputValueResult<T>) {
        if self.value.num_lt(&value) {
            let mut s = String::new();
            s.append("the value is ");
            let d = value.num_string();
            s.append(d.as_str());
            s.append(", must be less than ");
            let b = self.value.num_string();
            s.append(b.as_str());
            proof {
                assert(s@ =~= self.reason(value));
            }
            return Err(InputValueError::Custom(s));
        }
        Ok(value)
    }
}

/// Number nonzero validator.
pub struct NumberNonZero;

impl<T: OrderedNumeric> OnInputValue<T> for NumberNonZero {
    open spec fn accepts(&self, value: T) -> bool {
        value.num() != 0
    }

    open spec fn transformed(&self, value: T) -> T {
        value
    }

    open spec fn reason(&self, value: T) -> Seq<char> {
        "the value is "@ + dec_int(value.num()) + ", must be nonzero"@
    }

    fn input_value(&self, value: T) -> (r: InputValueResult<T>) {
        if value.num_is_zero() {
            let mut s = String::new();
            s.append("the value is ");
            let d = value.num_string();
            s.append(d.as_str());
            s.append(", must be nonzero");
            proof {
                assert(s@ =~= self.reason(value));
            }
            return Err(InputValueError::Custom(s));
        }
        Ok(value)
    }
}

/// Number range validator: rejects a value exactly when it lies below the
/// minimum or above the maximum.
pub struct NumberRange<T> {
    /// Input must not lie below this value.
    pub min: T,
    /// Input must not lie above this value.
    pub max: T,
}

impl<T: OrderedNumeric> OnInputValue<T> for NumberRange<T> {
    open spec fn accepts(&self, value: T) -> bool {
        !(value.num() < self.min.num() || value.num() > self.max.num())
    }

    open spec fn transformed(&self, value: T) -> T {
        value
    }

    open spec fn reason(&self, value: T) -> Seq<char> {
        "the value is "@ + dec_int(value.num()) + ", must be between "@ + dec_int(self.min.num())
            + " and "@ + dec_int(self.max.num())
    }

    fn input_value(&self, value: T) -> (r: InputValueResult<T>) {
        if value.num_lt(&self.min) || self.max.num_lt(&value) {
            let mut s = String::new();
            s.append("the value is ");
            let d = value.num_string();
            s.append(d.as_str());
            s.append(", must be between ");
            let lo = self.min.num_string();
            s.append(lo.as_str());
            s.append(" and ");
            let hi = self.max.num_string();
            s.append(hi.as_str());
            proof {
                assert(s@ =~= self.reason(value));
            }
            return Err(InputValueError::Custom(s));
        }
        Ok(value)
    }
}

/// Law: the range validator rejects a value exactly when it lies below the
/// minimum or above the maximum; the other numeric and list validators state
/// their comparisons the same way in their own `accepts` functions.
pub proof fn lemma_number_range_rejects_iff<T: OrderedNumeric>(range: NumberRange<T>, value: T)
    ensures
        !range.accepts(value) <==> (value.num() < range.min.num() || value.num()
            > range.max.num()),
{
}

/// List minimum length validator.
pub struct ListMinLength {
    /// The element count must be greater than or equal to this value.
    pub length: usize,
}

impl<T> OnInputValue<Vec<T>> for ListMinLength {
    open spec fn accepts(&self, value: Vec<T>) -> bool {
        value@.len() >= self.length
    }

    open spec fn transformed(&self, value: Vec<T>) -> Vec<T> {
        value
    }

    open spec fn reason(&self, value: Vec<T>) -> Seq<char> {
        "the value length is "@ + dec_nat(value@.len()) + ", must be greater than or equal to "@
            + dec_nat(self.length as nat)
    }

    fn input_value(&self, value: Vec<T>) -> (r: InputValueResult<Vec<T>>) {
        if value.len() < self.length {
            let mut s = String::new();
            s.append("the value length is ");
            let d = usize_to_string(value.len());
            s.append(d.as_str());
            s.append(", must be greater than or equal to ");
            let b = usize_to_string(self.length);
            s.append(b.as_str());
            proof {
                assert(s@ =~= self.reason(value));
            }
            return Err(InputValueError::Custom(s));
        }
        Ok(value)
    }
}

/// List maximum length validator.
pub struct ListMaxLength {
    /// The element count must be less than or equal to this value.
    pub length: usize,
}

impl<T> OnInputValue<Vec<T>> for ListMaxLength {
    open spec fn accepts(&self, value: Vec<T>) -> bool {
        value@.len() <= self.length
    }

    open spec fn transformed(&self, value: Vec<T>) -> Vec<T> {
        value
    }

    open spec fn reason(&self, value: Vec<T>) -> Seq<char> {
        "the value length is "@ + dec_nat(value@.len()) + ", must be less than or equal to "@
            + dec_nat(self.length as nat)
    }

    fn input_value(&self, value: Vec<T>) -> (r: InputValueResult<Vec<T>>) {
        if value.len() > self.length {
            let mut s = String::new();
            s.append("the value length is ");
            let d = usize_to_string(value.len());
            s.append(d.as_str());
            s.append(", must be less than or equal to ");
            let b = usize_to_string(self.length);
            s.append(b.as_str());
            proof {
                assert(s@ =~= self.reason(value));
            }
            return Err(InputValueError::Custom(s));
        }
        Ok(value)
    }
}

} // verus!
