//! The dynamic runtime value of the language, and its operator semantics.
//!
//! A Number is carried as its IEEE-754 binary64 bit pattern (see `numeric`).
//! The `ArithmeticError` variant is an internal sentinel that signals a
//! failed operator application; the evaluator turns it into a reported
//! runtime error and never returns it to a caller.
//!
//! Operator policy, fixed here and tested: `+` is defined on two Strings
//! (concatenation) and on two Numbers (sum) and on nothing else; division by
//! a zero Number of either sign is an arithmetic error, not an infinity.

use vstd::prelude::*;
use crate::numeric::add_bits;
use crate::numeric::decimal_of_bits;
use crate::numeric::div_bits;
use crate::numeric::mul_bits;
use crate::numeric::num_add;
use crate::numeric::num_div;
use crate::numeric::num_eq;
use crate::numeric::num_eq_bits;
use crate::numeric::num_is_zero;
use crate::numeric::num_le;
use crate::numeric::num_le_bits;
use crate::numeric::num_lt;
use crate::numeric::num_lt_bits;
use crate::numeric::num_mul;
use crate::numeric::num_sub;
use crate::numeric::num_to_text;
use crate::numeric::sub_bits;
use crate::numeric::zero_bits;
use crate::text::chars_to_string;
use crate::text::push_str_chars;
use crate::text::push_string_chars;

verus! {

/// Mathematical image of a runtime value.
pub ghost enum ObjectV {
    Num(u64),
    Str(Seq<char>),
    Bool(bool),
    Nil,
    ArithmeticError,
}

/// A dynamic runtime value. `Num` holds the IEEE-754 binary64 bit pattern
/// of the number.
#[derive(Debug, Clone, PartialEq)]
pub enum Object {
    Num(u64),
    Str(String),
    Bool(bool),
    Nil,
    ArithmeticError,
}

impl View for Object {
    type V = ObjectV;

    open spec fn view(&self) -> ObjectV {
        match self {
            Object::Num(n) => ObjectV::Num(*n),
            Object::Str(s) => ObjectV::Str(s@),
            Object::Bool(b) => ObjectV::Bool(*b),
            Object::Nil => ObjectV::Nil,
            Object::ArithmeticError => ObjectV::ArithmeticError,
        }
    }
}

/// Subtraction: defined on two Numbers, an arithmetic error otherwise.
pub open spec fn spec_sub(a: ObjectV, b: ObjectV) -> ObjectV {
    match (a, b) {
        (ObjectV::Num(x), ObjectV::Num(y)) => ObjectV::Num(sub_bits(x, y)),
        _ => ObjectV::ArithmeticError,
    }
}

/// Division: defined on two Numbers with a nonzero divisor; division by a
/// zero of either sign, or any non-Number operand, is an arithmetic error.
pub open spec fn spec_div(a: ObjectV, b: ObjectV) -> ObjectV {
    match (a, b) {
        (ObjectV::Num(x), ObjectV::Num(y)) => if zero_bits(y) {
            ObjectV::ArithmeticError
        } else {
            ObjectV::Num(div_bits(x, y))
        },
        _ => ObjectV::ArithmeticError,
    }
}

/// Multiplication: defined on two Numbers, an arithmetic error otherwise.
pub open spec fn spec_mul(a: ObjectV, b: ObjectV) -> ObjectV {
    match (a, b) {
        (ObjectV::Num(x), ObjectV::Num(y)) => ObjectV::Num(mul_bits(x, y)),
        _ => ObjectV::ArithmeticError,
    }
}

/// Addition: two Strings concatenate, two Numbers sum, every other
/// combination is an arithmetic error.
pub open spec fn spec_add(a: ObjectV, b: ObjectV) -> ObjectV {
    match (a, b) {
        (ObjectV::Str(x), ObjectV::Str(y)) => ObjectV::Str(x + y),
        (ObjectV::Num(x), ObjectV::Num(y)) => ObjectV::Num(add_bits(x, y)),
        _ => ObjectV::ArithmeticError,
    }
}

/// Structural equality of two values; two Numbers compare by IEEE-754
/// equality, values of different variants are unequal.
pub open spec fn spec_obj_eq(a: ObjectV, b: ObjectV) -> bool {
    match (a, b) {
        (ObjectV::Num(x), ObjectV::Num(y)) => num_eq_bits(x, y),
        (ObjectV::Str(x), ObjectV::Str(y)) => x == y,
        (ObjectV::Bool(x), ObjectV::Bool(y)) => x == y,
        (ObjectV::Nil, ObjectV::Nil) => true,
        (ObjectV::ArithmeticError, ObjectV::ArithmeticError) => true,
        _ => false,
    }
}

/// Strict order: defined only between two Numbers, false otherwise.
pub open spec fn spec_obj_lt(a: ObjectV, b: ObjectV) -> bool {
    match (a, b) {
        (ObjectV::Num(x), ObjectV::Num(y)) => num_lt_bits(x, y),
        _ => false,
    }
}

/// Non-strict order: defined only between two Numbers, false otherwise.
pub open spec fn spec_obj_le(a: ObjectV, b: ObjectV) -> bool {
    match (a, b) {
        (ObjectV::Num(x), ObjectV::Num(y)) => num_le_bits(x, y),
        _ => false,
    }
}

/// The display form of a value: a Number renders in decimal, a String as its
/// bare text, booleans as `true`/`false`, Nil as `Nil`. The internal
/// sentinel has no display form.
pub open spec fn spec_display(v: ObjectV) -> Seq<char> {
    match v {
        ObjectV::Num(n) => decimal_of_bits(n),
        ObjectV::Str(s) => s,
        ObjectV::Bool(b) => if b {
            "true"@
        } else {
            "false"@
        },
        ObjectV::Nil => "Nil"@,
        ObjectV::ArithmeticError => Seq::empty(),
    }
}

impl Object {
    /// A copy of this value, equal to it.
    pub fn dup(&self) -> (r: Object)
        ensures
            r@ == self@,
    {
        match self {
            Object::Num(n) => Object::Num(*n),
            Object::Str(s) => Object::Str(s.clone()),
            Object::Bool(b) => Object::Bool(*b),
            Object::Nil => Object::Nil,
            Object::ArithmeticError => Object::ArithmeticError,
        }
    }

    pub fn sub(self, other: Object) -> (r: Object)
        ensures
            r@ == spec_sub(self@, other@),
    {
        match (self, other) {
            (Object::Num(x), Object::Num(y)) => Object::Num(num_sub(x, y)),
            _ => Object::ArithmeticError,
        }
    }

    pub fn div(self, other: Object) -> (r: Object)
        ensures
            r@ == spec_div(self@, other@),
    {
        match (self, other) {
            (Object::Num(x), Object::Num(y)) => if num_is_zero(y) {
                Object::ArithmeticError
            } else {
                Object::Num(num_div(x, y))
            },
            _ => Object::ArithmeticError,
        }
    }

    pub fn mul(self, other: Object) -> (r: Object)
        ensures
            r@ == spec_mul(self@, other@),
    {
        match (self, other) {
            (Object::Num(x), Object::Num(y)) => Object::Num(num_mul(x, y)),
            _ => Object::ArithmeticError,
        }
    }

    pub fn add(self, other: Object) -> (r: Object)
        ensures
            r@ == spec_add(self@, other@),
    {
        match (self, other) {
            (Object::Str(x), Object::Str(y)) => {
                let mut buf: Vec<char> = Vec::new();
                push_string_chars(&mut buf, &x);
                push_string_chars(&mut buf, &y);
                Object::Str(chars_to_string(&buf))
            },
            (Object::Num(x), Object::Num(y)) => Object::Num(num_add(x, y)),
            _ => Object::ArithmeticError,
        }
    }

    /// Structural equality; two Numbers compare by IEEE-754 equality.
    pub fn equals(&self, other: &Object) -> (r: bool)
        ensures
            r == spec_obj_eq(self@, other@),
    {
        match (self, other) {
            (Object::Num(x), Object::Num(y)) => num_eq(*x, *y),
            (Object::Str(x), Object::Str(y)) => x.eq(y),
            (Object::Bool(x), Object::Bool(y)) => *x == *y,
            (Object::Nil, Object::Nil) => true,
            (Object::ArithmeticError, Object::ArithmeticError) => true,
            _ => false,
        }
    }

    pub fn lt(&self, other: &Object) -> (r: bool)
        ensures
            r == spec_obj_lt(self@, other@),
    {
        match (self, other) {
            (Object::Num(x), Object::Num(y)) => num_lt(*x, *y),
            _ => false,
        }
    }

    pub fn le(&self, other: &Object) -> (r: bool)
        ensures
            r == spec_obj_le(self@, other@),
    {
        match (self, other) {
            (Object::Num(x), Object::Num(y)) => num_le(*x, *y),
            _ => false,
        }
    }

    pub fn gt(&self, other: &Object) -> (r: bool)
        ensures
            r == spec_obj_lt(other@, self@),
    {
        other.lt(self)
    }

    pub fn ge(&self, other: &Object) -> (r: bool)
        ensures
            r == spec_obj_le(other@, self@),
    {
        other.le(self)
    }

    /// Whether this value is the internal arithmetic-error sentinel.
    pub fn is_arithmetic_error(&self) -> (r: bool)
        ensures
            r == (self@ is ArithmeticError),
    {
        match self {
            Object::ArithmeticError => true,
            _ => false,
        }
    }

    /// The display form of this value, as written by a print statement.
    pub fn as_string(&self) -> (r: String)
        requires
            !(self@ is ArithmeticError),
        ensures
            r@ == spec_display(self@),
    {
        match self {
            Object::Num(n) => num_to_text(*n),
            Object::Str(s) => s.clone(),
            Object::Bool(b) => {
                let mut buf: Vec<char> = Vec::new();
                if *b {
                    push_str_chars(&mut buf, "true");
                } else {
                    push_str_chars(&mut buf, "false");
                }
                chars_to_string(&buf)
            },
            Object::Nil => {
                let mut buf: Vec<char> = Vec::new();
                push_str_chars(&mut buf, "Nil");
                chars_to_string(&buf)
            },
            Object::ArithmeticError => {
                proof {
                    assert(false);
                }
                let buf: Vec<char> = Vec::new();
                chars_to_string(&buf)
            },
        }
    }
}


/// The addition policy: two Strings concatenate, two Numbers sum by
/// IEEE-754 addition, and every other combination of operands, a String
/// and a Number included, is an arithmetic error.
pub proof fn lemma_add_policy(a: ObjectV, b: ObjectV)
    ensures
        a is Str && b is Str ==> spec_add(a, b) == ObjectV::Str(a->Str_0 + b->Str_0),
        a is Num && b is Num ==> spec_add(a, b) == ObjectV::Num(add_bits(a->Num_0, b->Num_0)),
        !(a is Str && b is Str) && !(a is Num && b is Num) ==> spec_add(a, b) is ArithmeticError,
{
}

/// The division policy: dividing by a zero Number of either sign is an
/// arithmetic error, never a value; in particular it never yields an
/// infinity.
pub proof fn lemma_division_by_zero(a: ObjectV, b: ObjectV)
    ensures
        b is Num && zero_bits(b->Num_0) ==> spec_div(a, b) is ArithmeticError,
{
}

} // verus!
