//! Values of the Lox interpreter.
use vstd::prelude::*;

use super::allocator::Reference;
use super::function::{Closure, Function, NativeFn};

verus! {

/// A value. A number is held as the bit pattern of its IEEE 754 double.
#[derive(Clone, Copy)]
pub enum Value {
    Bool(bool),
    Nil,
    Number(u64),
    String(Reference<String>),
    Function(Reference<Function>),
    Closure(Reference<Closure>),
    Native(NativeFn),
}

impl Value {
    /// The value counts as false: `nil` and `false` do.
    pub open spec fn is_falsy_spec(&self) -> bool {
        *self matches Value::Bool(b) && !b || *self is Nil
    }

    /// Whether the value counts as false: `nil` and `false` do.
    pub fn is_falsy(&self) -> (r: bool)
        ensures
            r == self.is_falsy_spec(),
    {
        match self {
            Value::Bool(v) => !*v,
            Value::Nil => true,
            _ => false,
        }
    }

    /// The bits of a number.
    pub fn as_number(&self) -> (r: u64)
        requires
            *self is Number,
        ensures
            *self == Value::Number(r),
    {
        match self {
            Value::Number(v) => *v,
            _ => vstd::pervasive::unreached(),
        }
    }

    /// The boolean of a boolean value.
    pub fn as_bool(&self) -> (r: bool)
        requires
            *self is Bool,
        ensures
            *self == Value::Bool(r),
    {
        match self {
            Value::Bool(v) => *v,
            _ => vstd::pervasive::unreached(),
        }
    }

    /// The reference of a string value.
    pub fn as_string(&self) -> (r: &Reference<String>)
        requires
            *self is String,
        ensures
            *self == Value::String(*r),
    {
        match self {
            Value::String(v) => v,
            _ => vstd::pervasive::unreached(),
        }
    }
}

} // verus!
