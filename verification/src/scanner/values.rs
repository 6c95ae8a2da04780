//! The values that conditions compute.

use vstd::prelude::*;

verus! {

/// A value as plain data. A float is held as the bits of its IEEE-754
/// double, a string as its bytes.
pub enum Val {
    Undef,
    Bool(bool),
    Int(i64),
    Float(u64),
    Str(Seq<u8>),
}

/// A value that an expression evaluates to.
#[derive(Debug)]
pub enum Value {
    /// No value: a read past the end of the data, a field that is not set,
    /// a division by zero.
    Undef,
    Bool(bool),
    Integer(i64),
    Float(u64),
    String(Vec<u8>),
}

impl View for Value {
    type V = Val;

    open spec fn view(&self) -> Val {
        match *self {
            Value::Undef => Val::Undef,
            Value::Bool(b) => Val::Bool(b),
            Value::Integer(i) => Val::Int(i),
            Value::Float(bits) => Val::Float(bits),
            Value::String(s) => Val::Str(s@),
        }
    }
}

/// The truth value that a value stands for: a truth value itself, an
/// integer that is not zero, a float that is not zero, a string that is not
/// empty. What is undefined stands for none.
pub open spec fn truth(v: Val) -> Option<bool> {
    match v {
        Val::Undef => None,
        Val::Bool(b) => Some(b),
        Val::Int(i) => Some(i != 0),
        Val::Float(bits) => Some(bits % 0x8000_0000_0000_0000 != 0),
        Val::Str(s) => Some(s.len() > 0),
    }
}

/// The value of a truth value that may be unknown.
pub open spec fn of_truth(t: Option<bool>) -> Val {
    match t {
        Some(b) => Val::Bool(b),
        None => Val::Undef,
    }
}

impl Value {
    /// The truth value that the value stands for.
    pub fn to_bool(&self) -> (t: Option<bool>)
        ensures
            t == truth(self@),
    {
        match self {
            Value::Undef => None,
            Value::Bool(b) => Some(*b),
            Value::Integer(i) => Some(*i != 0),
            // Zero has all bits clear but, perhaps, the sign.
            Value::Float(bits) => Some(*bits % 0x8000_0000_0000_0000 != 0),
            Value::String(s) => Some(s.len() > 0),
        }
    }

    /// The value of a truth value that may be unknown.
    pub fn from_bool(t: Option<bool>) -> (v: Value)
        ensures
            v@ == of_truth(t),
    {
        match t {
            Some(b) => Value::Bool(b),
            None => Value::Undef,
        }
    }
}

/// The quotient of two integers, rounded towards zero; nothing where the
/// divisor is zero or the quotient does not fit.
pub open spec fn quotient(a: i64, b: i64) -> Option<i64> {
    if b == 0 || (a == i64::MIN && b == -1) {
        None
    } else {
        let q = magnitude(a) / magnitude(b);
        Some(
            if (a < 0) == (b < 0) {
                q as i64
            } else {
                (-q) as i64
            },
        )
    }
}

/// The remainder of the division of two integers that rounds towards
/// zero: it has the sign of the dividend. Nothing where the divisor is zero.
pub open spec fn remainder(a: i64, b: i64) -> Option<i64> {
    if b == 0 {
        None
    } else {
        let r = magnitude(a) % magnitude(b);
        Some(
            if a < 0 {
                (-r) as i64
            } else {
                r as i64
            },
        )
    }
}

/// The absolute value of an integer.
pub open spec fn magnitude(a: i64) -> int {
    if a < 0 {
        -(a as int)
    } else {
        a as int
    }
}

/// The absolute value of an integer.
pub fn abs(a: i64) -> (m: u64)
    ensures
        m == magnitude(a),
{
    if a < 0 {
        ((-(a + 1)) as u64) + 1
    } else {
        a as u64
    }
}

/// Divides two integers, rounding towards zero.
pub fn divide(a: i64, b: i64) -> (q: Option<i64>)
    ensures
        q == quotient(a, b),
{
    if b == 0 || (a == i64::MIN && b == -1) {
        return None;
    }
    let q = abs(a) / abs(b);
    assert(q <= magnitude(a)) by (nonlinear_arith)
        requires
            q == magnitude(a) / magnitude(b),
            magnitude(b) >= 1,
            magnitude(a) >= 0,
    ;
    if (a < 0) == (b < 0) {
        assert(q <= i64::MAX) by (nonlinear_arith)
            requires
                q == magnitude(a) / magnitude(b),
                magnitude(a) <= 0x8000_0000_0000_0000,
                magnitude(b) >= 1,
                magnitude(a) == 0x8000_0000_0000_0000 ==> magnitude(b) >= 2,
                magnitude(a) >= 0,
        ;
        Some(q as i64)
    } else {
        if q == 0x8000_0000_0000_0000 {
            Some(i64::MIN)
        } else {
            Some(-(q as i64))
        }
    }
}

/// The remainder of a division that rounds towards zero.
pub fn modulo(a: i64, b: i64) -> (r: Option<i64>)
    ensures
        r == remainder(a, b),
{
    if b == 0 {
        return None;
    }
    let r = abs(a) % abs(b);
    assert(r < magnitude(b)) by (nonlinear_arith)
        requires
            r == magnitude(a) % magnitude(b),
            magnitude(b) >= 1,
    ;
    if a < 0 {
        Some(-(r as i64))
    } else {
        Some(r as i64)
    }
}

} // verus!
