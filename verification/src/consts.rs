//! The zeros that fresh slots start out with.

use vstd::prelude::*;
use crate::oop::{Oop, OopView};

verus! {

/// The reference that points nowhere.
pub fn get_null() -> (r: Oop)
    ensures
        r@ == OopView::Null,
{
    Oop::Null
}

/// The zero of the 32-bit integer kinds.
pub fn get_int0() -> (r: Oop)
    ensures
        r@ == OopView::Int(0),
{
    Oop::Int(0)
}

/// The zero of the 64-bit integers.
pub fn get_long0() -> (r: Oop)
    ensures
        r@ == OopView::Long(0),
{
    Oop::Long(0)
}

/// Positive zero as a 32-bit float: all bits clear.
pub fn get_float0() -> (r: Oop)
    ensures
        r@ == OopView::Float(0),
{
    Oop::Float(0)
}

/// Positive zero as a 64-bit float: all bits clear.
pub fn get_double0() -> (r: Oop)
    ensures
        r@ == OopView::Double(0),
{
    Oop::Double(0)
}

} // verus!
