//! The values that field slots hold.

use vstd::prelude::*;

verus! {

/// A value as a field slot holds it.
///
/// Floating-point values are kept by their bit patterns, so that a slot
/// reproduces exactly the bits that the class file gave.
#[derive(Debug, PartialEq, Eq)]
pub enum Oop {
    Int(i32),
    Long(i64),
    /// The bits of a 32-bit float.
    Float(u32),
    /// The bits of a 64-bit float.
    Double(u64),
    /// A string constant, as the bytes the constant pool holds for it.
    ConstUtf8(Vec<u8>),
    Null,
}

/// What an [`Oop`] stands for.
pub ghost enum OopView {
    Int(i32),
    Long(i64),
    Float(u32),
    Double(u64),
    ConstUtf8(Seq<u8>),
    Null,
}

impl View for Oop {
    type V = OopView;

    open spec fn view(&self) -> OopView {
        match *self {
            Oop::Int(v) => OopView::Int(v),
            Oop::Long(v) => OopView::Long(v),
            Oop::Float(bits) => OopView::Float(bits),
            Oop::Double(bits) => OopView::Double(bits),
            Oop::ConstUtf8(bytes) => OopView::ConstUtf8(bytes@),
            Oop::Null => OopView::Null,
        }
    }
}

/// The views of a vector of values, slot by slot.
pub open spec fn views(values: Seq<Oop>) -> Seq<OopView> {
    Seq::new(values.len(), |i: int| values[i]@)
}

/// The view of a value that may be absent.
pub open spec fn option_view(value: Option<Oop>) -> Option<OopView> {
    match value {
        Some(v) => Some(v@),
        None => None,
    }
}

impl Oop {
    /// A 32-bit integer; the smaller integer kinds are held as one too.
    pub fn new_int(v: i32) -> (r: Oop)
        ensures
            r@ == OopView::Int(v),
    {
        Oop::Int(v)
    }

    /// A 64-bit integer.
    pub fn new_long(v: i64) -> (r: Oop)
        ensures
            r@ == OopView::Long(v),
    {
        Oop::Long(v)
    }

    /// A 32-bit float with the given bits.
    pub fn new_float(bits: u32) -> (r: Oop)
        ensures
            r@ == OopView::Float(bits),
    {
        Oop::Float(bits)
    }

    /// A 64-bit float with the given bits.
    pub fn new_double(bits: u64) -> (r: Oop)
        ensures
            r@ == OopView::Double(bits),
    {
        Oop::Double(bits)
    }

    /// A string constant with the given bytes.
    pub fn new_const_utf8(bytes: Vec<u8>) -> (r: Oop)
        ensures
            r@ == OopView::ConstUtf8(bytes@),
    {
        Oop::ConstUtf8(bytes)
    }

}

impl Clone for Oop {
    /// A copy that stands for the same value.
    fn clone(&self) -> (r: Oop)
        ensures
            r@ == self@,
    {
        match self {
            Oop::Int(v) => Oop::Int(*v),
            Oop::Long(v) => Oop::Long(*v),
            Oop::Float(bits) => Oop::Float(*bits),
            Oop::Double(bits) => Oop::Double(*bits),
            Oop::ConstUtf8(bytes) => Oop::ConstUtf8(bytes.clone()),
            Oop::Null => Oop::Null,
        }
    }
}

} // verus!
