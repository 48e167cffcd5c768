//! The kinds of values that fields hold, and how a descriptor announces them.

use vstd::prelude::*;
use crate::consts::{get_double0, get_float0, get_int0, get_long0, get_null};
use crate::error::LinkageError;
use crate::oop::{option_view, Oop, OopView};

verus! {

/// The kind of value that a descriptor's first byte announces.
#[derive(Clone, Copy, Debug, PartialEq, Eq, Structural)]
pub enum ValueType {
    Byte,
    Boolean,
    Char,
    Short,
    Int,
    Long,
    Float,
    Double,
    Object,
    Array,
    Void,
}

/// `B`: a signed byte.
pub const LEAD_BYTE: u8 = 0x42;

/// `Z`: a boolean.
pub const LEAD_BOOLEAN: u8 = 0x5a;

/// `C`: a UTF-16 code unit.
pub const LEAD_CHAR: u8 = 0x43;

/// `S`: a signed 16-bit integer.
pub const LEAD_SHORT: u8 = 0x53;

/// `I`: a signed 32-bit integer.
pub const LEAD_INT: u8 = 0x49;

/// `J`: a signed 64-bit integer.
pub const LEAD_LONG: u8 = 0x4a;

/// `F`: a 32-bit float.
pub const LEAD_FLOAT: u8 = 0x46;

/// `D`: a 64-bit float.
pub const LEAD_DOUBLE: u8 = 0x44;

/// `L`: a reference to an instance of a class.
pub const LEAD_OBJECT: u8 = 0x4c;

/// `[`: a reference to an array.
pub const LEAD_ARRAY: u8 = 0x5b;

/// `V`: no value at all.
pub const LEAD_VOID: u8 = 0x56;

/// The kind announced by a descriptor's leading byte, if the byte is a legal lead.
pub open spec fn kind_of_lead(lead: u8) -> Option<ValueType> {
    if lead == LEAD_BYTE {
        Some(ValueType::Byte)
    } else if lead == LEAD_BOOLEAN {
        Some(ValueType::Boolean)
    } else if lead == LEAD_CHAR {
        Some(ValueType::Char)
    } else if lead == LEAD_SHORT {
        Some(ValueType::Short)
    } else if lead == LEAD_INT {
        Some(ValueType::Int)
    } else if lead == LEAD_LONG {
        Some(ValueType::Long)
    } else if lead == LEAD_FLOAT {
        Some(ValueType::Float)
    } else if lead == LEAD_DOUBLE {
        Some(ValueType::Double)
    } else if lead == LEAD_OBJECT {
        Some(ValueType::Object)
    } else if lead == LEAD_ARRAY {
        Some(ValueType::Array)
    } else if lead == LEAD_VOID {
        Some(ValueType::Void)
    } else {
        None
    }
}

/// The value that a fresh slot of the given kind holds: numeric zero for the
/// numeric kinds, the null reference for the reference kinds. `Void` has none.
pub open spec fn zero_of(kind: ValueType) -> Option<OopView> {
    match kind {
        ValueType::Byte
        | ValueType::Boolean
        | ValueType::Char
        | ValueType::Short
        | ValueType::Int => Some(OopView::Int(0)),
        ValueType::Long => Some(OopView::Long(0)),
        ValueType::Float => Some(OopView::Float(0)),
        ValueType::Double => Some(OopView::Double(0)),
        ValueType::Object | ValueType::Array => Some(OopView::Null),
        ValueType::Void => None,
    }
}

/// The kind of a whole descriptor: that of its first byte.
pub open spec fn kind_of_descriptor(desc: Seq<u8>) -> Result<ValueType, LinkageError> {
    if desc.len() == 0 {
        Err(LinkageError::MalformedDescriptor)
    } else {
        match kind_of_lead(desc[0]) {
            Some(k) => Ok(k),
            None => Err(LinkageError::MalformedDescriptor),
        }
    }
}

/// The eleven bytes that may start a descriptor.
pub open spec fn legal_leads() -> Set<u8> {
    set![
        LEAD_BYTE,
        LEAD_BOOLEAN,
        LEAD_CHAR,
        LEAD_SHORT,
        LEAD_INT,
        LEAD_LONG,
        LEAD_FLOAT,
        LEAD_DOUBLE,
        LEAD_OBJECT,
        LEAD_ARRAY,
        LEAD_VOID,
    ]
}

/// Classification is total: a descriptor has a kind exactly if it starts
/// with a legal lead, and every other descriptor is malformed.
pub proof fn lemma_classification_total(desc: Seq<u8>)
    ensures
        kind_of_descriptor(desc) is Ok <==> desc.len() > 0 && legal_leads().contains(desc[0]),
        kind_of_descriptor(desc) is Err ==> kind_of_descriptor(desc) == Err::<
            ValueType,
            LinkageError,
        >(LinkageError::MalformedDescriptor),
        desc.len() > 0 ==> (kind_of_lead(desc[0]) is Some <==> legal_leads().contains(desc[0])),
{
}

/// The eight kinds whose values are numbers, not references.
pub open spec fn is_primitive_kind(kind: ValueType) -> bool {
    !(kind is Object || kind is Array || kind is Void)
}

impl ValueType {
    /// Classifies a descriptor by its first byte. An empty descriptor is malformed.
    pub fn from_descriptor(desc: &[u8]) -> (r: Result<ValueType, LinkageError>)
        ensures
            r == kind_of_descriptor(desc@),
    {
        if desc.len() == 0 {
            Err(LinkageError::MalformedDescriptor)
        } else {
            ValueType::from_lead(desc[0])
        }
    }

    /// The zero of this kind, or `None` for `Void`, which no slot can hold.
    pub fn default_oop(self) -> (r: Option<Oop>)
        ensures
            option_view(r) == zero_of(self),
    {
        match self {
            ValueType::Byte
            | ValueType::Boolean
            | ValueType::Char
            | ValueType::Short
            | ValueType::Int => Some(get_int0()),
            ValueType::Long => Some(get_long0()),
            ValueType::Float => Some(get_float0()),
            ValueType::Double => Some(get_double0()),
            ValueType::Object | ValueType::Array => Some(get_null()),
            ValueType::Void => None,
        }
    }

    /// Whether values of this kind are primitives rather than references.
    pub fn is_primitive(self) -> (r: bool)
        ensures
            r == is_primitive_kind(self),
    {
        match self {
            ValueType::Object | ValueType::Array | ValueType::Void => false,
            _ => true,
        }
    }

    /// Classifies a descriptor's leading byte.
    pub fn from_lead(lead: u8) -> (r: Result<ValueType, LinkageError>)
        ensures
            r == match kind_of_lead(lead) {
                Some(k) => Ok::<ValueType, LinkageError>(k),
                None => Err(LinkageError::MalformedDescriptor),
            },
    {
        if lead == LEAD_BYTE {
            Ok(ValueType::Byte)
        } else if lead == LEAD_BOOLEAN {
            Ok(ValueType::Boolean)
        } else if lead == LEAD_CHAR {
            Ok(ValueType::Char)
        } else if lead == LEAD_SHORT {
            Ok(ValueType::Short)
        } else if lead == LEAD_INT {
            Ok(ValueType::Int)
        } else if lead == LEAD_LONG {
            Ok(ValueType::Long)
        } else if lead == LEAD_FLOAT {
            Ok(ValueType::Float)
        } else if lead == LEAD_DOUBLE {
            Ok(ValueType::Double)
        } else if lead == LEAD_OBJECT {
            Ok(ValueType::Object)
        } else if lead == LEAD_ARRAY {
            Ok(ValueType::Array)
        } else if lead == LEAD_VOID {
            Ok(ValueType::Void)
        } else {
            Err(LinkageError::MalformedDescriptor)
        }
    }
}

} // verus!
