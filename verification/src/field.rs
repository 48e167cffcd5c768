//! Linked fields: what a class declares of a field, resolved against the pool.

use vstd::prelude::*;
use vstd::utf8::{decode_utf8, valid_utf8};
use crate::constant_pool::{
    constant_at, lemma_constant_round_trip, spells, utf8_at, ConstantPool, ConstantPoolEntry,
};
use crate::error::LinkageError;
use crate::oop::{option_view, Oop, OopView};
use crate::value_type::{is_primitive_kind, kind_of_descriptor, zero_of, ValueType};

verus! {

/// The field may be read and written from anywhere.
pub const ACC_PUBLIC: u16 = 0x0001;

/// The field is visible inside its class only.
pub const ACC_PRIVATE: u16 = 0x0002;

/// The field is visible to subclasses and to its package.
pub const ACC_PROTECTED: u16 = 0x0004;

/// The field belongs to the class, not to each instance.
pub const ACC_STATIC: u16 = 0x0008;

/// The field is never assigned after construction.
pub const ACC_FINAL: u16 = 0x0010;

/// Reads and writes of the field are never cached.
pub const ACC_VOLATILE: u16 = 0x0040;

/// The separator between the parts of a field's rendering: `:`.
pub const SEPARATOR: u8 = 0x3a;

/// The handle of a loaded class: its index in the class table.
pub type ClassId = usize;

/// An attribute of a field as the class file declares it.
#[derive(Clone, Copy, Debug, PartialEq, Eq)]
pub enum Attribute {
    /// The field starts out as the constant at this index of the pool.
    ConstantValue { constant_value_index: u16 },
    /// Any attribute that has no bearing on linkage.
    Other,
}

/// A field as the class file declares it, before linking.
#[derive(Debug, PartialEq, Eq)]
pub struct FieldInfo {
    pub access_flags: u16,
    pub name_index: u16,
    pub desc_index: u16,
    pub attrs: Vec<Attribute>,
}

/// A linked field: what a class declares of it, resolved against the pool.
#[derive(Debug, PartialEq, Eq)]
pub struct Field {
    /// The class that declares the field.
    pub class: ClassId,
    /// The name of that class.
    pub cls_name: Vec<u8>,
    pub name: Vec<u8>,
    pub desc: Vec<u8>,
    pub acc_flags: u16,
    /// The kind that the descriptor's first byte announces.
    pub value_type: ValueType,
    /// The constant that the class file gives as the field's first value, if it gives one.
    pub attr_constant_value: Option<Oop>,
}

/// What a [`Field`] stands for.
pub ghost struct FieldView {
    pub class: int,
    pub cls_name: Seq<u8>,
    pub name: Seq<u8>,
    pub desc: Seq<u8>,
    pub acc_flags: u16,
    pub value_type: ValueType,
    pub attr_constant_value: Option<OopView>,
}

impl View for Field {
    type V = FieldView;

    open spec fn view(&self) -> FieldView {
        FieldView {
            class: self.class as int,
            cls_name: self.cls_name@,
            name: self.name@,
            desc: self.desc@,
            acc_flags: self.acc_flags,
            value_type: self.value_type,
            attr_constant_value: option_view(self.attr_constant_value),
        }
    }
}

/// A field together with the slot that holds its value.
#[derive(PartialEq, Eq)]
pub struct FieldId {
    pub offset: usize,
    pub field: Field,
}

/// What a [`FieldId`] stands for.
pub ghost struct FieldIdView {
    pub offset: int,
    pub field: FieldView,
}

impl View for FieldId {
    type V = FieldIdView;

    open spec fn view(&self) -> FieldIdView {
        FieldIdView { offset: self.offset as int, field: self.field@ }
    }
}

/// Whether every bit of `mask` is set in `flags`.
pub open spec fn has_flag(flags: u16, mask: u16) -> bool {
    flags & mask == mask
}

/// The pool index that the first `ConstantValue` attribute at or after `start` names.
pub open spec fn first_constant_value_from(attrs: Seq<Attribute>, start: int) -> Option<u16>
    decreases attrs.len() - start,
{
    if start < 0 || start >= attrs.len() {
        None
    } else {
        match attrs[start] {
            Attribute::ConstantValue { constant_value_index } => Some(constant_value_index),
            Attribute::Other => first_constant_value_from(attrs, start + 1),
        }
    }
}

/// The pool index that the first `ConstantValue` attribute names, if there is one.
pub open spec fn first_constant_value(attrs: Seq<Attribute>) -> Option<u16> {
    first_constant_value_from(attrs, 0)
}

/// The value that a `ConstantValue` attribute with the given index stands for.
/// An index that leads to anything but a number or a string is a linkage error.
pub open spec fn constant_value_at(pool: Seq<ConstantPoolEntry>, i: int) -> Result<
    OopView,
    LinkageError,
> {
    match constant_at(pool, i) {
        Ok(v) => Ok(v),
        Err(_) => Err(LinkageError::WrongConstantTag),
    }
}

/// The field that linking makes of a declaration, or the reason why it makes none.
///
/// The name and the descriptor come from the pool; the kind from the
/// descriptor's first byte; the initial constant from the first
/// `ConstantValue` attribute.
pub open spec fn linked_field(
    pool: Seq<ConstantPoolEntry>,
    fi: FieldInfo,
    cls_name: Seq<u8>,
    class: int,
) -> Result<FieldView, LinkageError> {
    match utf8_at(pool, fi.name_index as int) {
        Err(_) => Err(LinkageError::WrongConstantTag),
        Ok(name) => match utf8_at(pool, fi.desc_index as int) {
            Err(_) => Err(LinkageError::WrongConstantTag),
            Ok(desc) => match kind_of_descriptor(desc) {
                Err(e) => Err(e),
                Ok(kind) => {
                    let field = FieldView {
                        class,
                        cls_name,
                        name,
                        desc,
                        acc_flags: fi.access_flags,
                        value_type: kind,
                        attr_constant_value: None,
                    };
                    match first_constant_value(fi.attrs@) {
                        None => Ok(field),
                        Some(index) => match constant_value_at(pool, index as int) {
                            Err(e) => Err(e),
                            Ok(v) => Ok(FieldView { attr_constant_value: Some(v), ..field }),
                        },
                    }
                },
            },
        },
    }
}

/// The view of a linked field or of the error in its place.
pub open spec fn field_result_view(r: Result<Field, LinkageError>) -> Result<
    FieldView,
    LinkageError,
> {
    match r {
        Ok(f) => Ok(f@),
        Err(e) => Err(e),
    }
}

/// The view of a constant or of the error in its place.
pub open spec fn oop_result_view(r: Result<Oop, LinkageError>) -> Result<OopView, LinkageError> {
    match r {
        Ok(v) => Ok(v@),
        Err(e) => Err(e),
    }
}

/// The bytes of a field's rendering: class name, field name and descriptor,
/// with a colon between them.
pub open spec fn rendering(field: FieldView) -> Seq<u8> {
    field.cls_name + seq![SEPARATOR] + field.name + seq![SEPARATOR] + field.desc
}

/// The descriptor of a string field: `Ljava/lang/String;`.
pub open spec fn string_descriptor() -> Seq<u8> {
    seq![
        0x4cu8, 0x6a, 0x61, 0x76, 0x61, 0x2f, 0x6c, 0x61, 0x6e, 0x67, 0x2f, 0x53, 0x74, 0x72, 0x69,
        0x6e, 0x67, 0x3b,
    ]
}

/// Whether a field starts out as the constant that the class file gives for
/// it: only a static final field of a primitive kind or of type string does.
pub open spec fn takes_constant(f: FieldView) -> bool {
    &&& has_flag(f.acc_flags, ACC_STATIC)
    &&& has_flag(f.acc_flags, ACC_FINAL)
    &&& (is_primitive_kind(f.value_type) || f.desc == string_descriptor())
}

/// The value that the slot of a static field holds once its class is
/// prepared: the constant from the class file where the field takes one,
/// else the zero of the field's kind.
pub open spec fn first_static_value(f: FieldView) -> OopView {
    if takes_constant(f) && f.attr_constant_value is Some {
        f.attr_constant_value->Some_0
    } else {
        match zero_of(f.value_type) {
            Some(zero) => zero,
            None => OopView::Null,
        }
    }
}

/// The constant of a field survives linking: where a declaration links at
/// all and its first `ConstantValue` attribute names an entry that spells a
/// constant, the linked field carries exactly that constant.
pub proof fn lemma_constant_value_round_trip(
    pool: Seq<ConstantPoolEntry>,
    fi: FieldInfo,
    cls_name: Seq<u8>,
    class: int,
    index: u16,
    v: OopView,
)
    requires
        utf8_at(pool, fi.name_index as int) is Ok,
        utf8_at(pool, fi.desc_index as int) is Ok,
        kind_of_descriptor(utf8_at(pool, fi.desc_index as int)->Ok_0) is Ok,
        first_constant_value(fi.attrs@) == Some(index),
        index < pool.len(),
        spells(pool, pool[index as int], v),
    ensures
        linked_field(pool, fi, cls_name, class) matches Ok(f) && f.attr_constant_value == Some(v),
{
    lemma_constant_round_trip(pool, index as int, v);
}

/// The six flags do not depend on each other: whatever is wanted of each of
/// them, some flag word answers all six questions as wanted.
pub proof fn lemma_flags_independent(
    public: bool,
    private: bool,
    protected: bool,
    of_class: bool,
    constant: bool,
    volatile: bool,
)
    ensures
        exists|flags: u16|
            {
                &&& #[trigger] has_flag(flags, ACC_PUBLIC) == public
                &&& has_flag(flags, ACC_PRIVATE) == private
                &&& has_flag(flags, ACC_PROTECTED) == protected
                &&& has_flag(flags, ACC_STATIC) == of_class
                &&& has_flag(flags, ACC_FINAL) == constant
                &&& has_flag(flags, ACC_VOLATILE) == volatile
            },
{
    let a: u16 = if public { 0x0001 } else { 0 };
    let b: u16 = if private { 0x0002 } else { 0 };
    let c: u16 = if protected { 0x0004 } else { 0 };
    let d: u16 = if of_class { 0x0008 } else { 0 };
    let e: u16 = if constant { 0x0010 } else { 0 };
    let f: u16 = if volatile { 0x0040 } else { 0 };
    let flags: u16 = a | b | c | d | e | f;
    assert({
        &&& (flags & 0x0001 == 0x0001) == (a == 0x0001)
        &&& (flags & 0x0002 == 0x0002) == (b == 0x0002)
        &&& (flags & 0x0004 == 0x0004) == (c == 0x0004)
        &&& (flags & 0x0008 == 0x0008) == (d == 0x0008)
        &&& (flags & 0x0010 == 0x0010) == (e == 0x0010)
        &&& (flags & 0x0040 == 0x0040) == (f == 0x0040)
    }) by (bit_vector)
        requires
            flags == a | b | c | d | e | f,
            a == 0x0001 || a == 0,
            b == 0x0002 || b == 0,
            c == 0x0004 || c == 0,
            d == 0x0008 || d == 0,
            e == 0x0010 || e == 0,
            f == 0x0040 || f == 0,
    ;
    assert(has_flag(flags, ACC_PUBLIC) == public);
}

/// A flag answers for its own bit only: setting or clearing any bits
/// outside a mask leaves the answer for that mask as it was.
pub proof fn lemma_flag_reads_own_bit(flags: u16, mask: u16, others: u16)
    requires
        mask & others == 0,
    ensures
        has_flag(flags | others, mask) == has_flag(flags, mask),
        has_flag(flags & !others, mask) == has_flag(flags, mask),
{
    assert(((flags | others) & mask == mask) == (flags & mask == mask)) by (bit_vector)
        requires
            mask & others == 0,
    ;
    assert(((flags & !others) & mask == mask) == (flags & mask == mask)) by (bit_vector)
        requires
            mask & others == 0,
    ;
}

/// Resolves the constant that a `ConstantValue` attribute names.
pub fn constant_value(cp: &ConstantPool, v_idx: usize) -> (r: Result<Oop, LinkageError>)
    ensures
        oop_result_view(r) == constant_value_at(cp@, v_idx as int),
{
    match cp.get_constant(v_idx) {
        Ok(v) => Ok(v),
        Err(_) => Err(LinkageError::WrongConstantTag),
    }
}

/// Finds the pool index that the first `ConstantValue` attribute names.
pub fn find_constant_value(attrs: &Vec<Attribute>) -> (r: Option<u16>)
    ensures
        r == first_constant_value(attrs@),
{
    let mut i: usize = 0;
    while i < attrs.len()
        invariant
            i <= attrs.len(),
            first_constant_value(attrs@) == first_constant_value_from(attrs@, i as int),
        decreases attrs.len() - i,
    {
        match attrs[i] {
            Attribute::ConstantValue { constant_value_index } => {
                return Some(constant_value_index);
            },
            Attribute::Other => {},
        }
        i += 1;
    }
    None
}

/// Decodes bytes as UTF-8 for display. `String::from_utf8_lossy` returns valid
/// UTF-8 as the string it spells and puts U+FFFD in place of whatever is not
/// valid; the contract claims the first half only.
#[verifier::external_body]
fn lossy_string(bytes: &[u8]) -> (r: String)
    ensures
        valid_utf8(bytes@) ==> r@ == decode_utf8(bytes@),
{
    String::from_utf8_lossy(bytes).into_owned()
}

impl Clone for Field {
    fn clone(&self) -> (r: Field)
        ensures
            r@ == self@,
    {
        Field {
            class: self.class,
            cls_name: self.cls_name.clone(),
            name: self.name.clone(),
            desc: self.desc.clone(),
            acc_flags: self.acc_flags,
            value_type: self.value_type,
            attr_constant_value: match &self.attr_constant_value {
                Some(v) => Some(v.clone()),
                None => None,
            },
        }
    }
}

impl Clone for FieldId {
    fn clone(&self) -> (r: FieldId)
        ensures
            r@ == self@,
    {
        FieldId { offset: self.offset, field: self.field.clone() }
    }
}

impl Field {
    /// Links a declared field of the class `class`, named `cls_name`, against the pool.
    pub fn new(cp: &ConstantPool, fi: &FieldInfo, cls_name: Vec<u8>, class: ClassId) -> (r: Result<
        Field,
        LinkageError,
    >)
        ensures
            field_result_view(r) == linked_field(cp@, *fi, cls_name@, class as int),
    {
        let name = match cp.get_utf8(fi.name_index as usize) {
            Ok(bytes) => bytes.clone(),
            Err(_) => {
                return Err(LinkageError::WrongConstantTag);
            },
        };
        let desc = match cp.get_utf8(fi.desc_index as usize) {
            Ok(bytes) => bytes.clone(),
            Err(_) => {
                return Err(LinkageError::WrongConstantTag);
            },
        };
        let value_type = ValueType::from_descriptor(desc.as_slice())?;
        let acc_flags = fi.access_flags;
        let attr_constant_value = match find_constant_value(&fi.attrs) {
            None => None,
            Some(index) => Some(constant_value(cp, index as usize)?),
        };
        Ok(Field { class, cls_name, name, desc, acc_flags, value_type, attr_constant_value })
    }

    /// Whether the field may be read and written from anywhere.
    pub fn is_public(&self) -> (r: bool)
        ensures
            r == has_flag(self.acc_flags, ACC_PUBLIC),
    {
        (self.acc_flags & ACC_PUBLIC) == ACC_PUBLIC
    }

    /// Whether the field is visible inside its class only.
    pub fn is_private(&self) -> (r: bool)
        ensures
            r == has_flag(self.acc_flags, ACC_PRIVATE),
    {
        (self.acc_flags & ACC_PRIVATE) == ACC_PRIVATE
    }

    /// Whether the field is visible to subclasses and to its package.
    pub fn is_protected(&self) -> (r: bool)
        ensures
            r == has_flag(self.acc_flags, ACC_PROTECTED),
    {
        (self.acc_flags & ACC_PROTECTED) == ACC_PROTECTED
    }

    /// Whether the field is never assigned after construction.
    pub fn is_final(&self) -> (r: bool)
        ensures
            r == has_flag(self.acc_flags, ACC_FINAL),
    {
        (self.acc_flags & ACC_FINAL) == ACC_FINAL
    }

    /// Whether the field belongs to the class rather than to each instance.
    pub fn is_static(&self) -> (r: bool)
        ensures
            r == has_flag(self.acc_flags, ACC_STATIC),
    {
        (self.acc_flags & ACC_STATIC) == ACC_STATIC
    }

    /// Whether reads and writes of the field are never cached.
    pub fn is_volatile(&self) -> (r: bool)
        ensures
            r == has_flag(self.acc_flags, ACC_VOLATILE),
    {
        (self.acc_flags & ACC_VOLATILE) == ACC_VOLATILE
    }

    /// The value that a fresh slot of this field holds: the zero of its kind.
    /// A field of kind `Void` has no such value.
    pub fn get_constant_value(&self) -> (r: Oop)
        requires
            self.value_type != ValueType::Void,
        ensures
            Some(r@) == zero_of(self.value_type),
    {
        match self.value_type.default_oop() {
            Some(v) => v,
            None => Oop::Null,
        }
    }

    /// The first value that the class file gives for this field, if it gives one.
    pub fn get_attr_constant_value(&self) -> (r: Option<Oop>)
        ensures
            option_view(r) == self@.attr_constant_value,
    {
        match &self.attr_constant_value {
            Some(v) => Some(v.clone()),
            None => None,
        }
    }

    /// Whether the descriptor is that of a string.
    pub fn is_string(&self) -> (r: bool)
        ensures
            r == (self.desc@ == string_descriptor()),
    {
        let expected: [u8; 18] = [
            0x4c, 0x6a, 0x61, 0x76, 0x61, 0x2f, 0x6c, 0x61, 0x6e, 0x67, 0x2f, 0x53, 0x74, 0x72,
            0x69, 0x6e, 0x67, 0x3b,
        ];
        assert(expected@ =~= string_descriptor());
        if self.desc.len() != 18 {
            return false;
        }
        let mut i: usize = 0;
        while i < 18
            invariant
                i <= 18,
                self.desc@.len() == 18,
                expected@ == string_descriptor(),
                forall|j: int| 0 <= j < i ==> self.desc@[j] == expected@[j],
            decreases 18 - i,
        {
            if self.desc[i] != expected[i] {
                return false;
            }
            i += 1;
        }
        assert(self.desc@ =~= expected@);
        true
    }

    /// The value that this field's static slot holds once the class is prepared.
    pub fn first_static_value(&self) -> (r: Oop)
        ensures
            r@ == first_static_value(self@),
    {
        let takes = self.is_static() && self.is_final() && (self.value_type.is_primitive()
            || self.is_string());
        if takes {
            if let Some(v) = &self.attr_constant_value {
                return v.clone();
            }
        }
        match self.value_type.default_oop() {
            Some(zero) => zero,
            None => Oop::Null,
        }
    }

    /// The bytes of the rendering `class:name:descriptor`.
    pub fn debug_bytes(&self) -> (r: Vec<u8>)
        ensures
            r@ == rendering(self@),
    {
        let mut out: Vec<u8> = self.cls_name.clone();
        out.push(SEPARATOR);
        let mut name = self.name.clone();
        out.append(&mut name);
        out.push(SEPARATOR);
        let mut desc = self.desc.clone();
        out.append(&mut desc);
        out
    }

    /// The rendering `class:name:descriptor` as text. Bytes that are not
    /// valid UTF-8 are shown as replacement characters.
    pub fn debug_string(&self) -> (r: String)
        ensures
            valid_utf8(rendering(self@)) ==> r@ == decode_utf8(rendering(self@)),
    {
        let bytes = self.debug_bytes();
        lossy_string(bytes.as_slice())
    }
}

} // verus!
