//! Read access to a parsed constant pool.

use vstd::prelude::*;
use crate::endian::{
    be_i32, be_i64, be_u32, be_u64, i32_be_bytes, i32_from_be_bytes, i32_to_be_bytes, i64_be_bytes,
    i64_from_be_bytes, i64_to_be_bytes, lemma_i32_round_trip, lemma_i64_round_trip,
    lemma_u32_round_trip, lemma_u64_round_trip, u32_be_bytes, u32_from_be_bytes, u32_to_be_bytes,
    u64_be_bytes, u64_from_be_bytes, u64_to_be_bytes,
};
use crate::error::PoolError;
use crate::oop::{Oop, OopView};

verus! {

/// One entry of a class file's constant pool. Numbers are kept as the
/// class file spells them: big-endian bytes, decoded when they are read.
#[allow(inconsistent_fields)]
#[derive(Debug, PartialEq, Eq)]
pub enum ConstantPoolEntry {
    /// A slot that holds nothing: index zero, and the slot after a long or a double.
    Unusable,
    Utf8 { bytes: Vec<u8> },
    Integer { bytes: [u8; 4] },
    Float { bytes: [u8; 4] },
    Long { bytes: [u8; 8] },
    Double { bytes: [u8; 8] },
    Class { name_index: u16 },
    String { string_index: u16 },
    Fieldref { class_index: u16, name_and_type_index: u16 },
    Methodref { class_index: u16, name_and_type_index: u16 },
    InterfaceMethodref { class_index: u16, name_and_type_index: u16 },
    NameAndType { name_index: u16, desc_index: u16 },
}

impl ConstantPoolEntry {
    /// The entry that spells a 32-bit integer.
    pub fn integer(v: i32) -> (r: ConstantPoolEntry)
        ensures
            r matches ConstantPoolEntry::Integer { bytes } && bytes@ == i32_be_bytes(v),
    {
        ConstantPoolEntry::Integer { bytes: i32_to_be_bytes(v) }
    }

    /// The entry that spells a 64-bit integer.
    pub fn long(v: i64) -> (r: ConstantPoolEntry)
        ensures
            r matches ConstantPoolEntry::Long { bytes } && bytes@ == i64_be_bytes(v),
    {
        ConstantPoolEntry::Long { bytes: i64_to_be_bytes(v) }
    }

    /// The entry that spells the 32-bit float with the given bits.
    pub fn float(bits: u32) -> (r: ConstantPoolEntry)
        ensures
            r matches ConstantPoolEntry::Float { bytes } && bytes@ == u32_be_bytes(bits),
    {
        ConstantPoolEntry::Float { bytes: u32_to_be_bytes(bits) }
    }

    /// The entry that spells the 64-bit float with the given bits.
    pub fn double(bits: u64) -> (r: ConstantPoolEntry)
        ensures
            r matches ConstantPoolEntry::Double { bytes } && bytes@ == u64_be_bytes(bits),
    {
        ConstantPoolEntry::Double { bytes: u64_to_be_bytes(bits) }
    }

    /// The entry that holds a string's bytes.
    pub fn utf8(bytes: Vec<u8>) -> (r: ConstantPoolEntry)
        ensures
            r matches ConstantPoolEntry::Utf8 { bytes: b } && b@ == bytes@,
    {
        ConstantPoolEntry::Utf8 { bytes }
    }
}

/// A parsed constant pool: its entries, each at its index.
#[derive(Debug, PartialEq, Eq)]
pub struct ConstantPool {
    pub entries: Vec<ConstantPoolEntry>,
}

impl View for ConstantPool {
    type V = Seq<ConstantPoolEntry>;

    open spec fn view(&self) -> Seq<ConstantPoolEntry> {
        self.entries@
    }
}

/// The entry at an index, if the index lies inside the pool.
pub open spec fn entry_at(pool: Seq<ConstantPoolEntry>, i: int) -> Option<ConstantPoolEntry> {
    if 0 <= i < pool.len() {
        Some(pool[i])
    } else {
        None
    }
}

/// The bytes of the UTF-8 entry at an index.
pub open spec fn utf8_at(pool: Seq<ConstantPoolEntry>, i: int) -> Result<Seq<u8>, PoolError> {
    match entry_at(pool, i) {
        None => Err(PoolError::OutOfRange),
        Some(ConstantPoolEntry::Utf8 { bytes }) => Ok(bytes@),
        Some(_) => Err(PoolError::NotUtf8),
    }
}

/// The name and the descriptor that the name-and-type entry at an index refers to.
pub open spec fn name_and_type_at(pool: Seq<ConstantPoolEntry>, i: int) -> Result<
    (Seq<u8>, Seq<u8>),
    PoolError,
> {
    match entry_at(pool, i) {
        Some(ConstantPoolEntry::NameAndType { name_index, desc_index }) => match utf8_at(
            pool,
            name_index as int,
        ) {
            Err(e) => Err(e),
            Ok(name) => match utf8_at(pool, desc_index as int) {
                Err(e) => Err(e),
                Ok(desc) => Ok((name, desc)),
            },
        },
        _ => Err(PoolError::WrongTag),
    }
}

/// The two indices that the field reference at an index holds: that of the
/// class and that of the name and type.
pub open spec fn fieldref_at(pool: Seq<ConstantPoolEntry>, i: int) -> Result<
    (u16, u16),
    PoolError,
> {
    match entry_at(pool, i) {
        Some(ConstantPoolEntry::Fieldref { class_index, name_and_type_index }) => Ok(
            (class_index, name_and_type_index),
        ),
        _ => Err(PoolError::WrongTag),
    }
}

/// The name of the class that the class entry at an index refers to.
pub open spec fn class_name_at(pool: Seq<ConstantPoolEntry>, i: int) -> Result<
    Seq<u8>,
    PoolError,
> {
    match entry_at(pool, i) {
        Some(ConstantPoolEntry::Class { name_index }) => utf8_at(pool, name_index as int),
        _ => Err(PoolError::WrongTag),
    }
}

/// The constant that the entry at an index spells: a number decoded from its
/// big-endian bytes, or the bytes of the string that a string entry refers to.
pub open spec fn constant_at(pool: Seq<ConstantPoolEntry>, i: int) -> Result<OopView, PoolError> {
    match entry_at(pool, i) {
        Some(ConstantPoolEntry::Integer { bytes }) => Ok(OopView::Int(be_i32(bytes@) as i32)),
        Some(ConstantPoolEntry::Long { bytes }) => Ok(OopView::Long(be_i64(bytes@) as i64)),
        Some(ConstantPoolEntry::Float { bytes }) => Ok(OopView::Float(be_u32(bytes@) as u32)),
        Some(ConstantPoolEntry::Double { bytes }) => Ok(OopView::Double(be_u64(bytes@) as u64)),
        Some(ConstantPoolEntry::String { string_index }) => match utf8_at(
            pool,
            string_index as int,
        ) {
            Ok(bytes) => Ok(OopView::ConstUtf8(bytes)),
            Err(e) => Err(e),
        },
        _ => Err(PoolError::WrongTag),
    }
}

/// Whether a pool entry spells the given constant: a number by its
/// big-endian bytes, a string by the index of its bytes in the pool.
pub open spec fn spells(
    pool: Seq<ConstantPoolEntry>,
    entry: ConstantPoolEntry,
    v: OopView,
) -> bool {
    match v {
        OopView::Int(n) => entry matches ConstantPoolEntry::Integer { bytes } && bytes@
            == i32_be_bytes(n),
        OopView::Long(n) => entry matches ConstantPoolEntry::Long { bytes } && bytes@
            == i64_be_bytes(n),
        OopView::Float(bits) => entry matches ConstantPoolEntry::Float { bytes } && bytes@
            == u32_be_bytes(bits),
        OopView::Double(bits) => entry matches ConstantPoolEntry::Double { bytes } && bytes@
            == u64_be_bytes(bits),
        OopView::ConstUtf8(s) => entry matches ConstantPoolEntry::String { string_index }
            && utf8_at(pool, string_index as int) == Ok::<Seq<u8>, PoolError>(s),
        OopView::Null => false,
    }
}

/// A constant is read back as it was spelled: where the entry at an index
/// spells a constant, reading the constant at that index gives it.
pub proof fn lemma_constant_round_trip(pool: Seq<ConstantPoolEntry>, i: int, v: OopView)
    requires
        0 <= i < pool.len(),
        spells(pool, pool[i], v),
    ensures
        constant_at(pool, i) == Ok::<OopView, PoolError>(v),
{
    match v {
        OopView::Int(n) => {
            lemma_i32_round_trip(n);
        },
        OopView::Long(n) => {
            lemma_i64_round_trip(n);
        },
        OopView::Float(bits) => {
            lemma_u32_round_trip(bits);
        },
        OopView::Double(bits) => {
            lemma_u64_round_trip(bits);
        },
        _ => {},
    }
}

/// The number of pool slots that spelling a constant takes: one for a
/// 32-bit number; two for a 64-bit number, whose second slot stays unused,
/// and for a string, whose bytes get an entry of their own. The null
/// reference cannot be spelled.
pub open spec fn slots_for(v: OopView) -> int {
    match v {
        OopView::Int(_) | OopView::Float(_) => 1,
        OopView::Long(_) | OopView::Double(_) | OopView::ConstUtf8(_) => 2,
        OopView::Null => 0,
    }
}

/// The number of slots that sixteen-bit indices can name.
pub const MAX_ENTRIES: usize = 0x1_0000;

/// The view of a constant or of the error in its place.
pub open spec fn constant_view(r: Result<Oop, PoolError>) -> Result<OopView, PoolError> {
    match r {
        Ok(v) => Ok(v@),
        Err(e) => Err(e),
    }
}

impl ConstantPool {
    /// A pool of the given entries.
    pub fn new(entries: Vec<ConstantPoolEntry>) -> (r: ConstantPool)
        ensures
            r@ == entries@,
    {
        ConstantPool { entries }
    }

    /// Appends an entry and returns its index. A pool whose next index
    /// would not fit in sixteen bits stays as it is.
    pub fn push(&mut self, entry: ConstantPoolEntry) -> (r: Option<u16>)
        ensures
            match r {
                Some(i) => i == old(self)@.len() && final(self)@ == old(self)@.push(entry),
                None => old(self)@.len() >= MAX_ENTRIES && final(self)@ == old(self)@,
            },
    {
        let n = self.entries.len();
        if n >= MAX_ENTRIES {
            return None;
        }
        self.entries.push(entry);
        Some(n as u16)
    }

    /// Spells a constant at the end of the pool and returns the index under
    /// which it is read back. The null reference cannot be spelled, and a
    /// pool without room for the constant stays as it is.
    pub fn push_constant(&mut self, value: &Oop) -> (r: Option<u16>)
        ensures
            r is Some <==> !(value@ is Null) && old(self)@.len() + slots_for(value@)
                <= MAX_ENTRIES,
            match r {
                Some(i) => {
                    &&& final(self)@.len() == old(self)@.len() + slots_for(value@)
                    &&& final(self)@.subrange(0, old(self)@.len() as int) == old(self)@
                    &&& old(self)@.len() <= i < final(self)@.len()
                    &&& constant_at(final(self)@, i as int) == Ok::<OopView, PoolError>(value@)
                },
                None => final(self)@ == old(self)@,
            },
    {
        let n = self.entries.len();
        let ghost before = self.entries@;
        match value {
            Oop::Null => None,
            Oop::Int(v) => {
                if n >= MAX_ENTRIES {
                    return None;
                }
                self.entries.push(ConstantPoolEntry::integer(*v));
                proof {
                    assert(self.entries@.subrange(0, n as int) =~= before);
                    lemma_constant_round_trip(self.entries@, n as int, value@);
                }
                Some(n as u16)
            },
            Oop::Float(bits) => {
                if n >= MAX_ENTRIES {
                    return None;
                }
                self.entries.push(ConstantPoolEntry::float(*bits));
                proof {
                    assert(self.entries@.subrange(0, n as int) =~= before);
                    lemma_constant_round_trip(self.entries@, n as int, value@);
                }
                Some(n as u16)
            },
            Oop::Long(v) => {
                if n >= MAX_ENTRIES - 1 {
                    return None;
                }
                self.entries.push(ConstantPoolEntry::long(*v));
                self.entries.push(ConstantPoolEntry::Unusable);
                proof {
                    assert(self.entries@.subrange(0, n as int) =~= before);
                    lemma_constant_round_trip(self.entries@, n as int, value@);
                }
                Some(n as u16)
            },
            Oop::Double(bits) => {
                if n >= MAX_ENTRIES - 1 {
                    return None;
                }
                self.entries.push(ConstantPoolEntry::double(*bits));
                self.entries.push(ConstantPoolEntry::Unusable);
                proof {
                    assert(self.entries@.subrange(0, n as int) =~= before);
                    lemma_constant_round_trip(self.entries@, n as int, value@);
                }
                Some(n as u16)
            },
            Oop::ConstUtf8(bytes) => {
                if n >= MAX_ENTRIES - 1 {
                    return None;
                }
                self.entries.push(ConstantPoolEntry::utf8(bytes.clone()));
                self.entries.push(ConstantPoolEntry::String { string_index: n as u16 });
                proof {
                    assert(self.entries@.subrange(0, n as int) =~= before);
                    lemma_constant_round_trip(self.entries@, n + 1, value@);
                }
                Some((n + 1) as u16)
            },
        }
    }

    /// The number of slots, the unusable ones included.
    pub fn len(&self) -> (r: usize)
        ensures
            r == self@.len(),
    {
        self.entries.len()
    }

    /// The entry at an index, or `None` outside the pool.
    pub fn get(&self, i: usize) -> (r: Option<&ConstantPoolEntry>)
        ensures
            r == match entry_at(self@, i as int) {
                Some(e) => Some(&e),
                None => None,
            },
    {
        if i < self.entries.len() {
            Some(&self.entries[i])
        } else {
            None
        }
    }

    /// The bytes of the UTF-8 entry at an index.
    pub fn get_utf8(&self, i: usize) -> (r: Result<&Vec<u8>, PoolError>)
        ensures
            match r {
                Ok(bytes) => utf8_at(self@, i as int) == Ok::<Seq<u8>, PoolError>(bytes@),
                Err(e) => utf8_at(self@, i as int) == Err::<Seq<u8>, PoolError>(e),
            },
    {
        match self.get(i) {
            None => Err(PoolError::OutOfRange),
            Some(ConstantPoolEntry::Utf8 { bytes }) => Ok(bytes),
            Some(_) => Err(PoolError::NotUtf8),
        }
    }

    /// The name and the descriptor behind the name-and-type entry at an index.
    pub fn get_name_and_type(&self, i: usize) -> (r: Result<(&Vec<u8>, &Vec<u8>), PoolError>)
        ensures
            match r {
                Ok((name, desc)) => name_and_type_at(self@, i as int) == Ok::<
                    (Seq<u8>, Seq<u8>),
                    PoolError,
                >((name@, desc@)),
                Err(e) => name_and_type_at(self@, i as int) == Err::<
                    (Seq<u8>, Seq<u8>),
                    PoolError,
                >(e),
            },
    {
        match self.get(i) {
            Some(ConstantPoolEntry::NameAndType { name_index, desc_index }) => {
                let name = self.get_utf8(*name_index as usize)?;
                let desc = self.get_utf8(*desc_index as usize)?;
                Ok((name, desc))
            },
            _ => Err(PoolError::WrongTag),
        }
    }

    /// The class index and the name-and-type index of the field reference at an index.
    pub fn get_fieldref(&self, i: usize) -> (r: Result<(u16, u16), PoolError>)
        ensures
            r == fieldref_at(self@, i as int),
    {
        match self.get(i) {
            Some(ConstantPoolEntry::Fieldref { class_index, name_and_type_index }) => Ok(
                (*class_index, *name_and_type_index),
            ),
            _ => Err(PoolError::WrongTag),
        }
    }

    /// The name of the class behind the class entry at an index.
    pub fn get_class_name(&self, i: usize) -> (r: Result<&Vec<u8>, PoolError>)
        ensures
            match r {
                Ok(bytes) => class_name_at(self@, i as int) == Ok::<Seq<u8>, PoolError>(bytes@),
                Err(e) => class_name_at(self@, i as int) == Err::<Seq<u8>, PoolError>(e),
            },
    {
        match self.get(i) {
            Some(ConstantPoolEntry::Class { name_index }) => self.get_utf8(*name_index as usize),
            _ => Err(PoolError::WrongTag),
        }
    }

    /// The constant that the entry at an index spells.
    pub fn get_constant(&self, i: usize) -> (r: Result<Oop, PoolError>)
        ensures
            constant_view(r) == constant_at(self@, i as int),
    {
        match self.get(i) {
            Some(ConstantPoolEntry::Integer { bytes }) => Ok(
                Oop::new_int(i32_from_be_bytes(bytes)),
            ),
            Some(ConstantPoolEntry::Long { bytes }) => Ok(
                Oop::new_long(i64_from_be_bytes(bytes)),
            ),
            Some(ConstantPoolEntry::Float { bytes }) => Ok(
                Oop::new_float(u32_from_be_bytes(bytes)),
            ),
            Some(ConstantPoolEntry::Double { bytes }) => Ok(
                Oop::new_double(u64_from_be_bytes(bytes)),
            ),
            Some(ConstantPoolEntry::String { string_index }) => {
                match self.get_utf8(*string_index as usize) {
                    Ok(bytes) => Ok(Oop::new_const_utf8(bytes.clone())),
                    Err(e) => Err(e),
                }
            },
            _ => Err(PoolError::WrongTag),
        }
    }
}

} // verus!
