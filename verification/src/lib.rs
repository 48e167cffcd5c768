//! Field linkage and instance-field layout for a JVM-style runtime.
//!
//! The crate resolves symbolic field references through a constant pool,
//! lays out the instance and static fields of a class along its superclass
//! chain, and fills fresh slots with the zero of each field's type.
//! Every function is verified against a contract over mathematical models.
//!
//! - [`value_type`], [`oop`], [`consts`]: the kinds of values, the values
//!   themselves, and the zero of each kind.
//! - [`endian`], [`constant_pool`]: big-endian numbers and read access to a
//!   parsed constant pool.
//! - [`field`]: linking a declared field against the pool.
//! - [`class`], [`layout`], [`table`]: the loaded classes, the slots of
//!   their fields, and the states that a class goes through.
//! - [`resolver`]: from a field reference to the field it names.
//! - [`instance`]: the slots of a fresh instance, with the laws of the layout.
//! - [`instruction`]: decoders for a few instructions without operands.
//!
//! Loading classes and running their initializers is left to the caller:
//! the table says which class awaits its initializer, and is told how the
//! initializer ended.

pub mod bytes;
pub mod class;
pub mod constant_pool;
pub mod consts;
pub mod endian;
pub mod error;
pub mod field;
pub mod instance;
pub mod instruction;
pub mod layout;
pub mod oop;
pub mod resolver;
pub mod table;
pub mod value_type;

pub use class::{Class, ClassKind, ClassState, InstanceClass};
pub use constant_pool::{ConstantPool, ConstantPoolEntry};
pub use error::{LinkageError, PoolError};
pub use field::{
    Attribute, ClassId, Field, FieldId, FieldIdView, FieldInfo, FieldView, ACC_FINAL, ACC_PRIVATE,
    ACC_PROTECTED, ACC_PUBLIC, ACC_STATIC, ACC_VOLATILE,
};
pub use instance::build_inited_field_values;
pub use instruction::{Baload, Drem, Dsub, Dup, Fastore, Instruction, InstructionInfo, I2S};
pub use oop::{Oop, OopView};
pub use resolver::get_field_ref;
pub use table::ClassTable;
pub use value_type::ValueType;
