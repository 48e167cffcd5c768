//! What can go wrong when a pool is read or a class is linked.

use vstd::prelude::*;

verus! {

/// Why a read of the constant pool failed.
#[derive(Clone, Copy, Debug, PartialEq, Eq, Structural)]
pub enum PoolError {
    /// The index lies outside the pool.
    OutOfRange,
    /// The entry exists but holds no UTF-8 bytes.
    NotUtf8,
    /// The entry is missing or carries another tag than the caller asked for.
    WrongTag,
}

/// Why linking a class or resolving a field failed.
#[derive(Clone, Copy, Debug, PartialEq, Eq, Structural)]
pub enum LinkageError {
    /// No loaded class carries the name that the reference gives.
    ClassNotFound,
    /// Neither the class nor any of its superclasses declares the field.
    NoSuchField,
    /// The field exists, but is static where an instance field was expected,
    /// or the other way round.
    IncompatibleClassChange,
    /// A constant-pool entry does not have the tag that its use demands.
    WrongConstantTag,
    /// A descriptor is empty or starts with a byte outside the legal set.
    MalformedDescriptor,
    /// The class initializer failed earlier; the failure is reported on every later use.
    InitializationFailed,
}

} // verus!
