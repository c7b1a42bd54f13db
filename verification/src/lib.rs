//! Out-of-process introspection of a managed runtime's object model.
//!
//! The library locates a runtime's in-memory type metadata inside a foreign
//! process, resolves the byte offset of named fields of classes whose layout
//! is only known at run time, and decodes live instances of those classes
//! into local records.  All remote memory is reached through an explicit
//! [`memory::ProcessMemory`] value describing which address ranges are
//! readable and what they hold; a host shell feeds it pages on demand.

use vstd::prelude::*;

pub mod binding;
pub mod classes;
pub mod cstr;
pub mod game;
pub mod glib;
pub mod memory;
pub mod metadata;
pub mod ptr;

verus! {

/// A remote read could not be completed.  Expected and recoverable: the
/// target legitimately spends time with pages unmapped or objects null.
#[derive(Clone, Copy, Debug, PartialEq, Eq, Structural)]
pub enum IoFailure {
    /// The byte at this address is not readable.
    Unmapped(u64),
    /// A dereference was attempted through a null remote pointer.
    NullPointer,
    /// The requested range runs past the end of the address space.
    OutOfAddressSpace,
    /// A string scan hit the fixed buffer ceiling without finding NUL.
    StringTooLong,
    /// A linked chain walk hit the fixed step budget without ending.
    ChainTooLong,
}

/// A name was not found among the enumerated entities.
#[derive(Clone, Copy, Debug, PartialEq, Eq, Structural)]
pub enum LookupFailure {
    Io(IoFailure),
    /// No entity with the requested name exists.
    NotFound,
    /// The entity was found but the singleton it points at is null.
    NullInstance,
}

/// A record binding could not be built.  Always all-or-nothing: a partial
/// binding is never returned.
#[derive(Clone, Copy, Debug, PartialEq, Eq, Structural)]
pub enum BindFailure {
    Io(IoFailure),
    /// No class with the requested name and namespace is loaded.
    ClassNotFound,
    /// The field at this index of the description is absent from the class.
    FieldNotFound(usize),
}

/// A bound record could not be decoded from an instance.
#[derive(Clone, Copy, Debug, PartialEq, Eq, Structural)]
pub enum DecodeFailure {
    Io(IoFailure),
    /// The declared instance size exceeds the fixed local snapshot cap.
    /// Indicates a model mismatch, not a transient runtime state.
    InstanceTooLarge,
    /// The field at this index lies outside the instance snapshot.
    FieldOutOfRange(usize),
}

} // verus!
