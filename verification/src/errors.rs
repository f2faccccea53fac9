//! The error taxonomy of the storage service.

use vstd::prelude::*;

verus! {

/// Every failure the storage core can surface. None of these is retried
/// internally; each propagates to the caller as a typed value.
#[derive(Debug, Clone, Copy, PartialEq, Eq, Structural)]
pub enum StorageError {
    /// The backing store could not be opened or read.
    Connection,
    /// Table creation failed, or a row had an unexpected shape.
    Schema,
    /// A write broke a check or uniqueness constraint.
    ConstraintViolation,
    /// A stored habit-type tag is not one of the known values.
    InvalidEnumValue,
    /// A stored serialized sequence could not be parsed.
    InvalidEncoding,
    /// An identifier matched zero rows where one was required.
    NotFound,
    /// A transaction could not be started or committed.
    Transaction,
}

} // verus!
