//! Errors of the device-mapper layer.
use vstd::prelude::*;

verus! {

/// The kind of a device-mapper error.
#[derive(Clone, Copy, Debug, PartialEq, Eq, Structural)]
pub enum ErrorEnum {
    /// An argument that the operation cannot accept.
    Invalid,
}

/// A device-mapper error: its kind and a message for people.
#[derive(Debug)]
pub enum DmError {
    Dm(ErrorEnum, String),
}

/// The result of a device-mapper operation.
pub type DmResult<T> = Result<T, DmError>;

} // verus!
