//! Error taxonomy for password hashing and record construction.

use vstd::prelude::*;

verus! {

/// Cause of a parameter validation failure.
#[derive(Copy, Clone, Debug, PartialEq, Eq, Structural)]
pub enum ParamsError {
    /// A parameter string contained a key other than the recognized ones.
    InvalidName,
    /// A parameter value was not a decimal number in range, or an output
    /// length was outside the bounds a canonical record can carry.
    InvalidValue,
}

/// Error constructing a canonical password-hash record.
///
/// Every failure is returned to the immediate caller; no partial record is
/// ever surfaced.
#[derive(Copy, Clone, Debug, PartialEq, Eq, Structural)]
pub enum Error {
    /// Unresolvable or unsupported algorithm identifier.
    Algorithm,
    /// Malformed Base64 segment, or an oversized salt.
    Encoding,
    /// Invalid parameter name or value.
    Params(ParamsError),
    /// Malformed legacy-format hash string. Failures of the legacy lexer are
    /// deliberately collapsed into this one coarse variant.
    Parse,
}

} // verus!
