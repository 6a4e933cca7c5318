//! The canonical password-hash record.

use vstd::prelude::*;

use crate::ident::Ident;
use crate::params::ParamsString;

verus! {

/// Mathematical shape of a canonical record.
#[verifier::ext_equal]
pub ghost struct RecordV {
    /// Identifier text of the algorithm.
    pub algorithm: Seq<char>,
    /// Optional version (always absent for this algorithm).
    pub version: Option<u32>,
    /// Serialized parameter entries.
    pub params: Seq<(Seq<char>, Seq<char>)>,
    /// Encoded salt text.
    pub salt: Option<Seq<char>>,
    /// Derived output bytes.
    pub hash: Option<Seq<u8>>,
}

/// Canonical password-hash record: algorithm identifier, optional version,
/// serialized parameters, encoded salt, and derived output. Constructed
/// fresh per hashing or upgrade call; immutable once built.
#[derive(Debug, PartialEq, Eq)]
pub struct PasswordHash {
    /// Identifier of the algorithm that produced `hash`.
    pub algorithm: Ident,
    /// Version; always `None` for PBKDF2.
    pub version: Option<u32>,
    /// Serialized parameters.
    pub params: ParamsString,
    /// The encoded salt text the record carries.
    pub salt: Option<String>,
    /// The derived output bytes.
    pub hash: Option<Vec<u8>>,
}

impl View for PasswordHash {
    type V = RecordV;

    open spec fn view(&self) -> RecordV {
        RecordV {
            algorithm: self.algorithm@,
            version: self.version,
            params: self.params@,
            salt: match self.salt {
                Some(s) => Some(s@),
                None => None,
            },
            hash: match self.hash {
                Some(h) => Some(h@),
                None => None,
            },
        }
    }
}

} // verus!
