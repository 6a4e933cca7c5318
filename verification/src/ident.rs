//! Algorithm identifiers in the canonical record format.

use vstd::prelude::*;
use vstd::string::StrSliceExecFns;
use vstd::string::StringExecFns;

use crate::error::Error;
use crate::strutil::str_eq;

verus! {

/// Whether `c` may appear in an algorithm identifier: ASCII lowercase
/// letters, digits, and `-`.
pub open spec fn is_ident_char(c: char) -> bool {
    ||| 97 <= c as u32 <= 122
    ||| 48 <= c as u32 <= 57
    ||| c == '-'
}

/// Well-formed identifier syntax: one to thirty-two identifier characters.
pub open spec fn is_valid_ident(s: Seq<char>) -> bool {
    &&& 1 <= s.len() <= 32
    &&& forall|i: int| 0 <= i < s.len() ==> is_ident_char(#[trigger] s[i])
}

/// Textual identifier naming a password-hashing algorithm in a canonical
/// record.
#[derive(Clone, Debug, PartialEq, Eq)]
pub struct Ident {
    value: String,
}

impl View for Ident {
    type V = Seq<char>;

    closed spec fn view(&self) -> Seq<char> {
        self.value@
    }
}

impl Ident {
    /// Validate identifier syntax; malformed syntax is rejected here, before
    /// any algorithm resolution is attempted.
    pub fn try_new(s: &str) -> (r: Result<Ident, Error>)
        ensures
            r is Ok <==> is_valid_ident(s@),
            r is Ok ==> r->Ok_0@ == s@,
            r is Err ==> r->Err_0 == Error::Parse,
    {
        let len = s.unicode_len();
        if len < 1 || len > 32 {
            return Err(Error::Parse);
        }
        let mut i: usize = 0;
        while i < len
            invariant
                i <= len,
                len == s@.len(),
                forall|j: int| 0 <= j < i ==> is_ident_char(#[trigger] s@[j]),
            decreases len - i,
        {
            let c = s.get_char(i);
            let u = c as u32;
            if !(97 <= u && u <= 122 || 48 <= u && u <= 57 || c == '-') {
                return Err(Error::Parse);
            }
            i += 1;
        }
        Ok(Ident { value: String::from_str(s) })
    }

    /// The identifier text.
    pub fn as_str(&self) -> (r: &str)
        ensures
            r@ == self@,
    {
        self.value.as_str()
    }

    /// Whether this identifier reads exactly as `s`.
    pub fn eq_str(&self, s: &str) -> (r: bool)
        ensures
            r == (self@ == s@),
    {
        str_eq(self.value.as_str(), s)
    }
}

} // verus!
