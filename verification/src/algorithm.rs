//! The closed set of supported PBKDF2 variants.

use vstd::prelude::*;

use crate::error::Error;
use crate::ident::Ident;
use crate::ident::is_ident_char;
use crate::ident::is_valid_ident;

verus! {

/// PBKDF2 variants, each bound to a keyed pseudorandom function.
#[derive(Copy, Clone, Debug, PartialEq, Eq, Hash, PartialOrd, Ord, Structural)]
pub enum AlgorithmId {
    /// PBKDF2 with HMAC-SHA-1.
    Sha1,
    /// PBKDF2 with HMAC-SHA-256.
    Sha256,
    /// PBKDF2 with HMAC-SHA-512.
    Sha512,
}

/// Canonical identifier text of each variant.
pub open spec fn ident_chars(a: AlgorithmId) -> Seq<char> {
    match a {
        AlgorithmId::Sha1 => "pbkdf2"@,
        AlgorithmId::Sha256 => "pbkdf2-sha256"@,
        AlgorithmId::Sha512 => "pbkdf2-sha512"@,
    }
}

/// Exact, case-sensitive resolution of identifier text to a variant.
pub open spec fn resolve_spec(s: Seq<char>) -> Result<AlgorithmId, Error> {
    if s == "pbkdf2"@ {
        Ok(AlgorithmId::Sha1)
    } else if s == "pbkdf2-sha256"@ {
        Ok(AlgorithmId::Sha256)
    } else if s == "pbkdf2-sha512"@ {
        Ok(AlgorithmId::Sha512)
    } else {
        Err(Error::Algorithm)
    }
}

impl AlgorithmId {
    /// Resolve an identifier against the fixed set; identifiers that merely
    /// resemble a supported one are rejected, never mapped to a default.
    pub fn new(id: &Ident) -> (r: Result<AlgorithmId, Error>)
        ensures
            r == resolve_spec(id@),
    {
        if id.eq_str("pbkdf2") {
            Ok(AlgorithmId::Sha1)
        } else if id.eq_str("pbkdf2-sha256") {
            Ok(AlgorithmId::Sha256)
        } else if id.eq_str("pbkdf2-sha512") {
            Ok(AlgorithmId::Sha512)
        } else {
            Err(Error::Algorithm)
        }
    }

    /// The canonical identifier of this variant, as an [`Ident`].
    pub fn ident(&self) -> (r: Ident)
        ensures
            r@ == ident_chars(*self),
    {
        let text = self.as_str();
        proof {
            lemma_idents_valid();
        }
        match Ident::try_new(text) {
            Ok(id) => id,
            Err(_) => vstd::pervasive::unreached(),
        }
    }

    /// The canonical identifier of this variant, as a string slice.
    pub fn as_str(&self) -> (r: &'static str)
        ensures
            r@ == ident_chars(*self),
    {
        match self {
            AlgorithmId::Sha1 => "pbkdf2",
            AlgorithmId::Sha256 => "pbkdf2-sha256",
            AlgorithmId::Sha512 => "pbkdf2-sha512",
        }
    }

    /// Resolve from raw text: malformed identifier syntax fails (as a parse
    /// error) before resolution is attempted.
    pub fn from_str(s: &str) -> (r: Result<AlgorithmId, Error>)
        ensures
            is_valid_ident(s@) ==> r == resolve_spec(s@),
            !is_valid_ident(s@) ==> r == Err::<AlgorithmId, Error>(Error::Parse),
    {
        match Ident::try_new(s) {
            Ok(id) => AlgorithmId::new(&id),
            Err(e) => Err(e),
        }
    }
}

/// Each canonical identifier is well-formed identifier syntax.
pub proof fn lemma_idents_valid()
    ensures
        is_valid_ident("pbkdf2"@),
        is_valid_ident("pbkdf2-sha256"@),
        is_valid_ident("pbkdf2-sha512"@),
{
    reveal_strlit("pbkdf2");
    reveal_strlit("pbkdf2-sha256");
    reveal_strlit("pbkdf2-sha512");
    assert forall|i: int| 0 <= i < "pbkdf2"@.len() implies is_ident_char(#[trigger] "pbkdf2"@[i]) by {
        if i == 0 {
        } else if i == 1 {
        } else if i == 2 {
        } else if i == 3 {
        } else if i == 4 {
        } else {
        }
    }
    assert forall|i: int|
        0 <= i < "pbkdf2-sha256"@.len() implies is_ident_char(
        #[trigger] "pbkdf2-sha256"@[i],
    ) by {
        if i < 7 {
        } else if i < 10 {
        } else {
        }
    }
    assert forall|i: int|
        0 <= i < "pbkdf2-sha512"@.len() implies is_ident_char(
        #[trigger] "pbkdf2-sha512"@[i],
    ) by {
        if i < 7 {
        } else if i < 10 {
        } else {
        }
    }
}

/// Identifier round-trip: resolving the canonical identifier of any
/// supported variant yields that variant back.
pub proof fn lemma_ident_round_trip(a: AlgorithmId)
    ensures
        resolve_spec(ident_chars(a)) == Ok::<AlgorithmId, Error>(a),
{
    reveal_strlit("pbkdf2");
    reveal_strlit("pbkdf2-sha256");
    reveal_strlit("pbkdf2-sha512");
    assert("pbkdf2"@.len() != "pbkdf2-sha256"@.len());
    assert("pbkdf2"@.len() != "pbkdf2-sha512"@.len());
    assert("pbkdf2-sha256"@[10] != "pbkdf2-sha512"@[10]);
}

/// Resolution fails exactly on text that is not one of the three fixed
/// identifiers, and succeeds only onto the variant whose identifier the
/// text is.
pub proof fn lemma_resolve_exact(s: Seq<char>)
    ensures
        resolve_spec(s) is Err <==> (s != "pbkdf2"@ && s != "pbkdf2-sha256"@ && s
            != "pbkdf2-sha512"@),
        resolve_spec(s) is Err ==> resolve_spec(s)->Err_0 == Error::Algorithm,
        resolve_spec(s) is Ok ==> ident_chars(resolve_spec(s)->Ok_0) == s,
{
}

} // verus!
