//! Base64 text handling: padding normalization, and decoding through an
//! outside codec.

use vstd::prelude::*;
use vstd::string::StrSliceExecFns;

use base64ct::Encoding;

use crate::error::Error;

verus! {

/// `s` with every trailing `=` removed.
pub open spec fn stripped(s: Seq<char>) -> Seq<char>
    decreases s.len(),
{
    if s.len() > 0 && s.last() == '=' {
        stripped(s.drop_last())
    } else {
        s
    }
}

/// Strip trailing `=` signs off a Base64 value to make a valid unpadded
/// value.
pub fn b64_strip(s: &str) -> (r: &str)
    ensures
        r@ == stripped(s@),
{
    let len = s.unicode_len();
    let mut k = len;
    proof {
        assert(s@.take(len as int) =~= s@);
    }
    while k > 0 && s.get_char(k - 1) == '='
        invariant
            k <= len,
            len == s@.len(),
            stripped(s@) == stripped(s@.take(k as int)),
        decreases k,
    {
        proof {
            assert(s@.take(k as int).last() == s@[k - 1]);
            assert(s@.take(k as int).drop_last() =~= s@.take(k - 1));
        }
        k -= 1;
    }
    proof {
        if k > 0 {
            assert(s@.take(k as int).last() == s@[k - 1]);
        }
        assert(stripped(s@.take(k as int)) == s@.take(k as int));
    }
    s.substring_char(0, k)
}

/// Stripping is idempotent, and leaves a value without trailing padding
/// unchanged.
pub proof fn lemma_strip_padding_idempotent(s: Seq<char>)
    ensures
        stripped(stripped(s)) == stripped(s),
        s.len() == 0 || s.last() != '=' ==> stripped(s) == s,
    decreases s.len(),
{
    if s.len() > 0 && s.last() == '=' {
        lemma_strip_padding_idempotent(s.drop_last());
    }
}

/// What the outside codec decodes an unpadded standard-alphabet Base64
/// string to, if it is well-formed.
pub uninterp spec fn b64_decode_of(s: Seq<char>) -> Option<Seq<u8>>;

/// Relies on `base64ct::Base64Unpadded::decode_vec`: decodes a string of
/// the standard Base64 alphabet without padding, failing exactly on
/// malformed input; the result is a function of the input text alone.
#[verifier::external_body]
pub(crate) fn b64_decode(s: &str) -> (r: Result<Vec<u8>, Error>)
    ensures
        r is Ok <==> b64_decode_of(s@) is Some,
        r is Ok ==> r->Ok_0@ == b64_decode_of(s@)->0,
        r is Err ==> r->Err_0 == Error::Encoding,
{
    match base64ct::Base64Unpadded::decode_vec(s) {
        Ok(v) => Ok(v),
        Err(_) => Err(Error::Encoding),
    }
}

} // verus!
