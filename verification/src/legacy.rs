//! Lexing of the legacy crypt-style hash string:
//! `$pbkdf2-sha256$<rounds>$<salt>$<hash>` with decimal rounds and padded
//! Base64 salt and hash segments.

use vstd::prelude::*;
use vstd::string::StrSliceExecFns;
use vstd::string::StringExecFns;

use crate::error::Error;
use crate::strutil::dec_val;
use crate::strutil::is_dec_u32;
use crate::strutil::parse_decimal_u32;
use crate::strutil::str_eq;

verus! {

/// The positions of every `$` in `s`, in increasing order.
pub open spec fn dollars(s: Seq<char>) -> Seq<int>
    decreases s.len(),
{
    if s.len() == 0 {
        Seq::empty()
    } else if s.last() == '$' {
        dollars(s.drop_last()).push(s.len() - 1)
    } else {
        dollars(s.drop_last())
    }
}

/// Every listed position is a `$` inside the string.
proof fn lemma_dollars_bounds(s: Seq<char>)
    ensures
        forall|k: int|
            0 <= k < dollars(s).len() ==> 0 <= #[trigger] dollars(s)[k] < s.len() && s[dollars(
                s,
            )[k]] == '$',
    decreases s.len(),
{
    if s.len() > 0 {
        lemma_dollars_bounds(s.drop_last());
        assert(forall|k: int|
            0 <= k < dollars(s.drop_last()).len() ==> s[#[trigger] dollars(s.drop_last())[k]]
                == s.drop_last()[dollars(s.drop_last())[k]]);
    }
}

/// Structural validity of a legacy hash string: a `$`, the fixed tag,
/// a `$`, a decimal rounds count that fits in 32 bits, a `$`, a nonempty
/// salt segment, a `$`, and a nonempty hash segment.
pub open spec fn legacy_ok(s: Seq<char>) -> bool {
    let ds = dollars(s);
    &&& ds.len() == 4
    &&& ds[0] == 0
    &&& ds[1] == 14
    &&& s.subrange(1, 14) == "pbkdf2-sha256"@
    &&& 15 < ds[2]
    &&& is_dec_u32(s.subrange(15, ds[2]))
    &&& ds[2] + 1 < ds[3]
    &&& ds[3] + 1 < s.len()
}

/// The rounds count carried by a structurally valid legacy string.
pub open spec fn legacy_rounds(s: Seq<char>) -> nat {
    dec_val(s.subrange(15, dollars(s)[2]))
}

/// The raw salt segment of a structurally valid legacy string.
pub open spec fn legacy_salt(s: Seq<char>) -> Seq<char> {
    s.subrange(dollars(s)[2] + 1, dollars(s)[3])
}

/// The raw hash segment of a structurally valid legacy string.
pub open spec fn legacy_hash(s: Seq<char>) -> Seq<char> {
    s.subrange(dollars(s)[3] + 1, s.len() as int)
}

/// Split a legacy hash string into its rounds, salt and hash segments.
/// Any deviation from the legacy grammar is a parse error.
pub fn parse_hash(s: &str) -> (r: Result<(u32, String, String), Error>)
    ensures
        r is Ok <==> legacy_ok(s@),
        r is Ok ==> r->Ok_0.0 == legacy_rounds(s@),
        r is Ok ==> r->Ok_0.1@ == legacy_salt(s@),
        r is Ok ==> r->Ok_0.2@ == legacy_hash(s@),
        r is Err ==> r->Err_0 == Error::Parse,
{
    let len = s.unicode_len();
    let mut ds: Vec<usize> = Vec::new();
    let mut i: usize = 0;
    proof {
        assert(s@.take(0) =~= Seq::<char>::empty());
        assert(ds@.map_values(|x: usize| x as int) =~= dollars(s@.take(0)));
    }
    while i < len
        invariant
            i <= len,
            len == s@.len(),
            ds@.map_values(|x: usize| x as int) == dollars(s@.take(i as int)),
        decreases len - i,
    {
        let ghost pre = ds@;
        proof {
            assert(s@.take(i + 1).drop_last() =~= s@.take(i as int));
            assert(s@.take(i + 1).last() == s@[i as int]);
        }
        let c = s.get_char(i);
        if c == '$' {
            ds.push(i);
            proof {
                assert(ds@.map_values(|x: usize| x as int) =~= pre.map_values(
                    |x: usize| x as int,
                ).push(i as int));
            }
        }
        i += 1;
    }
    proof {
        assert(s@.take(len as int) =~= s@);
        lemma_dollars_bounds(s@);
    }
    if ds.len() != 4 {
        return Err(Error::Parse);
    }
    let d0 = ds[0];
    let d1 = ds[1];
    let d2 = ds[2];
    let d3 = ds[3];
    proof {
        assert(dollars(s@)[0] == d0 as int && dollars(s@)[1] == d1 as int && dollars(s@)[2]
            == d2 as int && dollars(s@)[3] == d3 as int);
    }
    if d0 != 0 || d1 != 14 {
        return Err(Error::Parse);
    }
    let tag = s.substring_char(1, 14);
    if !str_eq(tag, "pbkdf2-sha256") {
        return Err(Error::Parse);
    }
    if d2 <= 15 {
        return Err(Error::Parse);
    }
    let rounds_text = s.substring_char(15, d2);
    let rounds = match parse_decimal_u32(rounds_text) {
        Some(v) => v,
        None => {
            return Err(Error::Parse);
        },
    };
    if d2 + 1 >= d3 {
        return Err(Error::Parse);
    }
    let salt = s.substring_char(d2 + 1, d3);
    if d3 + 1 >= len {
        return Err(Error::Parse);
    }
    let hash = s.substring_char(d3 + 1, len);
    Ok((rounds, String::from_str(salt), String::from_str(hash)))
}

} // verus!
