//! PBKDF2 tuning parameters and their parameter-string representation.

use vstd::prelude::*;
use vstd::string::StringExecFns;

use crate::error::Error;
use crate::error::ParamsError;
use crate::strutil::dec_str;
use crate::strutil::dec_val;
use crate::strutil::is_dec_u32;
use crate::strutil::lemma_dec_str_val;
use crate::strutil::parse_decimal_u32;
use crate::strutil::str_eq;
use crate::strutil::u32_to_dec;

verus! {

/// PBKDF2 params: iteration count and output size in bytes.
#[derive(Copy, Clone, Debug, PartialEq, Eq, Structural)]
pub struct Params {
    /// Number of rounds
    pub rounds: u32,

    /// Size of the output (in bytes)
    pub output_length: usize,
}

/// The baseline parameters: 10 000 rounds, 32 bytes of output.
pub open spec fn default_params() -> Params {
    Params { rounds: 10000u32, output_length: 32usize }
}

impl Default for Params {
    /// The security-baseline fallback used whenever explicit parameters
    /// are absent.
    fn default() -> (r: Params)
        ensures
            r == default_params(),
    {
        Params { rounds: 10_000, output_length: 32 }
    }
}

/// An ordered sequence of `name=value` entries: the textual representation
/// of algorithm parameters inside a canonical record.
#[derive(Debug, PartialEq, Eq)]
pub struct ParamsString {
    entries: Vec<(String, String)>,
}

impl View for ParamsString {
    type V = Seq<(Seq<char>, Seq<char>)>;

    closed spec fn view(&self) -> Seq<(Seq<char>, Seq<char>)> {
        Seq::new(self.entries@.len(), |i: int| (self.entries@[i].0@, self.entries@[i].1@))
    }
}

impl ParamsString {
    /// An empty parameter string.
    pub fn new() -> (r: ParamsString)
        ensures
            r@ == Seq::<(Seq<char>, Seq<char>)>::empty(),
    {
        let r = ParamsString { entries: Vec::new() };
        proof {
            assert(r@ =~= Seq::<(Seq<char>, Seq<char>)>::empty());
        }
        r
    }

    /// Append one `name=value` entry.
    pub fn add(&mut self, name: &str, value: &str)
        ensures
            final(self)@ == old(self)@.push((name@, value@)),
    {
        self.entries.push((String::from_str(name), String::from_str(value)));
        proof {
            assert(self@ =~= old(self)@.push((name@, value@)));
        }
    }

    /// Number of entries.
    pub fn len(&self) -> (r: usize)
        ensures
            r == self@.len(),
    {
        self.entries.len()
    }

    /// The name of the entry at `i`.
    pub fn name_at(&self, i: usize) -> (r: &str)
        requires
            i < self@.len(),
        ensures
            r@ == self@[i as int].0,
    {
        self.entries[i].0.as_str()
    }

    /// The value of the entry at `i`.
    pub fn value_at(&self, i: usize) -> (r: &str)
        requires
            i < self@.len(),
        ensures
            r@ == self@[i as int].1,
    {
        self.entries[i].1.as_str()
    }
}

/// Effect of one parameter entry on `p`: `i` sets the rounds, `l` sets the
/// output length, anything else is an invalid name; a value that is not a
/// `u32` decimal numeral is invalid.
pub open spec fn apply_entry(p: Params, name: Seq<char>, value: Seq<char>) -> Result<
    Params,
    Error,
> {
    if name == "i"@ {
        if is_dec_u32(value) {
            Ok(Params { rounds: dec_val(value) as u32, ..p })
        } else {
            Err(Error::Params(ParamsError::InvalidValue))
        }
    } else if name == "l"@ {
        if is_dec_u32(value) {
            Ok(Params { output_length: dec_val(value) as usize, ..p })
        } else {
            Err(Error::Params(ParamsError::InvalidValue))
        }
    } else {
        Err(Error::Params(ParamsError::InvalidName))
    }
}

/// Fold the entries over `p` in their given order (last write wins).
pub open spec fn apply_entries(p: Params, entries: Seq<(Seq<char>, Seq<char>)>) -> Result<
    Params,
    Error,
>
    decreases entries.len(),
{
    if entries.len() == 0 {
        Ok(p)
    } else {
        match apply_entry(p, entries[0].0, entries[0].1) {
            Ok(p2) => apply_entries(p2, entries.drop_first()),
            Err(e) => Err(e),
        }
    }
}

/// What parsing a parameter string yields: defaults overwritten by the
/// entries present.
pub open spec fn from_parameter_string_spec(entries: Seq<(Seq<char>, Seq<char>)>) -> Result<
    Params,
    Error,
> {
    apply_entries(default_params(), entries)
}

/// The two entries serializing `p`, in canonical order.
pub open spec fn params_entries(p: Params) -> Seq<(Seq<char>, Seq<char>)> {
    seq![("i"@, dec_str(p.rounds as nat)), ("l"@, dec_str(p.output_length as nat))]
}

/// What serializing `p` yields: the two entries, or an invalid-value error
/// when the output length cannot be written as a 32-bit decimal.
pub open spec fn to_parameter_string_spec(p: Params) -> Result<Seq<(Seq<char>, Seq<char>)>, Error> {
    if p.output_length > u32::MAX {
        Err(Error::Params(ParamsError::InvalidValue))
    } else {
        Ok(params_entries(p))
    }
}

impl Params {
    /// Parse parameters from their textual representation. Unspecified keys
    /// keep their default; duplicate keys overwrite (last write wins).
    pub fn from_parameter_string(input: &ParamsString) -> (r: Result<Params, Error>)
        ensures
            r == from_parameter_string_spec(input@),
    {
        let mut output = Params::default();
        let len = input.len();
        let mut idx: usize = 0;
        proof {
            assert(input@.skip(0) =~= input@);
        }
        while idx < len
            invariant
                idx <= len,
                len == input@.len(),
                apply_entries(default_params(), input@) == apply_entries(
                    output,
                    input@.skip(idx as int),
                ),
            decreases len - idx,
        {
            proof {
                assert(input@.skip(idx as int)[0] == input@[idx as int]);
                assert(input@.skip(idx as int).drop_first() =~= input@.skip(idx + 1));
            }
            let name = input.name_at(idx);
            let value = input.value_at(idx);
            if str_eq(name, "i") {
                match parse_decimal_u32(input.value_at(idx)) {
                    Some(x) => {
                        output.rounds = x;
                    },
                    None => {
                        return Err(Error::Params(ParamsError::InvalidValue));
                    },
                }
            } else if str_eq(name, "l") {
                match parse_decimal_u32(input.value_at(idx)) {
                    Some(x) => {
                        output.output_length = x as usize;
                    },
                    None => {
                        return Err(Error::Params(ParamsError::InvalidValue));
                    },
                }
            } else {
                return Err(Error::Params(ParamsError::InvalidName));
            }
            idx += 1;
        }
        proof {
            assert(input@.skip(len as int) =~= Seq::<(Seq<char>, Seq<char>)>::empty());
        }
        Ok(output)
    }

    /// Serialize to the textual representation: exactly two decimal entries,
    /// `i` then `l`.
    pub fn to_parameter_string(&self) -> (r: Result<ParamsString, Error>)
        ensures
            r is Ok <==> to_parameter_string_spec(*self) is Ok,
            r is Ok ==> r->Ok_0@ == to_parameter_string_spec(*self)->Ok_0,
            r is Err ==> r->Err_0 == to_parameter_string_spec(*self)->Err_0,
    {
        if self.output_length > 0xffff_ffff {
            return Err(Error::Params(ParamsError::InvalidValue));
        }
        let mut ps = ParamsString::new();
        let i_text = u32_to_dec(self.rounds);
        ps.add("i", i_text.as_str());
        let l_text = u32_to_dec(self.output_length as u32);
        ps.add("l", l_text.as_str());
        proof {
            assert(ps@ =~= params_entries(*self));
        }
        Ok(ps)
    }
}

/// An empty parameter string parses to the default parameters.
pub proof fn lemma_empty_parameter_string_is_default(entries: Seq<(Seq<char>, Seq<char>)>)
    requires
        entries.len() == 0,
    ensures
        from_parameter_string_spec(entries) == Ok::<Params, Error>(default_params()),
{
}

/// Parsing fails on any parameter string that contains a key other than
/// `i` or `l`, whatever its other entries hold.
pub proof fn lemma_unknown_key_rejected(p: Params, entries: Seq<(Seq<char>, Seq<char>)>, k: int)
    requires
        0 <= k < entries.len(),
        entries[k].0 != "i"@,
        entries[k].0 != "l"@,
    ensures
        apply_entries(p, entries) is Err,
    decreases entries.len(),
{
    if k == 0 {
    } else {
        match apply_entry(p, entries[0].0, entries[0].1) {
            Ok(p2) => {
                assert(entries.drop_first()[k - 1] == entries[k]);
                lemma_unknown_key_rejected(p2, entries.drop_first(), k - 1);
            },
            Err(_) => {},
        }
    }
}

/// Serializing the parameters parsed from a canonical two-entry parameter
/// string gives that string back: `i` then `l`, both canonical decimals.
pub proof fn lemma_parameter_string_round_trip(rounds: u32, output_length: u32)
    ensures
        ({
            let entries = seq![
                ("i"@, dec_str(rounds as nat)),
                ("l"@, dec_str(output_length as nat)),
            ];
            &&& from_parameter_string_spec(entries) is Ok
            &&& to_parameter_string_spec(from_parameter_string_spec(entries)->Ok_0) == Ok::<
                Seq<(Seq<char>, Seq<char>)>,
                Error,
            >(entries)
        }),
{
    lemma_dec_str_val(rounds as nat);
    lemma_dec_str_val(output_length as nat);
    reveal_strlit("i");
    reveal_strlit("l");
    let rs = dec_str(rounds as nat);
    let ls = dec_str(output_length as nat);
    let entries = seq![("i"@, rs), ("l"@, ls)];
    assert("i"@[0] == 'i' && "l"@[0] == 'l');
    assert("i"@ != "l"@);
    assert(is_dec_u32(rs) && is_dec_u32(ls));
    let p0 = default_params();
    let p1 = Params { rounds, ..p0 };
    let p2 = Params { rounds, output_length: output_length as usize };
    assert(dec_val(rs) as u32 == rounds);
    assert(dec_val(ls) as usize == output_length as usize);
    assert(entries[0] == ("i"@, rs) && entries[1] == ("l"@, ls));
    assert(apply_entry(p0, "i"@, rs) == Ok::<Params, Error>(p1));
    assert(entries.drop_first()[0] == ("l"@, ls));
    assert(apply_entry(p1, "l"@, ls) == Ok::<Params, Error>(p2));
    assert(entries.drop_first().drop_first() =~= Seq::<(Seq<char>, Seq<char>)>::empty());
    assert(apply_entries(p2, entries.drop_first().drop_first()) == Ok::<Params, Error>(p2));
    assert(entries.drop_first().len() == 1);
    assert(apply_entries(p1, entries.drop_first()) == apply_entries(
        p2,
        entries.drop_first().drop_first(),
    ));
    assert(apply_entries(p0, entries) == apply_entries(p1, entries.drop_first()));
    assert(apply_entries(p0, entries) == Ok::<Params, Error>(p2));
    assert(params_entries(p2) == entries);
}

} // verus!
