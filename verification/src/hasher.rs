//! The canonical hasher and the legacy-format upgrader.

use vstd::prelude::*;
use vstd::string::StringExecFns;

use crate::algorithm::AlgorithmId;
use crate::algorithm::ident_chars;
use crate::algorithm::resolve_spec;
use crate::b64::b64_decode;
use crate::b64::b64_decode_of;
use crate::b64::b64_strip;
use crate::b64::stripped;
use crate::error::Error;
use crate::error::ParamsError;
use crate::ident::Ident;
use crate::kdf::MAX_OUTPUT_LEN;
use crate::kdf::MAX_SALT_LEN;
use crate::kdf::MIN_OUTPUT_LEN;
use crate::kdf::pbkdf2_derive;
use crate::kdf::pbkdf2_spec;
use crate::legacy;
use crate::legacy::legacy_hash;
use crate::legacy::legacy_ok;
use crate::legacy::legacy_rounds;
use crate::legacy::legacy_salt;
use crate::params::Params;
use crate::params::params_entries;
use crate::record::PasswordHash;
use crate::record::RecordV;

verus! {

/// PBKDF2 hasher over the canonical record format.
#[derive(Copy, Clone, Debug, PartialEq, Eq, Structural)]
pub struct Pbkdf2;

/// View of an optional identifier argument.
pub open spec fn opt_ident_view(algorithm: Option<&Ident>) -> Option<Seq<char>> {
    match algorithm {
        Some(id) => Some(id@),
        None => None,
    }
}

/// The algorithm a hashing call runs under: the supplied identifier
/// resolved against the fixed set, or the SHA-256 variant when absent.
pub open spec fn effective_alg(algorithm: Option<Seq<char>>) -> Result<AlgorithmId, Error> {
    match algorithm {
        Some(s) => resolve_spec(s),
        None => Ok(AlgorithmId::Sha256),
    }
}

/// What hashing yields: the canonical record, or the first applicable
/// error — an unresolvable algorithm, a malformed or oversized salt, or an
/// output length the record format cannot carry.
pub open spec fn hash_spec(
    password: Seq<u8>,
    algorithm: Option<Seq<char>>,
    params: Params,
    salt: Seq<char>,
) -> Result<RecordV, Error> {
    match effective_alg(algorithm) {
        Err(e) => Err(e),
        Ok(alg) => match b64_decode_of(salt) {
            None => Err(Error::Encoding),
            Some(sb) => {
                if sb.len() > MAX_SALT_LEN {
                    Err(Error::Encoding)
                } else if params.output_length < MIN_OUTPUT_LEN || params.output_length
                    > MAX_OUTPUT_LEN {
                    Err(Error::Params(ParamsError::InvalidValue))
                } else {
                    Ok(
                        RecordV {
                            algorithm: ident_chars(alg),
                            version: None,
                            params: params_entries(params),
                            salt: Some(salt),
                            hash: Some(
                                pbkdf2_spec(
                                    alg,
                                    password,
                                    sb,
                                    params.rounds,
                                    params.output_length as nat,
                                ),
                            ),
                        },
                    )
                }
            },
        },
    }
}

/// What upgrading a legacy string yields: the canonical record under the
/// SHA-256 identifier, or the first applicable error — a string off the
/// legacy grammar, a malformed or oversized salt, a malformed hash segment,
/// or a digest size the record format cannot carry.
pub open spec fn upgrade_spec(s: Seq<char>) -> Result<RecordV, Error> {
    if !legacy_ok(s) {
        Err(Error::Parse)
    } else {
        let salt_txt = stripped(legacy_salt(s));
        let hash_txt = stripped(legacy_hash(s));
        match b64_decode_of(salt_txt) {
            None => Err(Error::Encoding),
            Some(sb) => {
                if sb.len() > MAX_SALT_LEN {
                    Err(Error::Encoding)
                } else {
                    match b64_decode_of(hash_txt) {
                        None => Err(Error::Encoding),
                        Some(hb) => {
                            if hb.len() < MIN_OUTPUT_LEN || hb.len() > MAX_OUTPUT_LEN {
                                Err(Error::Params(ParamsError::InvalidValue))
                            } else {
                                Ok(
                                    RecordV {
                                        algorithm: ident_chars(AlgorithmId::Sha256),
                                        version: None,
                                        params: params_entries(
                                            Params {
                                                rounds: legacy_rounds(s) as u32,
                                                output_length: hb.len() as usize,
                                            },
                                        ),
                                        salt: Some(salt_txt),
                                        hash: Some(hb),
                                    },
                                )
                            }
                        },
                    }
                }
            },
        }
    }
}

impl Pbkdf2 {
    /// Hash `password` into a canonical record: resolve the algorithm
    /// (SHA-256 variant when none is given), decode the salt, derive the
    /// output, and assemble the record. All-or-nothing: on any error no
    /// record exists.
    pub fn hash_password(
        &self,
        password: &[u8],
        algorithm: Option<&Ident>,
        params: Params,
        salt: &str,
    ) -> (r: Result<PasswordHash, Error>)
        ensures
            r is Ok <==> hash_spec(password@, opt_ident_view(algorithm), params, salt@) is Ok,
            r is Ok ==> r->Ok_0@ == hash_spec(
                password@,
                opt_ident_view(algorithm),
                params,
                salt@,
            )->Ok_0,
            r is Err ==> r->Err_0 == hash_spec(
                password@,
                opt_ident_view(algorithm),
                params,
                salt@,
            )->Err_0,
    {
        let alg = match algorithm {
            Some(id) => match AlgorithmId::new(id) {
                Ok(a) => a,
                Err(e) => {
                    return Err(e);
                },
            },
            None => AlgorithmId::Sha256,
        };
        let salt_bytes = match b64_decode(salt) {
            Ok(v) => v,
            Err(e) => {
                return Err(e);
            },
        };
        if salt_bytes.len() > MAX_SALT_LEN {
            return Err(Error::Encoding);
        }
        if params.output_length < MIN_OUTPUT_LEN || params.output_length > MAX_OUTPUT_LEN {
            return Err(Error::Params(ParamsError::InvalidValue));
        }
        let out = pbkdf2_derive(
            alg,
            password,
            salt_bytes.as_slice(),
            params.rounds,
            params.output_length,
        );
        let ps = match params.to_parameter_string() {
            Ok(p) => p,
            Err(_) => vstd::pervasive::unreached(),
        };
        let rec = PasswordHash {
            algorithm: alg.ident(),
            version: None,
            params: ps,
            salt: Some(String::from_str(salt)),
            hash: Some(out),
        };
        proof {
            assert(rec@ =~~= hash_spec(password@, opt_ident_view(algorithm), params, salt@)->Ok_0);
        }
        Ok(rec)
    }

    /// Re-express a legacy crypt-style hash string as a canonical record
    /// under the SHA-256 identifier: parse it, strip Base64 padding off the
    /// salt and hash segments, decode them, and carry the secret material
    /// over bit for bit. Rounds come from the string; the output length is
    /// the decoded digest's size. All failures of the legacy lexer collapse
    /// into one parse error.
    pub fn upgrade_mcf_hash(&self, hash: &str) -> (r: Result<PasswordHash, Error>)
        ensures
            r is Ok <==> upgrade_spec(hash@) is Ok,
            r is Ok ==> r->Ok_0@ == upgrade_spec(hash@)->Ok_0,
            r is Err ==> r->Err_0 == upgrade_spec(hash@)->Err_0,
    {
        let (rounds, salt_text, hash_text) = match legacy::parse_hash(hash) {
            Ok(t) => t,
            Err(_) => {
                return Err(Error::Parse);
            },
        };
        let salt_stripped = b64_strip(salt_text.as_str());
        let salt_bytes = match b64_decode(salt_stripped) {
            Ok(v) => v,
            Err(e) => {
                return Err(e);
            },
        };
        if salt_bytes.len() > MAX_SALT_LEN {
            return Err(Error::Encoding);
        }
        let hash_stripped = b64_strip(hash_text.as_str());
        let hash_bytes = match b64_decode(hash_stripped) {
            Ok(v) => v,
            Err(e) => {
                return Err(e);
            },
        };
        if hash_bytes.len() < MIN_OUTPUT_LEN || hash_bytes.len() > MAX_OUTPUT_LEN {
            return Err(Error::Params(ParamsError::InvalidValue));
        }
        let params = Params { rounds, output_length: hash_bytes.len() };
        let ps = match params.to_parameter_string() {
            Ok(p) => p,
            Err(_) => vstd::pervasive::unreached(),
        };
        let salt_string = String::from_str(salt_stripped);
        let alg = AlgorithmId::Sha256;
        let rec = PasswordHash {
            algorithm: alg.ident(),
            version: None,
            params: ps,
            salt: Some(salt_string),
            hash: Some(hash_bytes),
        };
        proof {
            assert(rec@ =~~= upgrade_spec(hash@)->Ok_0);
        }
        Ok(rec)
    }
}

/// Hashing is deterministic: the canonical record is a function of the
/// password, algorithm, parameters and salt alone, so two calls on
/// identical inputs yield identical records.
pub proof fn lemma_hash_deterministic(
    password: Seq<u8>,
    algorithm: Option<Seq<char>>,
    params: Params,
    salt: Seq<char>,
    r1: RecordV,
    r2: RecordV,
)
    requires
        hash_spec(password, algorithm, params, salt) == Ok::<RecordV, Error>(r1),
        hash_spec(password, algorithm, params, salt) == Ok::<RecordV, Error>(r2),
    ensures
        r1 == r2,
{
}

} // verus!
