use base64ct::Base64;
use base64ct::Encoding;

use pbkdf2::Error;
use pbkdf2::Params;
use pbkdf2::ParamsError;
use pbkdf2::Pbkdf2;

#[test]
fn upgrade_well_formed_legacy_string() {
    let digest = [7u8; 20];
    let salt_b64 = Base64::encode_string(b"salt");
    let hash_b64 = Base64::encode_string(&digest);
    let legacy = format!("$pbkdf2-sha256$5000${}${}", salt_b64, hash_b64);
    let rec = Pbkdf2.upgrade_mcf_hash(&legacy).unwrap();
    let p = Params::from_parameter_string(&rec.params).unwrap();
    assert_eq!(p.rounds, 5000);
    assert_eq!(p.output_length, 20);
    assert_eq!(rec.algorithm.as_str(), "pbkdf2-sha256");
    assert_eq!(rec.version, None);
    assert_eq!(rec.salt.as_deref(), Some("c2FsdA"));
    assert_eq!(rec.hash.as_ref().unwrap().as_slice(), digest.as_slice());
}

#[test]
fn upgrade_preserves_unpadded_segments() {
    let legacy = "$pbkdf2-sha256$1$c2FsdA$AAAAAAAAAAAAAAAAAAAAAAAAAAA";
    let rec = Pbkdf2.upgrade_mcf_hash(legacy).unwrap();
    assert_eq!(rec.salt.as_deref(), Some("c2FsdA"));
    assert_eq!(rec.hash.as_ref().unwrap().as_slice(), [0u8; 20].as_slice());
}

#[test]
fn upgrade_rejects_structurally_invalid_strings() {
    for bad in [
        "",
        "plain",
        "$pbkdf2-sha256$1000$only-three-segments",
        "$pbkdf2-sha512$1000$c2FsdA==$AAAAAAAAAAAAAAAAAAAAAAAAAAA=",
        "$pbkdf2-sha256$12x$c2FsdA==$AAAAAAAAAAAAAAAAAAAAAAAAAAA=",
        "$pbkdf2-sha256$$c2FsdA==$AAAAAAAAAAAAAAAAAAAAAAAAAAA=",
        "$pbkdf2-sha256$1000$$AAAAAAAAAAAAAAAAAAAAAAAAAAA=",
        "$pbkdf2-sha256$1000$c2FsdA==$",
        "$pbkdf2-sha256$4294967296$c2FsdA==$AAAAAAAAAAAAAAAAAAAAAAAAAAA=",
        "pbkdf2-sha256$1000$c2FsdA==$AAAAAAAAAAAAAAAAAAAAAAAAAAA=",
        "$pbkdf2-sha256$1000$a$b$c",
    ] {
        assert_eq!(Pbkdf2.upgrade_mcf_hash(bad), Err(Error::Parse), "{}", bad);
    }
}

#[test]
fn upgrade_rejects_malformed_base64_segments() {
    let r = Pbkdf2.upgrade_mcf_hash("$pbkdf2-sha256$1000$!!$AAAAAAAAAAAAAAAAAAAAAAAAAAA=");
    assert_eq!(r, Err(Error::Encoding));
    let r2 = Pbkdf2.upgrade_mcf_hash("$pbkdf2-sha256$1000$c2FsdA==$*bad*");
    assert_eq!(r2, Err(Error::Encoding));
}

#[test]
fn upgrade_rejects_digest_size_out_of_bounds() {
    let small = Base64::encode_string(&[1u8; 4]);
    let legacy = format!("$pbkdf2-sha256$1000$c2FsdA==${}", small);
    assert_eq!(
        Pbkdf2.upgrade_mcf_hash(&legacy),
        Err(Error::Params(ParamsError::InvalidValue))
    );
    let big = Base64::encode_string(&[1u8; 80]);
    let legacy2 = format!("$pbkdf2-sha256$1000$c2FsdA==${}", big);
    assert_eq!(
        Pbkdf2.upgrade_mcf_hash(&legacy2),
        Err(Error::Params(ParamsError::InvalidValue))
    );
}

#[test]
fn upgrade_rejects_oversized_salt() {
    let salt = Base64::encode_string(&[0u8; 65]);
    let legacy = format!("$pbkdf2-sha256$1000${}$AAAAAAAAAAAAAAAAAAAAAAAAAAA=", salt);
    assert_eq!(Pbkdf2.upgrade_mcf_hash(&legacy), Err(Error::Encoding));
}
