use base64ct::Base64Unpadded;
use base64ct::Encoding;

use pbkdf2::AlgorithmId;
use pbkdf2::Error;
use pbkdf2::Ident;
use pbkdf2::Params;
use pbkdf2::ParamsError;
use pbkdf2::Pbkdf2;
use pbkdf2::pbkdf2_derive;

#[test]
fn derive_matches_sha1_test_vector() {
    let expected: [u8; 20] = [
        0x0c, 0x60, 0xc8, 0x0f, 0x96, 0x1f, 0x0e, 0x71, 0xf3, 0xa9, 0xb5, 0x24, 0xaf, 0x60, 0x12,
        0x06, 0x2f, 0xe0, 0x37, 0xa6,
    ];
    let out = pbkdf2_derive(AlgorithmId::Sha1, b"password", b"salt", 1, 20);
    assert_eq!(out.as_slice(), expected.as_slice());
}

#[test]
fn derive_matches_sha256_test_vectors() {
    let one: [u8; 32] = [
        0x12, 0x0f, 0xb6, 0xcf, 0xfc, 0xf8, 0xb3, 0x2c, 0x43, 0xe7, 0x22, 0x52, 0x56, 0xc4, 0xf8,
        0x37, 0xa8, 0x65, 0x48, 0xc9, 0x2c, 0xcc, 0x35, 0x48, 0x08, 0x05, 0x98, 0x7c, 0xb7, 0x0b,
        0xe1, 0x7b,
    ];
    let two: [u8; 32] = [
        0xae, 0x4d, 0x0c, 0x95, 0xaf, 0x6b, 0x46, 0xd3, 0x2d, 0x0a, 0xdf, 0xf9, 0x28, 0xf0, 0x6d,
        0xd0, 0x2a, 0x30, 0x3f, 0x8e, 0xf3, 0xc2, 0x51, 0xdf, 0xd6, 0xe2, 0xd8, 0x5a, 0x95, 0x47,
        0x4c, 0x43,
    ];
    assert_eq!(
        pbkdf2_derive(AlgorithmId::Sha256, b"password", b"salt", 1, 32).as_slice(),
        one.as_slice()
    );
    assert_eq!(
        pbkdf2_derive(AlgorithmId::Sha256, b"password", b"salt", 2, 32).as_slice(),
        two.as_slice()
    );
}

#[test]
fn derive_matches_sha512_test_vector() {
    let expected: [u8; 64] = [
        0x86, 0x7f, 0x70, 0xcf, 0x1a, 0xde, 0x02, 0xcf, 0xf3, 0x75, 0x25, 0x99, 0xa3, 0xa5, 0x3d,
        0xc4, 0xaf, 0x34, 0xc7, 0xa6, 0x69, 0x81, 0x5a, 0xe5, 0xd5, 0x13, 0x55, 0x4e, 0x1c, 0x8c,
        0xf2, 0x52, 0xc0, 0x2d, 0x47, 0x0a, 0x28, 0x5a, 0x05, 0x01, 0xba, 0xd9, 0x99, 0xbf, 0xe9,
        0x43, 0xc0, 0x8f, 0x05, 0x02, 0x35, 0xd7, 0xd6, 0x8b, 0x1d, 0xa5, 0x5e, 0x63, 0xf7, 0x3b,
        0x60, 0xa5, 0x7f, 0xce,
    ];
    let out = pbkdf2_derive(AlgorithmId::Sha512, b"password", b"salt", 1, 64);
    assert_eq!(out.as_slice(), expected.as_slice());
}

#[test]
fn hash_password_matches_test_vector() {
    let rec = Pbkdf2
        .hash_password(
            b"password",
            None,
            Params {
                rounds: 1,
                output_length: 32,
            },
            "c2FsdA",
        )
        .unwrap();
    let expected: [u8; 32] = [
        0x12, 0x0f, 0xb6, 0xcf, 0xfc, 0xf8, 0xb3, 0x2c, 0x43, 0xe7, 0x22, 0x52, 0x56, 0xc4, 0xf8,
        0x37, 0xa8, 0x65, 0x48, 0xc9, 0x2c, 0xcc, 0x35, 0x48, 0x08, 0x05, 0x98, 0x7c, 0xb7, 0x0b,
        0xe1, 0x7b,
    ];
    assert_eq!(rec.hash.as_ref().unwrap().as_slice(), expected.as_slice());
    assert_eq!(rec.algorithm.as_str(), "pbkdf2-sha256");
    assert_eq!(rec.version, None);
    assert_eq!(rec.salt.as_deref(), Some("c2FsdA"));
}

#[test]
fn hash_with_explicit_algorithm_and_params() {
    let salt_bytes = *b"0123456789abcdef";
    let salt = Base64Unpadded::encode_string(&salt_bytes);
    let id = Ident::try_new("pbkdf2-sha256").unwrap();
    let rec = Pbkdf2
        .hash_password(
            b"correcthorse",
            Some(&id),
            Params {
                rounds: 1000,
                output_length: 32,
            },
            &salt,
        )
        .unwrap();
    assert_eq!(rec.hash.as_ref().unwrap().len(), 32);
    let p = Params::from_parameter_string(&rec.params).unwrap();
    assert_eq!(p.rounds, 1000);
    assert_eq!(p.output_length, 32);
    assert_eq!(rec.algorithm.as_str(), "pbkdf2-sha256");
    assert_eq!(rec.salt.as_deref(), Some(salt.as_str()));
}

#[test]
fn hash_is_deterministic() {
    let make = || {
        Pbkdf2.hash_password(
            b"correcthorse",
            None,
            Params {
                rounds: 50,
                output_length: 24,
            },
            "c2FsdA",
        )
    };
    let a = make().unwrap();
    let b = make().unwrap();
    assert_eq!(a, b);
    assert_eq!(a.hash.unwrap(), b.hash.unwrap());
}

#[test]
fn hash_rejects_invalid_salt_encoding() {
    let r = Pbkdf2.hash_password(b"pw", None, Params::default(), "!!!invalid!!!");
    assert_eq!(r, Err(Error::Encoding));
}

#[test]
fn hash_rejects_oversized_salt() {
    let salt = Base64Unpadded::encode_string(&[0u8; 65]);
    let r = Pbkdf2.hash_password(b"pw", None, Params::default(), &salt);
    assert_eq!(r, Err(Error::Encoding));
}

#[test]
fn hash_rejects_unknown_algorithm() {
    let id = Ident::try_new("pbkdf2-sha384").unwrap();
    let r = Pbkdf2.hash_password(b"pw", Some(&id), Params::default(), "c2FsdA");
    assert_eq!(r, Err(Error::Algorithm));
}

#[test]
fn hash_rejects_output_length_out_of_bounds() {
    for bad in [0usize, 5, 9, 65, 1000] {
        let r = Pbkdf2.hash_password(
            b"pw",
            None,
            Params {
                rounds: 1,
                output_length: bad,
            },
            "c2FsdA",
        );
        assert_eq!(r, Err(Error::Params(ParamsError::InvalidValue)));
    }
}

#[test]
fn hash_uses_selected_variant() {
    let sha1 = Ident::try_new("pbkdf2").unwrap();
    let rec = Pbkdf2
        .hash_password(
            b"password",
            Some(&sha1),
            Params {
                rounds: 1,
                output_length: 20,
            },
            "c2FsdA",
        )
        .unwrap();
    let expected: [u8; 20] = [
        0x0c, 0x60, 0xc8, 0x0f, 0x96, 0x1f, 0x0e, 0x71, 0xf3, 0xa9, 0xb5, 0x24, 0xaf, 0x60, 0x12,
        0x06, 0x2f, 0xe0, 0x37, 0xa6,
    ];
    assert_eq!(rec.algorithm.as_str(), "pbkdf2");
    assert_eq!(rec.hash.as_ref().unwrap().as_slice(), expected.as_slice());
}

#[test]
fn strip_padding_behaviour() {
    assert_eq!(pbkdf2::b64_strip("YWJj=="), "YWJj");
    assert_eq!(pbkdf2::b64_strip("YWJj"), "YWJj");
    assert_eq!(pbkdf2::b64_strip("===="), "");
    assert_eq!(pbkdf2::b64_strip(""), "");
    assert_eq!(pbkdf2::b64_strip("=a="), "=a");
}
