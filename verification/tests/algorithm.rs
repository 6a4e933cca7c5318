use pbkdf2::AlgorithmId;
use pbkdf2::Error;
use pbkdf2::Ident;

#[test]
fn identifier_round_trip() {
    for alg in [AlgorithmId::Sha1, AlgorithmId::Sha256, AlgorithmId::Sha512] {
        let id = alg.ident();
        assert_eq!(AlgorithmId::new(&id), Ok(alg));
        assert_eq!(AlgorithmId::from_str(alg.as_str()), Ok(alg));
    }
}

#[test]
fn identifier_texts() {
    assert_eq!(AlgorithmId::Sha1.as_str(), "pbkdf2");
    assert_eq!(AlgorithmId::Sha256.as_str(), "pbkdf2-sha256");
    assert_eq!(AlgorithmId::Sha512.as_str(), "pbkdf2-sha512");
}

#[test]
fn resolve_rejects_substrings_and_similar() {
    for bad in ["pbkdf2-sha", "pbkdf2-sha256x", "pbkdf", "bpkdf2", "pbkdf2-sha384", "x"] {
        assert_eq!(AlgorithmId::from_str(bad), Err(Error::Algorithm));
    }
}

#[test]
fn resolve_rejects_case_variants_as_malformed() {
    for bad in ["PBKDF2-SHA256", "Pbkdf2", "pbkdf2-SHA512"] {
        assert_eq!(AlgorithmId::from_str(bad), Err(Error::Parse));
    }
}

#[test]
fn ident_syntax_is_checked() {
    assert!(Ident::try_new("abc-123").is_ok());
    assert_eq!(Ident::try_new(""), Err(Error::Parse));
    assert_eq!(Ident::try_new("has space"), Err(Error::Parse));
    assert_eq!(Ident::try_new("UPPER"), Err(Error::Parse));
    assert_eq!(
        Ident::try_new("abcdefghijklmnopqrstuvwxyz0123456"),
        Err(Error::Parse)
    );
    assert!(Ident::try_new("abcdefghijklmnopqrstuvwxyz012345").is_ok());
}
