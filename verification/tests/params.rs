use pbkdf2::Error;
use pbkdf2::Params;
use pbkdf2::ParamsError;
use pbkdf2::ParamsString;

#[test]
fn empty_parameter_string_gives_defaults() {
    let ps = ParamsString::new();
    let p = Params::from_parameter_string(&ps).unwrap();
    assert_eq!(p.rounds, 10_000);
    assert_eq!(p.output_length, 32);
    assert_eq!(p, Params::default());
}

#[test]
fn parameter_string_round_trip() {
    let mut ps = ParamsString::new();
    ps.add("i", "1000");
    ps.add("l", "32");
    let p = Params::from_parameter_string(&ps).unwrap();
    assert_eq!(p.rounds, 1000);
    assert_eq!(p.output_length, 32);
    let back = p.to_parameter_string().unwrap();
    assert_eq!(back, ps);
}

#[test]
fn unknown_key_is_rejected() {
    let mut ps = ParamsString::new();
    ps.add("i", "1000");
    ps.add("x", "5");
    assert_eq!(
        Params::from_parameter_string(&ps),
        Err(Error::Params(ParamsError::InvalidName))
    );
}

#[test]
fn non_decimal_value_is_rejected() {
    let mut ps = ParamsString::new();
    ps.add("i", "12a");
    assert_eq!(
        Params::from_parameter_string(&ps),
        Err(Error::Params(ParamsError::InvalidValue))
    );
    let mut ps2 = ParamsString::new();
    ps2.add("l", "");
    assert_eq!(
        Params::from_parameter_string(&ps2),
        Err(Error::Params(ParamsError::InvalidValue))
    );
    let mut ps3 = ParamsString::new();
    ps3.add("i", "4294967296");
    assert_eq!(
        Params::from_parameter_string(&ps3),
        Err(Error::Params(ParamsError::InvalidValue))
    );
}

#[test]
fn duplicate_keys_last_write_wins() {
    let mut ps = ParamsString::new();
    ps.add("i", "1");
    ps.add("i", "7");
    let p = Params::from_parameter_string(&ps).unwrap();
    assert_eq!(p.rounds, 7);
    assert_eq!(p.output_length, 32);
}

#[test]
fn partial_parameter_string_keeps_other_default() {
    let mut ps = ParamsString::new();
    ps.add("l", "20");
    let p = Params::from_parameter_string(&ps).unwrap();
    assert_eq!(p.rounds, 10_000);
    assert_eq!(p.output_length, 20);
}

#[test]
fn serialization_is_two_entries_in_order() {
    let p = Params {
        rounds: 4294967295,
        output_length: 64,
    };
    let ps = p.to_parameter_string().unwrap();
    assert_eq!(ps.len(), 2);
    assert_eq!(ps.name_at(0), "i");
    assert_eq!(ps.value_at(0), "4294967295");
    assert_eq!(ps.name_at(1), "l");
    assert_eq!(ps.value_at(1), "64");
}

#[test]
fn oversized_output_length_cannot_serialize() {
    let p = Params {
        rounds: 1,
        output_length: 0x1_0000_0000usize,
    };
    assert_eq!(
        p.to_parameter_string(),
        Err(Error::Params(ParamsError::InvalidValue))
    );
}
