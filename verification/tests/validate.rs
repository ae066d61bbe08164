use numfmt::{
    delimiter_from, invalid_mode_from_name, is_int, rounding_from_name, strick_positive_int,
    unit_family_from_name, validate_field, validate_format, validate_invalid, validate_round,
    validate_unit_from, validate_unit_to, InvalidMode, RoundingPolicy, UnitFamily,
};

fn err(message: &str) -> Result<(), String> {
    Err(message.to_string())
}

#[test]
fn is_int_agrees_with_the_integer_parser() {
    let cases = [
        "0",
        "-0",
        "+0",
        "+5",
        "-5",
        "007",
        "9223372036854775807",
        "9223372036854775808",
        "-9223372036854775808",
        "-9223372036854775809",
        "+9223372036854775807",
        "99999999999999999999999999999999999999999999",
        "",
        "-",
        "+",
        "--1",
        "+-1",
        "1 ",
        " 1",
        "1_000",
        "0x10",
        "1e3",
        "１",
    ];
    for case in cases {
        assert_eq!(
            is_int(case.to_string()).is_ok(),
            case.parse::<i64>().is_ok(),
            "case {:?}",
            case
        );
    }
}

#[test]
fn is_int_message() {
    assert_eq!(is_int("x".to_string()), err("value should be an integer."));
}

#[test]
fn strick_positive_int_edges() {
    assert_eq!(strick_positive_int("1".to_string()), Ok(()));
    assert_eq!(strick_positive_int("+1".to_string()), Ok(()));
    assert_eq!(strick_positive_int("9223372036854775807".to_string()), Ok(()));
    assert_eq!(
        strick_positive_int("9223372036854775808".to_string()),
        err("value should be strickly positive integer.")
    );
    assert_eq!(
        strick_positive_int("-1".to_string()),
        err("value should be strickly positive integer.")
    );
    assert_eq!(
        strick_positive_int("0".to_string()),
        err("value should be strickly positive integer.")
    );
    assert_eq!(
        strick_positive_int("".to_string()),
        err("value should be strickly positive integer.")
    );
}

#[test]
fn validate_field_allows_one_dash() {
    assert_eq!(validate_field("-".to_string()), Ok(()));
    assert_eq!(validate_field("1-2".to_string()), Ok(()));
    assert_eq!(validate_field("1-2-3".to_string()), err("invalid arg for field"));
    assert_eq!(validate_field("--".to_string()), err("invalid arg for field"));
    assert_eq!(validate_field("1,2".to_string()), err("invalid arg for field"));
    assert_eq!(validate_field("+1".to_string()), err("invalid arg for field"));
    assert_eq!(validate_field(" 1".to_string()), err("invalid arg for field"));
}

#[test]
fn validate_format_cases() {
    let usable = [
        "%f",
        "%-10f",
        "%+3f",
        "%0f",
        "%010f",
        "a%5fb",
        "%5ff",
        "f%f",
        "%99999999999999999999f",
        "%-99999999999999999999f",
        "%9223372036854775808f",
    ];
    for format in usable {
        assert_eq!(validate_format(format.to_string()), Ok(()), "format {:?}", format);
    }
    for format in ["%.1f", "% 5f", "%5", "5f", "f%", "%5d", "%%f", "%-f", "%+f", "%1e3f"] {
        assert_eq!(
            validate_format(format.to_string()),
            err("invalid arg for format"),
            "format {:?}",
            format
        );
    }
}

#[test]
fn names_are_accepted_in_any_case() {
    assert_eq!(validate_unit_from("SI".to_string()), Ok(()));
    assert_eq!(validate_unit_from("Auto".to_string()), Ok(()));
    assert_eq!(validate_unit_from("IEC-I".to_string()), Ok(()));
    assert_eq!(validate_unit_to("Iec".to_string()), Ok(()));
    assert_eq!(validate_invalid("FAIL".to_string()), Ok(()));
    assert_eq!(validate_invalid("Warn".to_string()), Ok(()));
    assert_eq!(validate_round("From-Zero".to_string()), Ok(()));
    assert_eq!(validate_round("NEAREST".to_string()), Ok(()));
}

#[test]
fn unit_to_does_not_take_auto() {
    assert_eq!(validate_unit_to("auto".to_string()), err("invalid unit arg"));
    assert_eq!(validate_unit_to("AUTO".to_string()), err("invalid unit arg"));
    assert_eq!(validate_unit_to("".to_string()), err("invalid unit arg"));
    assert_eq!(validate_unit_from("".to_string()), err("invalid unit arg"));
    assert_eq!(validate_unit_from("none".to_string()), err("invalid unit arg"));
    assert_eq!(validate_unit_from("si ".to_string()), err("invalid unit arg"));
}

#[test]
fn invalid_and_round_messages() {
    assert_eq!(validate_invalid("stop".to_string()), err("invalid invalid mode"));
    assert_eq!(validate_round("half".to_string()), err("invalid round method"));
}

#[test]
fn names_map_to_their_values() {
    assert_eq!(unit_family_from_name("auto"), Some(UnitFamily::Auto));
    assert_eq!(unit_family_from_name("si"), Some(UnitFamily::Si));
    assert_eq!(unit_family_from_name("iec"), Some(UnitFamily::Iec));
    assert_eq!(unit_family_from_name("iec-i"), Some(UnitFamily::IecI));
    assert_eq!(unit_family_from_name("SI"), None);
    assert_eq!(unit_family_from_name("s"), None);
    assert_eq!(unit_family_from_name("sii"), None);
    assert_eq!(rounding_from_name("up"), Some(RoundingPolicy::Ceiling));
    assert_eq!(rounding_from_name("down"), Some(RoundingPolicy::Floor));
    assert_eq!(rounding_from_name("from-zero"), Some(RoundingPolicy::AwayFromZero));
    assert_eq!(rounding_from_name("towards-zero"), Some(RoundingPolicy::TowardZero));
    assert_eq!(rounding_from_name("nearest"), Some(RoundingPolicy::Nearest));
    assert_eq!(rounding_from_name("Up"), None);
    assert_eq!(invalid_mode_from_name("fail"), Some(InvalidMode::Fail));
    assert_eq!(invalid_mode_from_name("warn"), Some(InvalidMode::Warn));
    assert_eq!(invalid_mode_from_name("ignore"), Some(InvalidMode::Ignore));
    assert_eq!(invalid_mode_from_name("abort"), Some(InvalidMode::Abort));
    assert_eq!(invalid_mode_from_name(""), None);
}

#[test]
fn delimiter_is_one_character() {
    assert_eq!(delimiter_from(" "), Some(' '));
    assert_eq!(delimiter_from(":"), Some(':'));
    assert_eq!(delimiter_from("é"), Some('é'));
    assert_eq!(delimiter_from(""), None);
    assert_eq!(delimiter_from("ab"), None);
    assert_eq!(delimiter_from(", "), None);
}
