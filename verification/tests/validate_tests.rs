use mcs_backend::payload::Payload;
use mcs_backend::text::ParseFailure;
use mcs_backend::validate::{validate_fstop, validate_input, validate_unsigned, Field, ValidationError};

fn sample_payload() -> Payload {
    Payload {
        nsweeps: "20".to_string(),
        nf: "10000".to_string(),
        smax: "100".to_string(),
        local: "0".to_string(),
        fstop: "1.5".to_string(),
        code: "let x = 1;".to_string(),
    }
}

#[test]
fn nsweeps_one_below_min_is_rejected() {
    match validate_unsigned(Field::Nsweeps, "19", 20, 3000) {
        Err(ValidationError::Range { field, value, min, max }) => {
            assert_eq!(field, Field::Nsweeps);
            assert_eq!(value, "19");
            assert_eq!(min, "20");
            assert_eq!(max, "3000");
        },
        _ => panic!("expected a range error"),
    }
}

#[test]
fn nsweeps_min_and_max_are_accepted() {
    assert_eq!(validate_unsigned(Field::Nsweeps, "20", 20, 3000).ok(), Some("20".to_string()));
    assert_eq!(validate_unsigned(Field::Nsweeps, "3000", 20, 3000).ok(), Some("3000".to_string()));
}

#[test]
fn nsweeps_one_above_max_is_rejected() {
    match validate_unsigned(Field::Nsweeps, "3001", 20, 3000) {
        Err(ValidationError::Range { field, value, .. }) => {
            assert_eq!(field, Field::Nsweeps);
            assert_eq!(value, "3001");
        },
        _ => panic!("expected a range error"),
    }
}

#[test]
fn unsigned_parse_failure_names_the_field_and_its_kind() {
    match validate_unsigned(Field::Nf, "abc", 10000, 2000000) {
        Err(ValidationError::Parse { field, raw, kind }) => {
            assert_eq!(field, Field::Nf);
            assert_eq!(raw, "abc");
            assert_eq!(kind, ParseFailure::InvalidDigit);
        },
        _ => panic!("expected a parse error"),
    }
    match validate_unsigned(Field::Nf, "", 10000, 2000000) {
        Err(ValidationError::Parse { kind, .. }) => assert_eq!(kind, ParseFailure::EmptyInput),
        _ => panic!("expected a parse error"),
    }
    for raw in ["-5", "20.5", "+", "+x"] {
        match validate_unsigned(Field::Nf, raw, 10000, 2000000) {
            Err(ValidationError::Parse { kind, .. }) => {
                assert_eq!(kind, ParseFailure::InvalidDigit);
            },
            _ => panic!("expected a parse error for {raw}"),
        }
    }
}

#[test]
fn unsigned_is_reserialized_canonically() {
    assert_eq!(validate_unsigned(Field::Local, "007", 0, 500).ok(), Some("7".to_string()));
    assert_eq!(validate_unsigned(Field::Local, "+42", 0, 500).ok(), Some("42".to_string()));
}

#[test]
fn unsigned_overflowing_text_is_a_parse_error() {
    match validate_unsigned(Field::Smax, "99999999999999999999", 100, 5000) {
        Err(ValidationError::Parse { field, kind, .. }) => {
            assert_eq!(field, Field::Smax);
            assert_eq!(kind, ParseFailure::TooLarge);
        },
        _ => panic!("expected a parse error"),
    }
    // overflow strikes before a later invalid character does, scanning left
    // to right, exactly as str::parse does
    match validate_unsigned(Field::Smax, "99999999999999999999x", 100, 5000) {
        Err(ValidationError::Parse { kind, .. }) => assert_eq!(kind, ParseFailure::TooLarge),
        _ => panic!("expected a parse error"),
    }
}

#[test]
fn range_error_message_text() {
    let e = validate_unsigned(Field::Nsweeps, "19", 20, 3000).err().unwrap();
    assert_eq!(e.message(), "Value 19 is out of acceptable range 20:3000");
}

#[test]
fn parse_error_message_text() {
    let e = validate_unsigned(Field::Nsweeps, "abc", 20, 3000).err().unwrap();
    assert_eq!(
        e.message(),
        "'abc' is not a valid unsigned integer: invalid digit found in string"
    );
    let e = validate_unsigned(Field::Nsweeps, "", 20, 3000).err().unwrap();
    assert_eq!(
        e.message(),
        "'' is not a valid unsigned integer: cannot parse integer from empty string"
    );
    let e = validate_unsigned(Field::Nsweeps, "5000000000", 20, 3000).err().unwrap();
    assert_eq!(
        e.message(),
        "'5000000000' is not a valid unsigned integer: number too large to fit in target type"
    );
    // the parse messages agree with str::parse::<u32> word for word
    for raw in ["abc", "", "5000000000", "-5", "+", "20.5"] {
        let e = validate_unsigned(Field::Nsweeps, raw, 20, 3000).err().unwrap();
        let detail = raw.parse::<u32>().err().unwrap().to_string();
        assert_eq!(e.message(), format!("'{raw}' is not a valid unsigned integer: {detail}"));
    }
}

#[test]
fn fstop_at_minimum_becomes_neg_infinity_sentinel() {
    assert_eq!(validate_fstop("-1000000").ok(), Some("f64::NEG_INFINITY".to_string()));
    // numerically equal spellings of the minimum select the sentinel too
    assert_eq!(validate_fstop("-1000000.0").ok(), Some("f64::NEG_INFINITY".to_string()));
    assert_eq!(validate_fstop("-0001000000.00").ok(), Some("f64::NEG_INFINITY".to_string()));
}

#[test]
fn fstop_below_minimum_is_rejected_not_substituted() {
    match validate_fstop("-1000000.5") {
        Err(ValidationError::Range { field, value, min, max }) => {
            assert_eq!(field, Field::Fstop);
            assert_eq!(value, "-1000000.5");
            assert_eq!(min, "-1000000.0");
            assert_eq!(max, "1000000.0");
        },
        _ => panic!("expected a range error"),
    }
}

#[test]
fn fstop_interior_values_render_canonically() {
    assert_eq!(validate_fstop("-999999.99").ok(), Some("-999999.99".to_string()));
    assert_eq!(validate_fstop("3.250").ok(), Some("3.25".to_string()));
    assert_eq!(validate_fstop("0005.10").ok(), Some("5.1".to_string()));
    assert_eq!(validate_fstop("-0").ok(), Some("0.0".to_string()));
    assert_eq!(validate_fstop("1000000").ok(), Some("1000000.0".to_string()));
}

#[test]
fn fstop_above_maximum_is_rejected() {
    match validate_fstop("1000000.1") {
        Err(ValidationError::Range { field, .. }) => assert_eq!(field, Field::Fstop),
        _ => panic!("expected a range error"),
    }
}

#[test]
fn fstop_bad_grammar_is_a_parse_error() {
    for raw in ["abc", "1.", ".5", "1..2", "", "-", "1.2.3", "1e5"] {
        match validate_fstop(raw) {
            Err(ValidationError::ParseDecimal { field, raw: got }) => {
                assert_eq!(field, Field::Fstop);
                assert_eq!(got, raw);
            },
            _ => panic!("expected a parse error for {raw}"),
        }
    }
    let e = validate_fstop("abc").err().unwrap();
    assert_eq!(e.message(), "'abc' is not a valid number");
}

#[test]
fn validate_input_accepts_a_payload_in_bounds() {
    let vp = validate_input(&sample_payload()).ok().unwrap();
    assert_eq!(vp.nsweeps, "20");
    assert_eq!(vp.nf, "10000");
    assert_eq!(vp.smax, "100");
    assert_eq!(vp.local, "0");
    assert_eq!(vp.fstop, "1.5");
    assert_eq!(vp.code, "let x = 1;");
}

#[test]
fn validate_input_reports_the_first_failing_field() {
    let mut p = sample_payload();
    p.nf = "9999".to_string();
    p.smax = "99".to_string();
    match validate_input(&p) {
        Err(ValidationError::Range { field, .. }) => assert_eq!(field, Field::Nf),
        _ => panic!("expected a range error"),
    }
}

#[test]
fn validate_input_leaves_the_code_fragment_unexamined() {
    let mut p = sample_payload();
    p.code = "fn evil() { std::process::exit(1) } \"\n\\".to_string();
    let vp = validate_input(&p).ok().unwrap();
    assert_eq!(vp.code, p.code);
}
