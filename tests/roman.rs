use pangalacticcc::{ParseRomanNumeralError, Roman};

#[test]
fn test_int_to_roman_1000() {
    assert_eq!(Roman::from(1000).get_representation(), "M")
}

#[test]
fn test_int_to_roman_900() {
    assert_eq!(Roman::from(900).get_representation(), "CM")
}

#[test]
fn test_int_to_roman_3() {
    assert_eq!(Roman::from(3).get_representation(), "III")
}

#[test]
fn test_int_to_roman_1903() {
    assert_eq!(Roman::from(1903).get_representation(), "MCMIII")
}

#[test]
fn test_int_to_roman_3999() {
    assert_eq!(Roman::from(3999).get_representation(), "MMMCMXCIX")
}

#[test]
fn test_int_to_roman_42() {
    assert_eq!(Roman::from(42).get_representation(), "XLII")
}

#[test]
fn test_roman_invalid_strings_raise_error() {
    let result = "".parse::<Roman>();
    match result {
        Err(e) => assert_eq!(e.to_string(), "invalid string for roman numeral"),
        _ => panic!("this should be an error"),
    }
}

#[test]
fn test_roman_invalid_strings_raise_error_y() {
    let result = "Y".parse::<Roman>();
    match result {
        Err(e) => assert_eq!(e.to_string(), "invalid string for roman numeral"),
        _ => panic!("this should be an error"),
    }
}

#[test]
fn test_roman_m_ok() {
    let result = "M".parse::<Roman>();
    match result {
        Ok(r) => assert_eq!(r.get_value(), 1000),
        _ => panic!("this should be Ok"),
    }
}

#[test]
fn test_roman_mm_ok() {
    let result = "MM".parse::<Roman>();
    match result {
        Ok(r) => assert_eq!(r.get_value(), 2000),
        _ => panic!("this should be Ok"),
    }
}

#[test]
fn test_roman_mmm_ok() {
    let result = "MMM".parse::<Roman>();
    match result {
        Ok(r) => assert_eq!(r.get_value(), 3000),
        _ => panic!("this should be Ok"),
    }
}

#[test]
fn test_roman_mmmm_err() {
    let result = "MMMM".parse::<Roman>();
    match result {
        Err(e) => assert_eq!(e, ParseRomanNumeralError::InvalidNumeral),
        _ => panic!("this should not be Ok"),
    }
}

#[test]
fn test_roman_mmmcm_ok() {
    let result = "MMMCM".parse::<Roman>();
    match result {
        Ok(r) => assert_eq!(r.get_value(), 3900),
        _ => panic!("this should be Ok"),
    }
}

#[test]
fn test_roman_mcm_ok() {
    let result = "MCM".parse::<Roman>();
    match result {
        Ok(r) => assert_eq!(r.get_value(), 1900),
        _ => panic!("this should be Ok"),
    }
}

#[test]
fn test_roman_mmcm_ok() {
    let result = "MMCM".parse::<Roman>();
    match result {
        Ok(r) => assert_eq!(r.get_value(), 2900),
        _ => panic!("this should be Ok"),
    }
}

#[test]
fn test_roman_mmmccm_err() {
    let result = "MMMCCM".parse::<Roman>();
    match result {
        Err(e) => assert_eq!(e, ParseRomanNumeralError::InvalidNumeral),
        _ => panic!("this should not be Ok"),
    }
}

#[test]
fn test_roman_cm_ok() {
    let result = "CM".parse::<Roman>();
    match result {
        Ok(r) => assert_eq!(r.get_value(), 900),
        _ => panic!("this should be Ok"),
    }
}

#[test]
fn test_roman_ccc_ok() {
    let result = "CCC".parse::<Roman>();
    match result {
        Ok(r) => assert_eq!(r.get_value(), 300),
        _ => panic!("this should be Ok"),
    }
}

#[test]
fn test_roman_cccc_err() {
    let result = "CCCC".parse::<Roman>();
    match result {
        Err(e) => assert_eq!(e, ParseRomanNumeralError::InvalidNumeral),
        _ => panic!("this should not be Ok"),
    }
}

#[test]
fn test_roman_cmcd_err() {
    let result = "CMCD".parse::<Roman>();
    match result {
        Err(e) => assert_eq!(e, ParseRomanNumeralError::InvalidNumeral),
        _ => panic!("this should not be Ok"),
    }
}

#[test]
fn test_roman_examples_ok() {
    let result = "M".parse::<Roman>();
    match result {
        Ok(r) => assert_eq!(r.get_value(), 1000),
        _ => panic!("this should be Ok"),
    }
    let result = "CM".parse::<Roman>();
    match result {
        Ok(r) => assert_eq!(r.get_value(), 900),
        _ => panic!("this should be Ok"),
    }
    let result = "III".parse::<Roman>();
    match result {
        Ok(r) => assert_eq!(r.get_value(), 3),
        _ => panic!("this should be Ok"),
    }
    let result = "MCMIII".parse::<Roman>();
    match result {
        Ok(r) => assert_eq!(r.get_value(), 1903),
        _ => panic!("this should be Ok"),
    }
}

#[test]
fn test_roman_misc_ok() {
    let result = "MMMCM".parse::<Roman>();
    match result {
        Ok(r) => assert_eq!(r.get_value(), 3900),
        _ => panic!("this should be Ok"),
    }
    let result = "MMCDLXXV".parse::<Roman>();
    match result {
        Ok(r) => assert_eq!(r.get_value(), 2475),
        _ => panic!("this should be Ok"),
    }
    let result = "MDCCCLXXV".parse::<Roman>();
    match result {
        Ok(r) => assert_eq!(r.get_value(), 1875),
        _ => panic!("this should be Ok"),
    }
}

#[test]
fn round_trip_every_value() {
    for v in 1..=3999u32 {
        let r = Roman::from(v);
        let back = Roman::decode(&r.get_representation()).unwrap();
        assert_eq!(back.get_value() as u32, v);
        assert_eq!(back.get_representation(), r.get_representation());
    }
}

#[test]
fn rejection_set() {
    for s in ["", "MMMM", "IIII", "VX", "CCCC", "CMCD"] {
        assert_eq!(Roman::decode(s).unwrap_err(), ParseRomanNumeralError::InvalidNumeral);
    }
}

#[test]
fn rejects_lowercase_and_foreign_letters() {
    assert_eq!(Roman::decode("xii").unwrap_err(), ParseRomanNumeralError::InvalidNumeral);
    assert_eq!(Roman::decode("XIIA").unwrap_err(), ParseRomanNumeralError::InvalidNumeral);
    assert_eq!(Roman::decode("MMMMMMMMMMMMMMMMMMMM").unwrap_err(), ParseRomanNumeralError::InvalidNumeral);
}

#[test]
fn rejects_non_canonical_subtraction() {
    for s in ["IL", "IC", "XD", "VV", "DD", "LL", "IXI", "XCX"] {
        assert_eq!(Roman::decode(s).unwrap_err(), ParseRomanNumeralError::InvalidNumeral);
    }
}

#[test]
fn encode_out_of_range() {
    assert_eq!(Roman::encode(0).unwrap_err(), ParseRomanNumeralError::OutOfRange);
    assert_eq!(Roman::encode(4000).unwrap_err(), ParseRomanNumeralError::OutOfRange);
    assert_eq!(Roman::encode(1).unwrap().get_representation(), "I");
    assert_eq!(Roman::encode(3999).unwrap().get_value(), 3999);
}

#[test]
fn error_messages() {
    assert_eq!(ParseRomanNumeralError::InvalidNumeral.to_string(), "invalid string for roman numeral");
    assert_eq!(ParseRomanNumeralError::OutOfRange.to_string(), "value out of range for roman numeral");
}

#[test]
fn roman_display_form() {
    assert_eq!(Roman::from(1994).to_string(), "MCMXCIV:1994");
    assert_eq!(Roman::from(8).to_string(), "VIII:8");
}

#[test]
fn digit_forms_each_place() {
    assert_eq!(Roman::from(444).get_representation(), "CDXLIV");
    assert_eq!(Roman::from(666).get_representation(), "DCLXVI");
    assert_eq!(Roman::from(999).get_representation(), "CMXCIX");
    assert_eq!(Roman::from(2888).get_representation(), "MMDCCCLXXXVIII");
}
