use csv_schema::{classify_with, infer_sql_type, outside_checks_of, parse_integer, FloatForm, ParseChecks, TypeTag};

fn form_of(v: &str) -> FloatForm {
    if let Ok(f) = v.parse::<f32>() {
        if f.to_string() == v {
            return FloatForm::ExactReal;
        }
    }
    if v.parse::<f64>().is_ok() {
        FloatForm::Double
    } else {
        FloatForm::NotFloat
    }
}

fn classify(v: &str) -> String {
    infer_sql_type(v, form_of(v)).name()
}

fn no_checks() -> ParseChecks {
    ParseChecks { date: false, datetime: false, time: false, datetime2: false, uuid: false }
}

#[test]
fn test_infer_sql_type() {
    assert_eq!(classify("true"), "BIT");
    assert_eq!(classify("false"), "BIT");
    assert_eq!(classify("127"), "TINYINT");
    assert_eq!(classify("32767"), "SMALLINT");
    assert_eq!(classify("2147483647"), "INT");
    assert_eq!(classify("9223372036854775807"), "BIGINT");
    assert_eq!(classify("-123.45"), "REAL");
    assert_eq!(classify("123453345334523455555555555555555555555555555555555555555555555555555555555555555555555555555555555555555555555555555555555554534534534545343.4567345645645645643333333333333333334234234234234234234234234233564564564564589"), "FLOAT");
    assert_eq!(classify("2023-10-05"), "DATE");
    assert_eq!(classify("2023-10-05 14:30:00"), "DATETIME");
    assert_eq!(classify("14:30:00"), "TIME");
    assert_eq!(classify("2023-10-05 14:30:00.123456"), "DATETIME2");
    assert_eq!(classify("123e4567-e89b-12d3-a456-426614174000"), "UNIQUEIDENTIFIER");
    // Every character is ASCII, so the text falls to CHAR.
    assert_eq!(classify("some text"), "CHAR");
    assert_eq!(classify("abc"), "CHAR");
}

#[test]
fn bool_literals_in_any_case() {
    assert_eq!(classify("true"), "BIT");
    assert_eq!(classify("TRUE"), "BIT");
    assert_eq!(classify("False"), "BIT");
    assert_eq!(classify("tRuE"), "BIT");
    assert_eq!(classify("truth"), "CHAR");
}

#[test]
fn integer_width_boundaries() {
    assert_eq!(infer_sql_type("-128", FloatForm::ExactReal), TypeTag::TinyInt);
    assert_eq!(infer_sql_type("128", FloatForm::ExactReal), TypeTag::SmallInt);
    assert_eq!(infer_sql_type("-32768", FloatForm::ExactReal), TypeTag::SmallInt);
    assert_eq!(infer_sql_type("32768", FloatForm::ExactReal), TypeTag::Int);
    assert_eq!(infer_sql_type("-2147483648", FloatForm::ExactReal), TypeTag::Int);
    assert_eq!(infer_sql_type("2147483648", FloatForm::ExactReal), TypeTag::BigInt);
    assert_eq!(infer_sql_type("-9223372036854775808", FloatForm::Double), TypeTag::BigInt);
    assert_eq!(infer_sql_type("9223372036854775808", FloatForm::Double), TypeTag::Float);
    assert_eq!(infer_sql_type("+5", FloatForm::ExactReal), TypeTag::TinyInt);
    assert_eq!(infer_sql_type("007", FloatForm::Double), TypeTag::TinyInt);
}

#[test]
fn integer_parsing() {
    let v: Vec<char> = "-9223372036854775808".chars().collect();
    assert_eq!(parse_integer(&v), Some(-9223372036854775808i128));
    let v: Vec<char> = "+42".chars().collect();
    assert_eq!(parse_integer(&v), Some(42));
    for bad in ["", "-", "+", "1a", "12 ", " 1", "9223372036854775808", "99999999999999999999999"] {
        let v: Vec<char> = bad.chars().collect();
        assert_eq!(parse_integer(&v), None, "{}", bad);
    }
}

#[test]
fn empty_field_is_char() {
    assert_eq!(classify(""), "CHAR");
    assert_eq!(form_of(""), FloatForm::NotFloat);
}

#[test]
fn non_ascii_text_is_nvarchar() {
    assert_eq!(classify("héllo"), "NVARCHAR(MAX)");
}

#[test]
fn uuid_must_be_hyphenated() {
    assert_eq!(classify("123e4567-e89b-12d3-a456-426614174000"), "UNIQUEIDENTIFIER");
    assert_eq!(classify("{123e4567-e89b-12d3-a456-426614174000}"), "CHAR");
    assert_eq!(classify("urn:uuid:123e4567-e89b-12d3-a456-426614174000"), "CHAR");
    assert_eq!(classify("123e4567-e89b-12d3-a456-42661417400g"), "CHAR");
    assert_eq!(classify("123E4567-E89B-12D3-A456-426614174000"), "UNIQUEIDENTIFIER");
    assert_eq!(classify("123e4567e-89b-12d3-a456-426614174000"), "CHAR");
    assert_eq!(classify("123e4567e89b12d3a456426614174000"), "CHAR");
    assert_eq!(classify("123e4567-e89b-12d3-a456-42661417400é"), "NVARCHAR(MAX)");
}

#[test]
fn malformed_dates_fall_through() {
    assert_eq!(classify("2023-13-45"), "CHAR");
    assert_eq!(classify("25:61:00"), "CHAR");
}

#[test]
fn outside_checks_report_each_parser() {
    let c = outside_checks_of("2023-10-05");
    assert!(c.date && !c.datetime && !c.time && !c.datetime2 && !c.uuid);
    let c = outside_checks_of("2023-10-05 14:30:00");
    assert!(!c.date && c.datetime && !c.time && c.datetime2 && !c.uuid);
    let c = outside_checks_of("14:30:00");
    assert!(!c.date && !c.datetime && c.time && !c.datetime2 && !c.uuid);
    let c = outside_checks_of("123e4567-e89b-12d3-a456-426614174000");
    assert!(!c.date && c.uuid);
}

#[test]
fn classification_follows_rule_order() {
    let all = ParseChecks { date: true, datetime: true, time: true, datetime2: true, uuid: true };
    assert_eq!(classify_with("x", FloatForm::ExactReal, all), TypeTag::Real);
    assert_eq!(classify_with("x", FloatForm::Double, all), TypeTag::Float);
    assert_eq!(classify_with("x", FloatForm::NotFloat, all), TypeTag::Date);
    let c = ParseChecks { date: false, ..all };
    assert_eq!(classify_with("x", FloatForm::NotFloat, c), TypeTag::DateTime);
    let c = ParseChecks { date: false, datetime: false, ..all };
    assert_eq!(classify_with("x", FloatForm::NotFloat, c), TypeTag::Time);
    let c = ParseChecks { date: false, datetime: false, time: false, ..all };
    assert_eq!(classify_with("x", FloatForm::NotFloat, c), TypeTag::DateTime2);
    let c = ParseChecks { uuid: true, ..no_checks() };
    assert_eq!(classify_with("x", FloatForm::NotFloat, c), TypeTag::UniqueIdentifier);
    assert_eq!(classify_with("x", FloatForm::NotFloat, no_checks()), TypeTag::Char);
    assert_eq!(classify_with("true", FloatForm::NotFloat, all), TypeTag::Bit);
    assert_eq!(classify_with("12", FloatForm::ExactReal, all), TypeTag::TinyInt);
}
