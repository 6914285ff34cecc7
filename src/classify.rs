use vstd::prelude::*;
use crate::tag::TypeTag;
use crate::text::chars_of;

verus! {

/// What a field says when read as a floating-point number. Floating-point
/// arithmetic stays outside this library, so callers determine it.
#[derive(Clone, Copy, Debug, PartialEq, Eq, Structural)]
pub enum FloatForm {
    /// Parses as a 32-bit float whose printed form is the field's text exactly.
    ExactReal,
    /// Parses as a 64-bit float (and is not an exact 32-bit one).
    Double,
    /// Does not parse as a float.
    NotFloat,
}

/// The outcomes of the date, time and identifier parsers on one field.
#[derive(Clone, Copy, Debug, PartialEq, Eq, Structural)]
pub struct ParseChecks {
    /// Parses as `YYYY-MM-DD`.
    pub date: bool,
    /// Parses as `YYYY-MM-DD HH:MM:SS`.
    pub datetime: bool,
    /// Parses as `HH:MM:SS`.
    pub time: bool,
    /// Parses as `YYYY-MM-DD HH:MM:SS` with optional fractional seconds.
    pub datetime2: bool,
    /// Is a canonical hyphenated UUID.
    pub uuid: bool,
}

/// Whether `NaiveDate::parse_from_str` accepts text `s` in format `fmt`.
pub uninterp spec fn naive_date_parses(s: Seq<char>, fmt: Seq<char>) -> bool;

/// Whether `NaiveDateTime::parse_from_str` accepts text `s` in format `fmt`.
pub uninterp spec fn naive_datetime_parses(s: Seq<char>, fmt: Seq<char>) -> bool;

/// Whether `NaiveTime::parse_from_str` accepts text `s` in format `fmt`.
pub uninterp spec fn naive_time_parses(s: Seq<char>, fmt: Seq<char>) -> bool;

/// An ASCII hexadecimal digit, in either case.
pub open spec fn is_hex_digit(c: char) -> bool {
    ('0' <= c && c <= '9') || ('a' <= c && c <= 'f') || ('A' <= c && c <= 'F')
}

/// Canonical UUID text: 36 characters, hyphens at positions 8, 13, 18 and 23,
/// hexadecimal digits everywhere else.
pub open spec fn is_hyphenated_uuid(s: Seq<char>) -> bool {
    s.len() == 36 && forall|i: int|
        0 <= i < 36 ==> if i == 8 || i == 13 || i == 18 || i == 23 {
            #[trigger] s[i] == '-'
        } else {
            is_hex_digit(s[i])
        }
}

/// Relies on chrono's `NaiveDate::parse_from_str`: whether it returns `Ok`.
#[verifier::external_body]
fn parse_naive_date(s: &str, fmt: &str) -> (r: bool)
    ensures
        r == naive_date_parses(s@, fmt@),
{
    chrono::NaiveDate::parse_from_str(s, fmt).is_ok()
}

/// Relies on chrono's `NaiveDateTime::parse_from_str`: whether it returns `Ok`.
#[verifier::external_body]
fn parse_naive_datetime(s: &str, fmt: &str) -> (r: bool)
    ensures
        r == naive_datetime_parses(s@, fmt@),
{
    chrono::NaiveDateTime::parse_from_str(s, fmt).is_ok()
}

/// Relies on chrono's `NaiveTime::parse_from_str`: whether it returns `Ok`.
#[verifier::external_body]
fn parse_naive_time(s: &str, fmt: &str) -> (r: bool)
    ensures
        r == naive_time_parses(s@, fmt@),
{
    chrono::NaiveTime::parse_from_str(s, fmt).is_ok()
}

/// Relies on uuid's `Uuid::parse_str`: whether it returns `Ok`. On text of
/// 36 characters it accepts exactly the hyphenated form (other lengths take
/// the simple, braced and URN forms, which are not described here).
#[verifier::external_body]
fn parse_uuid(s: &str) -> (r: bool)
    ensures
        s@.len() == 36 ==> r == is_hyphenated_uuid(s@),
{
    uuid::Uuid::parse_str(s).is_ok()
}

/// The outside parsers' verdicts on `s`, with the formats the classifier uses.
pub open spec fn outside_checks(s: Seq<char>) -> ParseChecks {
    ParseChecks {
        date: naive_date_parses(s, "%Y-%m-%d"@),
        datetime: naive_datetime_parses(s, "%Y-%m-%d %H:%M:%S"@),
        time: naive_time_parses(s, "%H:%M:%S"@),
        datetime2: naive_datetime_parses(s, "%Y-%m-%d %H:%M:%S%.f"@),
        uuid: is_hyphenated_uuid(s),
    }
}

/// `c` equals `lower` or `upper`.
pub open spec fn either(c: char, lower: char, upper: char) -> bool {
    c == lower || c == upper
}

/// `true` or `false` in any mix of ASCII case.
pub open spec fn is_bool_text(s: Seq<char>) -> bool {
    (s.len() == 4 && either(s[0], 't', 'T') && either(s[1], 'r', 'R') && either(s[2], 'u', 'U')
        && either(s[3], 'e', 'E')) || (s.len() == 5 && either(s[0], 'f', 'F') && either(
        s[1],
        'a',
        'A',
    ) && either(s[2], 'l', 'L') && either(s[3], 's', 'S') && either(s[4], 'e', 'E'))
}

pub open spec fn is_digit(c: char) -> bool {
    '0' <= c && c <= '9'
}

pub open spec fn digit_value(c: char) -> nat {
    ((c as u32) - ('0' as u32)) as nat
}

/// The value of a string of decimal digits, most significant first.
pub open spec fn digits_value(s: Seq<char>) -> nat
    decreases s.len(),
{
    if s.len() == 0 {
        0
    } else {
        digits_value(s.drop_last()) * 10 + digit_value(s.last())
    }
}

/// Whether the text starts with a sign character.
pub open spec fn has_sign(s: Seq<char>) -> bool {
    s.len() > 0 && (s[0] == '+' || s[0] == '-')
}

/// The text after an optional leading sign.
pub open spec fn magnitude_text(s: Seq<char>) -> Seq<char> {
    if has_sign(s) {
        s.subrange(1, s.len() as int)
    } else {
        s
    }
}

/// An optional `+` or `-` followed by one or more decimal digits.
pub open spec fn is_integer_text(s: Seq<char>) -> bool {
    let m = magnitude_text(s);
    m.len() > 0 && forall|i: int| 0 <= i < m.len() ==> is_digit(#[trigger] m[i])
}

/// The value of integer text.
pub open spec fn integer_value(s: Seq<char>) -> int {
    if s.len() > 0 && s[0] == '-' {
        -digits_value(magnitude_text(s))
    } else {
        digits_value(magnitude_text(s)) as int
    }
}

/// Integer text whose value lies in `[lo, hi]`.
pub open spec fn integer_in(s: Seq<char>, lo: int, hi: int) -> bool {
    is_integer_text(s) && lo <= integer_value(s) <= hi
}

/// The narrowest tag for a field, given its float form and the outside
/// parsers' verdicts; rules are tried in order and the first match wins.
pub open spec fn classify_spec(s: Seq<char>, form: FloatForm, checks: ParseChecks) -> TypeTag {
    if is_bool_text(s) {
        TypeTag::Bit
    } else if integer_in(s, -0x80, 0x7f) {
        TypeTag::TinyInt
    } else if integer_in(s, -0x8000, 0x7fff) {
        TypeTag::SmallInt
    } else if integer_in(s, -0x8000_0000, 0x7fff_ffff) {
        TypeTag::Int
    } else if integer_in(s, -0x8000_0000_0000_0000, 0x7fff_ffff_ffff_ffff) {
        TypeTag::BigInt
    } else if form == FloatForm::ExactReal {
        TypeTag::Real
    } else if form == FloatForm::Double {
        TypeTag::Float
    } else if checks.date {
        TypeTag::Date
    } else if checks.datetime {
        TypeTag::DateTime
    } else if checks.time {
        TypeTag::Time
    } else if checks.datetime2 {
        TypeTag::DateTime2
    } else if checks.uuid {
        TypeTag::UniqueIdentifier
    } else if vstd::utf8::is_ascii_chars(s) {
        TypeTag::Char
    } else {
        TypeTag::NVarCharMax
    }
}

/// The tag the classifier gives to field text `s` with float form `form`.
pub open spec fn field_tag(s: Seq<char>, form: FloatForm) -> TypeTag {
    classify_spec(s, form, outside_checks(s))
}

fn is_bool_chars(s: &Vec<char>) -> (r: bool)
    ensures
        r == is_bool_text(s@),
{
    (s.len() == 4 && (s[0] == 't' || s[0] == 'T') && (s[1] == 'r' || s[1] == 'R') && (s[2] == 'u'
        || s[2] == 'U') && (s[3] == 'e' || s[3] == 'E')) || (s.len() == 5 && (s[0] == 'f' || s[0]
        == 'F') && (s[1] == 'a' || s[1] == 'A') && (s[2] == 'l' || s[2] == 'L') && (s[3] == 's'
        || s[3] == 'S') && (s[4] == 'e' || s[4] == 'E'))
}

proof fn lemma_digits_value_monotone(m: Seq<char>, i: int, j: int)
    requires
        0 <= i <= j <= m.len(),
    ensures
        digits_value(m.subrange(0, i)) <= digits_value(m.subrange(0, j)),
    decreases j - i,
{
    if j > i {
        lemma_digits_value_monotone(m, i, j - 1);
        assert(m.subrange(0, j).drop_last() =~= m.subrange(0, j - 1));
    }
}

/// The value of integer text when it fits in 64 bits.
pub fn parse_integer(s: &Vec<char>) -> (r: Option<i128>)
    ensures
        r == (if integer_in(s@, -0x8000_0000_0000_0000, 0x7fff_ffff_ffff_ffff) {
            Some(integer_value(s@) as i128)
        } else {
            None::<i128>
        }),
{
    let signed = s.len() > 0 && (s[0] == '+' || s[0] == '-');
    let start: usize = if signed {
        1
    } else {
        0
    };
    let ghost m = magnitude_text(s@);
    assert(m =~= s@.subrange(start as int, s@.len() as int));
    if s.len() <= start {
        return None;
    }
    let limit: u128 = 0x8000_0000_0000_0000;
    let mut acc: u128 = 0;
    let mut i: usize = start;
    while i < s.len()
        invariant
            start <= i <= s@.len(),
            m == s@.subrange(start as int, s@.len() as int),
            m == magnitude_text(s@),
            limit == 0x8000_0000_0000_0000,
            acc == digits_value(m.subrange(0, i - start)),
            acc <= limit,
            forall|k: int| 0 <= k < i - start ==> is_digit(#[trigger] m[k]),
        decreases s@.len() - i,
    {
        let c = s[i];
        if !('0' <= c && c <= '9') {
            assert(!is_digit(m[i - start]));
            return None;
        }
        assert(m.subrange(0, i + 1 - start).drop_last() =~= m.subrange(0, i - start));
        let d = (c as u32 - '0' as u32) as u128;
        assert(d <= 9);
        assert(acc * 10 <= 10 * limit) by (nonlinear_arith)
            requires
                acc <= limit,
        ;
        acc = acc * 10 + d;
        i = i + 1;
        if acc > limit {
            proof {
                lemma_digits_value_monotone(m, i - start, m.len() as int);
                assert(m.subrange(0, m.len() as int) =~= m);
            }
            return None;
        }
    }
    assert(m.subrange(0, i - start) =~= m);
    if s[0] == '-' {
        Some(-(acc as i128))
    } else if acc == limit {
        None
    } else {
        Some(acc as i128)
    }
}

/// Classifies a field given its float form and the outside parsers' verdicts.
pub fn classify_with(value: &str, form: FloatForm, checks: ParseChecks) -> (r: TypeTag)
    ensures
        r == classify_spec(value@, form, checks),
{
    let s = chars_of(value);
    if is_bool_chars(&s) {
        return TypeTag::Bit;
    }
    match parse_integer(&s) {
        Some(v) => {
            if -0x80 <= v && v <= 0x7f {
                return TypeTag::TinyInt;
            } else if -0x8000 <= v && v <= 0x7fff {
                return TypeTag::SmallInt;
            } else if -0x8000_0000 <= v && v <= 0x7fff_ffff {
                return TypeTag::Int;
            } else {
                return TypeTag::BigInt;
            }
        },
        None => {},
    }
    match form {
        FloatForm::ExactReal => {
            return TypeTag::Real;
        },
        FloatForm::Double => {
            return TypeTag::Float;
        },
        FloatForm::NotFloat => {},
    }
    if checks.date {
        TypeTag::Date
    } else if checks.datetime {
        TypeTag::DateTime
    } else if checks.time {
        TypeTag::Time
    } else if checks.datetime2 {
        TypeTag::DateTime2
    } else if checks.uuid {
        TypeTag::UniqueIdentifier
    } else if value.is_ascii() {
        TypeTag::Char
    } else {
        TypeTag::NVarCharMax
    }
}

/// Runs the date, time and identifier parsers on a field.
pub fn outside_checks_of(value: &str) -> (r: ParseChecks)
    ensures
        r == outside_checks(value@),
{
    let date = parse_naive_date(value, "%Y-%m-%d");
    let datetime = parse_naive_datetime(value, "%Y-%m-%d %H:%M:%S");
    let time = parse_naive_time(value, "%H:%M:%S");
    let datetime2 = parse_naive_datetime(value, "%Y-%m-%d %H:%M:%S%.f");
    let uuid = value.unicode_len() == 36 && parse_uuid(value);
    ParseChecks { date, datetime, time, datetime2, uuid }
}

/// The narrowest tag whose rule accepts the field: boolean, then 8-, 16-, 32-
/// and 64-bit integers, then the float forms, dates and times, canonical
/// UUIDs, all-ASCII text, and finally `NVARCHAR(MAX)`. The empty field has
/// no non-ASCII character and so is `CHAR`. The date, time and identifier
/// parsers run only when no earlier rule matched.
pub fn infer_sql_type(value: &str, form: FloatForm) -> (r: TypeTag)
    ensures
        r == field_tag(value@, form),
{
    let none = ParseChecks { date: false, datetime: false, time: false, datetime2: false, uuid: false };
    let early = classify_with(value, form, none);
    match early {
        TypeTag::Bit | TypeTag::TinyInt | TypeTag::SmallInt | TypeTag::Int | TypeTag::BigInt
        | TypeTag::Real | TypeTag::Float => early,
        _ => classify_with(value, form, outside_checks_of(value)),
    }
}

} // verus!
