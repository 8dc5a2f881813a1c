use incrementer::errors::ParseError;
use incrementer::version_parser::VersionParser;
use incrementer::{bump_patch, checked_bump_patch};

fn error_of(input: &str) -> ParseError {
    VersionParser::parse(input).expect_err("should not parse")
}

#[test]
fn empty_text_holds_no_version() {
    assert_eq!(ParseError::InvalidInput, error_of(""));
}

#[test]
fn text_without_a_digit_holds_no_version() {
    assert_eq!(ParseError::InvalidInput, error_of("release"));
    assert_eq!(ParseError::InvalidInput, error_of("..--"));
    assert_eq!(ParseError::InvalidInput, error_of("v."));
}

#[test]
fn letter_after_major_is_no_separator() {
    assert_eq!(ParseError::UnsupportedSeparator('a'), error_of("1a"));
    assert_eq!(ParseError::UnsupportedSeparator('x'), error_of("v12x.3"));
}

#[test]
fn other_character_after_major_is_no_separator() {
    assert_eq!(ParseError::UnsupportedSeparator('_'), error_of("1_2"));
    assert_eq!(ParseError::UnsupportedSeparator(' '), error_of("1 2"));
    assert_eq!(ParseError::UnsupportedSeparator('+'), error_of("1+2"));
}

#[test]
fn other_character_after_minor_is_no_separator() {
    assert_eq!(ParseError::UnsupportedSeparator('_'), error_of("1.2_3"));
    assert_eq!(ParseError::UnsupportedSeparator('+'), error_of("1.2+build"));
}

#[test]
fn two_separators_in_a_row_leave_minor_empty() {
    assert_eq!(ParseError::MinorError, error_of("1..2"));
    assert_eq!(ParseError::MinorError, error_of("1.-2"));
    assert_eq!(ParseError::MinorError, error_of("1-_"));
}

#[test]
fn separator_after_empty_patch_is_an_error() {
    assert_eq!(ParseError::PatchError, error_of("1.2.."));
    assert_eq!(ParseError::PatchError, error_of("1.2.-3"));
    assert_eq!(ParseError::PatchError, error_of("1-2--"));
    assert_eq!(ParseError::PatchError, error_of("1-2-.x"));
}

#[test]
fn other_character_after_empty_patch_starts_the_suffix() {
    let res = VersionParser::parse("1-2-+").expect("should parse");
    assert_eq!((1, "2", 0), (res.major(), res.minor(), res.patch()));
    assert_eq!("1-2-0+", res.to_string());

    let res = VersionParser::parse("1.2.+build.5").expect("should parse");
    assert_eq!((1, "2", 0), (res.major(), res.minor(), res.patch()));
    assert_eq!("1.2.0+build.5", res.to_string());
    assert_eq!("1.2.1+build.5", bump_patch("1.2.+build.5").expect("should bump"));
}

#[test]
fn minor_does_not_mix_digits_and_letters() {
    assert_eq!(ParseError::InvalidCharacter('a'), error_of("1.2a"));
    assert_eq!(ParseError::InvalidCharacter('2'), error_of("1.a2"));
    assert_eq!(ParseError::InvalidCharacter('7'), error_of("1.Nov7.3"));
}

#[test]
fn minor_letters_must_spell_a_month() {
    assert_eq!(ParseError::InvalidValue, error_of("1.a"));
    assert_eq!(ParseError::InvalidValue, error_of("1.nov.2"));
    assert_eq!(ParseError::InvalidValue, error_of("1.Sept.2"));
    assert_eq!(ParseError::InvalidValue, error_of("1.No.2"));
}

#[test]
fn every_month_is_a_minor() {
    let months = [
        "Jan", "Feb", "Mar", "Apr", "May", "Jun", "Jul", "Aug", "Sep", "Oct", "Nov", "Dec",
    ];
    for month in months {
        let text = format!("2024-{}-7", month);
        let res = VersionParser::parse(&text).expect("should parse a month");
        assert_eq!(2024, res.major());
        assert_eq!(month, res.minor());
        assert_eq!(7, res.patch());
        assert_eq!(text, res.to_string());
    }
}

#[test]
fn patch_with_letters_is_no_number() {
    assert_eq!(ParseError::InvalidValue, error_of("1.2.3a"));
    assert_eq!(ParseError::InvalidValue, error_of("1.2.rc"));
    assert_eq!(ParseError::InvalidValue, error_of("1.2.rc1-x"));
}

#[test]
fn numbers_beyond_the_machine_word_are_refused() {
    assert_eq!(ParseError::InvalidValue, error_of("340282366920938463463374607431768211456.1.1"));
    assert_eq!(ParseError::InvalidValue, error_of("1.340282366920938463463374607431768211456.1"));
    assert_eq!(ParseError::InvalidValue, error_of("1.1.340282366920938463463374607431768211456"));
}

#[test]
fn largest_numbers_are_read() {
    let text = format!("{}.{}.{}", usize::MAX, usize::MAX, usize::MAX);
    let res = VersionParser::parse(&text).expect("should parse");
    assert_eq!(usize::MAX, res.major());
    assert_eq!(usize::MAX.to_string(), res.minor());
    assert_eq!(usize::MAX, res.patch());
    assert_eq!(text, res.to_string());
}

#[test]
fn leading_zeros_stay_in_minor_only() {
    let res = VersionParser::parse("007.008.009").expect("should parse");
    assert_eq!(7, res.major());
    assert_eq!("008", res.minor());
    assert_eq!(9, res.patch());
    assert_eq!("7.008.9", res.to_string());
    assert_eq!("7.008.9", res.semver());
}

#[test]
fn missing_components_count_as_zero() {
    let res = VersionParser::parse("5.").expect("should parse");
    assert_eq!((5, "0", 0), (res.major(), res.minor(), res.patch()));
    assert_eq!("5.0.0", res.to_string());

    let res = VersionParser::parse("5-").expect("should parse");
    assert_eq!((5, "0", 0), (res.major(), res.minor(), res.patch()));
    assert_eq!("5-0-0", res.to_string());
    assert_eq!("5.0.0", res.semver());

    let res = VersionParser::parse("5.6.").expect("should parse");
    assert_eq!((5, "6", 0), (res.major(), res.minor(), res.patch()));
    assert_eq!("5.6.0", res.to_string());
}

#[test]
fn single_component_is_written_with_dots() {
    let res = VersionParser::parse("build42").expect("should parse");
    assert_eq!((42, "0", 0), (res.major(), res.minor(), res.patch()));
    assert_eq!("build42.0.0", res.to_string());
    assert_eq!("42.0.0", res.semver());
}

#[test]
fn other_separator_after_minor_starts_the_suffix() {
    let res = VersionParser::parse("1.2-rc.1").expect("should parse");
    assert_eq!((1, "2", 0), (res.major(), res.minor(), res.patch()));
    assert_eq!("1.2.0-rc.1", res.to_string());
    assert_eq!("1.2.0-rc.1", res.semver());

    let res = VersionParser::parse("1-2.3").expect("should parse");
    assert_eq!((1, "2", 0), (res.major(), res.minor(), res.patch()));
    assert_eq!("1-2-0.3", res.to_string());
    assert_eq!("1.2.0.3", res.semver());
}

#[test]
fn suffix_takes_every_character() {
    let res = VersionParser::parse("1.2.3 (final)_+~\u{1F600}٣é..--").expect("should parse");
    assert_eq!((1, "2", 3), (res.major(), res.minor(), res.patch()));
    assert_eq!("1.2.3 (final)_+~\u{1F600}٣é..--", res.to_string());
}

#[test]
fn prefix_takes_every_character_but_digits() {
    let res = VersionParser::parse("..--é _+v1.2.3").expect("should parse");
    assert_eq!((1, "2", 3), (res.major(), res.minor(), res.patch()));
    assert_eq!("..--é _+v1.2.3", res.to_string());
    assert_eq!("1.2.3", res.semver());
}

#[test]
fn digits_beyond_ascii_count_as_numeric() {
    // An Arabic-Indic digit starts the major number, which then is no number.
    assert_eq!(ParseError::InvalidValue, error_of("v\u{0661}.2"));
    assert_eq!(ParseError::InvalidValue, error_of("1.\u{0663}.2"));
    assert_eq!(ParseError::InvalidValue, error_of("1.2.\u{00BE}"));
    // After digits in the minor component it is one more of them.
    assert_eq!(ParseError::InvalidValue, error_of("1.2\u{0663}"));
}

#[test]
fn letters_beyond_ascii_count_as_alphabetic() {
    assert_eq!(ParseError::InvalidValue, error_of("1.\u{00E9}"));
    assert_eq!(ParseError::InvalidCharacter('\u{00E9}'), error_of("1.2\u{00E9}"));
    assert_eq!(ParseError::UnsupportedSeparator('\u{00E9}'), error_of("1\u{00E9}"));
    assert_eq!(ParseError::InvalidValue, error_of("1.2.\u{4EAC}"));
}

#[test]
fn symbols_beyond_ascii_are_neither() {
    assert_eq!(ParseError::MinorError, error_of("1.\u{2192}"));
    assert_eq!(ParseError::UnsupportedSeparator('\u{2192}'), error_of("1.2\u{2192}"));
    let res = VersionParser::parse("1.2.\u{1F600}").expect("should parse");
    assert_eq!("1.2.0\u{1F600}", res.to_string());
    let res = VersionParser::parse("1.2.3\u{2192}4").expect("should parse");
    assert_eq!("1.2.3\u{2192}4", res.to_string());
}

#[test]
fn letter_number_counts_as_numeric_first() {
    // The Roman numeral eight is both numeric and alphabetic.
    assert_eq!(ParseError::InvalidCharacter('\u{2167}'), error_of("1.a\u{2167}"));
    assert_eq!(ParseError::InvalidValue, error_of("1.2\u{2167}"));
    assert_eq!(ParseError::InvalidValue, error_of("x\u{2167}"));
}

#[test]
fn first_error_wins() {
    assert_eq!(ParseError::UnsupportedSeparator('a'), error_of("1a..2"));
    assert_eq!(ParseError::MinorError, error_of("1..2a_"));
    assert_eq!(ParseError::InvalidCharacter('b'), error_of("1.2b.."));
}

#[test]
fn bump_keeps_the_decoration() {
    assert_eq!("v1.2.4", bump_patch("v1.2.3").expect("should bump"));
    assert_eq!("v1-2-4", bump_patch("v1-2-3").expect("should bump"));
    assert_eq!("1.2.10", bump_patch("1.2.9").expect("should bump"));
    assert_eq!("1.2.100-x", bump_patch("1.2.099-x").expect("should bump"));
    assert_eq!("3.0.1", bump_patch("3").expect("should bump"));
    assert_eq!("app-2024-Feb-1", bump_patch("app-2024-Feb").expect("should bump"));
}

#[test]
fn bump_reports_the_parse_error() {
    assert_eq!(Err(ParseError::InvalidInput), bump_patch(""));
    assert_eq!(Err(ParseError::MinorError), bump_patch("1.."));
    assert_eq!(Err(ParseError::PatchError), bump_patch("1.2.."));
    assert_eq!(Err(ParseError::InvalidValue), bump_patch("1.2.x"));
}

#[test]
fn checked_bump_agrees_with_bump() {
    assert_eq!(Some(Ok("1.2.4".to_string())), checked_bump_patch("1.2.3"));
    assert_eq!(
        Some(Ok("release-v13.15.8-alpha.9".to_string())),
        checked_bump_patch("release-v13.15.7-alpha.9")
    );
    assert_eq!(Some(Err(ParseError::InvalidValue)), checked_bump_patch("1.a"));
    assert_eq!(Some(Err(ParseError::InvalidInput)), checked_bump_patch("-."));
}

#[test]
fn checked_bump_stops_at_the_largest_patch() {
    let text = format!("1.2.{}", usize::MAX);
    assert_eq!(None, checked_bump_patch(&text));
    let text = format!("1.2.{}", usize::MAX - 1);
    assert_eq!(Some(Ok(format!("1.2.{}", usize::MAX))), checked_bump_patch(&text));
}
