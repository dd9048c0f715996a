use meilisearch_cli::api::{compile_filter, compile_tokens, FilterError};
use meilisearch_cli::date::DateLiteral;
use meilisearch_cli::filter::{ComparatorKind, Token};

#[test]
fn single_tag() {
    assert_eq!(compile_filter("foo", 0), Ok(String::from("tags = foo")));
}

#[test]
fn single_not_tag() {
    assert_eq!(compile_filter("!bar", 0), Ok(String::from("tags != bar")));
}

#[test]
fn tag_and_tag() {
    assert_eq!(
        compile_filter("foo AND bar", 0),
        Ok(String::from("tags = foo AND tags = bar"))
    );
}

#[test]
fn tag_or_not_tag() {
    assert_eq!(
        compile_filter("foo OR !bar", 0),
        Ok(String::from("tags = foo OR tags != bar"))
    );
}

#[test]
fn bare_year() {
    // 2019-01-01T00:00:00Z and 2019-12-31T23:59:59Z
    assert_eq!(
        compile_filter("2019", 0),
        Ok(String::from("date > 1546300800 AND date < 1577836799"))
    );
}

#[test]
fn year_month_greater_than() {
    // 2019-10-01T00:00:00Z; one bound only, with the trailing space
    assert_eq!(
        compile_filter(">2019-10", 0),
        Ok(String::from("date > 1569888000 "))
    );
}

#[test]
fn day_less_than() {
    // 2019-10-05T23:59:59Z
    assert_eq!(
        compile_filter("<2019-10-05", 0),
        Ok(String::from("date < 1570319999 "))
    );
}

#[test]
fn year_month_december_rolls_over() {
    // end is 2019-12-31T23:59:59Z
    assert_eq!(
        compile_filter("<2019-12", 0),
        Ok(String::from("date < 1577836799 "))
    );
}

#[test]
fn year_month_leap_february() {
    // end is 2020-02-29T23:59:59Z
    assert_eq!(
        compile_filter("<2020-02", 0),
        Ok(String::from("date < 1583020799 "))
    );
}

#[test]
fn duration_days() {
    let now = 1_000_000_000;
    assert_eq!(
        compile_filter("7d", now),
        Ok(String::from("date > 999395200"))
    );
}

#[test]
fn duration_hours() {
    assert_eq!(
        compile_filter("12h", 1_000_000_000),
        Ok(String::from("date > 999956800"))
    );
}

#[test]
fn duration_weeks() {
    assert_eq!(
        compile_filter("2w", 1_000_000_000),
        Ok(String::from("date > 998790400"))
    );
}

#[test]
fn duration_months_are_thirty_days() {
    assert_eq!(
        compile_filter("3m", 1_000_000_000),
        Ok(String::from("date > 992224000"))
    );
}

#[test]
fn duration_years_are_365_days() {
    assert_eq!(
        compile_filter("1y", 1_000_000_000),
        Ok(String::from("date > 968464000"))
    );
}

#[test]
fn duration_less_than() {
    assert_eq!(
        compile_filter("<7d", 1_000_000_000),
        Ok(String::from("date < 999395200"))
    );
}

#[test]
fn date_then_tag_keeps_trailing_space() {
    assert_eq!(
        compile_filter(">2019-10 AND foo", 0),
        Ok(String::from("date > 1569888000  AND tags = foo"))
    );
}

#[test]
fn malformed_inputs_are_unparseable() {
    assert_eq!(compile_filter("tag(", 0), Err(FilterError::Unparseable));
    assert_eq!(compile_filter("!", 0), Err(FilterError::Unparseable));
    assert_eq!(compile_filter("", 0), Err(FilterError::Unparseable));
    assert_eq!(compile_filter("7.5d", 0), Err(FilterError::Unparseable));
    assert_eq!(compile_filter("foo bar", 0), Err(FilterError::Unparseable));
}

#[test]
fn trailing_comparator_is_unparseable() {
    assert_eq!(compile_filter("foo AND >", 0), Err(FilterError::Unparseable));
    assert_eq!(compile_filter(">", 0), Err(FilterError::Unparseable));
}

#[test]
fn invalid_day_of_month_is_reported() {
    assert_eq!(
        compile_filter("2019-02-31", 0),
        Err(FilterError::InvalidDate {
            index: 0,
            lit: DateLiteral::YearMonthDay { y: 2019, m: 2, d: 31 },
        })
    );
}

#[test]
fn invalid_month_is_reported() {
    assert_eq!(
        compile_filter("2019-13", 0),
        Err(FilterError::InvalidDate {
            index: 0,
            lit: DateLiteral::YearMonth { y: 2019, m: 13 },
        })
    );
}

#[test]
fn invalid_date_after_comparator_carries_its_position() {
    assert_eq!(
        compile_filter(">2019-13", 0),
        Err(FilterError::InvalidDate {
            index: 1,
            lit: DateLiteral::YearMonth { y: 2019, m: 13 },
        })
    );
}

#[test]
fn leap_day_in_common_year_is_reported() {
    assert_eq!(
        compile_filter("2019-02-29", 0),
        Err(FilterError::InvalidDate {
            index: 0,
            lit: DateLiteral::YearMonthDay { y: 2019, m: 2, d: 29 },
        })
    );
}

#[test]
fn oversized_duration_is_reported() {
    // an amount that fits a machine word but, in hours, overruns the
    // epoch-second range
    let toks = vec![
        Token::Duration { amount: u64::MAX, unit: meilisearch_cli::filter::DurationUnit::Hour },
        Token::EndOfInput,
    ];
    assert_eq!(
        compile_tokens(&toks, 0),
        Err(FilterError::DurationOutOfRange { index: 0 })
    );
    // through the grammar: a sane duration from an evaluation time at the
    // very floor of the range still has nowhere to go
    assert_eq!(
        compile_filter("999y", i64::MIN),
        Err(FilterError::DurationOutOfRange { index: 0 })
    );
}

#[test]
fn unrepresentable_duration_amount_fails_the_parse() {
    // twenty digits: beyond any machine word
    assert_eq!(
        compile_filter("99999999999999999999d", 0),
        Err(FilterError::Unparseable)
    );
}

#[test]
fn compiled_output_does_not_reparse() {
    let out = compile_filter("foo AND bar", 0).unwrap();
    assert_eq!(compile_filter(&out, 0), Err(FilterError::Unparseable));
    let out = compile_filter(">2019-10", 0).unwrap();
    assert_eq!(compile_filter(&out, 0), Err(FilterError::Unparseable));
    let out = compile_filter("7d", 1_000_000_000).unwrap();
    assert_eq!(compile_filter(&out, 0), Err(FilterError::Unparseable));
}

#[test]
fn second_comparator_wins_over_tokens() {
    let toks = vec![
        Token::Comparator { kind: ComparatorKind::GreaterThan },
        Token::Comparator { kind: ComparatorKind::LessThan },
        Token::Date { lit: DateLiteral::YearMonthDay { y: 2019, m: 10, d: 5 } },
        Token::EndOfInput,
    ];
    assert_eq!(
        compile_tokens(&toks, 0),
        Ok(String::from("date < 1570319999 "))
    );
}

#[test]
fn trailing_comparator_token_is_discarded() {
    let toks = vec![
        Token::Tag { name: String::from("foo") },
        Token::Comparator { kind: ComparatorKind::GreaterThan },
        Token::EndOfInput,
    ];
    assert_eq!(compile_tokens(&toks, 0), Ok(String::from("tags = foo")));
}
