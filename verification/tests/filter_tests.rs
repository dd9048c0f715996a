use meilisearch_cli::date::DateLiteral;
use meilisearch_cli::filter::{
    ComparatorKind, DurationUnit, Filter, OperatorKind, Token,
};

#[test]
fn tokenizes_tags_and_operator() {
    let toks = Filter::parse("foo AND bar").expect("parses");
    assert_eq!(toks.len(), 4);
    assert!(matches!(&toks[0], Token::Tag { name } if name == "foo"));
    assert!(matches!(&toks[1], Token::Operator { kind: OperatorKind::And }));
    assert!(matches!(&toks[2], Token::Tag { name } if name == "bar"));
    assert!(matches!(&toks[3], Token::EndOfInput));
}

#[test]
fn tokenizes_negated_tag() {
    let toks = Filter::parse("!vim").expect("parses");
    assert_eq!(toks.len(), 2);
    assert!(matches!(&toks[0], Token::NotTag { name } if name == "vim"));
}

#[test]
fn tokenizes_comparator_and_date() {
    let toks = Filter::parse(">2019-10").expect("parses");
    assert_eq!(toks.len(), 3);
    assert!(matches!(
        &toks[0],
        Token::Comparator { kind: ComparatorKind::GreaterThan }
    ));
    assert!(matches!(
        &toks[1],
        Token::Date { lit: DateLiteral::YearMonth { y: 2019, m: 10 } }
    ));
    assert!(matches!(&toks[2], Token::EndOfInput));
}

#[test]
fn tokenizes_duration() {
    let toks = Filter::parse("7d").expect("parses");
    assert_eq!(toks.len(), 2);
    assert!(matches!(
        &toks[0],
        Token::Duration { amount: 7, unit: DurationUnit::Day }
    ));
}

#[test]
fn date_granularities() {
    let toks = Filter::parse("2019").expect("parses");
    assert!(matches!(&toks[0], Token::Date { lit: DateLiteral::Year { y: 2019 } }));
    let toks = Filter::parse("2019-10-05").expect("parses");
    assert!(matches!(
        &toks[0],
        Token::Date { lit: DateLiteral::YearMonthDay { y: 2019, m: 10, d: 5 } }
    ));
}

#[test]
fn whitespace_around_terms_is_allowed() {
    let toks = Filter::parse("  foo \t AND  bar  ").expect("parses");
    assert_eq!(toks.len(), 4);
    assert!(matches!(&toks[0], Token::Tag { name } if name == "foo"));
}

#[test]
fn adjacent_words_make_one_tag() {
    let toks = Filter::parse("fooANDbar").expect("parses");
    assert_eq!(toks.len(), 2);
    assert!(matches!(&toks[0], Token::Tag { name } if name == "fooANDbar"));
}

#[test]
fn committed_year_choice_rejects_a_fifth_digit() {
    // the date alternative consumes four digits and does not back off
    assert!(Filter::parse("20199").is_none());
}

#[test]
fn rejects_what_the_grammar_does_not_cover() {
    assert!(Filter::parse("tag(").is_none());
    assert!(Filter::parse("!").is_none());
    assert!(Filter::parse("foo AND").is_none());
    assert!(Filter::parse("AND").is_some()); // alone, "AND" is an identifier
    assert!(Filter::parse("AND foo").is_none()); // ... but then "foo" follows no operator
    assert!(Filter::parse("foo & bar").is_none());
    assert!(Filter::parse("a AND ").is_none());
    assert!(Filter::parse(">foo").is_none());
}

#[test]
fn comparator_binds_to_duration_too() {
    let toks = Filter::parse("<36h").expect("parses");
    assert!(matches!(
        &toks[0],
        Token::Comparator { kind: ComparatorKind::LessThan }
    ));
    assert!(matches!(
        &toks[1],
        Token::Duration { amount: 36, unit: DurationUnit::Hour }
    ));
}
