use meilisearch_cli::api::{ApiQuery, FilterError};
use meilisearch_cli::date::DateLiteral;

#[test]
fn new_query_defaults() {
    let q = ApiQuery::new();
    assert!(q.query.is_none());
    assert!(q.filter.is_none());
    assert!(q.facets_distribution.is_none());
    assert_eq!(q.limit, 10000);
    assert_eq!(q.sort, Some(vec![String::from("date:desc")]));
}

#[test]
fn process_filter_at_sets_compiled_filter() {
    let mut q = ApiQuery::new();
    let r = q.process_filter_at("foo", 0);
    assert!(r.is_ok());
    assert_eq!(q.filter, Some(String::from("tags = foo")));
}

#[test]
fn process_filter_at_replaces_previous_filter() {
    let mut q = ApiQuery::new();
    q.filter = Some(String::from("tags = old"));
    let r = q.process_filter_at("bar OR !baz", 0);
    assert!(r.is_ok());
    assert_eq!(q.filter, Some(String::from("tags = bar OR tags != baz")));
}

#[test]
fn grammar_mismatch_leaves_filter_untouched() {
    let mut q = ApiQuery::new();
    q.filter = Some(String::from("tags = old"));
    let r = q.process_filter_at("tag(", 0);
    assert!(r.is_ok());
    assert_eq!(q.filter, Some(String::from("tags = old")));
}

#[test]
fn rejected_literal_reports_and_leaves_filter_untouched() {
    let mut q = ApiQuery::new();
    q.filter = Some(String::from("tags = old"));
    let r = q.process_filter_at("2019-02-31", 0);
    assert_eq!(
        r,
        Err(FilterError::InvalidDate {
            index: 0,
            lit: DateLiteral::YearMonthDay { y: 2019, m: 2, d: 31 },
        })
    );
    assert_eq!(q.filter, Some(String::from("tags = old")));
}

#[test]
fn process_filter_with_wall_clock_on_tags() {
    // tag constraints do not depend on the clock reading
    let mut q = ApiQuery::new();
    let r = q.process_filter(String::from("foo AND !bar"));
    assert!(r.is_ok());
    assert_eq!(q.filter, Some(String::from("tags = foo AND tags != bar")));
}

#[test]
fn process_filter_with_wall_clock_on_duration() {
    // the threshold moves with the clock; the shape does not
    let mut q = ApiQuery::new();
    let r = q.process_filter(String::from("7d"));
    assert!(r.is_ok());
    let f = q.filter.expect("filter set");
    assert!(f.starts_with("date > "));
    let rest = &f["date > ".len()..];
    let threshold: i64 = rest.parse().expect("a decimal threshold");
    // seven days before any plausible present moment is after 2000-01-01
    assert!(threshold > 946_684_800);
}
