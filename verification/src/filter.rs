//! The filter-expression grammar and its tokenizer.
//!
//! A filter expression is a sequence of terms joined by `AND` / `OR`:
//!
//! ```text
//! expression   := term (operator term)* end-of-input
//! term         := comparator? (date | duration) | tag | not_tag
//! comparator   := ">" | "<"
//! tag          := identifier
//! not_tag      := "!" identifier
//! date         := YYYY | YYYY-MM | YYYY-MM-DD
//! duration     := digits ("h" | "d" | "w" | "m" | "y")
//! operator     := "AND" | "OR"
//! ```
//!
//! Alternatives are ordered and committed, as in a parsing expression
//! grammar: within a term a date is tried before a duration, and both
//! before a tag; once an alternative succeeds the parse never returns to
//! it.  Identifiers are runs of ASCII letters, digits and underscores.
//! Input that does not match the grammar yields no tokens at all.
//!
//! [`parse_expression`] states the grammar as a specification over
//! character sequences; [`Filter::parse`] is the executable tokenizer,
//! proved to agree with it.

use crate::date::DateLiteral;
use vstd::prelude::*;

verus! {

/// A `>` or `<` qualifier; it narrows the next date or duration to one
/// side of its range.
#[derive(Clone, Copy, Debug, PartialEq, Eq, Structural)]
pub enum ComparatorKind {
    GreaterThan,
    LessThan,
}

/// The two separators joining adjacent constraints.
#[derive(Clone, Copy, Debug, PartialEq, Eq, Structural)]
pub enum OperatorKind {
    And,
    Or,
}

/// Units of a relative duration.  A month counts as 30 days and a year as
/// 365: a deliberate constant-factor approximation, not calendar
/// arithmetic.
#[derive(Clone, Copy, Debug, PartialEq, Eq, Structural)]
pub enum DurationUnit {
    Hour,
    Day,
    Week,
    Month,
    Year,
}

/// One token of a parsed filter expression.
#[derive(Clone, Debug)]
pub enum Token {
    Tag { name: String },
    NotTag { name: String },
    Comparator { kind: ComparatorKind },
    Date { lit: DateLiteral },
    Duration { amount: u64, unit: DurationUnit },
    Operator { kind: OperatorKind },
    EndOfInput,
}

/// The mathematical model of a token: names as character sequences, the
/// amount as an unbounded integer.
pub enum TokenModel {
    Tag { name: Seq<char> },
    NotTag { name: Seq<char> },
    Comparator { kind: ComparatorKind },
    Date { lit: DateLiteral },
    Duration { amount: int, unit: DurationUnit },
    Operator { kind: OperatorKind },
    EndOfInput,
}

impl View for Token {
    type V = TokenModel;

    open spec fn view(&self) -> TokenModel {
        match self {
            Token::Tag { name } => TokenModel::Tag { name: name@ },
            Token::NotTag { name } => TokenModel::NotTag { name: name@ },
            Token::Comparator { kind } => TokenModel::Comparator { kind: *kind },
            Token::Date { lit } => TokenModel::Date { lit: *lit },
            Token::Duration { amount, unit } => TokenModel::Duration {
                amount: *amount as int,
                unit: *unit,
            },
            Token::Operator { kind } => TokenModel::Operator { kind: *kind },
            Token::EndOfInput => TokenModel::EndOfInput,
        }
    }
}

impl DeepView for Token {
    type V = TokenModel;

    open spec fn deep_view(&self) -> TokenModel {
        self.view()
    }
}

// ---------------------------------------------------------------------------
// Character classes.
// ---------------------------------------------------------------------------

/// Whitespace between tokens: spaces and tabs.
pub open spec fn is_ws_char(c: char) -> bool {
    c == ' ' || c == '\t'
}

pub open spec fn is_digit_char(c: char) -> bool {
    48 <= c as int <= 57
}

/// Identifier characters: ASCII letters, digits and underscores.
pub open spec fn is_ident_char(c: char) -> bool {
    is_digit_char(c) || (65 <= c as int <= 90) || (97 <= c as int <= 122) || c == '_'
}

pub open spec fn digit_val(c: char) -> int {
    c as int - 48
}

// ---------------------------------------------------------------------------
// Scanning.
// ---------------------------------------------------------------------------

/// Index of the first non-whitespace character at or after `i`.
pub open spec fn skip_ws(s: Seq<char>, i: int) -> int
    decreases s.len() - i,
{
    if 0 <= i && i < s.len() && is_ws_char(s[i]) {
        skip_ws(s, i + 1)
    } else {
        i
    }
}

/// End of the maximal run of identifier characters starting at `i`.
pub open spec fn scan_ident(s: Seq<char>, i: int) -> int
    decreases s.len() - i,
{
    if 0 <= i && i < s.len() && is_ident_char(s[i]) {
        scan_ident(s, i + 1)
    } else {
        i
    }
}

/// End of the maximal run of digits starting at `i`.
pub open spec fn scan_digits(s: Seq<char>, i: int) -> int
    decreases s.len() - i,
{
    if 0 <= i && i < s.len() && is_digit_char(s[i]) {
        scan_digits(s, i + 1)
    } else {
        i
    }
}

/// Value of the decimal digit run `s[i..j)`.
pub open spec fn digits_val(s: Seq<char>, i: int, j: int) -> int
    decreases j - i,
{
    if i >= j {
        0
    } else {
        digits_val(s, i, j - 1) * 10 + digit_val(s[j - 1])
    }
}

pub proof fn lemma_skip_ws_bounds(s: Seq<char>, i: int)
    requires
        0 <= i <= s.len(),
    ensures
        i <= skip_ws(s, i) <= s.len(),
    decreases s.len() - i,
{
    if i < s.len() && is_ws_char(s[i]) {
        lemma_skip_ws_bounds(s, i + 1);
    }
}

pub proof fn lemma_scan_ident_bounds(s: Seq<char>, i: int)
    requires
        0 <= i <= s.len(),
    ensures
        i <= scan_ident(s, i) <= s.len(),
    decreases s.len() - i,
{
    if i < s.len() && is_ident_char(s[i]) {
        lemma_scan_ident_bounds(s, i + 1);
    }
}

pub proof fn lemma_scan_digits_bounds(s: Seq<char>, i: int)
    requires
        0 <= i <= s.len(),
    ensures
        i <= scan_digits(s, i) <= s.len(),
    decreases s.len() - i,
{
    if i < s.len() && is_digit_char(s[i]) {
        lemma_scan_digits_bounds(s, i + 1);
    }
}

pub proof fn lemma_scan_digits_covers(s: Seq<char>, i: int)
    requires
        0 <= i <= s.len(),
    ensures
        forall|k: int| i <= k < scan_digits(s, i) ==> is_digit_char(s[k]),
    decreases s.len() - i,
{
    if i < s.len() && is_digit_char(s[i]) {
        lemma_scan_digits_covers(s, i + 1);
    }
}

// ---------------------------------------------------------------------------
// The grammar, rule by rule.  Each function parses one construct at index
// `i` and yields what it recognized together with the index just past it,
// or `None` when the construct is not there.
// ---------------------------------------------------------------------------

pub open spec fn parse_comparator(s: Seq<char>, i: int) -> Option<(ComparatorKind, int)> {
    if 0 <= i < s.len() && s[i] == '>' {
        Some((ComparatorKind::GreaterThan, i + 1))
    } else if 0 <= i < s.len() && s[i] == '<' {
        Some((ComparatorKind::LessThan, i + 1))
    } else {
        None
    }
}

/// Four digits at `i`.
pub open spec fn four_digits_at(s: Seq<char>, i: int) -> bool {
    0 <= i && i + 4 <= s.len() && is_digit_char(s[i]) && is_digit_char(s[i + 1]) && is_digit_char(
        s[i + 2],
    ) && is_digit_char(s[i + 3])
}

/// Two digits at `i`, preceded by a dash at `i - 1`.
pub open spec fn dash_two_digits_at(s: Seq<char>, i: int) -> bool {
    1 <= i && i + 2 <= s.len() && s[i - 1] == '-' && is_digit_char(s[i]) && is_digit_char(s[i + 1])
}

/// A date literal: a four-digit year, optionally "-MM", optionally "-DD".
/// The longest granularity present is taken, as the ordered choice
/// year_month_day / year_month / year does.
pub open spec fn parse_date(s: Seq<char>, i: int) -> Option<(DateLiteral, int)> {
    if four_digits_at(s, i) {
        let y = digits_val(s, i, i + 4) as u32;
        if dash_two_digits_at(s, i + 5) {
            let m = digits_val(s, i + 5, i + 7) as u32;
            if dash_two_digits_at(s, i + 8) {
                let d = digits_val(s, i + 8, i + 10) as u32;
                Some((DateLiteral::YearMonthDay { y, m, d }, i + 10))
            } else {
                Some((DateLiteral::YearMonth { y, m }, i + 7))
            }
        } else {
            Some((DateLiteral::Year { y }, i + 4))
        }
    } else {
        None
    }
}

pub open spec fn unit_of_char(c: char) -> Option<DurationUnit> {
    if c == 'h' {
        Some(DurationUnit::Hour)
    } else if c == 'd' {
        Some(DurationUnit::Day)
    } else if c == 'w' {
        Some(DurationUnit::Week)
    } else if c == 'm' {
        Some(DurationUnit::Month)
    } else if c == 'y' {
        Some(DurationUnit::Year)
    } else {
        None
    }
}

/// A duration: one or more digits directly followed by a unit letter.
/// An amount beyond the machine's range is not accepted.
pub open spec fn parse_duration(s: Seq<char>, i: int) -> Option<(TokenModel, int)> {
    let e = scan_digits(s, i);
    if 0 <= i && e > i && e < s.len() && unit_of_char(s[e]) is Some && digits_val(s, i, e)
        <= u64::MAX {
        Some(
            (
                TokenModel::Duration {
                    amount: digits_val(s, i, e),
                    unit: unit_of_char(s[e])->0,
                },
                e + 1,
            ),
        )
    } else {
        None
    }
}

/// A date if one starts here, else a duration.
pub open spec fn parse_date_or_duration(s: Seq<char>, i: int) -> Option<(TokenModel, int)> {
    match parse_date(s, i) {
        Some((lit, e)) => Some((TokenModel::Date { lit }, e)),
        None => parse_duration(s, i),
    }
}

/// One term.  The alternatives are tried in order: a time constraint
/// (with its optional comparator), then a tag, then a negated tag.  A
/// comparator that is not followed by a date or duration fails the term:
/// the choice of the comparator is committed.
pub open spec fn parse_term(s: Seq<char>, i: int) -> Option<(Seq<TokenModel>, int)> {
    match parse_comparator(s, i) {
        Some((k, j)) => {
            let j2 = skip_ws(s, j);
            match parse_date_or_duration(s, j2) {
                Some((t, e)) => Some((seq![TokenModel::Comparator { kind: k }, t], e)),
                None => None,
            }
        },
        None => match parse_date_or_duration(s, i) {
            Some((t, e)) => Some((seq![t], e)),
            None => {
                let e = scan_ident(s, i);
                if e > i {
                    Some((seq![TokenModel::Tag { name: s.subrange(i, e) }], e))
                } else if 0 <= i < s.len() && s[i] == '!' {
                    let j = skip_ws(s, i + 1);
                    let e2 = scan_ident(s, j);
                    if e2 > j {
                        Some((seq![TokenModel::NotTag { name: s.subrange(j, e2) }], e2))
                    } else {
                        None
                    }
                } else {
                    None
                }
            },
        },
    }
}

pub open spec fn parse_operator(s: Seq<char>, i: int) -> Option<(OperatorKind, int)> {
    if 0 <= i && i + 3 <= s.len() && s[i] == 'A' && s[i + 1] == 'N' && s[i + 2] == 'D' {
        Some((OperatorKind::And, i + 3))
    } else if 0 <= i && i + 2 <= s.len() && s[i] == 'O' && s[i + 1] == 'R' {
        Some((OperatorKind::Or, i + 2))
    } else {
        None
    }
}

/// What may follow a term: either the end of the input (after trailing
/// whitespace), closing the expression, or an operator and a further
/// term.  An operator whose term fails ends the expression at the same
/// spot, where only end-of-input is then accepted.
pub open spec fn parse_rest(s: Seq<char>, i: int) -> Option<Seq<TokenModel>>
    decreases s.len() - i,
{
    let j = skip_ws(s, i);
    match parse_operator(s, j) {
        Some((opk, j2)) => {
            let j3 = skip_ws(s, j2);
            match parse_term(s, j3) {
                Some((ts, e)) => {
                    if i < e <= s.len() {
                        match parse_rest(s, e) {
                            Some(rest) => Some(seq![TokenModel::Operator { kind: opk }] + ts
                                + rest),
                            None => None,
                        }
                    } else {
                        None
                    }
                },
                None => {
                    if j == s.len() {
                        Some(seq![TokenModel::EndOfInput])
                    } else {
                        None
                    }
                },
            }
        },
        None => {
            if j == s.len() {
                Some(seq![TokenModel::EndOfInput])
            } else {
                None
            }
        },
    }
}

/// The whole grammar: leading whitespace, a term, then operators and
/// terms to the end of the input.  `None` when the input does not
/// conform; the token sequence, closed by `EndOfInput`, when it does.
pub open spec fn parse_expression(s: Seq<char>) -> Option<Seq<TokenModel>> {
    let i0 = skip_ws(s, 0);
    match parse_term(s, i0) {
        Some((ts, e)) => match parse_rest(s, e) {
            Some(rest) => Some(ts + rest),
            None => None,
        },
        None => None,
    }
}

// ---------------------------------------------------------------------------
// Bounds of the parsed spans.
// ---------------------------------------------------------------------------

pub open spec fn pow10(n: nat) -> int
    decreases n,
{
    if n == 0 {
        1
    } else {
        10 * pow10((n - 1) as nat)
    }
}

pub proof fn lemma_digits_val_bound(s: Seq<char>, i: int, j: int)
    requires
        0 <= i <= j <= s.len(),
        forall|k: int| i <= k < j ==> is_digit_char(s[k]),
    ensures
        0 <= digits_val(s, i, j) < pow10((j - i) as nat),
    decreases j - i,
{
    if i < j {
        lemma_digits_val_bound(s, i, j - 1);
    }
}

pub proof fn lemma_digits_val_mono(s: Seq<char>, i: int, k: int, j: int)
    requires
        0 <= i <= k <= j <= s.len(),
        forall|t: int| i <= t < j ==> is_digit_char(s[t]),
    ensures
        digits_val(s, i, j) >= digits_val(s, i, k),
    decreases j - k,
{
    if k < j {
        lemma_digits_val_mono(s, i, k, j - 1);
        lemma_digits_val_bound(s, i, j - 1);
    }
}

pub proof fn lemma_parse_date_bounds(s: Seq<char>, i: int)
    requires
        0 <= i <= s.len(),
    ensures
        parse_date(s, i) matches Some((lit, e)) ==> i + 4 <= e <= s.len() && crate::date::lit_year_bounded(lit),
{
    if parse_date(s, i) is Some {
        assert forall|k: int| i <= k < i + 4 implies is_digit_char(s[k]) by {}
        lemma_digits_val_bound(s, i, i + 4);
        assert(pow10(0) == 1);
        assert(pow10(1) == 10);
        assert(pow10(2) == 100);
        assert(pow10(3) == 1000);
        assert(pow10(4) == 10000);
        if dash_two_digits_at(s, i + 5) {
            assert forall|k: int| i + 5 <= k < i + 7 implies is_digit_char(s[k]) by {}
            lemma_digits_val_bound(s, i + 5, i + 7);
            if dash_two_digits_at(s, i + 8) {
                assert forall|k: int| i + 8 <= k < i + 10 implies is_digit_char(s[k]) by {}
                lemma_digits_val_bound(s, i + 8, i + 10);
            }
        }
    }
}

pub proof fn lemma_parse_duration_bounds(s: Seq<char>, i: int)
    requires
        0 <= i <= s.len(),
    ensures
        parse_duration(s, i) matches Some((t, e)) ==> i < e <= s.len(),
{
    lemma_scan_digits_bounds(s, i);
}

// ---------------------------------------------------------------------------
// The executable tokenizer, function for function the same shape as the
// grammar above, and proved to agree with it.
// ---------------------------------------------------------------------------

fn is_ws_at(s: &str, j: usize) -> (r: bool)
    requires
        j < s@.len(),
    ensures
        r == is_ws_char(s@[j as int]),
{
    let c = s.get_char(j);
    c == ' ' || c == '\t'
}

fn is_digit_at(s: &str, j: usize) -> (r: bool)
    requires
        j < s@.len(),
    ensures
        r == is_digit_char(s@[j as int]),
{
    let c = s.get_char(j);
    let v = c as u32;
    48 <= v && v <= 57
}

fn is_ident_at(s: &str, j: usize) -> (r: bool)
    requires
        j < s@.len(),
    ensures
        r == is_ident_char(s@[j as int]),
{
    let c = s.get_char(j);
    let v = c as u32;
    (48 <= v && v <= 57) || (65 <= v && v <= 90) || (97 <= v && v <= 122) || c == '_'
}

fn digit_at(s: &str, j: usize) -> (r: u32)
    requires
        j < s@.len(),
        is_digit_char(s@[j as int]),
    ensures
        r == digit_val(s@[j as int]),
        r <= 9,
{
    let c = s.get_char(j);
    c as u32 - 48
}

fn skip_ws_exec(s: &str, n: usize, i: usize) -> (r: usize)
    requires
        n == s@.len(),
        i <= n,
    ensures
        r == skip_ws(s@, i as int),
        i <= r <= n,
{
    let mut j = i;
    while j < n && is_ws_at(s, j)
        invariant
            n == s@.len(),
            i <= j <= n,
            skip_ws(s@, i as int) == skip_ws(s@, j as int),
        decreases n - j,
    {
        j = j + 1;
    }
    j
}

fn scan_ident_exec(s: &str, n: usize, i: usize) -> (r: usize)
    requires
        n == s@.len(),
        i <= n,
    ensures
        r == scan_ident(s@, i as int),
        i <= r <= n,
{
    let mut j = i;
    while j < n && is_ident_at(s, j)
        invariant
            n == s@.len(),
            i <= j <= n,
            scan_ident(s@, i as int) == scan_ident(s@, j as int),
        decreases n - j,
    {
        j = j + 1;
    }
    j
}

fn scan_digits_exec(s: &str, n: usize, i: usize) -> (r: usize)
    requires
        n == s@.len(),
        i <= n,
    ensures
        r == scan_digits(s@, i as int),
        i <= r <= n,
{
    let mut j = i;
    while j < n && is_digit_at(s, j)
        invariant
            n == s@.len(),
            i <= j <= n,
            scan_digits(s@, i as int) == scan_digits(s@, j as int),
        decreases n - j,
    {
        j = j + 1;
    }
    j
}

/// Value of the digit run `s[i..e)` as a machine word; `None` when it
/// does not fit.
fn digits_value_u64(s: &str, n: usize, i: usize, e: usize) -> (r: Option<u64>)
    requires
        n == s@.len(),
        i <= e <= n,
        forall|k: int| i <= k < e ==> is_digit_char(s@[k]),
    ensures
        match r {
            Some(v) => v == digits_val(s@, i as int, e as int),
            None => digits_val(s@, i as int, e as int) > u64::MAX,
        },
{
    let mut k = i;
    let mut val: u64 = 0;
    while k < e
        invariant
            n == s@.len(),
            i <= k <= e <= n,
            forall|t: int| i <= t < e ==> is_digit_char(s@[t]),
            val == digits_val(s@, i as int, k as int),
        decreases e - k,
    {
        let d = digit_at(s, k);
        if val > 1844674407370955161u64 || (val == 1844674407370955161u64 && d > 5) {
            proof {
                lemma_digits_val_bound(s@, i as int, k as int);
                assert(digits_val(s@, i as int, k as int + 1) > u64::MAX);
                lemma_digits_val_mono(s@, i as int, k as int + 1, e as int);
            }
            return None;
        }
        val = val * 10 + d as u64;
        k = k + 1;
    }
    Some(val)
}

fn parse_comparator_exec(s: &str, n: usize, i: usize) -> (r: Option<(ComparatorKind, usize)>)
    requires
        n == s@.len(),
        i <= n,
    ensures
        match parse_comparator(s@, i as int) {
            Some((k, e)) => r matches Some(p) && p.0 == k && p.1 == e,
            None => r is None,
        },
{
    if i < n {
        let c = s.get_char(i);
        if c == '>' {
            Some((ComparatorKind::GreaterThan, i + 1))
        } else if c == '<' {
            Some((ComparatorKind::LessThan, i + 1))
        } else {
            None
        }
    } else {
        None
    }
}

fn parse_operator_exec(s: &str, n: usize, i: usize) -> (r: Option<(OperatorKind, usize)>)
    requires
        n == s@.len(),
        i <= n,
    ensures
        match parse_operator(s@, i as int) {
            Some((k, e)) => r matches Some(p) && p.0 == k && p.1 == e,
            None => r is None,
        },
{
    if n - i >= 3 && s.get_char(i) == 'A' && s.get_char(i + 1) == 'N' && s.get_char(i + 2)
        == 'D' {
        Some((OperatorKind::And, i + 3))
    } else if n - i >= 2 && s.get_char(i) == 'O' && s.get_char(i + 1) == 'R' {
        Some((OperatorKind::Or, i + 2))
    } else {
        None
    }
}

fn parse_date_exec(s: &str, n: usize, i: usize) -> (r: Option<(DateLiteral, usize)>)
    requires
        n == s@.len(),
        i <= n,
    ensures
        match parse_date(s@, i as int) {
            Some((lit, e)) => r matches Some(p) && p.0 == lit && p.1 == e,
            None => r is None,
        },
{
    if n - i >= 4 && is_digit_at(s, i) && is_digit_at(s, i + 1) && is_digit_at(s, i + 2)
        && is_digit_at(s, i + 3) {
        let y = ((digit_at(s, i) * 10 + digit_at(s, i + 1)) * 10 + digit_at(s, i + 2)) * 10
            + digit_at(s, i + 3);
        proof {
            assert(digits_val(s@, i as int, i as int) == 0);
            assert(digits_val(s@, i as int, i as int + 1) == digit_val(s@[i as int]));
            assert(digits_val(s@, i as int, i as int + 2) == digit_val(s@[i as int]) * 10
                + digit_val(s@[i as int + 1]));
            assert(digits_val(s@, i as int, i as int + 3) == digits_val(
                s@,
                i as int,
                i as int + 2,
            ) * 10 + digit_val(s@[i as int + 2]));
            assert(digits_val(s@, i as int, i as int + 4) == digits_val(
                s@,
                i as int,
                i as int + 3,
            ) * 10 + digit_val(s@[i as int + 3]));
        }
        if n - i >= 7 && s.get_char(i + 4) == '-' && is_digit_at(s, i + 5) && is_digit_at(
            s,
            i + 6,
        ) {
            let m = digit_at(s, i + 5) * 10 + digit_at(s, i + 6);
            proof {
                assert(digits_val(s@, i as int + 5, i as int + 5) == 0);
                assert(digits_val(s@, i as int + 5, i as int + 6) == digit_val(
                    s@[i as int + 5],
                ));
                assert(digits_val(s@, i as int + 5, i as int + 7) == digit_val(s@[i as int + 5])
                    * 10 + digit_val(s@[i as int + 6]));
            }
            if n - i >= 10 && s.get_char(i + 7) == '-' && is_digit_at(s, i + 8) && is_digit_at(
                s,
                i + 9,
            ) {
                let d = digit_at(s, i + 8) * 10 + digit_at(s, i + 9);
                proof {
                    assert(digits_val(s@, i as int + 8, i as int + 8) == 0);
                    assert(digits_val(s@, i as int + 8, i as int + 9) == digit_val(
                        s@[i as int + 8],
                    ));
                    assert(digits_val(s@, i as int + 8, i as int + 10) == digit_val(
                        s@[i as int + 8],
                    ) * 10 + digit_val(s@[i as int + 9]));
                }
                Some((DateLiteral::YearMonthDay { y, m, d }, i + 10))
            } else {
                Some((DateLiteral::YearMonth { y, m }, i + 7))
            }
        } else {
            Some((DateLiteral::Year { y }, i + 4))
        }
    } else {
        None
    }
}

fn parse_duration_exec(s: &str, n: usize, i: usize) -> (r: Option<(Token, usize)>)
    requires
        n == s@.len(),
        i <= n,
    ensures
        match parse_duration(s@, i as int) {
            Some((t, e)) => r matches Some(p) && p.0@ == t && p.1 == e,
            None => r is None,
        },
{
    let e = scan_digits_exec(s, n, i);
    proof {
        lemma_scan_digits_covers(s@, i as int);
    }
    if e > i && e < n {
        let c = s.get_char(e);
        let unit = if c == 'h' {
            Some(DurationUnit::Hour)
        } else if c == 'd' {
            Some(DurationUnit::Day)
        } else if c == 'w' {
            Some(DurationUnit::Week)
        } else if c == 'm' {
            Some(DurationUnit::Month)
        } else if c == 'y' {
            Some(DurationUnit::Year)
        } else {
            None
        };
        match unit {
            Some(u) => match digits_value_u64(s, n, i, e) {
                Some(v) => Some((Token::Duration { amount: v, unit: u }, e + 1)),
                None => None,
            },
            None => None,
        }
    } else {
        None
    }
}

fn parse_date_or_duration_exec(s: &str, n: usize, i: usize) -> (r: Option<(Token, usize)>)
    requires
        n == s@.len(),
        i <= n,
    ensures
        match parse_date_or_duration(s@, i as int) {
            Some((t, e)) => r matches Some(p) && p.0@ == t && p.1 == e,
            None => r is None,
        },
{
    match parse_date_exec(s, n, i) {
        Some((lit, e)) => Some((Token::Date { lit }, e)),
        None => parse_duration_exec(s, n, i),
    }
}

fn parse_term_exec(s: &str, n: usize, i: usize) -> (r: Option<(Vec<Token>, usize)>)
    requires
        n == s@.len(),
        i <= n,
    ensures
        match parse_term(s@, i as int) {
            Some((ts, e)) => r matches Some(p) && p.0.deep_view() == ts && p.1 == e,
            None => r is None,
        },
{
    match parse_comparator_exec(s, n, i) {
        Some((k, j)) => {
            let j2 = skip_ws_exec(s, n, j);
            match parse_date_or_duration_exec(s, n, j2) {
                Some((t, e)) => {
                    let ghost tm = t@;
                    let mut v: Vec<Token> = Vec::new();
                    v.push(Token::Comparator { kind: k });
                    v.push(t);
                    proof {
                        assert(v.deep_view() =~= seq![TokenModel::Comparator { kind: k }, tm]);
                    }
                    Some((v, e))
                },
                None => None,
            }
        },
        None => {
            match parse_date_or_duration_exec(s, n, i) {
                Some((t, e)) => {
                    let ghost tm = t@;
                    let mut v: Vec<Token> = Vec::new();
                    v.push(t);
                    proof {
                        assert(v.deep_view() =~= seq![tm]);
                    }
                    Some((v, e))
                },
                None => {
                    let e = scan_ident_exec(s, n, i);
                    if e > i {
                        let name = s.substring_char(i, e).to_owned();
                        let ghost nm = name@;
                        let mut v: Vec<Token> = Vec::new();
                        v.push(Token::Tag { name });
                        proof {
                            assert(v.deep_view() =~= seq![TokenModel::Tag { name: nm }]);
                        }
                        Some((v, e))
                    } else if i < n && s.get_char(i) == '!' {
                        let j = skip_ws_exec(s, n, i + 1);
                        let e2 = scan_ident_exec(s, n, j);
                        if e2 > j {
                            let name = s.substring_char(j, e2).to_owned();
                            let ghost nm = name@;
                            let mut v: Vec<Token> = Vec::new();
                            v.push(Token::NotTag { name });
                            proof {
                                assert(v.deep_view() =~= seq![TokenModel::NotTag { name: nm }]);
                            }
                            Some((v, e2))
                        } else {
                            None
                        }
                    } else {
                        None
                    }
                },
            }
        },
    }
}

/// Joins a token prefix with the outcome of parsing the rest of the
/// input.
pub open spec fn opt_with_prefix(p: Seq<TokenModel>, o: Option<Seq<TokenModel>>) -> Option<
    Seq<TokenModel>,
> {
    match o {
        Some(r) => Some(p + r),
        None => None,
    }
}

/// The filter grammar, as a parser type.
pub struct Filter;

impl Filter {
    /// Tokenize a filter expression.  `None` when the input does not
    /// conform to the grammar; otherwise the token sequence the grammar
    /// assigns to it, closed by `EndOfInput`.
    pub fn parse(input: &str) -> (r: Option<Vec<Token>>)
        ensures
            match r {
                Some(toks) => parse_expression(input@) == Some(toks.deep_view()),
                None => parse_expression(input@) is None,
            },
    {
        let n = input.unicode_len();
        let i0 = skip_ws_exec(input, n, 0);
        proof {
            lemma_parse_term_bounds(input@, i0 as int);
        }
        match parse_term_exec(input, n, i0) {
            None => None,
            Some((ts, e0)) => {
                let mut toks = ts;
                let mut e = e0;
                loop
                    invariant
                        n == input@.len(),
                        e <= n,
                        parse_expression(input@) == opt_with_prefix(
                            toks.deep_view(),
                            parse_rest(input@, e as int),
                        ),
                    decreases n - e,
                {
                    let ghost prefix = toks.deep_view();
                    let j = skip_ws_exec(input, n, e);
                    match parse_operator_exec(input, n, j) {
                        Some((opk, j2)) => {
                            let j3 = skip_ws_exec(input, n, j2);
                            proof {
                                lemma_parse_term_bounds(input@, j3 as int);
                            }
                            match parse_term_exec(input, n, j3) {
                                Some((ts2, e2)) => {
                                    let ghost ts2m = ts2.deep_view();
                                    toks.push(Token::Operator { kind: opk });
                                    let mut rest_toks = ts2;
                                    toks.append(&mut rest_toks);
                                    proof {
                                        assert(toks.deep_view() =~= prefix + seq![
                                            TokenModel::Operator { kind: opk },
                                        ] + ts2m);
                                    }
                                    e = e2;
                                },
                                None => {
                                    return None;
                                },
                            }
                        },
                        None => {
                            if j == n {
                                let ghost prefix2 = toks.deep_view();
                                toks.push(Token::EndOfInput);
                                proof {
                                    assert(toks.deep_view() =~= prefix2 + seq![
                                        TokenModel::EndOfInput,
                                    ]);
                                }
                                return Some(toks);
                            } else {
                                return None;
                            }
                        },
                    }
                }
            },
        }
    }
}

pub proof fn lemma_parse_term_bounds(s: Seq<char>, i: int)
    requires
        0 <= i <= s.len(),
    ensures
        parse_term(s, i) matches Some((ts, e)) ==> i < e <= s.len(),
{
    lemma_parse_date_bounds(s, i);
    lemma_parse_duration_bounds(s, i);
    lemma_scan_ident_bounds(s, i);
    match parse_comparator(s, i) {
        Some((k, j)) => {
            lemma_skip_ws_bounds(s, j);
            let j2 = skip_ws(s, j);
            lemma_parse_date_bounds(s, j2);
            lemma_parse_duration_bounds(s, j2);
        },
        None => {
            if parse_date_or_duration(s, i) is None && !(scan_ident(s, i) > i) && 0 <= i
                < s.len() && s[i] == '!' {
                lemma_skip_ws_bounds(s, i + 1);
                let j = skip_ws(s, i + 1);
                lemma_scan_ident_bounds(s, j);
            }
        },
    }
}

} // verus!
