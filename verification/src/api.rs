//! Query payloads and the filter compiler.
//!
//! [`ApiQuery`] is the body of a search request.  Its `filter` field is
//! produced by the filter compiler: a single left-to-right pass over the
//! token sequence of [`crate::filter::Filter::parse`], carrying one piece
//! of state (the pending comparator) and emitting one backend filter atom
//! per constraint.  The exact spelling of the atoms (`tags = x`,
//! `tags != x`, `date > N`, `date < N`, joined by `" AND "` / `" OR "`)
//! is a compatibility requirement of the backend's query parser.

use crate::date::{lit_valid, range_end_of, range_start_of, DateLiteral, DateRange};
use crate::filter::{ComparatorKind, DurationUnit, Filter, OperatorKind, Token, TokenModel};
use vstd::prelude::*;

verus! {

// ---------------------------------------------------------------------------
// Decimal formatting.
// ---------------------------------------------------------------------------

pub open spec fn digit_char(d: int) -> char {
    if d == 0 {
        '0'
    } else if d == 1 {
        '1'
    } else if d == 2 {
        '2'
    } else if d == 3 {
        '3'
    } else if d == 4 {
        '4'
    } else if d == 5 {
        '5'
    } else if d == 6 {
        '6'
    } else if d == 7 {
        '7'
    } else if d == 8 {
        '8'
    } else {
        '9'
    }
}

/// Decimal digits of a non-negative integer, most significant first.
pub open spec fn dec_str(n: int) -> Seq<char>
    decreases n,
{
    if n < 10 {
        seq![digit_char(n)]
    } else {
        dec_str(n / 10).push(digit_char(n % 10))
    }
}

/// Decimal form of an integer, with a leading minus sign when negative.
pub open spec fn int_str(n: int) -> Seq<char> {
    if n < 0 {
        seq!['-'] + dec_str(-n)
    } else {
        dec_str(n)
    }
}

fn push_digit(out: &mut String, d: u64)
    requires
        d <= 9,
    ensures
        final(out)@ == old(out)@.push(digit_char(d as int)),
{
    if d == 0 {
        proof {
            reveal_strlit("0");
        }
        out.append("0");
    } else if d == 1 {
        proof {
            reveal_strlit("1");
        }
        out.append("1");
    } else if d == 2 {
        proof {
            reveal_strlit("2");
        }
        out.append("2");
    } else if d == 3 {
        proof {
            reveal_strlit("3");
        }
        out.append("3");
    } else if d == 4 {
        proof {
            reveal_strlit("4");
        }
        out.append("4");
    } else if d == 5 {
        proof {
            reveal_strlit("5");
        }
        out.append("5");
    } else if d == 6 {
        proof {
            reveal_strlit("6");
        }
        out.append("6");
    } else if d == 7 {
        proof {
            reveal_strlit("7");
        }
        out.append("7");
    } else if d == 8 {
        proof {
            reveal_strlit("8");
        }
        out.append("8");
    } else {
        proof {
            reveal_strlit("9");
        }
        out.append("9");
    }
    proof {
        assert(final(out)@ =~= old(out)@.push(digit_char(d as int)));
    }
}

fn push_u64_dec(out: &mut String, n: u64)
    ensures
        final(out)@ == old(out)@ + dec_str(n as int),
    decreases n,
{
    if n < 10 {
        push_digit(out, n);
        proof {
            assert(final(out)@ =~= old(out)@ + dec_str(n as int));
        }
    } else {
        push_u64_dec(out, n / 10);
        push_digit(out, n % 10);
        proof {
            assert(final(out)@ =~= old(out)@ + dec_str(n as int));
        }
    }
}

fn push_i64_dec(out: &mut String, n: i64)
    ensures
        final(out)@ == old(out)@ + int_str(n as int),
{
    if n >= 0 {
        push_u64_dec(out, n as u64);
    } else {
        let mag: u64 = if n == i64::MIN {
            9223372036854775808u64
        } else {
            (-n) as u64
        };
        proof {
            reveal_strlit("-");
        }
        out.append("-");
        push_u64_dec(out, mag);
        proof {
            assert(final(out)@ =~= old(out)@ + int_str(n as int));
        }
    }
}

// ---------------------------------------------------------------------------
// What each token contributes to the backend filter string.
// ---------------------------------------------------------------------------

pub open spec fn emit_tag(name: Seq<char>) -> Seq<char> {
    seq!['t', 'a', 'g', 's', ' ', '=', ' '] + name
}

pub open spec fn emit_not_tag(name: Seq<char>) -> Seq<char> {
    seq!['t', 'a', 'g', 's', ' ', '!', '=', ' '] + name
}

pub open spec fn emit_operator(kind: OperatorKind) -> Seq<char> {
    match kind {
        OperatorKind::And => seq![' ', 'A', 'N', 'D', ' '],
        OperatorKind::Or => seq![' ', 'O', 'R', ' '],
    }
}

/// A date atom over its resolved bounds.  With a pending comparator only
/// that bound is used; without one both bounds apply, joined with an
/// implicit `AND`.  A lone date bound carries a trailing space — part of
/// the output spelling as the backend receives it today — while a
/// duration bound (below) does not.
pub open spec fn date_atom(start: int, end: int, pending: Option<ComparatorKind>) -> Seq<char> {
    seq!['d', 'a', 't', 'e', ' '] + match pending {
        Some(ComparatorKind::GreaterThan) => seq!['>', ' '] + int_str(start) + seq![' '],
        Some(ComparatorKind::LessThan) => seq!['<', ' '] + int_str(end) + seq![' '],
        None => seq!['>', ' '] + int_str(start) + seq![
            ' ',
            'A',
            'N',
            'D',
            ' ',
            'd',
            'a',
            't',
            'e',
            ' ',
            '<',
            ' ',
        ] + int_str(end),
    }
}

/// What a date literal contributes to the output.
pub open spec fn emit_date(lit: DateLiteral, pending: Option<ComparatorKind>) -> Seq<char> {
    date_atom(range_start_of(lit), range_end_of(lit), pending)
}

/// Length of one duration unit in seconds.  A month counts as 30 days
/// and a year as 365: a fixed-factor approximation, kept deliberately.
pub open spec fn unit_secs(unit: DurationUnit) -> int {
    match unit {
        DurationUnit::Hour => 3600,
        DurationUnit::Day => 86400,
        DurationUnit::Week => 604800,
        DurationUnit::Month => 2592000,
        DurationUnit::Year => 31536000,
    }
}

/// A duration constraint: one bound at `threshold`, the evaluation time
/// minus the duration.  Without a pending comparator the lower bound is
/// taken.
pub open spec fn emit_duration(threshold: int, pending: Option<ComparatorKind>) -> Seq<char> {
    seq!['d', 'a', 't', 'e', ' '] + match pending {
        Some(ComparatorKind::LessThan) => seq!['<', ' '] + int_str(threshold),
        _ => seq!['>', ' '] + int_str(threshold),
    }
}

// ---------------------------------------------------------------------------
// The compiler.
// ---------------------------------------------------------------------------

/// Why a token sequence was rejected rather than compiled.
#[derive(Clone, Copy, Debug, PartialEq, Eq, Structural)]
pub enum FilterError {
    /// The input did not match the filter grammar at all.
    Unparseable,
    /// The date literal at token `index` does not name a real calendar
    /// date.
    InvalidDate { index: usize, lit: DateLiteral },
    /// The duration at token `index` reaches beyond the representable
    /// range of epoch seconds.
    DurationOutOfRange { index: usize },
}

/// Whether a duration of `amount` units can be subtracted from `now`
/// within the representable range of epoch seconds.
pub open spec fn duration_representable(amount: int, unit: DurationUnit, now: int) -> bool {
    0 <= amount && amount * unit_secs(unit) <= i64::MAX && i64::MIN <= now - amount * unit_secs(
        unit,
    )
}

/// One left-to-right pass from token `i` on, with `pending` the
/// comparator awaiting its date or duration and `acc` the output built
/// so far.  Compilation stops at `EndOfInput` even if tokens follow.
pub open spec fn compile_from(
    toks: Seq<TokenModel>,
    i: int,
    pending: Option<ComparatorKind>,
    now: int,
    acc: Seq<char>,
) -> Result<Seq<char>, FilterError>
    decreases toks.len() - i,
{
    if i < 0 || i >= toks.len() {
        Ok(acc)
    } else {
        match toks[i] {
            TokenModel::EndOfInput => Ok(acc),
            TokenModel::Comparator { kind } => compile_from(toks, i + 1, Some(kind), now, acc),
            TokenModel::Tag { name } => compile_from(toks, i + 1, pending, now, acc + emit_tag(name)),
            TokenModel::NotTag { name } => compile_from(
                toks,
                i + 1,
                pending,
                now,
                acc + emit_not_tag(name),
            ),
            TokenModel::Operator { kind } => compile_from(
                toks,
                i + 1,
                pending,
                now,
                acc + emit_operator(kind),
            ),
            TokenModel::Date { lit } => {
                if lit_valid(lit) {
                    compile_from(toks, i + 1, None, now, acc + emit_date(lit, pending))
                } else {
                    Err(FilterError::InvalidDate { index: i as usize, lit })
                }
            },
            TokenModel::Duration { amount, unit } => {
                if duration_representable(amount, unit, now) {
                    compile_from(
                        toks,
                        i + 1,
                        None,
                        now,
                        acc + emit_duration(now - amount * unit_secs(unit), pending),
                    )
                } else {
                    Err(FilterError::DurationOutOfRange { index: i as usize })
                }
            },
        }
    }
}

/// The whole pass: what the compiler makes of a token sequence at
/// evaluation time `now`.
pub open spec fn compile_tokens_spec(toks: Seq<TokenModel>, now: int) -> Result<
    Seq<char>,
    FilterError,
> {
    compile_from(toks, 0, None, now, Seq::empty())
}

fn append_date_atom(out: &mut String, start: i64, end: i64, pending: Option<ComparatorKind>)
    ensures
        final(out)@ == old(out)@ + date_atom(start as int, end as int, pending),
{
    proof {
        reveal_strlit("date ");
        reveal_strlit("> ");
        reveal_strlit("< ");
        reveal_strlit(" ");
        reveal_strlit(" AND date < ");
    }
    out.append("date ");
    match pending {
        Some(ComparatorKind::GreaterThan) => {
            out.append("> ");
            push_i64_dec(out, start);
            out.append(" ");
        },
        Some(ComparatorKind::LessThan) => {
            out.append("< ");
            push_i64_dec(out, end);
            out.append(" ");
        },
        None => {
            out.append("> ");
            push_i64_dec(out, start);
            out.append(" AND date < ");
            push_i64_dec(out, end);
        },
    }
    proof {
        assert(final(out)@ =~= old(out)@ + date_atom(start as int, end as int, pending));
    }
}

fn append_duration_atom(out: &mut String, threshold: i64, pending: Option<ComparatorKind>)
    ensures
        final(out)@ == old(out)@ + emit_duration(threshold as int, pending),
{
    proof {
        reveal_strlit("date ");
        reveal_strlit("> ");
        reveal_strlit("< ");
    }
    out.append("date ");
    match pending {
        Some(ComparatorKind::LessThan) => {
            out.append("< ");
            push_i64_dec(out, threshold);
        },
        _ => {
            out.append("> ");
            push_i64_dec(out, threshold);
        },
    }
    proof {
        assert(final(out)@ =~= old(out)@ + emit_duration(threshold as int, pending));
    }
}

fn unit_secs_exec(unit: DurationUnit) -> (r: u64)
    ensures
        r == unit_secs(unit),
        1 <= r <= 31536000,
{
    match unit {
        DurationUnit::Hour => 3600,
        DurationUnit::Day => 86400,
        DurationUnit::Week => 604800,
        DurationUnit::Month => 2592000,
        DurationUnit::Year => 31536000,
    }
}

/// `now` minus the duration, or `None` when that leaves the
/// representable range of epoch seconds.
fn duration_threshold(amount: u64, unit: DurationUnit, now: i64) -> (r: Option<i64>)
    ensures
        match r {
            Some(t) => duration_representable(amount as int, unit, now as int) && t == now
                - amount * unit_secs(unit),
            None => !duration_representable(amount as int, unit, now as int),
        },
{
    let us = unit_secs_exec(unit);
    let limit = 9223372036854775807u64 / us;
    let ghost a = amount as int;
    let ghost u = us as int;
    let ghost l = limit as int;
    proof {
        vstd::arithmetic::div_mod::lemma_fundamental_div_mod(9223372036854775807int, u);
        vstd::arithmetic::div_mod::lemma_mod_division_less_than_divisor(
            9223372036854775807int,
            u,
        );
    }
    if amount > limit {
        proof {
            assert(a * u > 9223372036854775807int) by (nonlinear_arith)
                requires
                    a >= l + 1,
                    u * l + u > 9223372036854775807int,
                    u >= 1,
            ;
        }
        None
    } else {
        proof {
            assert(a * u <= u * l <= 9223372036854775807int) by (nonlinear_arith)
                requires
                    0 <= a <= l,
                    u >= 1,
                    u * l <= 9223372036854775807int,
            ;
        }
        let prod: i64 = (amount * us) as i64;
        let floor: i64 = i64::MIN + prod;
        if now < floor {
            None
        } else {
            Some(now - prod)
        }
    }
}

/// Compile a token sequence into the backend filter string, or reject it
/// with the reason.
pub fn compile_tokens(toks: &Vec<Token>, now: i64) -> (r: Result<String, FilterError>)
    ensures
        match compile_tokens_spec(toks.deep_view(), now as int) {
            Ok(out) => r matches Ok(f) && f@ == out,
            Err(e) => r matches Err(e2) && e2 == e,
        },
{
    let ghost tm = toks.deep_view();
    let mut out = String::new();
    let mut pending: Option<ComparatorKind> = None;
    let mut idx: usize = 0;
    while idx < toks.len()
        invariant
            tm == toks.deep_view(),
            idx <= toks@.len(),
            tm.len() == toks@.len(),
            compile_tokens_spec(tm, now as int) == compile_from(
                tm,
                idx as int,
                pending,
                now as int,
                out@,
            ),
        decreases toks@.len() - idx,
    {
        let ghost out0 = out@;
        assert(tm[idx as int] == toks@[idx as int].deep_view());
        match &toks[idx] {
            Token::EndOfInput => {
                return Ok(out);
            },
            Token::Comparator { kind } => {
                pending = Some(*kind);
            },
            Token::Tag { name } => {
                proof {
                    reveal_strlit("tags = ");
                }
                out.append("tags = ");
                out.append(name.as_str());
                proof {
                    assert(out@ =~= out0 + emit_tag(name@));
                }
            },
            Token::NotTag { name } => {
                proof {
                    reveal_strlit("tags != ");
                }
                out.append("tags != ");
                out.append(name.as_str());
                proof {
                    assert(out@ =~= out0 + emit_not_tag(name@));
                }
            },
            Token::Operator { kind } => {
                match kind {
                    OperatorKind::And => {
                        proof {
                            reveal_strlit(" AND ");
                        }
                        out.append(" AND ");
                    },
                    OperatorKind::Or => {
                        proof {
                            reveal_strlit(" OR ");
                        }
                        out.append(" OR ");
                    },
                }
                proof {
                    assert(out@ =~= out0 + emit_operator(*kind));
                }
            },
            Token::Date { lit } => {
                match DateRange::try_from(lit) {
                    Some(range) => {
                        append_date_atom(&mut out, range.start, range.end, pending);
                        pending = None;
                    },
                    None => {
                        return Err(FilterError::InvalidDate { index: idx, lit: *lit });
                    },
                }
            },
            Token::Duration { amount, unit } => {
                match duration_threshold(*amount, *unit, now) {
                    Some(threshold) => {
                        append_duration_atom(&mut out, threshold, pending);
                        pending = None;
                    },
                    None => {
                        return Err(FilterError::DurationOutOfRange { index: idx });
                    },
                }
            },
        }
        idx = idx + 1;
    }
    Ok(out)
}

// ---------------------------------------------------------------------------
// The query payload.
// ---------------------------------------------------------------------------

/// The body of a search request.  `filter` holds a compiled backend
/// filter string; the other fields pass through to the backend
/// unchanged.
#[derive(Debug)]
pub struct ApiQuery {
    pub query: Option<String>,
    pub filter: Option<String>,
    pub sort: Option<Vec<String>>,
    pub facets_distribution: Option<Vec<String>>,
    pub limit: u32,
}

/// Relies on chrono::Local::now for the current wall-clock instant;
/// `timestamp` counts UTC epoch seconds regardless of the local offset.
/// Nothing is promised of a clock reading.
#[verifier::external_body]
fn now_epoch() -> i64 {
    chrono::Local::now().timestamp()
}

/// How one compilation pass changes the `filter` field: a grammar
/// mismatch leaves it untouched, a compiled non-empty filter string
/// replaces it, and a rejected literal reports the error and leaves it
/// untouched.
pub open spec fn filter_outcome(
    pre: ApiQuery,
    post: ApiQuery,
    r: Result<(), FilterError>,
    input: Seq<char>,
    now: int,
) -> bool {
    match crate::filter::parse_expression(input) {
        None => r is Ok && post.filter == pre.filter,
        Some(toks) => match compile_tokens_spec(toks, now) {
            Ok(out) => r is Ok && (if out.len() > 0 {
                post.filter matches Some(f) && f@ == out
            } else {
                post.filter == pre.filter
            }),
            Err(e) => r == Err::<(), FilterError>(e) && post.filter == pre.filter,
        },
    }
}

impl ApiQuery {
    /// A fresh query: no filter, newest first, a high match limit.
    pub fn new() -> (r: ApiQuery)
        ensures
            r.query is None,
            r.filter is None,
            r.facets_distribution is None,
            r.limit == 10000,
            r.sort matches Some(sv) && sv@.len() == 1 && sv@[0]@ == "date:desc"@,
    {
        let mut sort_fields: Vec<String> = Vec::new();
        sort_fields.push(String::from_str("date:desc"));
        ApiQuery {
            query: None,
            filter: None,
            sort: Some(sort_fields),
            facets_distribution: None,
            limit: 10000,
        }
    }

    /// Compile `input` at evaluation time `now` and set the `filter`
    /// field accordingly.  Input that does not match the grammar is
    /// dropped without touching the filter; a literal the compiler
    /// rejects is reported and leaves the filter untouched too.
    pub fn process_filter_at(&mut self, input: &str, now: i64) -> (r: Result<(), FilterError>)
        ensures
            final(self).query == old(self).query,
            final(self).sort == old(self).sort,
            final(self).facets_distribution == old(self).facets_distribution,
            final(self).limit == old(self).limit,
            filter_outcome(*old(self), *final(self), r, input@, now as int),
    {
        match Filter::parse(input) {
            None => Ok(()),
            Some(toks) => {
                match compile_tokens(&toks, now) {
                    Ok(f) => {
                        if f.as_str().unicode_len() > 0 {
                            self.filter = Some(f);
                        }
                        Ok(())
                    },
                    Err(e) => Err(e),
                }
            },
        }
    }

    /// As [`Self::process_filter_at`], with the duration evaluation time
    /// read from the wall clock.
    pub fn process_filter(&mut self, input: String) -> (r: Result<(), FilterError>)
        ensures
            final(self).query == old(self).query,
            final(self).sort == old(self).sort,
            final(self).facets_distribution == old(self).facets_distribution,
            final(self).limit == old(self).limit,
            exists|now: int| filter_outcome(*old(self), *final(self), r, input@, now),
    {
        let now = now_epoch();
        let r = self.process_filter_at(input.as_str(), now);
        proof {
            assert(filter_outcome(*old(self), *self, r, input@, now as int));
        }
        r
    }
}

/// The body of a search response: the matching documents and the
/// bookkeeping the backend reports with them.
#[derive(Debug)]
pub struct ApiResponse {
    pub hits: Vec<crate::document::Document>,
    pub num_hits: u32,
    pub exhaustive_num_hits: bool,
    pub query: String,
    pub limit: u16,
    pub offset: u32,
    pub processing_time_ms: u32,
}

/// Compile a filter expression on its own, reporting why unusable input
/// was rejected.  Input outside the grammar is `Unparseable`; a bad
/// literal inside a well-formed expression carries its token position.
pub fn compile_filter(input: &str, now: i64) -> (r: Result<String, FilterError>)
    ensures
        match crate::filter::parse_expression(input@) {
            None => r == Err::<String, FilterError>(FilterError::Unparseable),
            Some(toks) => match compile_tokens_spec(toks, now as int) {
                Ok(out) => r matches Ok(f) && f@ == out,
                Err(e) => r matches Err(e2) && e2 == e,
            },
        },
{
    match Filter::parse(input) {
        None => Err(FilterError::Unparseable),
        Some(toks) => compile_tokens(&toks, now),
    }
}

} // verus!
