//! Laws of the filter compiler, stated and proved once for all inputs.

use crate::api::{
    compile_from, compile_tokens_spec, emit_not_tag, emit_tag, FilterError,
};
use crate::filter::{ComparatorKind, TokenModel};
use vstd::prelude::*;

verus! {

/// A single tag constraint compiles to exactly `tags = {name}`, whatever
/// the name and the evaluation time.
pub proof fn lemma_single_tag(name: Seq<char>, now: int)
    ensures
        compile_tokens_spec(seq![TokenModel::Tag { name }, TokenModel::EndOfInput], now)
            == Ok::<Seq<char>, FilterError>(emit_tag(name)),
{
    reveal_with_fuel(compile_from, 4);
    let toks = seq![TokenModel::Tag { name }, TokenModel::EndOfInput];
    assert(toks[0] == (TokenModel::Tag { name }));
    assert(toks[1] == TokenModel::EndOfInput);
    assert(Seq::<char>::empty() + emit_tag(name) =~= emit_tag(name));
}

/// A single negated tag compiles to exactly `tags != {name}`, whatever
/// the name and the evaluation time.
pub proof fn lemma_single_not_tag(name: Seq<char>, now: int)
    ensures
        compile_tokens_spec(seq![TokenModel::NotTag { name }, TokenModel::EndOfInput], now)
            == Ok::<Seq<char>, FilterError>(emit_not_tag(name)),
{
    reveal_with_fuel(compile_from, 4);
    let toks = seq![TokenModel::NotTag { name }, TokenModel::EndOfInput];
    assert(toks[0] == (TokenModel::NotTag { name }));
    assert(toks[1] == TokenModel::EndOfInput);
    assert(Seq::<char>::empty() + emit_not_tag(name) =~= emit_not_tag(name));
}

proof fn lemma_trailing_comparator_from(
    toks: Seq<TokenModel>,
    k: ComparatorKind,
    now: int,
    i: int,
    pending: Option<ComparatorKind>,
    acc: Seq<char>,
)
    requires
        0 <= i <= toks.len(),
    ensures
        compile_from(
            toks.push(TokenModel::Comparator { kind: k }).push(TokenModel::EndOfInput),
            i,
            pending,
            now,
            acc,
        ) == compile_from(toks.push(TokenModel::EndOfInput), i, pending, now, acc),
    decreases toks.len() - i,
{
    reveal_with_fuel(compile_from, 3);
    let with_comp = toks.push(TokenModel::Comparator { kind: k }).push(TokenModel::EndOfInput);
    let without = toks.push(TokenModel::EndOfInput);
    if i < toks.len() {
        assert(with_comp[i] == toks[i]);
        assert(without[i] == toks[i]);
        match toks[i] {
            TokenModel::EndOfInput => {},
            TokenModel::Comparator { kind } => {
                lemma_trailing_comparator_from(toks, k, now, i + 1, Some(kind), acc);
            },
            TokenModel::Tag { name } => {
                lemma_trailing_comparator_from(toks, k, now, i + 1, pending, acc + emit_tag(name));
            },
            TokenModel::NotTag { name } => {
                lemma_trailing_comparator_from(
                    toks,
                    k,
                    now,
                    i + 1,
                    pending,
                    acc + emit_not_tag(name),
                );
            },
            TokenModel::Operator { kind } => {
                lemma_trailing_comparator_from(
                    toks,
                    k,
                    now,
                    i + 1,
                    pending,
                    acc + crate::api::emit_operator(kind),
                );
            },
            TokenModel::Date { lit } => {
                if crate::date::lit_valid(lit) {
                    lemma_trailing_comparator_from(
                        toks,
                        k,
                        now,
                        i + 1,
                        None,
                        acc + crate::api::emit_date(lit, pending),
                    );
                }
            },
            TokenModel::Duration { amount, unit } => {
                if crate::api::duration_representable(amount, unit, now) {
                    lemma_trailing_comparator_from(
                        toks,
                        k,
                        now,
                        i + 1,
                        None,
                        acc + crate::api::emit_duration(
                            now - amount * crate::api::unit_secs(unit),
                            pending,
                        ),
                    );
                }
            },
        }
    } else {
        assert(with_comp[i] == (TokenModel::Comparator { kind: k }));
        assert(with_comp[i + 1] == TokenModel::EndOfInput);
        assert(without[i] == TokenModel::EndOfInput);
    }
}

/// Whatever the pass emits only extends what was already emitted.
proof fn lemma_compile_extends(
    toks: Seq<TokenModel>,
    i: int,
    pending: Option<ComparatorKind>,
    now: int,
    acc: Seq<char>,
)
    ensures
        compile_from(toks, i, pending, now, acc) matches Ok(out) ==> out.len() >= acc.len() && (
        forall|t: int| 0 <= t < acc.len() ==> out[t] == acc[t]),
    decreases toks.len() - i,
{
    reveal_with_fuel(compile_from, 2);
    if 0 <= i < toks.len() {
        match toks[i] {
            TokenModel::EndOfInput => {},
            TokenModel::Comparator { kind } => {
                lemma_compile_extends(toks, i + 1, Some(kind), now, acc);
            },
            TokenModel::Tag { name } => {
                lemma_compile_extends(toks, i + 1, pending, now, acc + emit_tag(name));
            },
            TokenModel::NotTag { name } => {
                lemma_compile_extends(toks, i + 1, pending, now, acc + emit_not_tag(name));
            },
            TokenModel::Operator { kind } => {
                lemma_compile_extends(
                    toks,
                    i + 1,
                    pending,
                    now,
                    acc + crate::api::emit_operator(kind),
                );
            },
            TokenModel::Date { lit } => {
                if crate::date::lit_valid(lit) {
                    lemma_compile_extends(
                        toks,
                        i + 1,
                        None,
                        now,
                        acc + crate::api::emit_date(lit, pending),
                    );
                }
            },
            TokenModel::Duration { amount, unit } => {
                if crate::api::duration_representable(amount, unit, now) {
                    lemma_compile_extends(
                        toks,
                        i + 1,
                        None,
                        now,
                        acc + crate::api::emit_duration(
                            now - amount * crate::api::unit_secs(unit),
                            pending,
                        ),
                    );
                }
            },
        }
    }
}

pub open spec fn lower_alpha(c: char) -> bool {
    97 <= c as int <= 122
}

/// The head every compiled filter string has: four lowercase letters, a
/// space, then one of the characters `=`, `!`, `>`, `<` — which no rule
/// of the grammar can consume at that spot.
pub open spec fn compiled_head(out: Seq<char>) -> bool {
    out.len() > 5 && lower_alpha(out[0]) && lower_alpha(out[1]) && lower_alpha(out[2])
        && lower_alpha(out[3]) && out[4] == ' ' && (out[5] == '=' || out[5] == '!' || out[5] == '>'
        || out[5] == '<')
}

/// Output built on a head keeps the head.
proof fn lemma_head_preserved(
    toks: Seq<TokenModel>,
    i: int,
    pending: Option<ComparatorKind>,
    now: int,
    acc: Seq<char>,
)
    requires
        compiled_head(acc),
    ensures
        compile_from(toks, i, pending, now, acc) matches Ok(out) ==> compiled_head(out),
{
    lemma_compile_extends(toks, i, pending, now, acc);
}

/// A successfully compiled token sequence that starts as parsed
/// expressions do (a constraint, or a comparator and its time
/// constraint) yields output bearing [`compiled_head`].
/// The atom a date or duration emits bears the head whatever the pending
/// comparator.
proof fn lemma_date_atom_head(start: int, end: int, pending: Option<ComparatorKind>)
    ensures
        compiled_head(Seq::<char>::empty() + crate::api::date_atom(start, end, pending)),
        compiled_head(Seq::<char>::empty() + crate::api::emit_duration(start, pending)),
{
}

#[verifier::rlimit(50)]
proof fn lemma_compile_head(toks: Seq<TokenModel>, now: int)
    requires
        toks.len() > 0,
        toks[0] is Tag || toks[0] is NotTag || toks[0] is Date || toks[0] is Duration || toks[0]
            is Comparator,
        toks[0] is Comparator ==> toks.len() > 1 && (toks[1] is Date || toks[1] is Duration),
    ensures
        compile_tokens_spec(toks, now) matches Ok(out) ==> compiled_head(out),
{
    reveal_with_fuel(compile_from, 3);
    let empty = Seq::<char>::empty();
    match toks[0] {
        TokenModel::Tag { name } => {
            let acc = empty + emit_tag(name);
            assert(compiled_head(acc));
            lemma_head_preserved(toks, 1, None, now, acc);
        },
        TokenModel::NotTag { name } => {
            let acc = empty + emit_not_tag(name);
            assert(compiled_head(acc));
            lemma_head_preserved(toks, 1, None, now, acc);
        },
        TokenModel::Date { lit } => {
            if crate::date::lit_valid(lit) {
                let acc = empty + crate::api::emit_date(lit, None);
                lemma_date_atom_head(
                    crate::date::range_start_of(lit),
                    crate::date::range_end_of(lit),
                    None,
                );
                lemma_head_preserved(toks, 1, None, now, acc);
            }
        },
        TokenModel::Duration { amount, unit } => {
            if crate::api::duration_representable(amount, unit, now) {
                let t = now - amount * crate::api::unit_secs(unit);
                let acc = empty + crate::api::emit_duration(t, None);
                lemma_date_atom_head(t, t, None);
                lemma_head_preserved(toks, 1, None, now, acc);
            }
        },
        TokenModel::Comparator { kind } => {
            match toks[1] {
                TokenModel::Date { lit } => {
                    if crate::date::lit_valid(lit) {
                        let acc = empty + crate::api::emit_date(lit, Some(kind));
                        lemma_date_atom_head(
                            crate::date::range_start_of(lit),
                            crate::date::range_end_of(lit),
                            Some(kind),
                        );
                        lemma_head_preserved(toks, 2, None, now, acc);
                    }
                },
                TokenModel::Duration { amount, unit } => {
                    if crate::api::duration_representable(amount, unit, now) {
                        let t = now - amount * crate::api::unit_secs(unit);
                        let acc = empty + crate::api::emit_duration(t, Some(kind));
                        lemma_date_atom_head(t, t, Some(kind));
                        lemma_head_preserved(toks, 2, None, now, acc);
                    }
                },
                _ => {},
            }
        },
        _ => {},
    }
}

/// Nothing bearing [`compiled_head`] parses: its first run of identifier
/// characters makes a tag, and what follows can be neither an operator
/// nor the end of the input.
proof fn lemma_compiled_head_unparseable(out: Seq<char>)
    requires
        compiled_head(out),
    ensures
        crate::filter::parse_expression(out) is None,
{
    reveal_with_fuel(crate::filter::skip_ws, 3);
    reveal_with_fuel(crate::filter::scan_ident, 6);
    reveal_with_fuel(crate::filter::scan_digits, 2);
    assert(crate::filter::skip_ws(out, 0) == 0);
    assert(crate::filter::scan_ident(out, 4) == 4);
    assert(crate::filter::scan_ident(out, 3) == 4);
    assert(crate::filter::scan_ident(out, 2) == 4);
    assert(crate::filter::scan_ident(out, 1) == 4);
    assert(crate::filter::scan_ident(out, 0) == 4);
    assert(crate::filter::scan_digits(out, 0) == 0);
    assert(crate::filter::parse_comparator(out, 0) is None);
    assert(!crate::filter::four_digits_at(out, 0));
    assert(crate::filter::parse_date(out, 0) is None);
    assert(crate::filter::parse_duration(out, 0) is None);
    assert(crate::filter::parse_term(out, 0) matches Some((ts, e)) && e == 4);
    assert(crate::filter::skip_ws(out, 5) == 5);
    assert(crate::filter::skip_ws(out, 4) == 5);
    assert(crate::filter::parse_operator(out, 5) is None);
    assert(crate::filter::parse_rest(out, 4) is None);
}

/// A compiled filter string is not itself a filter expression: feeding
/// the compiler's output back as input fails to parse.  Compiling, unlike
/// parsing, is not idempotent by design: the output grammar is the
/// backend's, not this library's.
pub proof fn lemma_compiled_output_rejected(input: Seq<char>, now: int)
    ensures
        match crate::filter::parse_expression(input) {
            Some(toks) => match compile_tokens_spec(toks, now) {
                Ok(out) => crate::filter::parse_expression(out) is None,
                Err(_) => true,
            },
            None => true,
        },
{
    let s = input;
    crate::filter::lemma_skip_ws_bounds(s, 0);
    let i0 = crate::filter::skip_ws(s, 0);
    match crate::filter::parse_term(s, i0) {
        Some((ts, e)) => {
            lemma_parse_term_first(s, i0);
            match crate::filter::parse_rest(s, e) {
                Some(rest) => {
                    let toks = ts + rest;
                    assert(toks[0] == ts[0]);
                    if ts[0] is Comparator {
                        assert(toks[1] == ts[1]);
                    }
                    lemma_compile_head(toks, now);
                    match compile_tokens_spec(toks, now) {
                        Ok(out) => {
                            lemma_compiled_head_unparseable(out);
                        },
                        Err(_) => {},
                    }
                },
                None => {},
            }
        },
        None => {},
    }
}

/// The first token of a parsed term is a constraint, and a comparator is
/// always followed by its date or duration.
proof fn lemma_parse_term_first(s: Seq<char>, i: int)
    requires
        0 <= i <= s.len(),
    ensures
        crate::filter::parse_term(s, i) matches Some((ts, e)) ==> ts.len() >= 1 && (ts[0] is Tag
            || ts[0] is NotTag || ts[0] is Date || ts[0] is Duration || (ts[0] is Comparator
            && ts.len() >= 2 && (ts[1] is Date || ts[1] is Duration))),
{
}

/// Of two comparators in a row the second wins: the first changes
/// neither the output nor the error reported.
pub proof fn lemma_second_comparator_wins(
    toks: Seq<TokenModel>,
    i: int,
    pending: Option<ComparatorKind>,
    now: int,
    acc: Seq<char>,
)
    requires
        0 <= i,
        i + 1 < toks.len(),
        toks[i] is Comparator,
        toks[i + 1] is Comparator,
    ensures
        compile_from(toks, i, pending, now, acc) == compile_from(toks, i + 1, pending, now, acc),
{
    reveal_with_fuel(compile_from, 3);
}

/// A comparator with no following date or duration emits nothing: it is
/// discarded when the end of the input is reached.
pub proof fn lemma_trailing_comparator_discarded(
    toks: Seq<TokenModel>,
    k: ComparatorKind,
    now: int,
)
    ensures
        compile_tokens_spec(
            toks.push(TokenModel::Comparator { kind: k }).push(TokenModel::EndOfInput),
            now,
        ) == compile_tokens_spec(toks.push(TokenModel::EndOfInput), now),
{
    lemma_trailing_comparator_from(toks, k, now, 0, None, Seq::empty());
}

} // verus!
