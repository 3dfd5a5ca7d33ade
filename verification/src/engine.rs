//! The validation engine: split the input into lines, classify every line,
//! build the reference index, check the structure, check every claim's
//! syntax, and aggregate everything into one result. Three passes over the
//! same line sequence; the engine never aborts early and reports every issue
//! found, in order: classification errors, then structural errors, then
//! per-claim syntax errors in line order.

use vstd::prelude::*;
use vstd::string::StrSliceExecFns;
use vstd::string::StringExecFns;
use crate::refs::collect_valid_references;
use crate::refs::valid_refs_of;
use crate::structure::structure_errors;
use crate::structure::validate_structure;
use crate::syntax::syntax_errors;
use crate::syntax::syntax_warnings;
use crate::syntax::validate_claim_syntax;
use crate::text::find_char_at;
use crate::text::find_char_from;
use crate::tokenize::classify_line;
use crate::tokenize::tokenize_line;
use crate::types::ErrorView;
use crate::types::LineType;
use crate::types::LineTypeView;
use crate::types::LineView;
use crate::types::ParsedLine;
use crate::types::ResultView;
use crate::types::ValidationError;
use crate::types::ValidationResult;

verus! {

/// A line with its terminating `\r\n` reduced to `\n` loses the `\r`.
pub open spec fn strip_tail_cr(s: Seq<char>) -> Seq<char> {
    if s.len() > 0 && s.last() == '\r' {
        s.drop_last()
    } else {
        s
    }
}

/// The lines of `t` from position `i` on: split at every `\n`, a `\r` just
/// before the `\n` removed, the final line terminator optional.
pub open spec fn lines_from(t: Seq<char>, i: int) -> Seq<Seq<char>>
    decreases t.len() - i,
{
    if !(0 <= i < t.len()) {
        Seq::empty()
    } else {
        let j = find_char_from(t, '\n', i);
        if i <= j < t.len() {
            seq![strip_tail_cr(t.subrange(i, j))] + lines_from(t, j + 1)
        } else if j >= t.len() {
            seq![t.subrange(i, t.len() as int)]
        } else {
            Seq::empty()
        }
    }
}

/// The lines of the whole input.
pub open spec fn lines_of(t: Seq<char>) -> Seq<Seq<char>> {
    lines_from(t, 0)
}

/// The first pass over the raw lines: every line classified and numbered
/// from 1 in order, with the classification errors in line order.
pub open spec fn classify_all(raws: Seq<Seq<char>>) -> (Seq<LineView>, Seq<ErrorView>)
    decreases raws.len(),
{
    if raws.len() == 0 {
        (Seq::empty(), Seq::empty())
    } else {
        let prev = classify_all(raws.drop_last());
        let c = classify_line(raws.last(), raws.len() as nat);
        (
            prev.0.push(
                LineView { line_number: raws.len() as nat, line_type: c.0, raw: raws.last() },
            ),
            prev.1 + c.1,
        )
    }
}

/// The third pass: the syntax errors and the warnings of every claim line,
/// in line order.
pub open spec fn syntax_fold(ls: Seq<LineView>, refs: Set<Seq<char>>) -> (
    Seq<ErrorView>,
    Seq<ErrorView>,
)
    decreases ls.len(),
{
    if ls.len() == 0 {
        (Seq::empty(), Seq::empty())
    } else {
        let prev = syntax_fold(ls.drop_last(), refs);
        match ls.last().line_type {
            LineTypeView::Claim(c) => (
                prev.0 + syntax_errors(ls.last().line_number, c, refs),
                prev.1 + syntax_warnings(ls.last().line_number, c),
            ),
            _ => prev,
        }
    }
}

/// What validating a document yields: classification errors, then structural
/// errors, then per-claim syntax errors; the warnings; and every line as
/// classified, one per input line.
pub open spec fn validate_spec(text: Seq<char>) -> ResultView {
    let raws = lines_of(text);
    let pass1 = classify_all(raws);
    let refs = valid_refs_of(pass1.0);
    let pass3 = syntax_fold(pass1.0, refs);
    ResultView {
        errors: pass1.1 + structure_errors(pass1.0) + pass3.0,
        warnings: pass3.1,
        lines: pass1.0,
    }
}

/// Split the input into its lines.
fn split_lines(text: &str) -> (v: Vec<String>)
    ensures
        v.deep_view() == lines_of(text@),
{
    let len = text.unicode_len();
    let mut v: Vec<String> = Vec::new();
    let mut cur: usize = 0;
    proof {
        assert(v.deep_view() =~= Seq::<Seq<char>>::empty());
    }
    while cur < len
        invariant
            0 <= cur <= len,
            len == text@.len(),
            lines_of(text@) == v.deep_view() + lines_from(text@, cur as int),
        decreases len - cur,
    {
        let j = find_char_at(text, '\n', cur);
        let ghost pre = v.deep_view();
        if j < len {
            let piece = if j > cur && text.get_char(j - 1) == '\r' {
                text.substring_char(cur, j - 1)
            } else {
                text.substring_char(cur, j)
            };
            proof {
                if j > cur && text@[j - 1] == '\r' {
                    assert(text@.subrange(cur as int, j - 1) =~= strip_tail_cr(text@.subrange(
                        cur as int,
                        j as int,
                    )));
                } else {
                    assert(text@.subrange(cur as int, j as int) =~= strip_tail_cr(text@.subrange(
                        cur as int,
                        j as int,
                    )));
                }
            }
            v.push(String::from_str(piece));
            proof {
                assert(v.deep_view() =~= pre.push(strip_tail_cr(text@.subrange(
                    cur as int,
                    j as int,
                ))));
                assert(lines_of(text@) =~= v.deep_view() + lines_from(text@, j + 1));
            }
            cur = j + 1;
        } else {
            v.push(String::from_str(text.substring_char(cur, len)));
            proof {
                assert(v.deep_view() =~= pre.push(text@.subrange(cur as int, len as int)));
                assert(lines_from(text@, cur as int) =~= seq![text@.subrange(
                    cur as int,
                    len as int,
                )]);
                assert(lines_of(text@) =~= v.deep_view() + Seq::<Seq<char>>::empty());
                assert(lines_from(text@, len as int) =~= Seq::<Seq<char>>::empty());
            }
            cur = len;
        }
    }
    proof {
        assert(lines_from(text@, cur as int) =~= Seq::<Seq<char>>::empty());
        assert(v.deep_view() =~= lines_of(text@));
    }
    v
}

/// Validate a whole document: classify every line, build the reference
/// index, check structure and claim syntax, and aggregate the result. For
/// every input the engine terminates with one parsed line per input line and
/// every error and warning found, in reporting order.
pub fn validate(input: &str) -> (r: ValidationResult)
    ensures
        r@ == validate_spec(input@),
        r@.lines.len() == lines_of(input@).len(),
{
    let raw_lines = split_lines(input);
    let ghost rdv = raw_lines.deep_view();
    let mut errors: Vec<ValidationError> = Vec::new();
    let mut warnings: Vec<ValidationError> = Vec::new();
    let mut lines: Vec<ParsedLine> = Vec::new();
    let n = raw_lines.len();

    // First pass: classify every line.
    let mut idx: usize = 0;
    proof {
        assert(lines.deep_view() =~= Seq::<LineView>::empty());
        assert(errors.deep_view() =~= Seq::<ErrorView>::empty());
        assert(rdv.take(0) =~= Seq::<Seq<char>>::empty());
    }
    while idx < n
        invariant
            0 <= idx <= n,
            n == raw_lines@.len(),
            rdv == raw_lines.deep_view(),
            rdv.len() == n,
            lines.deep_view() == classify_all(rdv.take(idx as int)).0,
            errors.deep_view() == classify_all(rdv.take(idx as int)).1,
            warnings.deep_view() == Seq::<ErrorView>::empty(),
            lines@.len() == idx,
        decreases n - idx,
    {
        proof {
            assert(rdv.take(idx + 1).drop_last() =~= rdv.take(idx as int));
            assert(rdv.take(idx + 1).last() == rdv[idx as int]);
            assert(raw_lines@[idx as int].deep_view() == rdv[idx as int]);
        }
        let line_number = idx + 1;
        let raw = &raw_lines[idx];
        let parsed = tokenize_line(raw.as_str(), line_number, &mut errors);
        let ghost pre = lines.deep_view();
        lines.push(ParsedLine { line_number, line_type: parsed, raw: raw.clone() });
        proof {
            assert(lines.deep_view() =~= pre.push(
                LineView {
                    line_number: (idx + 1) as nat,
                    line_type: classify_line(rdv[idx as int], (idx + 1) as nat).0,
                    raw: rdv[idx as int],
                },
            ));
            assert(lines.deep_view() =~= classify_all(rdv.take(idx + 1)).0);
            assert(errors.deep_view() =~= classify_all(rdv.take(idx + 1)).1);
        }
        idx = idx + 1;
    }
    proof {
        assert(rdv.take(n as int) =~= rdv);
    }
    let ghost ldv = lines.deep_view();
    let ghost e0 = errors.deep_view();

    // Collect valid Concept.facet pairs for reference validation.
    let valid_refs = collect_valid_references(&lines);
    let ghost refset = valid_refs.deep_view().to_set();

    // Second pass: validate structure.
    validate_structure(&lines, &mut errors);
    let ghost e1 = errors.deep_view();

    // Third pass: validate claim syntax.
    let nl = lines.len();
    let mut i: usize = 0;
    proof {
        assert(ldv.take(0) =~= Seq::<LineView>::empty());
        assert(errors.deep_view() =~= e1 + syntax_fold(ldv.take(0), refset).0);
        assert(warnings.deep_view() =~= syntax_fold(ldv.take(0), refset).1);
    }
    while i < nl
        invariant
            0 <= i <= nl,
            nl == lines@.len(),
            ldv == lines.deep_view(),
            ldv.len() == nl,
            refset == valid_refs.deep_view().to_set(),
            errors.deep_view() == e1 + syntax_fold(ldv.take(i as int), refset).0,
            warnings.deep_view() == syntax_fold(ldv.take(i as int), refset).1,
        decreases nl - i,
    {
        proof {
            assert(ldv.take(i + 1).drop_last() =~= ldv.take(i as int));
            assert(ldv.take(i + 1).last() == ldv[i as int]);
            assert(lines@[i as int].deep_view() == ldv[i as int]);
        }
        let line = &lines[i];
        match &line.line_type {
            LineType::Claim(claim) => {
                validate_claim_syntax(line.line_number, claim, &valid_refs, &mut errors,
                    &mut warnings);
                proof {
                    assert(errors.deep_view() =~= e1 + syntax_fold(ldv.take(i + 1), refset).0);
                    assert(warnings.deep_view() =~= syntax_fold(ldv.take(i + 1), refset).1);
                }
            },
            _ => {
                proof {
                    assert(errors.deep_view() =~= e1 + syntax_fold(ldv.take(i + 1), refset).0);
                    assert(warnings.deep_view() =~= syntax_fold(ldv.take(i + 1), refset).1);
                }
            },
        }
        i = i + 1;
    }
    proof {
        assert(ldv.take(nl as int) =~= ldv);
    }

    let r = ValidationResult { errors, warnings, lines };
    proof {
        assert(r@.errors =~= validate_spec(input@).errors);
        assert(r@.warnings =~= validate_spec(input@).warnings);
        assert(r@.lines =~= validate_spec(input@).lines);
        assert(r@ == validate_spec(input@));
    }
    r
}

} // verus!
