//! The claim-syntax validator: checks one parsed claim against the reference
//! index. Hard errors: empty claim text, empty inline elements, malformed or
//! undefined references, brief forms missing an operand, unclosed or empty
//! evolution markers. Soft warnings: a standalone modifier glyph with no term
//! before it, or standing right after an operator.

use vstd::prelude::*;
use vstd::string::StrSliceExecFns;
use crate::ops::ends_with_any_op;
use crate::ops::ends_with_op;
use crate::ops::evo_open;
use crate::refs::contains_ref;
use crate::text::contains_char;
use crate::text::contains_sub;
use crate::text::find_char_at;
use crate::text::find_sub3_at;
use crate::text::find_sub1_at;
use crate::text::split_ws;
use crate::text::tokens_of;
use crate::types::BriefFormUsage;
use crate::types::BriefFormView;
use crate::types::ClaimData;
use crate::types::ClaimView;
use crate::types::ErrorView;
use crate::types::EvolutionMarker;
use crate::types::EvolutionView;
use crate::types::ValidationError;
use crate::types::push_err;

verus! {

/// The error of a claim whose core text is empty.
pub open spec fn text_err(n: nat, text: Seq<char>) -> Seq<ErrorView> {
    if text.len() == 0 {
        seq![ErrorView::EmptyClaimText { line: n }]
    } else {
        Seq::empty()
    }
}

/// One error per empty condition.
pub open spec fn empty_cond_errs(n: nat, cs: Seq<Seq<char>>) -> Seq<ErrorView>
    decreases cs.len(),
{
    if cs.len() == 0 {
        Seq::empty()
    } else {
        empty_cond_errs(n, cs.drop_last()) + (if cs.last().len() == 0 {
            seq![ErrorView::EmptyCondition { line: n }]
        } else {
            Seq::<ErrorView>::empty()
        })
    }
}

/// One error per empty source.
pub open spec fn empty_src_errs(n: nat, ss: Seq<Seq<char>>) -> Seq<ErrorView>
    decreases ss.len(),
{
    if ss.len() == 0 {
        Seq::empty()
    } else {
        empty_src_errs(n, ss.drop_last()) + (if ss.last().len() == 0 {
            seq![ErrorView::EmptySource { line: n }]
        } else {
            Seq::<ErrorView>::empty()
        })
    }
}

/// One error per empty reference.
pub open spec fn empty_ref_errs(n: nat, rs: Seq<Seq<char>>) -> Seq<ErrorView>
    decreases rs.len(),
{
    if rs.len() == 0 {
        Seq::empty()
    } else {
        empty_ref_errs(n, rs.drop_last()) + (if rs.last().len() == 0 {
            seq![ErrorView::EmptyReference { line: n }]
        } else {
            Seq::<ErrorView>::empty()
        })
    }
}

/// One error per non-empty reference without a `.` (a reference must name a
/// `Concept.facet` pair).
pub open spec fn ref_format_errs(n: nat, rs: Seq<Seq<char>>) -> Seq<ErrorView>
    decreases rs.len(),
{
    if rs.len() == 0 {
        Seq::empty()
    } else {
        ref_format_errs(n, rs.drop_last()) + (if rs.last().len() > 0 && !contains_char(
            rs.last(),
            '.',
        ) {
            seq![ErrorView::InvalidReferenceFormat { line: n, reference: rs.last() }]
        } else {
            Seq::<ErrorView>::empty()
        })
    }
}

/// One error per well-shaped reference that names no declared pair.
pub open spec fn undef_ref_errs(n: nat, rs: Seq<Seq<char>>, refs: Set<Seq<char>>) -> Seq<ErrorView>
    decreases rs.len(),
{
    if rs.len() == 0 {
        Seq::empty()
    } else {
        undef_ref_errs(n, rs.drop_last(), refs) + (if rs.last().len() > 0 && contains_char(
            rs.last(),
            '.',
        ) && !refs.contains(rs.last()) {
            seq![ErrorView::UndefinedReference { line: n, reference: rs.last() }]
        } else {
            Seq::<ErrorView>::empty()
        })
    }
}

/// The missing-operand errors of one brief-form usage: both sides may fire.
pub open spec fn bf_err(n: nat, b: BriefFormView) -> Seq<ErrorView> {
    (if b.left_operand.len() == 0 {
        seq![ErrorView::BriefFormMissingLeftOperand { line: n, operator: b.operator }]
    } else {
        Seq::<ErrorView>::empty()
    }) + (if b.right_operand.len() == 0 {
        seq![ErrorView::BriefFormMissingRightOperand { line: n, operator: b.operator }]
    } else {
        Seq::<ErrorView>::empty()
    })
}

/// The missing-operand errors of every brief-form usage, in order.
pub open spec fn bf_errs(n: nat, bs: Seq<BriefFormView>) -> Seq<ErrorView>
    decreases bs.len(),
{
    if bs.len() == 0 {
        Seq::empty()
    } else {
        bf_errs(n, bs.drop_last()) + bf_err(n, bs.last())
    }
}

/// The error of an `[<=` left in the claim text with no `]` anywhere in it.
pub open spec fn unclosed_err(n: nat, text: Seq<char>) -> Seq<ErrorView> {
    if contains_sub(text, evo_open()) && !contains_char(text, ']') {
        seq![ErrorView::UnclosedEvolutionMarker { line: n }]
    } else {
        Seq::empty()
    }
}

/// The error of an evolution marker that names no prior belief.
pub open spec fn evo_err(n: nat, evo: Option<EvolutionView>) -> Seq<ErrorView> {
    match evo {
        Some(e) => if e.prior_belief.len() == 0 {
            seq![ErrorView::EmptyEvolutionMarker { line: n }]
        } else {
            Seq::empty()
        },
        None => Seq::empty(),
    }
}

/// Every hard error of one claim on line `n`, given the reference index, in
/// the order reported.
pub open spec fn syntax_errors(n: nat, c: ClaimView, refs: Set<Seq<char>>) -> Seq<ErrorView> {
    text_err(n, c.text) + empty_cond_errs(n, c.conditions) + empty_src_errs(n, c.sources)
        + empty_ref_errs(n, c.references) + ref_format_errs(n, c.references) + undef_ref_errs(
        n,
        c.references,
        refs,
    ) + bf_errs(n, c.brief_forms) + unclosed_err(n, c.text) + evo_err(n, c.evolution)
}

/// A token that is exactly one symbolic modifier glyph.
pub open spec fn is_warn_tok(t: Seq<char>) -> bool {
    t == seq!['^'] || t == seq!['!'] || t == seq!['?'] || t == seq!['*']
}

/// The standalone-modifier warnings of the claim-text tokens from `i` on: a
/// glyph token warns when it opens the text or follows an operator.
pub open spec fn warn_fold(n: nat, toks: Seq<Seq<char>>, i: int) -> Seq<ErrorView>
    decreases toks.len() - i,
{
    if !(0 <= i < toks.len()) {
        Seq::empty()
    } else {
        (if is_warn_tok(toks[i]) && (i == 0 || ends_with_any_op(toks[i - 1])) {
            seq![ErrorView::StandaloneModifier { line: n, modifier: toks[i] }]
        } else {
            Seq::<ErrorView>::empty()
        }) + warn_fold(n, toks, i + 1)
    }
}

/// Every warning of one claim on line `n`, in the order reported.
pub open spec fn syntax_warnings(n: nat, c: ClaimView) -> Seq<ErrorView> {
    warn_fold(n, tokens_of(c.text), 0)
}

/// Check one parsed claim, appending its hard errors and its warnings.
#[verifier::rlimit(60)]
pub fn validate_claim_syntax(
    line_number: usize,
    claim: &ClaimData,
    valid_refs: &Vec<String>,
    errors: &mut Vec<ValidationError>,
    warnings: &mut Vec<ValidationError>,
)
    ensures
        final(errors).deep_view() == old(errors).deep_view() + syntax_errors(
            line_number as nat,
            claim@,
            valid_refs.deep_view().to_set(),
        ),
        final(warnings).deep_view() == old(warnings).deep_view() + syntax_warnings(
            line_number as nat,
            claim@,
        ),
{
    let ghost n = line_number as nat;
    let ghost cv = claim@;
    let ghost refset = valid_refs.deep_view().to_set();
    let ghost base = errors.deep_view();

    // Empty claim text.
    if claim.text.as_str().is_empty() {
        push_err(errors, ValidationError::EmptyClaimText { line: line_number });
    }
    assert(errors.deep_view() =~= base + text_err(n, cv.text));

    // Empty conditions and sources.
    check_empty_conditions(line_number, &claim.conditions, errors);
    check_empty_sources(line_number, &claim.sources, errors);

    // References: emptiness, shape, resolution.
    check_references(line_number, &claim.references, valid_refs, errors);

    // Brief forms must have both operands.
    check_brief_forms(line_number, &claim.brief_forms, errors);

    // Unclosed and empty evolution markers.
    check_markers(line_number, &claim.text, &claim.evolution, errors);
    proof {
        assert(errors.deep_view() =~= base + syntax_errors(n, cv, refset));
    }

    // Warnings: standalone modifier glyphs in suspicious positions.
    collect_warnings(line_number, claim.text.as_str(), warnings);
    proof {
        assert(warnings.deep_view() == old(warnings).deep_view() + syntax_warnings(n, cv));
    }
}

/// Report each empty condition of one claim.
fn check_empty_conditions(line_number: usize, conditions: &Vec<String>, errors: &mut Vec<ValidationError>)
    ensures
        final(errors).deep_view() == old(errors).deep_view() + empty_cond_errs(
            line_number as nat,
            conditions.deep_view(),
        ),
{
    let ghost n = line_number as nat;
    let ghost base_c = errors.deep_view();
    let ghost cdv = conditions.deep_view();
    let nc = conditions.len();
    let mut j: usize = 0;
    proof {
        assert(cdv.take(0) =~= Seq::<Seq<char>>::empty());
    }
    while j < nc
        invariant
            0 <= j <= nc,
            nc == conditions@.len(),
            cdv == conditions.deep_view(),
            cdv.len() == nc,
            errors.deep_view() == base_c + empty_cond_errs(n, cdv.take(j as int)),
            n == line_number as nat,
        decreases nc - j,
    {
        proof {
            assert(cdv.take(j + 1).drop_last() =~= cdv.take(j as int));
            assert(cdv.take(j + 1).last() == cdv[j as int]);
            assert(conditions@[j as int].deep_view() == cdv[j as int]);
        }
        if conditions[j].as_str().is_empty() {
            push_err(errors, ValidationError::EmptyCondition { line: line_number });
        }
        assert(errors.deep_view() =~= base_c + empty_cond_errs(n, cdv.take(j + 1)));
        j = j + 1;
    }
    proof {
        assert(cdv.take(nc as int) =~= cdv);
    }
}

/// Report each empty source of one claim.
fn check_empty_sources(line_number: usize, sources: &Vec<String>, errors: &mut Vec<ValidationError>)
    ensures
        final(errors).deep_view() == old(errors).deep_view() + empty_src_errs(
            line_number as nat,
            sources.deep_view(),
        ),
{
    let ghost n = line_number as nat;
    let ghost base_s = errors.deep_view();
    let ghost sdv = sources.deep_view();
    let ns = sources.len();
    let mut j: usize = 0;
    proof {
        assert(sdv.take(0) =~= Seq::<Seq<char>>::empty());
    }
    while j < ns
        invariant
            0 <= j <= ns,
            ns == sources@.len(),
            sdv == sources.deep_view(),
            sdv.len() == ns,
            errors.deep_view() == base_s + empty_src_errs(n, sdv.take(j as int)),
            n == line_number as nat,
        decreases ns - j,
    {
        proof {
            assert(sdv.take(j + 1).drop_last() =~= sdv.take(j as int));
            assert(sdv.take(j + 1).last() == sdv[j as int]);
            assert(sources@[j as int].deep_view() == sdv[j as int]);
        }
        if sources[j].as_str().is_empty() {
            push_err(errors, ValidationError::EmptySource { line: line_number });
        }
        assert(errors.deep_view() =~= base_s + empty_src_errs(n, sdv.take(j + 1)));
        j = j + 1;
    }
    proof {
        assert(sdv.take(ns as int) =~= sdv);
    }
}

/// Report each brief-form usage missing an operand.
fn check_brief_forms(line_number: usize, brief_forms: &Vec<BriefFormUsage>, errors: &mut Vec<ValidationError>)
    ensures
        final(errors).deep_view() == old(errors).deep_view() + bf_errs(
            line_number as nat,
            brief_forms.deep_view(),
        ),
{
    let ghost n = line_number as nat;
    let ghost base_b = errors.deep_view();
    let ghost bdv = brief_forms.deep_view();
    let nb = brief_forms.len();
    let mut j: usize = 0;
    proof {
        assert(bdv.take(0) =~= Seq::<BriefFormView>::empty());
    }
    while j < nb
        invariant
            0 <= j <= nb,
            nb == brief_forms@.len(),
            bdv == brief_forms.deep_view(),
            bdv.len() == nb,
            errors.deep_view() == base_b + bf_errs(n, bdv.take(j as int)),
            n == line_number as nat,
        decreases nb - j,
    {
        proof {
            assert(bdv.take(j + 1).drop_last() =~= bdv.take(j as int));
            assert(bdv.take(j + 1).last() == bdv[j as int]);
            assert(brief_forms@[j as int].deep_view() == bdv[j as int]);
        }
        let b = &brief_forms[j];
        if b.left_operand.as_str().is_empty() {
            push_err(errors, ValidationError::BriefFormMissingLeftOperand {
                line: line_number,
                operator: b.operator.clone(),
            });
        }
        if b.right_operand.as_str().is_empty() {
            push_err(errors, ValidationError::BriefFormMissingRightOperand {
                line: line_number,
                operator: b.operator.clone(),
            });
        }
        assert(errors.deep_view() =~= base_b + bf_errs(n, bdv.take(j + 1)));
        j = j + 1;
    }
    proof {
        assert(bdv.take(nb as int) =~= bdv);
    }
}

/// Report an unclosed `[<=` left in the claim text, and an evolution marker
/// whose prior belief is empty.
fn check_markers(
    line_number: usize,
    text: &String,
    evolution: &Option<EvolutionMarker>,
    errors: &mut Vec<ValidationError>,
)
    ensures
        final(errors).deep_view() == old(errors).deep_view() + unclosed_err(
            line_number as nat,
            text@,
        ) + evo_err(line_number as nat, evolution.deep_view()),
{
    let ghost n = line_number as nat;
    let ghost base = errors.deep_view();
    let has_open = find_sub3_at(text.as_str(), '[', '<', '=', 0).is_some();
    let has_close = find_sub1_at(text.as_str(), ']', 0).is_some();
    if has_open && !has_close {
        push_err(errors, ValidationError::UnclosedEvolutionMarker { line: line_number });
    }
    proof {
        if contains_char(text@, ']') {
            lemma_close_contains(text@);
        } else {
            lemma_close_not_contains(text@);
        }
        assert(errors.deep_view() =~= base + unclosed_err(n, text@));
    }
    match evolution {
        Some(evo) => {
            if evo.prior_belief.as_str().is_empty() {
                push_err(errors, ValidationError::EmptyEvolutionMarker { line: line_number });
            }
        },
        None => {},
    }
    proof {
        assert(errors.deep_view() =~= base + unclosed_err(n, text@) + evo_err(
            n,
            evolution.deep_view(),
        ));
    }
}

/// Check every reference of one claim: non-empty, containing a `.`, and
/// naming a declared `Concept.facet` pair.
fn check_references(
    line_number: usize,
    references: &Vec<String>,
    valid_refs: &Vec<String>,
    errors: &mut Vec<ValidationError>,
)
    ensures
        final(errors).deep_view() == old(errors).deep_view() + empty_ref_errs(
            line_number as nat,
            references.deep_view(),
        ) + ref_format_errs(line_number as nat, references.deep_view()) + undef_ref_errs(
            line_number as nat,
            references.deep_view(),
            valid_refs.deep_view().to_set(),
        ),
{
    let ghost n = line_number as nat;
    let ghost refset = valid_refs.deep_view().to_set();
    let ghost rdv = references.deep_view();
    let nr = references.len();

    // Empty references.
    let ghost base_r = errors.deep_view();
    let mut j: usize = 0;
    proof {
        assert(rdv.take(0) =~= Seq::<Seq<char>>::empty());
    }
    while j < nr
        invariant
            0 <= j <= nr,
            nr == references@.len(),
            rdv == references.deep_view(),
            rdv.len() == nr,
            errors.deep_view() == base_r + empty_ref_errs(n, rdv.take(j as int)),
            n == line_number as nat,
        decreases nr - j,
    {
        proof {
            assert(rdv.take(j + 1).drop_last() =~= rdv.take(j as int));
            assert(rdv.take(j + 1).last() == rdv[j as int]);
            assert(references@[j as int].deep_view() == rdv[j as int]);
        }
        if references[j].as_str().is_empty() {
            push_err(errors, ValidationError::EmptyReference { line: line_number });
        }
        assert(errors.deep_view() =~= base_r + empty_ref_errs(n, rdv.take(j + 1)));
        j = j + 1;
    }
    proof {
        assert(rdv.take(nr as int) =~= rdv);
    }

    // Reference shape: a reference must contain a `.`.
    let ghost base_f = errors.deep_view();
    let mut j: usize = 0;
    proof {
        assert(rdv.take(0) =~= Seq::<Seq<char>>::empty());
    }
    while j < nr
        invariant
            0 <= j <= nr,
            nr == references@.len(),
            rdv == references.deep_view(),
            rdv.len() == nr,
            errors.deep_view() == base_f + ref_format_errs(n, rdv.take(j as int)),
            n == line_number as nat,
        decreases nr - j,
    {
        proof {
            assert(rdv.take(j + 1).drop_last() =~= rdv.take(j as int));
            assert(rdv.take(j + 1).last() == rdv[j as int]);
            assert(references@[j as int].deep_view() == rdv[j as int]);
        }
        let r = &references[j];
        let rlen = r.as_str().unicode_len();
        if rlen > 0 && find_char_at(r.as_str(), '.', 0) == rlen {
            push_err(errors, ValidationError::InvalidReferenceFormat {
                line: line_number,
                reference: r.clone(),
            });
        }
        assert(errors.deep_view() =~= base_f + ref_format_errs(n, rdv.take(j + 1)));
        j = j + 1;
    }
    proof {
        assert(rdv.take(nr as int) =~= rdv);
    }

    // Reference resolution: a well-shaped reference must name a declared pair.
    let ghost base_u = errors.deep_view();
    let mut j: usize = 0;
    proof {
        assert(rdv.take(0) =~= Seq::<Seq<char>>::empty());
    }
    while j < nr
        invariant
            0 <= j <= nr,
            nr == references@.len(),
            rdv == references.deep_view(),
            rdv.len() == nr,
            refset == valid_refs.deep_view().to_set(),
            errors.deep_view() == base_u + undef_ref_errs(n, rdv.take(j as int), refset),
            n == line_number as nat,
        decreases nr - j,
    {
        proof {
            assert(rdv.take(j + 1).drop_last() =~= rdv.take(j as int));
            assert(rdv.take(j + 1).last() == rdv[j as int]);
            assert(references@[j as int].deep_view() == rdv[j as int]);
        }
        let r = &references[j];
        let rlen = r.as_str().unicode_len();
        if rlen > 0 && find_char_at(r.as_str(), '.', 0) < rlen && !contains_ref(
            valid_refs,
            r.as_str(),
        ) {
            push_err(errors, ValidationError::UndefinedReference {
                line: line_number,
                reference: r.clone(),
            });
        }
        assert(errors.deep_view() =~= base_u + undef_ref_errs(n, rdv.take(j + 1), refset));
        j = j + 1;
    }
    proof {
        assert(rdv.take(nr as int) =~= rdv);
    }
}

/// Collect the standalone-modifier warnings of one claim's text.
fn collect_warnings(line_number: usize, text: &str, warnings: &mut Vec<ValidationError>)
    ensures
        final(warnings).deep_view() == old(warnings).deep_view() + warn_fold(
            line_number as nat,
            tokens_of(text@),
            0,
        ),
{
    let ghost n = line_number as nat;
    let ghost base_w = warnings.deep_view();
    let toks = split_ws(text);
    let ghost tdv = toks.deep_view();
    let nt = toks.len();
    let mut j: usize = 0;
    while j < nt
        invariant
            0 <= j <= nt,
            nt == toks@.len(),
            tdv == toks.deep_view(),
            tdv == tokens_of(text@),
            base_w == old(warnings).deep_view(),
            base_w + warn_fold(n, tdv, 0) == warnings.deep_view() + warn_fold(n, tdv, j as int),
            n == line_number as nat,
        decreases nt - j,
    {
        proof {
            assert(toks@[j as int].deep_view() == tdv[j as int]);
        }
        let tok = &toks[j];
        let is_glyph_tok = if tok.as_str().unicode_len() == 1 {
            let c = tok.as_str().get_char(0);
            let r = c == '^' || c == '!' || c == '?' || c == '*';
            proof {
                assert(tdv[j as int] =~= seq![tdv[j as int][0]]);
                if r {
                    assert(is_warn_tok(tdv[j as int]));
                } else {
                    assert(!is_warn_tok(tdv[j as int]));
                }
            }
            r
        } else {
            proof {
                assert(!is_warn_tok(tdv[j as int]));
            }
            false
        };
        if is_glyph_tok {
            let warn_here = if j == 0 {
                true
            } else {
                ends_with_op(toks[j - 1].as_str())
            };
            if warn_here {
                let ghost pre = warnings.deep_view();
                warnings.push(ValidationError::StandaloneModifier {
                    line: line_number,
                    modifier: tok.clone(),
                });
                proof {
                    assert(warnings.deep_view() =~= pre.push(ErrorView::StandaloneModifier {
                        line: n,
                        modifier: tdv[j as int],
                    }));
                }
            }
        }
        proof {
            assert(base_w + warn_fold(n, tdv, 0) =~= warnings.deep_view() + warn_fold(
                n,
                tdv,
                j + 1,
            ));
        }
        j = j + 1;
    }
    proof {
        assert(warn_fold(n, tdv, nt as int) =~= Seq::<ErrorView>::empty());
        assert(warnings.deep_view() =~= base_w + warn_fold(n, tdv, 0));
    }
}

/// `]` occurs in `t` exactly when the one-character pattern `]` matches.
spec fn matches_close(t: Seq<char>) -> bool {
    crate::text::find_sub_from(t, seq![']'], 0) >= 0
}

proof fn lemma_close_contains(t: Seq<char>)
    requires
        contains_char(t, ']'),
    ensures
        matches_close(t),
{
    let i = crate::text::find_char_from(t, ']', 0);
    crate::text::lemma_find_char_from(t, ']', 0);
    assert(t.subrange(i, i + 1) =~= seq![']']);
    assert(crate::text::matches_at(t, seq![']'], i));
    crate::text::lemma_find_sub_from(t, seq![']'], 0);
    if crate::text::find_sub_from(t, seq![']'], 0) < 0 {
        assert(!crate::text::matches_at(t, seq![']'], i));
    }
}

proof fn lemma_close_not_contains(t: Seq<char>)
    requires
        !contains_char(t, ']'),
    ensures
        !matches_close(t),
{
    crate::text::lemma_find_char_from(t, ']', 0);
    crate::text::lemma_find_sub_from(t, seq![']'], 0);
    let j = crate::text::find_sub_from(t, seq![']'], 0);
    if j >= 0 {
        assert(crate::text::matches_at(t, seq![']'], j));
        assert(t.subrange(j, j + 1)[0] == t[j]);
        assert(t[j] == ']');
        assert(j < t.len());
        assert(crate::text::find_char_from(t, ']', 0) == t.len());
        assert(t[j] != ']');
    }
}

} // verus!
