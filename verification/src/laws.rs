//! Document-level guarantees proved over the validation specification:
//! determinism of validation, the exact accounting of childless-concept and
//! childless-facet errors, and the reference rules (shape, resolution, and
//! tolerance of forward declarations).

use vstd::prelude::*;
use crate::engine::classify_all;
use crate::engine::lines_of;
use crate::engine::syntax_fold;
use crate::engine::validate_spec;
use crate::refs::refs_fold;
use crate::refs::valid_refs_of;
use crate::structure::finalize_concept;
use crate::structure::finalize_facet;
use crate::structure::struct_fold;
use crate::structure::struct_step;
use crate::structure::structure_errors;
use crate::syntax::bf_err;
use crate::syntax::bf_errs;
use crate::syntax::empty_cond_errs;
use crate::syntax::empty_ref_errs;
use crate::syntax::empty_src_errs;
use crate::syntax::ref_format_errs;
use crate::syntax::syntax_errors;
use crate::syntax::undef_ref_errs;
use crate::text::contains_char;
use crate::tokenize::classify_line;
use crate::types::ErrorView;
use crate::types::LineTypeView;
use crate::types::LineView;
use crate::types::ResultView;

verus! {

/// Lines are numbered 1, 2, ... in order (as `validate` produces them).
pub open spec fn numbered(ls: Seq<LineView>) -> bool {
    forall|k: int| 0 <= k < ls.len() ==> (#[trigger] ls[k].line_number) == k + 1
}

pub proof fn lemma_classify_all_numbered(raws: Seq<Seq<char>>)
    ensures
        classify_all(raws).0.len() == raws.len(),
        numbered(classify_all(raws).0),
    decreases raws.len(),
{
    if raws.len() > 0 {
        lemma_classify_all_numbered(raws.drop_last());
    }
}

/// Validation is deterministic: its result is a function of the input text
/// alone. A document an editor validated and wrote out therefore validates
/// to the same result again — in particular, a valid document stays valid,
/// and validation itself introduces no error.
pub proof fn lemma_validate_deterministic(text: Seq<char>, r1: ResultView, r2: ResultView)
    requires
        r1 == validate_spec(text),
        r2 == validate_spec(text),
    ensures
        r1 == r2,
        r1.errors.len() == 0 ==> r2.errors.len() == 0,
{
}

/// How many childless-concept errors for line `l` a report holds.
pub open spec fn count_concept_errs(s: Seq<ErrorView>, l: nat) -> int
    decreases s.len(),
{
    if s.len() == 0 {
        0
    } else {
        count_concept_errs(s.drop_last(), l) + (if s.last() is ConceptWithoutFacets
            && s.last()->ConceptWithoutFacets_line == l {
            1int
        } else {
            0int
        })
    }
}

/// How many childless-facet errors for line `l` a report holds.
pub open spec fn count_facet_errs(s: Seq<ErrorView>, l: nat) -> int
    decreases s.len(),
{
    if s.len() == 0 {
        0
    } else {
        count_facet_errs(s.drop_last(), l) + (if s.last() is FacetWithoutClaims
            && s.last()->FacetWithoutClaims_line == l {
            1int
        } else {
            0int
        })
    }
}

pub proof fn lemma_count_concept_errs_add(a: Seq<ErrorView>, b: Seq<ErrorView>, l: nat)
    ensures
        count_concept_errs(a + b, l) == count_concept_errs(a, l) + count_concept_errs(b, l),
    decreases b.len(),
{
    if b.len() == 0 {
        assert(a + b =~= a);
    } else {
        assert((a + b).drop_last() =~= a + b.drop_last());
        assert((a + b).last() == b.last());
        lemma_count_concept_errs_add(a, b.drop_last(), l);
    }
}

pub proof fn lemma_count_facet_errs_add(a: Seq<ErrorView>, b: Seq<ErrorView>, l: nat)
    ensures
        count_facet_errs(a + b, l) == count_facet_errs(a, l) + count_facet_errs(b, l),
    decreases b.len(),
{
    if b.len() == 0 {
        assert(a + b =~= a);
    } else {
        assert((a + b).drop_last() =~= a + b.drop_last());
        assert((a + b).last() == b.last());
        lemma_count_facet_errs_add(a, b.drop_last(), l);
    }
}

/// A report with no structural-finalization error of either kind counts zero.
pub proof fn lemma_count_zero(s: Seq<ErrorView>, l: nat)
    requires
        forall|k: int|
            0 <= k < s.len() ==> !((#[trigger] s[k]) is ConceptWithoutFacets) && !(
            s[k] is FacetWithoutClaims),
    ensures
        count_concept_errs(s, l) == 0,
        count_facet_errs(s, l) == 0,
    decreases s.len(),
{
    if s.len() > 0 {
        assert(forall|k: int|
            0 <= k < s.drop_last().len() ==> (#[trigger] s.drop_last()[k]) == s[k]);
        lemma_count_zero(s.drop_last(), l);
        assert(s.last() == s[s.len() - 1]);
    }
}

/// Classification never reports a structural error: its errors concern one
/// line's own shape.
pub proof fn lemma_classify_line_shape(raw: Seq<char>, n: nat)
    ensures
        forall|k: int|
            0 <= k < classify_line(raw, n).1.len() ==> !((#[trigger] classify_line(
                raw,
                n,
            ).1[k]) is ConceptWithoutFacets) && !(classify_line(raw, n).1[k] is FacetWithoutClaims)
                && !(classify_line(raw, n).1[k] is UndefinedReference) && !(
            classify_line(raw, n).1[k] is InvalidReferenceFormat) && !(
            classify_line(raw, n).1[k] is StandaloneModifier),
{
}

pub proof fn lemma_classify_all_shape(raws: Seq<Seq<char>>)
    ensures
        forall|k: int|
            0 <= k < classify_all(raws).1.len() ==> !((#[trigger] classify_all(
                raws,
            ).1[k]) is ConceptWithoutFacets) && !(classify_all(raws).1[k] is FacetWithoutClaims)
                && !(classify_all(raws).1[k] is UndefinedReference) && !(
            classify_all(raws).1[k] is InvalidReferenceFormat) && !(
            classify_all(raws).1[k] is StandaloneModifier),
    decreases raws.len(),
{
    if raws.len() > 0 {
        lemma_classify_all_shape(raws.drop_last());
        lemma_classify_line_shape(raws.last(), raws.len() as nat);
        let prev = classify_all(raws.drop_last()).1;
        let c = classify_line(raws.last(), raws.len() as nat).1;
        assert(forall|k: int|
            0 <= k < classify_all(raws).1.len() ==> (#[trigger] classify_all(raws).1[k]) == (if k
                < prev.len() {
                prev[k]
            } else {
                c[k - prev.len()]
            }));
    }
}

proof fn lemma_count_singletons(e: ErrorView, l: nat)
    ensures
        count_concept_errs(seq![e], l) == (if e is ConceptWithoutFacets
            && e->ConceptWithoutFacets_line == l {
            1int
        } else {
            0int
        }),
        count_facet_errs(seq![e], l) == (if e is FacetWithoutClaims && e->FacetWithoutClaims_line
            == l {
            1int
        } else {
            0int
        }),
{
    let s = seq![e];
    assert(s.len() == 1);
    assert(s.last() == e);
    assert(s.drop_last() =~= Seq::<ErrorView>::empty());
    assert(count_concept_errs(s.drop_last(), l) == 0);
    assert(count_facet_errs(s.drop_last(), l) == 0);
    assert(count_concept_errs(s, l) == count_concept_errs(s.drop_last(), l) + (
    if s.last() is ConceptWithoutFacets && s.last()->ConceptWithoutFacets_line == l {
        1int
    } else {
        0int
    }));
    assert(count_facet_errs(s, l) == count_facet_errs(s.drop_last(), l) + (
    if s.last() is FacetWithoutClaims && s.last()->FacetWithoutClaims_line == l {
        1int
    } else {
        0int
    }));
}

/// The walk's running state and childless-concept error count, around one
/// adjacent concept pair at indices `i` and `i + 1`: the open concept's line
/// never exceeds the lines seen; after the first concept of the pair it is
/// exactly `i + 1` and childless; from the moment the second concept replaces
/// it, exactly one childless-concept error for line `i + 1` has been
/// reported, and the open concept has a later line forever after.
proof fn p3_chain(ls: Seq<LineView>, i: int, k: int)
    requires
        numbered(ls),
        0 <= i,
        i + 1 < ls.len(),
        ls[i].line_type is Concept,
        ls[i + 1].line_type is Concept,
        0 <= k <= ls.len(),
    ensures
        (struct_fold(ls.take(k)).0.cur_concept matches Some(c) ==> 1 <= c.0 <= k),
        k == i + 1 ==> (struct_fold(ls.take(k)).0.cur_concept matches Some(c) && c.0 == i + 1)
            && !struct_fold(ls.take(k)).0.concept_has_facet,
        k >= i + 2 ==> (struct_fold(ls.take(k)).0.cur_concept matches Some(c) && c.0 >= i + 2),
        k <= i + 1 ==> count_concept_errs(struct_fold(ls.take(k)).1, (i + 1) as nat) == 0,
        k >= i + 2 ==> count_concept_errs(struct_fold(ls.take(k)).1, (i + 1) as nat) == 1,
    decreases k,
{
    if k == 0 {
        assert(ls.take(0) =~= Seq::<LineView>::empty());
    } else {
        p3_chain(ls, i, k - 1);
        let prev = struct_fold(ls.take(k - 1));
        assert(ls.take(k).drop_last() =~= ls.take(k - 1));
        assert(ls.take(k).last() == ls[k - 1]);
        let stepres = struct_step(prev.0, ls[k - 1]);
        let tgt = (i + 1) as nat;
        lemma_count_concept_errs_add(prev.1, stepres.1, tgt);
        match ls[k - 1].line_type {
            LineTypeView::Blank => {
                assert(count_concept_errs(stepres.1, tgt) == 0);
            },
            LineTypeView::Concept(_) => {
                let fc = finalize_concept(prev.0);
                let ff = finalize_facet(prev.0);
                lemma_count_concept_errs_add(fc, ff, tgt);
                match prev.0.cur_facet {
                    Some(f) => {
                        lemma_count_singletons(
                            ErrorView::FacetWithoutClaims { line: f.0, facet: f.1 },
                            tgt,
                        );
                        assert(count_concept_errs(ff, tgt) == 0);
                    },
                    None => {
                        assert(count_concept_errs(ff, tgt) == 0);
                    },
                }
                match prev.0.cur_concept {
                    Some(c) => {
                        lemma_count_singletons(
                            ErrorView::ConceptWithoutFacets { line: c.0, concept: c.1 },
                            tgt,
                        );
                    },
                    None => {},
                }
            },
            LineTypeView::Facet(_) => {
                let ff = finalize_facet(prev.0);
                let orphan: Seq<ErrorView> = if prev.0.cur_concept is None {
                    seq![ErrorView::OrphanFacet { line: ls[k - 1].line_number }]
                } else {
                    Seq::empty()
                };
                lemma_count_concept_errs_add(orphan, ff, tgt);
                if prev.0.cur_concept is None {
                    lemma_count_singletons(
                        ErrorView::OrphanFacet { line: ls[k - 1].line_number },
                        tgt,
                    );
                }
                match prev.0.cur_facet {
                    Some(f) => {
                        lemma_count_singletons(
                            ErrorView::FacetWithoutClaims { line: f.0, facet: f.1 },
                            tgt,
                        );
                    },
                    None => {},
                }
                assert(count_concept_errs(stepres.1, tgt) == 0);
            },
            LineTypeView::Claim(_) => {
                if prev.0.cur_facet is None {
                    lemma_count_singletons(
                        ErrorView::OrphanClaim { line: ls[k - 1].line_number },
                        tgt,
                    );
                }
                assert(count_concept_errs(stepres.1, tgt) == 0);
            },
        }
    }
}

/// A concept line followed immediately by another concept line always yields
/// exactly one childless-concept error, reported for the first of the pair —
/// over the structural check of any correctly numbered line sequence.
pub proof fn lemma_adjacent_concepts_struct(ls: Seq<LineView>, i: int)
    requires
        numbered(ls),
        0 <= i,
        i + 1 < ls.len(),
        ls[i].line_type is Concept,
        ls[i + 1].line_type is Concept,
    ensures
        count_concept_errs(structure_errors(ls), (i + 1) as nat) == 1,
{
    let tgt = (i + 1) as nat;
    p3_chain(ls, i, ls.len() as int);
    assert(ls.take(ls.len() as int) =~= ls);
    let st = struct_fold(ls).0;
    let fc = finalize_concept(st);
    let ff = finalize_facet(st);
    lemma_count_concept_errs_add(struct_fold(ls).1, fc, tgt);
    lemma_count_concept_errs_add(struct_fold(ls).1 + fc, ff, tgt);
    match st.cur_concept {
        Some(c) => {
            lemma_count_singletons(
                ErrorView::ConceptWithoutFacets { line: c.0, concept: c.1 },
                tgt,
            );
        },
        None => {},
    }
    match st.cur_facet {
        Some(f) => {
            lemma_count_singletons(ErrorView::FacetWithoutClaims { line: f.0, facet: f.1 }, tgt);
        },
        None => {},
    }
}

/// What is true of every error a claim-syntax check reports: never a
/// structural error; an undefined-reference error only for a reference
/// outside the index; a reference-format error only for a reference without
/// a `.`.
pub open spec fn claim_err_ok(refs: Set<Seq<char>>, e: ErrorView) -> bool {
    &&& !(e is ConceptWithoutFacets)
    &&& !(e is FacetWithoutClaims)
    &&& !(e is StandaloneModifier)
    &&& (e is UndefinedReference ==> !refs.contains(e->UndefinedReference_reference))
    &&& (e is InvalidReferenceFormat ==> !contains_char(e->InvalidReferenceFormat_reference, '.'))
}

proof fn lemma_all_concat(a: Seq<ErrorView>, b: Seq<ErrorView>, p: spec_fn(ErrorView) -> bool)
    requires
        forall|k: int| 0 <= k < a.len() ==> p(#[trigger] a[k]),
        forall|k: int| 0 <= k < b.len() ==> p(#[trigger] b[k]),
    ensures
        forall|k: int| 0 <= k < (a + b).len() ==> p(#[trigger] (a + b)[k]),
{
    assert forall|k: int| 0 <= k < (a + b).len() implies p(#[trigger] (a + b)[k]) by {
        if k < a.len() {
            assert((a + b)[k] == a[k]);
        } else {
            assert((a + b)[k] == b[k - a.len()]);
        }
    }
}

proof fn lemma_cond_errs_ok(n: nat, cs: Seq<Seq<char>>, refs: Set<Seq<char>>)
    ensures
        forall|k: int|
            0 <= k < empty_cond_errs(n, cs).len() ==> claim_err_ok(
                refs,
                #[trigger] empty_cond_errs(n, cs)[k],
            ),
    decreases cs.len(),
{
    if cs.len() > 0 {
        lemma_cond_errs_ok(n, cs.drop_last(), refs);
        let a = empty_cond_errs(n, cs.drop_last());
        let b: Seq<ErrorView> = if cs.last().len() == 0 {
            seq![ErrorView::EmptyCondition { line: n }]
        } else {
            Seq::empty()
        };
        lemma_all_concat(a, b, |e: ErrorView| claim_err_ok(refs, e));
    }
}

proof fn lemma_src_errs_ok(n: nat, ss: Seq<Seq<char>>, refs: Set<Seq<char>>)
    ensures
        forall|k: int|
            0 <= k < empty_src_errs(n, ss).len() ==> claim_err_ok(
                refs,
                #[trigger] empty_src_errs(n, ss)[k],
            ),
    decreases ss.len(),
{
    if ss.len() > 0 {
        lemma_src_errs_ok(n, ss.drop_last(), refs);
        let a = empty_src_errs(n, ss.drop_last());
        let b: Seq<ErrorView> = if ss.last().len() == 0 {
            seq![ErrorView::EmptySource { line: n }]
        } else {
            Seq::empty()
        };
        lemma_all_concat(a, b, |e: ErrorView| claim_err_ok(refs, e));
    }
}

proof fn lemma_ref_errs_ok(n: nat, rs: Seq<Seq<char>>, refs: Set<Seq<char>>)
    ensures
        forall|k: int|
            0 <= k < empty_ref_errs(n, rs).len() ==> claim_err_ok(
                refs,
                #[trigger] empty_ref_errs(n, rs)[k],
            ),
    decreases rs.len(),
{
    if rs.len() > 0 {
        lemma_ref_errs_ok(n, rs.drop_last(), refs);
        let a = empty_ref_errs(n, rs.drop_last());
        let b: Seq<ErrorView> = if rs.last().len() == 0 {
            seq![ErrorView::EmptyReference { line: n }]
        } else {
            Seq::empty()
        };
        lemma_all_concat(a, b, |e: ErrorView| claim_err_ok(refs, e));
    }
}

proof fn lemma_format_errs_ok(n: nat, rs: Seq<Seq<char>>, refs: Set<Seq<char>>)
    ensures
        forall|k: int|
            0 <= k < ref_format_errs(n, rs).len() ==> claim_err_ok(
                refs,
                #[trigger] ref_format_errs(n, rs)[k],
            ),
    decreases rs.len(),
{
    if rs.len() > 0 {
        lemma_format_errs_ok(n, rs.drop_last(), refs);
        let a = ref_format_errs(n, rs.drop_last());
        let b: Seq<ErrorView> = if rs.last().len() > 0 && !contains_char(rs.last(), '.') {
            seq![ErrorView::InvalidReferenceFormat { line: n, reference: rs.last() }]
        } else {
            Seq::empty()
        };
        lemma_all_concat(a, b, |e: ErrorView| claim_err_ok(refs, e));
    }
}

proof fn lemma_undef_errs_ok(n: nat, rs: Seq<Seq<char>>, refs: Set<Seq<char>>)
    ensures
        forall|k: int|
            0 <= k < undef_ref_errs(n, rs, refs).len() ==> claim_err_ok(
                refs,
                #[trigger] undef_ref_errs(n, rs, refs)[k],
            ),
    decreases rs.len(),
{
    if rs.len() > 0 {
        lemma_undef_errs_ok(n, rs.drop_last(), refs);
        let a = undef_ref_errs(n, rs.drop_last(), refs);
        let b: Seq<ErrorView> = if rs.last().len() > 0 && contains_char(rs.last(), '.')
            && !refs.contains(rs.last()) {
            seq![ErrorView::UndefinedReference { line: n, reference: rs.last() }]
        } else {
            Seq::empty()
        };
        lemma_all_concat(a, b, |e: ErrorView| claim_err_ok(refs, e));
    }
}

proof fn lemma_bf_errs_ok(n: nat, bs: Seq<crate::types::BriefFormView>, refs: Set<Seq<char>>)
    ensures
        forall|k: int|
            0 <= k < bf_errs(n, bs).len() ==> claim_err_ok(refs, #[trigger] bf_errs(n, bs)[k]),
    decreases bs.len(),
{
    if bs.len() > 0 {
        lemma_bf_errs_ok(n, bs.drop_last(), refs);
        let a = bf_errs(n, bs.drop_last());
        let b = bf_err(n, bs.last());
        assert(forall|k: int| 0 <= k < b.len() ==> claim_err_ok(refs, #[trigger] b[k])) by {
            let lefts: Seq<ErrorView> = if bs.last().left_operand.len() == 0 {
                seq![
                    ErrorView::BriefFormMissingLeftOperand {
                        line: n,
                        operator: bs.last().operator,
                    },
                ]
            } else {
                Seq::empty()
            };
            let rights: Seq<ErrorView> = if bs.last().right_operand.len() == 0 {
                seq![
                    ErrorView::BriefFormMissingRightOperand {
                        line: n,
                        operator: bs.last().operator,
                    },
                ]
            } else {
                Seq::empty()
            };
            lemma_all_concat(lefts, rights, |e: ErrorView| claim_err_ok(refs, e));
        }
        lemma_all_concat(a, b, |e: ErrorView| claim_err_ok(refs, e));
    }
}

/// Every error a claim-syntax check reports satisfies [`claim_err_ok`].
pub proof fn lemma_syntax_errors_ok(n: nat, c: crate::types::ClaimView, refs: Set<Seq<char>>)
    ensures
        forall|k: int|
            0 <= k < syntax_errors(n, c, refs).len() ==> claim_err_ok(
                refs,
                #[trigger] syntax_errors(n, c, refs)[k],
            ),
{
    let p = |e: ErrorView| claim_err_ok(refs, e);
    lemma_cond_errs_ok(n, c.conditions, refs);
    lemma_src_errs_ok(n, c.sources, refs);
    lemma_ref_errs_ok(n, c.references, refs);
    lemma_format_errs_ok(n, c.references, refs);
    lemma_undef_errs_ok(n, c.references, refs);
    lemma_bf_errs_ok(n, c.brief_forms, refs);
    let s1 = crate::syntax::text_err(n, c.text);
    let s2 = empty_cond_errs(n, c.conditions);
    let s3 = empty_src_errs(n, c.sources);
    let s4 = empty_ref_errs(n, c.references);
    let s5 = ref_format_errs(n, c.references);
    let s6 = undef_ref_errs(n, c.references, refs);
    let s7 = bf_errs(n, c.brief_forms);
    let s8 = crate::syntax::unclosed_err(n, c.text);
    let s9 = crate::syntax::evo_err(n, c.evolution);
    lemma_all_concat(s1, s2, p);
    lemma_all_concat(s1 + s2, s3, p);
    lemma_all_concat(s1 + s2 + s3, s4, p);
    lemma_all_concat(s1 + s2 + s3 + s4, s5, p);
    lemma_all_concat(s1 + s2 + s3 + s4 + s5, s6, p);
    lemma_all_concat(s1 + s2 + s3 + s4 + s5 + s6, s7, p);
    lemma_all_concat(s1 + s2 + s3 + s4 + s5 + s6 + s7, s8, p);
    lemma_all_concat(s1 + s2 + s3 + s4 + s5 + s6 + s7 + s8, s9, p);
}

/// Every error the third pass reports satisfies [`claim_err_ok`].
pub proof fn lemma_syntax_fold_ok(ls: Seq<LineView>, refs: Set<Seq<char>>)
    ensures
        forall|k: int|
            0 <= k < syntax_fold(ls, refs).0.len() ==> claim_err_ok(
                refs,
                #[trigger] syntax_fold(ls, refs).0[k],
            ),
    decreases ls.len(),
{
    if ls.len() > 0 {
        lemma_syntax_fold_ok(ls.drop_last(), refs);
        match ls.last().line_type {
            LineTypeView::Claim(c) => {
                lemma_syntax_errors_ok(ls.last().line_number, c, refs);
                let a = syntax_fold(ls.drop_last(), refs).0;
                let b = syntax_errors(ls.last().line_number, c, refs);
                lemma_all_concat(a, b, |e: ErrorView| claim_err_ok(refs, e));
                assert forall|k: int|
                    0 <= k < syntax_fold(ls, refs).0.len() implies claim_err_ok(
                    refs,
                    #[trigger] syntax_fold(ls, refs).0[k],
                ) by {
                    assert(syntax_fold(ls, refs).0[k] == (a + b)[k]);
                }
            },
            _ => {
                assert forall|k: int|
                    0 <= k < syntax_fold(ls, refs).0.len() implies claim_err_ok(
                    refs,
                    #[trigger] syntax_fold(ls, refs).0[k],
                ) by {
                    assert(syntax_fold(ls, refs).0[k] == syntax_fold(ls.drop_last(), refs).0[k]);
                }
            },
        }
    }
}

/// A concept line followed immediately by another concept line always yields
/// exactly one childless-concept error, reported for the first of the pair.
pub proof fn lemma_adjacent_concepts(text: Seq<char>, i: int)
    requires
        0 <= i,
        i + 1 < validate_spec(text).lines.len(),
        validate_spec(text).lines[i].line_type is Concept,
        validate_spec(text).lines[i + 1].line_type is Concept,
    ensures
        count_concept_errs(validate_spec(text).errors, (i + 1) as nat) == 1,
{
    let tgt = (i + 1) as nat;
    let raws = lines_of(text);
    let ls = classify_all(raws).0;
    let e0 = classify_all(raws).1;
    let refs = valid_refs_of(ls);
    let e3 = syntax_fold(ls, refs).0;
    lemma_classify_all_numbered(raws);
    lemma_classify_all_shape(raws);
    lemma_count_zero(e0, tgt);
    lemma_adjacent_concepts_struct(ls, i);
    lemma_syntax_fold_ok(ls, refs);
    assert(forall|k: int|
        0 <= k < e3.len() ==> !((#[trigger] e3[k]) is ConceptWithoutFacets) && !(
        e3[k] is FacetWithoutClaims)) by {
        assert(forall|k: int| 0 <= k < e3.len() ==> claim_err_ok(refs, #[trigger] e3[k]));
    }
    lemma_count_zero(e3, tgt);
    lemma_count_concept_errs_add(e0, structure_errors(ls), tgt);
    lemma_count_concept_errs_add(e0 + structure_errors(ls), e3, tgt);
}

/// The walk's running state and childless-facet error count around a facet
/// at index `i` whose children, up to the next facet or concept at index
/// `nf` (or the end of the document), are all blank: the open facet's line
/// never exceeds the lines seen; while the facet is open it is exactly
/// `i + 1` and claimless; once line `nf` closes it, exactly one
/// childless-facet error for line `i + 1` has been reported, and any facet
/// open later has a later line.
proof fn p4_chain(ls: Seq<LineView>, i: int, nf: int, k: int)
    requires
        numbered(ls),
        0 <= i < nf <= ls.len(),
        ls[i].line_type is Facet,
        forall|t: int| i < t < nf ==> (#[trigger] ls[t].line_type) is Blank,
        nf < ls.len() ==> (ls[nf].line_type is Facet || ls[nf].line_type is Concept),
        0 <= k <= ls.len(),
    ensures
        (struct_fold(ls.take(k)).0.cur_facet matches Some(f) ==> 1 <= f.0 <= k),
        i + 1 <= k <= nf ==> (struct_fold(ls.take(k)).0.cur_facet matches Some(f) && f.0 == i + 1)
            && !struct_fold(ls.take(k)).0.facet_has_claim,
        k >= nf + 1 ==> (struct_fold(ls.take(k)).0.cur_facet matches Some(f) ==> f.0 >= nf + 1),
        k <= nf ==> count_facet_errs(struct_fold(ls.take(k)).1, (i + 1) as nat) == 0,
        k >= nf + 1 ==> count_facet_errs(struct_fold(ls.take(k)).1, (i + 1) as nat) == 1,
    decreases k,
{
    if k == 0 {
        assert(ls.take(0) =~= Seq::<LineView>::empty());
    } else {
        p4_chain(ls, i, nf, k - 1);
        let prev = struct_fold(ls.take(k - 1));
        assert(ls.take(k).drop_last() =~= ls.take(k - 1));
        assert(ls.take(k).last() == ls[k - 1]);
        let stepres = struct_step(prev.0, ls[k - 1]);
        let tgt = (i + 1) as nat;
        lemma_count_facet_errs_add(prev.1, stepres.1, tgt);
        match ls[k - 1].line_type {
            LineTypeView::Blank => {
                assert(count_facet_errs(stepres.1, tgt) == 0);
            },
            LineTypeView::Concept(_) => {
                let fc = finalize_concept(prev.0);
                let ff = finalize_facet(prev.0);
                lemma_count_facet_errs_add(fc, ff, tgt);
                match prev.0.cur_concept {
                    Some(c) => {
                        lemma_count_singletons(
                            ErrorView::ConceptWithoutFacets { line: c.0, concept: c.1 },
                            tgt,
                        );
                        assert(count_facet_errs(fc, tgt) == 0);
                    },
                    None => {
                        assert(count_facet_errs(fc, tgt) == 0);
                    },
                }
                match prev.0.cur_facet {
                    Some(f) => {
                        lemma_count_singletons(
                            ErrorView::FacetWithoutClaims { line: f.0, facet: f.1 },
                            tgt,
                        );
                    },
                    None => {},
                }
            },
            LineTypeView::Facet(_) => {
                let ff = finalize_facet(prev.0);
                let orphan: Seq<ErrorView> = if prev.0.cur_concept is None {
                    seq![ErrorView::OrphanFacet { line: ls[k - 1].line_number }]
                } else {
                    Seq::empty()
                };
                lemma_count_facet_errs_add(orphan, ff, tgt);
                if prev.0.cur_concept is None {
                    lemma_count_singletons(
                        ErrorView::OrphanFacet { line: ls[k - 1].line_number },
                        tgt,
                    );
                }
                match prev.0.cur_facet {
                    Some(f) => {
                        lemma_count_singletons(
                            ErrorView::FacetWithoutClaims { line: f.0, facet: f.1 },
                            tgt,
                        );
                    },
                    None => {},
                }
            },
            LineTypeView::Claim(_) => {
                if prev.0.cur_facet is None {
                    lemma_count_singletons(
                        ErrorView::OrphanClaim { line: ls[k - 1].line_number },
                        tgt,
                    );
                }
                assert(count_facet_errs(stepres.1, tgt) == 0);
            },
        }
    }
}

/// A facet with zero claim children always yields exactly one
/// childless-facet error, reported at the facet's own line — over the
/// structural check of any correctly numbered line sequence. `nf` is the
/// index of the next facet or concept line (or the length of the document),
/// and every line strictly between is blank: the facet has no claim child.
pub proof fn lemma_childless_facet_struct(ls: Seq<LineView>, i: int, nf: int)
    requires
        numbered(ls),
        0 <= i < nf <= ls.len(),
        ls[i].line_type is Facet,
        forall|t: int| i < t < nf ==> (#[trigger] ls[t].line_type) is Blank,
        nf < ls.len() ==> (ls[nf].line_type is Facet || ls[nf].line_type is Concept),
    ensures
        count_facet_errs(structure_errors(ls), (i + 1) as nat) == 1,
{
    let tgt = (i + 1) as nat;
    p4_chain(ls, i, nf, ls.len() as int);
    assert(ls.take(ls.len() as int) =~= ls);
    let st = struct_fold(ls).0;
    let fc = finalize_concept(st);
    let ff = finalize_facet(st);
    lemma_count_facet_errs_add(struct_fold(ls).1, fc, tgt);
    lemma_count_facet_errs_add(struct_fold(ls).1 + fc, ff, tgt);
    match st.cur_concept {
        Some(c) => {
            lemma_count_singletons(
                ErrorView::ConceptWithoutFacets { line: c.0, concept: c.1 },
                tgt,
            );
        },
        None => {},
    }
    match st.cur_facet {
        Some(f) => {
            lemma_count_singletons(ErrorView::FacetWithoutClaims { line: f.0, facet: f.1 }, tgt);
        },
        None => {},
    }
}

/// A facet with zero claim children always yields exactly one
/// childless-facet error, reported at the facet's own line number. `nf` is
/// the index of the next facet or concept line (or the number of lines), and
/// every line strictly between is blank.
pub proof fn lemma_childless_facet(text: Seq<char>, i: int, nf: int)
    requires
        0 <= i < nf <= validate_spec(text).lines.len(),
        validate_spec(text).lines[i].line_type is Facet,
        forall|t: int|
            i < t < nf ==> (#[trigger] validate_spec(text).lines[t].line_type) is Blank,
        nf < validate_spec(text).lines.len() ==> (validate_spec(
            text,
        ).lines[nf].line_type is Facet || validate_spec(text).lines[nf].line_type is Concept),
    ensures
        count_facet_errs(validate_spec(text).errors, (i + 1) as nat) == 1,
{
    let tgt = (i + 1) as nat;
    let raws = lines_of(text);
    let ls = classify_all(raws).0;
    let e0 = classify_all(raws).1;
    let refs = valid_refs_of(ls);
    let e3 = syntax_fold(ls, refs).0;
    lemma_classify_all_numbered(raws);
    lemma_classify_all_shape(raws);
    lemma_count_zero(e0, tgt);
    lemma_childless_facet_struct(ls, i, nf);
    lemma_syntax_fold_ok(ls, refs);
    assert(forall|k: int|
        0 <= k < e3.len() ==> !((#[trigger] e3[k]) is ConceptWithoutFacets) && !(
        e3[k] is FacetWithoutClaims)) by {
        assert(forall|k: int| 0 <= k < e3.len() ==> claim_err_ok(refs, #[trigger] e3[k]));
    }
    lemma_count_zero(e3, tgt);
    lemma_count_facet_errs_add(e0, structure_errors(ls), tgt);
    lemma_count_facet_errs_add(e0 + structure_errors(ls), e3, tgt);
}

proof fn lemma_warn_fold_shape(n: nat, toks: Seq<Seq<char>>, i: int)
    ensures
        forall|k: int|
            0 <= k < crate::syntax::warn_fold(n, toks, i).len() ==> (#[trigger] crate::syntax::warn_fold(
                n,
                toks,
                i,
            )[k]) is StandaloneModifier,
    decreases toks.len() - i,
{
    if 0 <= i < toks.len() {
        lemma_warn_fold_shape(n, toks, i + 1);
        let here: Seq<ErrorView> = if crate::syntax::is_warn_tok(toks[i]) && (i == 0
            || crate::ops::ends_with_any_op(toks[i - 1])) {
            seq![ErrorView::StandaloneModifier { line: n, modifier: toks[i] }]
        } else {
            Seq::empty()
        };
        let rest = crate::syntax::warn_fold(n, toks, i + 1);
        assert forall|k: int|
            0 <= k < crate::syntax::warn_fold(n, toks, i).len() implies (
        #[trigger] crate::syntax::warn_fold(n, toks, i)[k]) is StandaloneModifier by {
            assert(crate::syntax::warn_fold(n, toks, i)[k] == (here + rest)[k]);
            if k < here.len() {
                assert((here + rest)[k] == here[k]);
            } else {
                assert((here + rest)[k] == rest[k - here.len()]);
            }
        }
    }
}

/// Every warning validation reports is a standalone-modifier diagnostic: the
/// one soft kind, exactly what [`crate::types::ValidationError::is_warning`]
/// recognizes. Hard errors and warnings never mix.
pub proof fn lemma_warnings_classified(text: Seq<char>)
    ensures
        forall|k: int|
            0 <= k < validate_spec(text).warnings.len() ==> (#[trigger] validate_spec(
                text,
            ).warnings[k]) is StandaloneModifier,
{
    let raws = lines_of(text);
    let ls = classify_all(raws).0;
    let refs = valid_refs_of(ls);
    lemma_syntax_fold_warn_shape(ls, refs);
}

proof fn lemma_syntax_fold_warn_shape(ls: Seq<LineView>, refs: Set<Seq<char>>)
    ensures
        forall|k: int|
            0 <= k < syntax_fold(ls, refs).1.len() ==> (#[trigger] syntax_fold(
                ls,
                refs,
            ).1[k]) is StandaloneModifier,
    decreases ls.len(),
{
    if ls.len() > 0 {
        lemma_syntax_fold_warn_shape(ls.drop_last(), refs);
        let a = syntax_fold(ls.drop_last(), refs).1;
        match ls.last().line_type {
            LineTypeView::Claim(c) => {
                let b = crate::syntax::syntax_warnings(ls.last().line_number, c);
                lemma_warn_fold_shape(
                    ls.last().line_number,
                    crate::text::tokens_of(c.text),
                    0,
                );
                assert forall|k: int|
                    0 <= k < syntax_fold(ls, refs).1.len() implies (#[trigger] syntax_fold(
                    ls,
                    refs,
                ).1[k]) is StandaloneModifier by {
                    assert(syntax_fold(ls, refs).1[k] == (a + b)[k]);
                    if k < a.len() {
                        assert((a + b)[k] == a[k]);
                    } else {
                        assert((a + b)[k] == b[k - a.len()]);
                    }
                }
            },
            _ => {
                assert forall|k: int|
                    0 <= k < syntax_fold(ls, refs).1.len() implies (#[trigger] syntax_fold(
                    ls,
                    refs,
                ).1[k]) is StandaloneModifier by {
                    assert(syntax_fold(ls, refs).1[k] == a[k]);
                }
            },
        }
    }
}

proof fn lemma_contains_left(a: Seq<ErrorView>, b: Seq<ErrorView>, x: ErrorView)
    requires
        a.contains(x),
    ensures
        (a + b).contains(x),
{
    let k = choose|k: int| 0 <= k < a.len() && a[k] == x;
    assert((a + b)[k] == x);
}

proof fn lemma_contains_right(a: Seq<ErrorView>, b: Seq<ErrorView>, x: ErrorView)
    requires
        b.contains(x),
    ensures
        (a + b).contains(x),
{
    let k = choose|k: int| 0 <= k < b.len() && b[k] == x;
    assert((a + b)[a.len() + k] == x);
}

/// A non-empty reference without a `.` is always reported with a
/// reference-format error.
proof fn lemma_format_complete(n: nat, rs: Seq<Seq<char>>, k: int)
    requires
        0 <= k < rs.len(),
        rs[k].len() > 0,
        !contains_char(rs[k], '.'),
    ensures
        ref_format_errs(n, rs).contains(
            ErrorView::InvalidReferenceFormat { line: n, reference: rs[k] },
        ),
    decreases rs.len(),
{
    let x = ErrorView::InvalidReferenceFormat { line: n, reference: rs[k] };
    let a = ref_format_errs(n, rs.drop_last());
    if k == rs.len() - 1 {
        let b = seq![x];
        assert(b.contains(x)) by {
            assert(b[0] == x);
        }
        lemma_contains_right(a, b, x);
    } else {
        assert(rs.drop_last()[k] == rs[k]);
        lemma_format_complete(n, rs.drop_last(), k);
        let b: Seq<ErrorView> = if rs.last().len() > 0 && !contains_char(rs.last(), '.') {
            seq![ErrorView::InvalidReferenceFormat { line: n, reference: rs.last() }]
        } else {
            Seq::empty()
        };
        lemma_contains_left(a, b, x);
    }
}

/// A well-shaped reference outside the index is always reported with an
/// undefined-reference error.
proof fn lemma_undef_complete(n: nat, rs: Seq<Seq<char>>, refs: Set<Seq<char>>, k: int)
    requires
        0 <= k < rs.len(),
        rs[k].len() > 0,
        contains_char(rs[k], '.'),
        !refs.contains(rs[k]),
    ensures
        undef_ref_errs(n, rs, refs).contains(
            ErrorView::UndefinedReference { line: n, reference: rs[k] },
        ),
    decreases rs.len(),
{
    let x = ErrorView::UndefinedReference { line: n, reference: rs[k] };
    let a = undef_ref_errs(n, rs.drop_last(), refs);
    if k == rs.len() - 1 {
        let b = seq![x];
        assert(b.contains(x)) by {
            assert(b[0] == x);
        }
        lemma_contains_right(a, b, x);
    } else {
        assert(rs.drop_last()[k] == rs[k]);
        lemma_undef_complete(n, rs.drop_last(), refs, k);
        let b: Seq<ErrorView> = if rs.last().len() > 0 && contains_char(rs.last(), '.')
            && !refs.contains(rs.last()) {
            seq![ErrorView::UndefinedReference { line: n, reference: rs.last() }]
        } else {
            Seq::empty()
        };
        lemma_contains_left(a, b, x);
    }
}

/// Lift containment in one of the claim's error categories into containment
/// in the claim's full error report.
proof fn lemma_syntax_errors_lift(
    n: nat,
    c: crate::types::ClaimView,
    refs: Set<Seq<char>>,
    x: ErrorView,
)
    requires
        ref_format_errs(n, c.references).contains(x) || undef_ref_errs(
            n,
            c.references,
            refs,
        ).contains(x),
    ensures
        syntax_errors(n, c, refs).contains(x),
{
    let s1 = crate::syntax::text_err(n, c.text);
    let s2 = empty_cond_errs(n, c.conditions);
    let s3 = empty_src_errs(n, c.sources);
    let s4 = empty_ref_errs(n, c.references);
    let s5 = ref_format_errs(n, c.references);
    let s6 = undef_ref_errs(n, c.references, refs);
    let s7 = bf_errs(n, c.brief_forms);
    let s8 = crate::syntax::unclosed_err(n, c.text);
    let s9 = crate::syntax::evo_err(n, c.evolution);
    if s5.contains(x) {
        lemma_contains_right(s1 + s2 + s3 + s4, s5, x);
        lemma_contains_left(s1 + s2 + s3 + s4 + s5, s6, x);
    } else {
        lemma_contains_right(s1 + s2 + s3 + s4 + s5, s6, x);
    }
    lemma_contains_left(s1 + s2 + s3 + s4 + s5 + s6, s7, x);
    lemma_contains_left(s1 + s2 + s3 + s4 + s5 + s6 + s7, s8, x);
    lemma_contains_left(s1 + s2 + s3 + s4 + s5 + s6 + s7 + s8, s9, x);
}

/// Lift one claim line's error into the third pass's full report.
proof fn lemma_syntax_fold_lift(ls: Seq<LineView>, refs: Set<Seq<char>>, i: int, x: ErrorView)
    requires
        0 <= i < ls.len(),
        ls[i].line_type is Claim,
        syntax_errors(ls[i].line_number, ls[i].line_type->Claim_0, refs).contains(x),
    ensures
        syntax_fold(ls, refs).0.contains(x),
    decreases ls.len(),
{
    let a = syntax_fold(ls.drop_last(), refs).0;
    if i == ls.len() - 1 {
        lemma_contains_right(a, syntax_errors(ls[i].line_number, ls[i].line_type->Claim_0, refs),
            x);
    } else {
        assert(ls.drop_last()[i] == ls[i]);
        lemma_syntax_fold_lift(ls.drop_last(), refs, i, x);
        match ls.last().line_type {
            LineTypeView::Claim(c) => {
                lemma_contains_left(a, syntax_errors(ls.last().line_number, c, refs), x);
            },
            _ => {},
        }
    }
}

/// A reference of a claim without a `.` always yields an invalid-format
/// error for that reference, at the claim's line.
pub proof fn lemma_reference_format(text: Seq<char>, i: int, r: Seq<char>)
    requires
        0 <= i < validate_spec(text).lines.len(),
        validate_spec(text).lines[i].line_type is Claim,
        validate_spec(text).lines[i].line_type->Claim_0.references.contains(r),
        r.len() > 0,
        !contains_char(r, '.'),
    ensures
        validate_spec(text).errors.contains(
            ErrorView::InvalidReferenceFormat { line: (i + 1) as nat, reference: r },
        ),
{
    let raws = lines_of(text);
    let ls = classify_all(raws).0;
    let e0 = classify_all(raws).1;
    let refs = valid_refs_of(ls);
    let c = ls[i].line_type->Claim_0;
    lemma_classify_all_numbered(raws);
    let n = (i + 1) as nat;
    let x = ErrorView::InvalidReferenceFormat { line: n, reference: r };
    let k = choose|k: int| 0 <= k < c.references.len() && c.references[k] == r;
    lemma_format_complete(n, c.references, k);
    lemma_syntax_errors_lift(n, c, refs, x);
    lemma_syntax_fold_lift(ls, refs, i, x);
    lemma_contains_right(e0 + structure_errors(ls), syntax_fold(ls, refs).0, x);
}

/// A well-shaped reference of a claim that names no pair declared anywhere
/// in the document always yields an undefined-reference error for that
/// reference, at the claim's line.
pub proof fn lemma_reference_undefined(text: Seq<char>, i: int, r: Seq<char>)
    requires
        0 <= i < validate_spec(text).lines.len(),
        validate_spec(text).lines[i].line_type is Claim,
        validate_spec(text).lines[i].line_type->Claim_0.references.contains(r),
        r.len() > 0,
        contains_char(r, '.'),
        !valid_refs_of(validate_spec(text).lines).contains(r),
    ensures
        validate_spec(text).errors.contains(
            ErrorView::UndefinedReference { line: (i + 1) as nat, reference: r },
        ),
{
    let raws = lines_of(text);
    let ls = classify_all(raws).0;
    let e0 = classify_all(raws).1;
    let refs = valid_refs_of(ls);
    let c = ls[i].line_type->Claim_0;
    lemma_classify_all_numbered(raws);
    let n = (i + 1) as nat;
    let x = ErrorView::UndefinedReference { line: n, reference: r };
    let k = choose|k: int| 0 <= k < c.references.len() && c.references[k] == r;
    lemma_undef_complete(n, c.references, refs, k);
    lemma_syntax_errors_lift(n, c, refs, x);
    lemma_syntax_fold_lift(ls, refs, i, x);
    lemma_contains_right(e0 + structure_errors(ls), syntax_fold(ls, refs).0, x);
}

/// Structural errors concern the hierarchy alone.
pub open spec fn struct_err_ok(e: ErrorView) -> bool {
    ||| e is ConceptWithoutFacets
    ||| e is FacetWithoutClaims
    ||| e is OrphanFacet
    ||| e is OrphanClaim
}

proof fn lemma_struct_errs_shape(ls: Seq<LineView>)
    ensures
        forall|k: int|
            0 <= k < structure_errors(ls).len() ==> struct_err_ok(
                #[trigger] structure_errors(ls)[k],
            ),
{
    lemma_struct_fold_shape(ls);
    let st = struct_fold(ls).0;
    let p = |e: ErrorView| struct_err_ok(e);
    lemma_all_concat(struct_fold(ls).1, finalize_concept(st), p);
    lemma_all_concat(struct_fold(ls).1 + finalize_concept(st), finalize_facet(st), p);
    assert forall|k: int|
        0 <= k < structure_errors(ls).len() implies struct_err_ok(
        #[trigger] structure_errors(ls)[k],
    ) by {
        assert(structure_errors(ls)[k] == (struct_fold(ls).1 + finalize_concept(st)
            + finalize_facet(st))[k]);
    }
}

proof fn lemma_struct_fold_shape(ls: Seq<LineView>)
    ensures
        forall|k: int|
            0 <= k < struct_fold(ls).1.len() ==> struct_err_ok(#[trigger] struct_fold(ls).1[k]),
    decreases ls.len(),
{
    if ls.len() > 0 {
        lemma_struct_fold_shape(ls.drop_last());
        let prev = struct_fold(ls.drop_last());
        let stepres = struct_step(prev.0, ls.last());
        let p = |e: ErrorView| struct_err_ok(e);
        assert(forall|k: int| 0 <= k < stepres.1.len() ==> p(#[trigger] stepres.1[k])) by {
            match ls.last().line_type {
                LineTypeView::Concept(_) => {
                    lemma_all_concat(finalize_concept(prev.0), finalize_facet(prev.0), p);
                },
                LineTypeView::Facet(_) => {
                    let orphan: Seq<ErrorView> = if prev.0.cur_concept is None {
                        seq![ErrorView::OrphanFacet { line: ls.last().line_number }]
                    } else {
                        Seq::empty()
                    };
                    lemma_all_concat(orphan, finalize_facet(prev.0), p);
                },
                _ => {},
            }
        }
        lemma_all_concat(prev.1, stepres.1, p);
        assert forall|k: int|
            0 <= k < struct_fold(ls).1.len() implies struct_err_ok(
            #[trigger] struct_fold(ls).1[k],
        ) by {
            assert(struct_fold(ls).1[k] == (prev.1 + stepres.1)[k]);
        }
    }
}

/// A reference that names a pair declared anywhere in the document is
/// accepted: validation reports neither an undefined-reference nor an
/// invalid-format error for it, on any line.
pub proof fn lemma_reference_resolved(text: Seq<char>, r: Seq<char>)
    requires
        valid_refs_of(validate_spec(text).lines).contains(r),
        contains_char(r, '.'),
    ensures
        forall|k: int|
            0 <= k < validate_spec(text).errors.len() ==> !((#[trigger] validate_spec(
                text,
            ).errors[k]) is UndefinedReference && validate_spec(
                text,
            ).errors[k]->UndefinedReference_reference == r) && !(validate_spec(
                text,
            ).errors[k] is InvalidReferenceFormat && validate_spec(
                text,
            ).errors[k]->InvalidReferenceFormat_reference == r),
{
    let raws = lines_of(text);
    let ls = classify_all(raws).0;
    let e0 = classify_all(raws).1;
    let e1 = structure_errors(ls);
    let refs = valid_refs_of(ls);
    let e3 = syntax_fold(ls, refs).0;
    lemma_classify_all_shape(raws);
    lemma_struct_errs_shape(ls);
    lemma_syntax_fold_ok(ls, refs);
    assert forall|k: int|
        0 <= k < validate_spec(text).errors.len() implies !((#[trigger] validate_spec(
        text,
    ).errors[k]) is UndefinedReference && validate_spec(
        text,
    ).errors[k]->UndefinedReference_reference == r) && !(validate_spec(
        text,
    ).errors[k] is InvalidReferenceFormat && validate_spec(
        text,
    ).errors[k]->InvalidReferenceFormat_reference == r) by {
        let e = validate_spec(text).errors[k];
        assert(e == ((e0 + e1) + e3)[k]);
        if k < (e0 + e1).len() {
            assert(((e0 + e1) + e3)[k] == (e0 + e1)[k]);
            if k < e0.len() {
                assert((e0 + e1)[k] == e0[k]);
            } else {
                assert((e0 + e1)[k] == e1[k - e0.len()]);
            }
        } else {
            assert(((e0 + e1) + e3)[k] == e3[k - (e0 + e1).len()]);
            assert(claim_err_ok(refs, e));
        }
    }
}

/// The pair a facet line declares under its most recent concept line is in
/// the reference index, wherever in the document it stands — in particular a
/// claim may point at a pair declared later than itself. `h` is the index of
/// the concept line, `j` of the facet line, with no other concept between.
pub proof fn lemma_facet_declares(ls: Seq<LineView>, h: int, j: int)
    requires
        0 <= h < j < ls.len(),
        ls[h].line_type is Concept,
        ls[j].line_type is Facet,
        forall|t: int| h < t < j ==> !((#[trigger] ls[t].line_type) is Concept),
    ensures
        valid_refs_of(ls).contains(
            ls[h].line_type->Concept_0 + seq!['.'] + ls[j].line_type->Facet_0,
        ),
{
    let target = ls[h].line_type->Concept_0 + seq!['.'] + ls[j].line_type->Facet_0;
    lemma_concept_in_scope(ls, h, j + 1);
    assert(ls.take(j + 1).drop_last() =~= ls.take(j));
    assert(ls.take(j + 1).last() == ls[j]);
    assert(refs_fold(ls.take(j + 1)).1.contains(target));
    lemma_refs_monotone(ls, j + 1, target);
}

/// From just after the concept line to any point before the next concept,
/// the scan's open concept is that line's name.
proof fn lemma_concept_in_scope(ls: Seq<LineView>, h: int, k: int)
    requires
        0 <= h < k <= ls.len(),
        ls[h].line_type is Concept,
        forall|t: int| h < t < k - 1 ==> !((#[trigger] ls[t].line_type) is Concept),
    ensures
        refs_fold(ls.take(h + 1)).0 == Some(ls[h].line_type->Concept_0),
        (forall|t: int| h < t < k ==> !((#[trigger] ls[t].line_type) is Concept)) ==> refs_fold(
            ls.take(k),
        ).0 == Some(ls[h].line_type->Concept_0),
    decreases k,
{
    if k == h + 1 {
        assert(ls.take(k).drop_last() =~= ls.take(h));
        assert(ls.take(k).last() == ls[h]);
    } else {
        lemma_concept_in_scope(ls, h, k - 1);
        assert(ls.take(k).drop_last() =~= ls.take(k - 1));
        assert(ls.take(k).last() == ls[k - 1]);
    }
}

/// Every error validation reports is a hard error, never the soft
/// standalone-modifier kind: together with [`lemma_warnings_classified`],
/// the error and warning lists partition the diagnostics exactly as
/// [`crate::types::ValidationError::is_warning`] classifies them.
pub proof fn lemma_errors_classified(text: Seq<char>)
    ensures
        forall|k: int|
            0 <= k < validate_spec(text).errors.len() ==> !((#[trigger] validate_spec(
                text,
            ).errors[k]) is StandaloneModifier),
{
    let raws = lines_of(text);
    let ls = classify_all(raws).0;
    let e0 = classify_all(raws).1;
    let e1 = structure_errors(ls);
    let refs = valid_refs_of(ls);
    let e3 = syntax_fold(ls, refs).0;
    lemma_classify_all_shape(raws);
    lemma_struct_errs_shape(ls);
    lemma_syntax_fold_ok(ls, refs);
    assert forall|k: int|
        0 <= k < validate_spec(text).errors.len() implies !((#[trigger] validate_spec(
        text,
    ).errors[k]) is StandaloneModifier) by {
        let e = validate_spec(text).errors[k];
        assert(e == ((e0 + e1) + e3)[k]);
        if k < (e0 + e1).len() {
            assert(((e0 + e1) + e3)[k] == (e0 + e1)[k]);
            if k < e0.len() {
                assert((e0 + e1)[k] == e0[k]);
            } else {
                assert((e0 + e1)[k] == e1[k - e0.len()]);
                assert(struct_err_ok(e));
            }
        } else {
            assert(((e0 + e1) + e3)[k] == e3[k - (e0 + e1).len()]);
            assert(claim_err_ok(refs, e));
        }
    }
}

/// The reference index only grows along the scan.
proof fn lemma_refs_monotone(ls: Seq<LineView>, k: int, x: Seq<char>)
    requires
        0 <= k <= ls.len(),
        refs_fold(ls.take(k)).1.contains(x),
    ensures
        refs_fold(ls).1.contains(x),
    decreases ls.len() - k,
{
    if k == ls.len() {
        assert(ls.take(k) =~= ls);
    } else {
        assert(ls.take(k + 1).drop_last() =~= ls.take(k));
        assert(ls.take(k + 1).last() == ls[k]);
        lemma_refs_monotone(ls, k + 1, x);
    }
}

} // verus!
