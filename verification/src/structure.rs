//! The structural validator: a single pass over the classified lines,
//! tracking the current concept and facet, detecting orphaned facets and
//! claims, and reporting concepts without facets and facets without claims
//! when they are replaced or when the document ends.

use vstd::prelude::*;
use crate::types::ErrorView;
use crate::types::LineType;
use crate::types::LineTypeView;
use crate::types::LineView;
use crate::types::ParsedLine;
use crate::types::ValidationError;
use crate::types::push_err;

verus! {

/// The walker's state: the open concept and facet (line number and name),
/// and whether each has received a child yet.
pub struct StructState {
    pub cur_concept: Option<(nat, Seq<char>)>,
    pub cur_facet: Option<(nat, Seq<char>)>,
    pub concept_has_facet: bool,
    pub facet_has_claim: bool,
}

/// The state before any line is seen.
pub open spec fn struct_init() -> StructState {
    StructState { cur_concept: None, cur_facet: None, concept_has_facet: false, facet_has_claim:
        false }
}

/// Closing the open concept: an error if it never received a facet.
pub open spec fn finalize_concept(st: StructState) -> Seq<ErrorView> {
    match st.cur_concept {
        Some(c) => if !st.concept_has_facet {
            seq![ErrorView::ConceptWithoutFacets { line: c.0, concept: c.1 }]
        } else {
            Seq::empty()
        },
        None => Seq::empty(),
    }
}

/// Closing the open facet: an error if it never received a claim.
pub open spec fn finalize_facet(st: StructState) -> Seq<ErrorView> {
    match st.cur_facet {
        Some(f) => if !st.facet_has_claim {
            seq![ErrorView::FacetWithoutClaims { line: f.0, facet: f.1 }]
        } else {
            Seq::empty()
        },
        None => Seq::empty(),
    }
}

/// One transition of the structural walk: the next state and the errors the
/// line contributes, in the order they are reported.
pub open spec fn struct_step(st: StructState, l: LineView) -> (StructState, Seq<ErrorView>) {
    match l.line_type {
        LineTypeView::Blank => (st, Seq::empty()),
        LineTypeView::Concept(name) => (
            StructState {
                cur_concept: Some((l.line_number, name)),
                cur_facet: None,
                concept_has_facet: false,
                facet_has_claim: false,
            },
            finalize_concept(st) + finalize_facet(st),
        ),
        LineTypeView::Facet(name) => (
            StructState {
                cur_concept: st.cur_concept,
                cur_facet: Some((l.line_number, name)),
                concept_has_facet: st.concept_has_facet || st.cur_concept is Some,
                facet_has_claim: false,
            },
            (if st.cur_concept is None {
                seq![ErrorView::OrphanFacet { line: l.line_number }]
            } else {
                Seq::<ErrorView>::empty()
            }) + finalize_facet(st),
        ),
        LineTypeView::Claim(_) => {
            if st.cur_facet is None {
                (st, seq![ErrorView::OrphanClaim { line: l.line_number }])
            } else {
                (StructState { facet_has_claim: true, ..st }, Seq::empty())
            }
        },
    }
}

/// The walk over a whole line sequence: final state and accumulated errors.
pub open spec fn struct_fold(ls: Seq<LineView>) -> (StructState, Seq<ErrorView>)
    decreases ls.len(),
{
    if ls.len() == 0 {
        (struct_init(), Seq::empty())
    } else {
        let prev = struct_fold(ls.drop_last());
        let step = struct_step(prev.0, ls.last());
        (step.0, prev.1 + step.1)
    }
}

/// Every structural error of the document: the walk's errors, then whatever
/// the end-of-stream finalization of the still-open concept and facet adds.
pub open spec fn structure_errors(ls: Seq<LineView>) -> Seq<ErrorView> {
    struct_fold(ls).1 + finalize_concept(struct_fold(ls).0) + finalize_facet(struct_fold(ls).0)
}

/// The view of the executable walker's concept/facet register.
pub open spec fn reg_view(o: Option<(usize, String)>) -> Option<(nat, Seq<char>)> {
    match o {
        Some(p) => Some((p.0 as nat, p.1@)),
        None => None,
    }
}

/// Walk the classified lines and append every structural error found.
pub fn validate_structure(lines: &Vec<ParsedLine>, errors: &mut Vec<ValidationError>)
    ensures
        final(errors).deep_view() == old(errors).deep_view() + structure_errors(
            lines.deep_view(),
        ),
{
    let ghost ldv = lines.deep_view();
    let ghost base = errors.deep_view();
    let mut cur_concept: Option<(usize, String)> = None;
    let mut cur_facet: Option<(usize, String)> = None;
    let mut concept_has_facet = false;
    let mut facet_has_claim = false;
    let n = lines.len();
    let mut i: usize = 0;
    while i < n
        invariant
            0 <= i <= n,
            n == lines@.len(),
            ldv == lines.deep_view(),
            ldv.len() == n,
            struct_fold(ldv.take(i as int)).0 == (StructState {
                cur_concept: reg_view(cur_concept),
                cur_facet: reg_view(cur_facet),
                concept_has_facet: concept_has_facet,
                facet_has_claim: facet_has_claim,
            }),
            errors.deep_view() == base + struct_fold(ldv.take(i as int)).1,
        decreases n - i,
    {
        proof {
            assert(ldv.take(i + 1).drop_last() =~= ldv.take(i as int));
            assert(ldv.take(i + 1).last() == ldv[i as int]);
            assert(lines@[i as int].deep_view() == ldv[i as int]);
        }
        let line = &lines[i];
        match &line.line_type {
            LineType::Blank => {
                proof {
                    assert(errors.deep_view() =~= base + struct_fold(ldv.take(i + 1)).1);
                }
            },
            LineType::Concept(name) => {
                match &cur_concept {
                    Some(c) => {
                        if !concept_has_facet {
                            push_err(errors, ValidationError::ConceptWithoutFacets {
                                line: c.0,
                                concept: c.1.clone(),
                            });
                        }
                    },
                    None => {},
                }
                match &cur_facet {
                    Some(f) => {
                        if !facet_has_claim {
                            push_err(errors, ValidationError::FacetWithoutClaims {
                                line: f.0,
                                facet: f.1.clone(),
                            });
                        }
                    },
                    None => {},
                }
                cur_concept = Some((line.line_number, name.clone()));
                cur_facet = None;
                concept_has_facet = false;
                facet_has_claim = false;
                proof {
                    assert(errors.deep_view() =~= base + struct_fold(ldv.take(i + 1)).1);
                }
            },
            LineType::Facet(name) => {
                if cur_concept.is_none() {
                    push_err(errors, ValidationError::OrphanFacet { line: line.line_number });
                } else {
                    concept_has_facet = true;
                }
                match &cur_facet {
                    Some(f) => {
                        if !facet_has_claim {
                            push_err(errors, ValidationError::FacetWithoutClaims {
                                line: f.0,
                                facet: f.1.clone(),
                            });
                        }
                    },
                    None => {},
                }
                cur_facet = Some((line.line_number, name.clone()));
                facet_has_claim = false;
                proof {
                    assert(errors.deep_view() =~= base + struct_fold(ldv.take(i + 1)).1);
                }
            },
            LineType::Claim(_) => {
                if cur_facet.is_none() {
                    push_err(errors, ValidationError::OrphanClaim { line: line.line_number });
                } else {
                    facet_has_claim = true;
                }
                proof {
                    assert(errors.deep_view() =~= base + struct_fold(ldv.take(i + 1)).1);
                }
            },
        }
        i = i + 1;
    }
    proof {
        assert(ldv.take(n as int) =~= ldv);
    }
    match &cur_concept {
        Some(c) => {
            if !concept_has_facet {
                push_err(errors, ValidationError::ConceptWithoutFacets {
                    line: c.0,
                    concept: c.1.clone(),
                });
            }
        },
        None => {},
    }
    match &cur_facet {
        Some(f) => {
            if !facet_has_claim {
                push_err(errors, ValidationError::FacetWithoutClaims { line: f.0, facet: f.1.clone() });
            }
        },
        None => {},
    }
    proof {
        assert(errors.deep_view() =~= base + structure_errors(ldv));
    }
}

} // verus!
