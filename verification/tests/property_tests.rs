//! Property and edge-case tests: one parsed line per input line, stable
//! re-validation, exact error accounting for childless concepts and facets,
//! the reference rules, the spec'd example documents, rendering, and the
//! deliberately preserved parsing oddities.

use worldview_validator::validate;
use worldview_validator::validate_claim_syntax;
use worldview_validator::count_leading_spaces;
use worldview_validator::ClaimData;
use worldview_validator::LineType;
use worldview_validator::ValidationError;

fn first_claim(result: &worldview_validator::ValidationResult) -> ClaimData {
    for line in &result.lines {
        if let LineType::Claim(c) = &line.line_type {
            return c.clone();
        }
    }
    panic!("no claim line in document");
}

#[test]
fn test_one_parsed_line_per_input_line() {
    assert_eq!(validate("").lines.len(), 0);
    assert_eq!(validate("Power").lines.len(), 1);
    assert_eq!(validate("Power\n").lines.len(), 1);
    assert_eq!(validate("Power\nTrust").lines.len(), 2);
    assert_eq!(validate("Power\r\nTrust\r\n").lines.len(), 2);
    assert_eq!(validate("a\n\n\nb").lines.len(), 4);
    let doc = "Power\n  .core\n    - corrupts";
    assert_eq!(validate(doc).lines.len(), 3);
}

#[test]
fn test_revalidation_is_stable() {
    // An editor writes a document only when it validates cleanly; validating
    // the same text again must yield zero errors again.
    let doc = "Power\n  .core\n    - corrupts | unchecked";
    let first = validate(doc);
    assert!(first.is_valid());
    let second = validate(doc);
    assert!(second.is_valid());
    assert_eq!(first.errors, second.errors);
    assert_eq!(first.warnings, second.warnings);
}

#[test]
fn test_adjacent_concepts_exactly_one_error() {
    let result = validate("Power\nTrust\n  .core\n    - x");
    let cwf: Vec<_> = result
        .errors
        .iter()
        .filter(|e| matches!(e, ValidationError::ConceptWithoutFacets { .. }))
        .collect();
    assert_eq!(cwf.len(), 1);
    assert_eq!(
        cwf[0],
        &ValidationError::ConceptWithoutFacets { line: 1, concept: "Power".to_string() }
    );
}

#[test]
fn test_childless_facet_exactly_one_error_at_facet_line() {
    let result = validate("Power\n  .core\n    - x\n  .empty\n\nTrust\n  .t\n    - y");
    let fwc: Vec<_> = result
        .errors
        .iter()
        .filter(|e| matches!(e, ValidationError::FacetWithoutClaims { .. }))
        .collect();
    assert_eq!(fwc.len(), 1);
    assert_eq!(
        fwc[0],
        &ValidationError::FacetWithoutClaims { line: 4, facet: "empty".to_string() }
    );
}

#[test]
fn test_reference_rules() {
    // No dot: always an invalid-format error.
    let r1 = validate("Power\n  .core\n    - x &nodot");
    assert!(r1.errors.contains(&ValidationError::InvalidReferenceFormat {
        line: 3,
        reference: "nodot".to_string(),
    }));

    // A dot but no such pair anywhere: always an undefined-reference error.
    let r2 = validate("Power\n  .core\n    - x &No.where");
    assert!(r2.errors.contains(&ValidationError::UndefinedReference {
        line: 3,
        reference: "No.where".to_string(),
    }));

    // A pair declared later in the document is accepted (forward reference).
    let r3 = validate("Power\n  .core\n    - x &Trust.later\n\nTrust\n  .later\n    - y");
    assert!(r3.is_valid(), "Expected valid: {:?}", r3.errors);
}

#[test]
fn test_example_condition_document() {
    let result = validate("Power\n  .core\n    - corrupts | unchecked");
    assert!(result.is_valid());
    assert_eq!(result.errors.len(), 0);
    let claim = first_claim(&result);
    assert_eq!(claim.text, "corrupts");
    assert_eq!(claim.conditions, vec!["unchecked".to_string()]);
}

#[test]
fn test_example_concept_pair_document() {
    let result = validate("Power\nTrust");
    assert!(!result.is_valid());
    assert!(result.errors.contains(&ValidationError::ConceptWithoutFacets {
        line: 1,
        concept: "Power".to_string(),
    }));
}

#[test]
fn test_example_reference_document() {
    let result = validate(
        "Trust\n  .formation\n    - slow\n  .erosion\n    - asymmetric vs formation &Trust.formation",
    );
    assert!(result.is_valid(), "Expected valid: {:?}", result.errors);
    let claims: Vec<_> = result
        .lines
        .iter()
        .filter_map(|l| match &l.line_type {
            LineType::Claim(c) => Some(c),
            _ => None,
        })
        .collect();
    assert_eq!(claims[1].references, vec!["Trust.formation".to_string()]);
    assert!(claims[1].brief_forms.iter().any(|b| b.operator == "vs"));
}

#[test]
fn test_example_missing_right_operand_document() {
    let result = validate("Power\n  .core\n    - power =>");
    assert!(!result.is_valid());
    assert!(result.errors.contains(&ValidationError::BriefFormMissingRightOperand {
        line: 3,
        operator: "=>".to_string(),
    }));
}

#[test]
fn test_example_leading_modifier_document() {
    let result = validate("Power\n  .core\n    - ^ something");
    assert!(result.is_valid());
    assert!(result.has_warnings());
    assert!(result.warnings.contains(&ValidationError::StandaloneModifier {
        line: 3,
        modifier: "^".to_string(),
    }));
}

#[test]
fn test_example_unclosed_marker_document() {
    let result = validate("Human-nature\n  .cognition\n    - adaptive [<= inherently good");
    assert!(!result.is_valid());
    assert!(result.errors.contains(&ValidationError::UnclosedEvolutionMarker { line: 3 }));
}

#[test]
fn test_render_valid() {
    let result = validate("Power\n  .core\n    - corrupts");
    assert_eq!(result.render(), "Valid Worldview document");
}

#[test]
fn test_render_valid_with_warning() {
    let result = validate("Power\n  .core\n    - ^ ok");
    assert_eq!(
        result.render(),
        "Valid Worldview document with 1 warning(s):\n  line 3: standalone modifier '^' may be unintentional\n"
    );
}

#[test]
fn test_render_invalid() {
    let result = validate("Power\nTrust");
    assert_eq!(
        result.render(),
        "Invalid Worldview document (2 error(s)):\n  line 1: concept 'Power' has no facets\n  line 2: concept 'Trust' has no facets\n"
    );
}

#[test]
fn test_message_two_digit_line_number() {
    let e = ValidationError::OrphanClaim { line: 12 };
    assert_eq!(e.message(), "line 12: orphan claim (no preceding facet)");
    let e2 = ValidationError::InvalidIndentation { line: 105, expected: "0, 2, or 4", found: 3 };
    assert_eq!(
        e2.message(),
        "line 105: invalid indentation (expected 0, 2, or 4 spaces, found 3)"
    );
}

#[test]
fn test_evolution_splice_keeps_no_space() {
    // The bracketed span is cut out and the trimmed halves are concatenated
    // with no separating space: a mid-sentence marker runs words together.
    let result = validate("Human-nature\n  .cognition\n    - before [<= old] after");
    let claim = first_claim(&result);
    assert_eq!(claim.text, "beforeafter");
    assert_eq!(claim.evolution.unwrap().prior_belief, "old");
}

#[test]
fn test_trailing_text_after_source_is_discarded() {
    // Trailing free text following a collected source is dropped...
    let result = validate("Power\n  .core\n    - x @src trailing words");
    let claim = first_claim(&result);
    assert_eq!(claim.text, "x");
    assert_eq!(claim.sources, vec!["src".to_string()]);
    assert_eq!(claim.conditions, Vec::<String>::new());

    // ...while trailing free text with no source or reference collected
    // becomes one more condition.
    let r2 = validate("Power\n  .core\n    - x | cond trailing words");
    let c2 = first_claim(&r2);
    assert_eq!(c2.conditions, vec!["cond trailing words".to_string()]);
}

#[test]
fn test_empty_claim_text_error() {
    let result = validate("Power\n  .core\n    - | unchecked");
    assert!(!result.is_valid());
    assert!(result.errors.contains(&ValidationError::EmptyClaimText { line: 3 }));
}

#[test]
fn test_empty_facet_name_keeps_facet_identity() {
    // An emptily named facet records an error yet still counts as a facet.
    let result = validate("Power\n  .\n    - x");
    assert!(result.errors.contains(&ValidationError::EmptyFacetName { line: 2 }));
    assert!(!result.errors.iter().any(|e| matches!(e, ValidationError::ConceptWithoutFacets { .. })));
    assert!(matches!(result.lines[1].line_type, LineType::Facet(_)));
}

#[test]
fn test_unexpected_indentation() {
    let result = validate("Power\n      .deep");
    assert!(result.errors.contains(&ValidationError::UnexpectedIndentation { line: 2, found: 6 }));
}

#[test]
fn test_claim_syntax_on_empty_inline_elements() {
    // The claim parser never emits empty inline elements, but the syntax
    // checker still rejects them in hand-built claim data.
    let claim = ClaimData {
        text: "x".to_string(),
        conditions: vec!["".to_string()],
        sources: vec!["".to_string()],
        references: vec!["".to_string()],
        brief_forms: vec![],
        modifiers: vec![],
        evolution: None,
    };
    let refs: Vec<String> = vec![];
    let mut errors: Vec<ValidationError> = vec![];
    let mut warnings: Vec<ValidationError> = vec![];
    validate_claim_syntax(9, &claim, &refs, &mut errors, &mut warnings);
    assert!(errors.contains(&ValidationError::EmptyCondition { line: 9 }));
    assert!(errors.contains(&ValidationError::EmptySource { line: 9 }));
    assert!(errors.contains(&ValidationError::EmptyReference { line: 9 }));
    assert!(warnings.is_empty());
}

#[test]
fn test_is_warning_classification() {
    assert!(ValidationError::StandaloneModifier { line: 1, modifier: "^".to_string() }.is_warning());
    assert!(!ValidationError::OrphanClaim { line: 1 }.is_warning());
    assert!(!ValidationError::MalformedEvolutionMarker { line: 1 }.is_warning());
}

#[test]
fn test_bare_equals_operator() {
    // `=` matches only where it is not part of `=>`, `<=` or `><`, and its
    // operands are taken verbatim, trailing glyphs kept.
    let result = validate("Power\n  .core\n    - alpha^ = beta");
    let claim = first_claim(&result);
    let eqs: Vec<_> = claim.brief_forms.iter().filter(|b| b.operator == "=").collect();
    assert_eq!(eqs.len(), 1);
    assert_eq!(eqs[0].left_operand, "alpha^");
    assert_eq!(eqs[0].right_operand, "beta");

    // A claim using `=>` yields no bare-`=` usage.
    let r2 = validate("Power\n  .core\n    - a => b");
    let c2 = first_claim(&r2);
    assert_eq!(c2.brief_forms.len(), 1);
    assert_eq!(c2.brief_forms[0].operator, "=>");
}

#[test]
fn test_repeated_operator_occurrences() {
    let result = validate("Power\n  .core\n    - a => b => c");
    let claim = first_claim(&result);
    let causes: Vec<_> = claim.brief_forms.iter().filter(|b| b.operator == "=>").collect();
    assert_eq!(causes.len(), 2);
    assert_eq!(causes[0].left_operand, "a");
    assert_eq!(causes[0].right_operand, "b");
    assert_eq!(causes[1].left_operand, "b");
    assert_eq!(causes[1].right_operand, "c");
}

#[test]
fn test_modifier_after_operator_not_attached() {
    // A standalone glyph right after an operator modifies nothing, and the
    // letter `v` inside an ordinary word is never a modifier.
    let result = validate("Power\n  .core\n    - growth => v");
    let claim = first_claim(&result);
    assert!(claim.modifiers.is_empty());

    let r2 = validate("Power\n  .core\n    - velvet over");
    let c2 = first_claim(&r2);
    assert!(c2.modifiers.is_empty());
}

#[test]
fn test_count_leading_spaces_exact() {
    assert_eq!(count_leading_spaces(""), 0);
    assert_eq!(count_leading_spaces("abc"), 0);
    assert_eq!(count_leading_spaces("  .x"), 2);
    assert_eq!(count_leading_spaces("    - y"), 4);
    assert_eq!(count_leading_spaces("   "), 3);
}

#[test]
fn test_render_invalid_with_warnings() {
    let result = validate("Power\nTrust\n  .t\n    - ^ odd");
    assert_eq!(
        result.render(),
        "Invalid Worldview document (1 error(s)):\n  line 1: concept 'Power' has no facets\n\
         Additionally, 1 warning(s):\n  line 4: standalone modifier '^' may be unintentional\n"
    );
}

#[test]
fn test_all_inline_elements_together() {
    let input = "Alpha\n  .beta\n    - core claim [<= past view] | when tired @notes &Alpha.beta";
    let result = validate(input);
    assert!(result.is_valid(), "Expected valid: {:?}", result.errors);
    let claim = first_claim(&result);
    assert_eq!(claim.text, "core claim");
    assert_eq!(claim.conditions, vec!["when tired".to_string()]);
    assert_eq!(claim.sources, vec!["notes".to_string()]);
    assert_eq!(claim.references, vec!["Alpha.beta".to_string()]);
    assert_eq!(claim.evolution.unwrap().prior_belief, "past view");
}

#[test]
fn test_orphan_claim_line_number() {
    let result = validate("Power\n  .core\n    - ok\nTrust\n    - stray");
    assert!(result.errors.contains(&ValidationError::OrphanClaim { line: 5 }));
}
