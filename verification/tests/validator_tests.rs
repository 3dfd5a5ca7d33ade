//! Structural, inline-element, brief-form, modifier and evolution-marker
//! tests of the validation engine.

use worldview_validator::validate;
use worldview_validator::LineType;
use worldview_validator::ValidationError;

#[test]
fn test_valid_minimal_document() {
    let input = "Power\n  .core\n    - corrupts | unchecked\n    - reveals character";
    let result = validate(input);
    assert!(result.is_valid(), "Expected valid document: {:?}", result.errors);
}

#[test]
fn test_concept_without_facet() {
    let input = "Power\nTrust";
    let result = validate(input);
    assert!(!result.is_valid());
    assert!(result.errors.iter().any(|e| matches!(e, ValidationError::ConceptWithoutFacets { .. })));
}

#[test]
fn test_facet_without_claim() {
    let input = "Power\n  .core";
    let result = validate(input);
    assert!(!result.is_valid());
    assert!(result.errors.iter().any(|e| matches!(e, ValidationError::FacetWithoutClaims { .. })));
}

#[test]
fn test_orphan_facet() {
    let input = "  .core";
    let result = validate(input);
    assert!(!result.is_valid());
    assert!(result.errors.iter().any(|e| matches!(e, ValidationError::OrphanFacet { .. })));
}

#[test]
fn test_orphan_claim() {
    let input = "    - corrupts";
    let result = validate(input);
    assert!(!result.is_valid());
    assert!(result.errors.iter().any(|e| matches!(e, ValidationError::OrphanClaim { .. })));
}

#[test]
fn test_invalid_indentation() {
    let input = "Power\n .core";
    let result = validate(input);
    assert!(!result.is_valid());
    assert!(result.errors.iter().any(|e| matches!(e, ValidationError::InvalidIndentation { .. })));
}

#[test]
fn test_missing_facet_prefix() {
    let input = "Power\n  core\n    - corrupts";
    let result = validate(input);
    assert!(!result.is_valid());
    assert!(result.errors.iter().any(|e| matches!(e, ValidationError::MissingFacetPrefix { .. })));
}

#[test]
fn test_missing_claim_prefix() {
    let input = "Power\n  .core\n    corrupts";
    let result = validate(input);
    assert!(!result.is_valid());
    assert!(result.errors.iter().any(|e| matches!(e, ValidationError::MissingClaimPrefix { .. })));
}

#[test]
fn test_blank_lines_allowed() {
    let input = "Power\n  .core\n    - corrupts\n\nTrust\n  .formation\n    - slow";
    let result = validate(input);
    assert!(result.is_valid(), "Expected valid: {:?}", result.errors);
}

#[test]
fn test_claim_with_conditions_and_sources() {
    let input = "Trust\n  .formation\n    - requires consistency | over time @personal-experience";
    let result = validate(input);
    assert!(result.is_valid(), "Expected valid: {:?}", result.errors);

    if let Some(line) = result.lines.iter().find(|l| matches!(l.line_type, LineType::Claim(_))) {
        if let LineType::Claim(claim) = &line.line_type {
            assert_eq!(claim.text, "requires consistency");
            assert!(claim.conditions.contains(&"over time".to_string()));
            assert!(claim.sources.contains(&"personal-experience".to_string()));
        }
    }
}

#[test]
fn test_claim_with_reference() {
    let input = "Trust\n  .formation\n    - slow\n  .erosion\n    - asymmetric vs formation &Trust.formation";
    let result = validate(input);
    assert!(result.is_valid(), "Expected valid: {:?}", result.errors);

    let claims: Vec<_> = result
        .lines
        .iter()
        .filter_map(|l| match &l.line_type {
            LineType::Claim(c) => Some(c),
            _ => None,
        })
        .collect();

    assert!(claims.len() >= 2);
    assert!(claims[1].references.contains(&"Trust.formation".to_string()));
}

#[test]
fn test_invalid_reference_format() {
    let input = "Power\n  .core\n    - corrupts &InvalidReference";
    let result = validate(input);
    assert!(!result.is_valid());
    assert!(result.errors.iter().any(|e| matches!(e, ValidationError::InvalidReferenceFormat { .. })));
}

#[test]
fn test_undefined_reference() {
    let input = "Power\n  .core\n    - corrupts &Trust.formation";
    let result = validate(input);
    assert!(!result.is_valid());
    assert!(result.errors.iter().any(|e| matches!(e, ValidationError::UndefinedReference { .. })));
}

#[test]
fn test_valid_cross_reference() {
    // References between different concepts should work
    let input = "Power\n  .institutional\n    - accountability <> trust &Trust.institutional\n\nTrust\n  .institutional\n    - possible | high transparency";
    let result = validate(input);
    assert!(result.is_valid(), "Expected valid: {:?}", result.errors);
}

#[test]
fn test_brief_form_causes() {
    let input = "Power\n  .nature\n    - power => corruption";
    let result = validate(input);
    assert!(result.is_valid(), "Expected valid: {:?}", result.errors);

    if let Some(line) = result.lines.iter().find(|l| matches!(l.line_type, LineType::Claim(_))) {
        if let LineType::Claim(claim) = &line.line_type {
            assert!(!claim.brief_forms.is_empty());
            let bf = &claim.brief_forms[0];
            assert_eq!(bf.operator, "=>");
            assert_eq!(bf.left_operand, "power");
            assert_eq!(bf.right_operand, "corruption");
        }
    }
}

#[test]
fn test_brief_form_caused_by() {
    let input = "Trust\n  .formation\n    - trust <= consistency";
    let result = validate(input);
    assert!(result.is_valid(), "Expected valid: {:?}", result.errors);

    if let Some(line) = result.lines.iter().find(|l| matches!(l.line_type, LineType::Claim(_))) {
        if let LineType::Claim(claim) = &line.line_type {
            let bf = claim.brief_forms.iter().find(|b| b.operator == "<=");
            assert!(bf.is_some(), "Expected <= operator");
        }
    }
}

#[test]
fn test_brief_form_mutual() {
    let input = "Trust\n  .institutional\n    - accountability <> trust";
    let result = validate(input);
    assert!(result.is_valid(), "Expected valid: {:?}", result.errors);

    if let Some(line) = result.lines.iter().find(|l| matches!(l.line_type, LineType::Claim(_))) {
        if let LineType::Claim(claim) = &line.line_type {
            let bf = claim.brief_forms.iter().find(|b| b.operator == "<>");
            assert!(bf.is_some(), "Expected <> operator");
        }
    }
}

#[test]
fn test_brief_form_tension() {
    let input = "Work\n  .balance\n    - efficiency >< thoroughness";
    let result = validate(input);
    assert!(result.is_valid(), "Expected valid: {:?}", result.errors);

    if let Some(line) = result.lines.iter().find(|l| matches!(l.line_type, LineType::Claim(_))) {
        if let LineType::Claim(claim) = &line.line_type {
            let bf = claim.brief_forms.iter().find(|b| b.operator == "><");
            assert!(bf.is_some(), "Expected >< operator");
        }
    }
}

#[test]
fn test_brief_form_similar() {
    let input = "Authority\n  .types\n    - formal-authority ~ informal-influence";
    let result = validate(input);
    assert!(result.is_valid(), "Expected valid: {:?}", result.errors);

    if let Some(line) = result.lines.iter().find(|l| matches!(l.line_type, LineType::Claim(_))) {
        if let LineType::Claim(claim) = &line.line_type {
            let bf = claim.brief_forms.iter().find(|b| b.operator == "~");
            assert!(bf.is_some(), "Expected ~ operator");
        }
    }
}

#[test]
fn test_brief_form_contrast() {
    let input = "Trust\n  .erosion\n    - asymmetric vs formation";
    let result = validate(input);
    assert!(result.is_valid(), "Expected valid: {:?}", result.errors);

    if let Some(line) = result.lines.iter().find(|l| matches!(l.line_type, LineType::Claim(_))) {
        if let LineType::Claim(claim) = &line.line_type {
            let bf = claim.brief_forms.iter().find(|b| b.operator == "vs");
            assert!(bf.is_some(), "Expected vs operator");
        }
    }
}

#[test]
fn test_brief_form_regardless() {
    let input = "Institutions\n  .dysfunction\n    - self-perpetuate // original purpose";
    let result = validate(input);
    assert!(result.is_valid(), "Expected valid: {:?}", result.errors);

    if let Some(line) = result.lines.iter().find(|l| matches!(l.line_type, LineType::Claim(_))) {
        if let LineType::Claim(claim) = &line.line_type {
            let bf = claim.brief_forms.iter().find(|b| b.operator == "//");
            assert!(bf.is_some(), "Expected // operator");
        }
    }
}

#[test]
fn test_brief_form_missing_left_operand() {
    let input = "Power\n  .core\n    - => corruption";
    let result = validate(input);
    assert!(!result.is_valid());
    assert!(result.errors.iter().any(|e| matches!(e, ValidationError::BriefFormMissingLeftOperand { .. })));
}

#[test]
fn test_brief_form_missing_right_operand() {
    let input = "Power\n  .core\n    - power =>";
    let result = validate(input);
    assert!(!result.is_valid());
    assert!(result.errors.iter().any(|e| matches!(e, ValidationError::BriefFormMissingRightOperand { .. })));
}

#[test]
fn test_modifier_increasing() {
    let input = "Power\n  .nature\n    - concentration^ => abuse";
    let result = validate(input);
    assert!(result.is_valid(), "Expected valid: {:?}", result.errors);

    if let Some(line) = result.lines.iter().find(|l| matches!(l.line_type, LineType::Claim(_))) {
        if let LineType::Claim(claim) = &line.line_type {
            let m = claim.modifiers.iter().find(|m| m.symbol == '^');
            assert!(m.is_some(), "Expected ^ modifier");
            assert_eq!(m.unwrap().attached_to, "concentration");
        }
    }
}

#[test]
fn test_modifier_decreasing() {
    let input = "Trust\n  .trends\n    - institutional-trust v | recent decades";
    let result = validate(input);
    assert!(result.is_valid(), "Expected valid: {:?}", result.errors);

    if let Some(line) = result.lines.iter().find(|l| matches!(l.line_type, LineType::Claim(_))) {
        if let LineType::Claim(claim) = &line.line_type {
            let m = claim.modifiers.iter().find(|m| m.symbol == 'v');
            assert!(m.is_some(), "Expected v modifier");
        }
    }
}

#[test]
fn test_modifier_emphatic() {
    let input = "Trust\n  .erosion\n    - fast !";
    let result = validate(input);
    assert!(result.is_valid(), "Expected valid: {:?}", result.errors);

    if let Some(line) = result.lines.iter().find(|l| matches!(l.line_type, LineType::Claim(_))) {
        if let LineType::Claim(claim) = &line.line_type {
            let m = claim.modifiers.iter().find(|m| m.symbol == '!');
            assert!(m.is_some(), "Expected ! modifier");
        }
    }
}

#[test]
fn test_modifier_uncertain() {
    let input = "Philosophy\n  .questions\n    - free-will? @philosophy";
    let result = validate(input);
    assert!(result.is_valid(), "Expected valid: {:?}", result.errors);

    if let Some(line) = result.lines.iter().find(|l| matches!(l.line_type, LineType::Claim(_))) {
        if let LineType::Claim(claim) = &line.line_type {
            let m = claim.modifiers.iter().find(|m| m.symbol == '?');
            assert!(m.is_some(), "Expected ? modifier");
            assert_eq!(m.unwrap().attached_to, "free-will");
        }
    }
}

#[test]
fn test_modifier_notable() {
    let input = "Change\n  .types\n    - paradigm-shift* | in progress";
    let result = validate(input);
    assert!(result.is_valid(), "Expected valid: {:?}", result.errors);

    if let Some(line) = result.lines.iter().find(|l| matches!(l.line_type, LineType::Claim(_))) {
        if let LineType::Claim(claim) = &line.line_type {
            let m = claim.modifiers.iter().find(|m| m.symbol == '*');
            assert!(m.is_some(), "Expected * modifier");
        }
    }
}

#[test]
fn test_standalone_modifier_warning() {
    // Modifier at start of claim (no preceding term) should warn
    let input = "Power\n  .core\n    - ^ something";
    let result = validate(input);
    assert!(result.is_valid());
    assert!(result.has_warnings());
    assert!(result.warnings.iter().any(|e| matches!(e, ValidationError::StandaloneModifier { .. })));
}

#[test]
fn test_space_separated_modifier_valid() {
    // Space-separated modifier following a term is valid (no warning)
    let input = "Power\n  .core\n    - something ^";
    let result = validate(input);
    assert!(result.is_valid());
    assert!(!result.has_warnings(), "Expected no warnings: {:?}", result.warnings);
}

#[test]
fn test_evolution_marker() {
    let input = "Human-nature\n  .cognition\n    - adaptive, context-dependent [<= inherently good]";
    let result = validate(input);
    assert!(result.is_valid(), "Expected valid: {:?}", result.errors);

    if let Some(line) = result.lines.iter().find(|l| matches!(l.line_type, LineType::Claim(_))) {
        if let LineType::Claim(claim) = &line.line_type {
            assert!(claim.evolution.is_some(), "Expected evolution marker");
            assert_eq!(claim.evolution.as_ref().unwrap().prior_belief, "inherently good");
        }
    }
}

#[test]
fn test_evolution_marker_rationalizes() {
    let input = "Human-nature\n  .cognition\n    - rationalizes post-hoc [<= rational actor]";
    let result = validate(input);
    assert!(result.is_valid(), "Expected valid: {:?}", result.errors);

    if let Some(line) = result.lines.iter().find(|l| matches!(l.line_type, LineType::Claim(_))) {
        if let LineType::Claim(claim) = &line.line_type {
            assert!(claim.evolution.is_some());
            assert_eq!(claim.evolution.as_ref().unwrap().prior_belief, "rational actor");
        }
    }
}

#[test]
fn test_unclosed_evolution_marker() {
    let input = "Human-nature\n  .cognition\n    - adaptive [<= inherently good";
    let result = validate(input);
    assert!(!result.is_valid());
    assert!(result.errors.iter().any(|e| matches!(e, ValidationError::UnclosedEvolutionMarker { .. })));
}

#[test]
fn test_empty_evolution_marker() {
    let input = "Human-nature\n  .cognition\n    - adaptive [<= ]";
    let result = validate(input);
    assert!(!result.is_valid());
    assert!(result.errors.iter().any(|e| matches!(e, ValidationError::EmptyEvolutionMarker { .. })));
}

#[test]
fn test_expanded_document() {
    let input = "Power\n  .nature\n    - corrupts | unchecked !\n    - reveals character => self-knowledge\n    - concentration^ => abuse^ @historical-pattern\n  .institutional\n    - self-preserving\n    - accountability <> trust &Trust.institutional\n    - diffusion => dilution-of-responsibility\n\nTrust\n  .formation\n    - slow\n    - requires consistency | over time\n    - contextual @personal-experience\n  .erosion\n    - fast !\n    - single violation => collapse?\n    - asymmetric vs formation &Trust.formation\n  .institutional\n    - possible | high transparency\n    - unlikely | low transparency\n    - rational to withhold | unverifiable @game-theory\n\nHuman-nature\n  .social\n    - conformist | formal groups\n    - authentic | solitary\n    - status-aware @evolutionary-psychology\n    - coalition-forming\n  .cognition\n    - pattern-seeking\n    - confirmation-biased @cognitive-science\n    - narrative-constructing\n    - rationalizes post-hoc [<= rational actor]\n  .self-perception\n    - overconfident | familiar domains\n    - miscalibrated @Dunning-Kruger\n    - self-deception => comfort &Human-nature.cognition\n\nInstitutions\n  .function\n    - stabilize !\n    - preserve knowledge\n    - coordinate action @game-theory\n  .dysfunction\n    - ossify | over time\n    - self-perpetuate // original purpose\n    - capture-by-interests^ @public-choice-theory";
    let result = validate(input);
    assert!(result.is_valid(), "Expected valid document: {:?}", result.errors);
}
