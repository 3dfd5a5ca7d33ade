//! The validator's data model: parsed lines, claim data, validation errors,
//! and the aggregated validation result, each with a mathematical view used
//! by the contracts (`Seq<char>` for strings, `nat` for line numbers).

use vstd::prelude::*;

verus! {

/// Mathematical view of a [`BriefFormUsage`].
pub struct BriefFormView {
    pub operator: Seq<char>,
    pub left_operand: Seq<char>,
    pub right_operand: Seq<char>,
}

/// Mathematical view of a [`ModifierUsage`].
pub struct ModifierView {
    pub symbol: char,
    pub attached_to: Seq<char>,
}

/// Mathematical view of an [`EvolutionMarker`].
pub struct EvolutionView {
    pub prior_belief: Seq<char>,
}

/// Mathematical view of a [`ClaimData`].
pub struct ClaimView {
    pub text: Seq<char>,
    pub conditions: Seq<Seq<char>>,
    pub sources: Seq<Seq<char>>,
    pub references: Seq<Seq<char>>,
    pub brief_forms: Seq<BriefFormView>,
    pub modifiers: Seq<ModifierView>,
    pub evolution: Option<EvolutionView>,
}

/// Mathematical view of a [`LineType`].
pub enum LineTypeView {
    Blank,
    Concept(Seq<char>),
    Facet(Seq<char>),
    Claim(ClaimView),
}

/// Mathematical view of a [`ParsedLine`].
pub struct LineView {
    pub line_number: nat,
    pub line_type: LineTypeView,
    pub raw: Seq<char>,
}

/// Mathematical view of a [`ValidationError`].
pub enum ErrorView {
    InvalidIndentation { line: nat, expected: Seq<char>, found: nat },
    MissingFacetPrefix { line: nat },
    MissingClaimPrefix { line: nat },
    ConceptWithoutFacets { line: nat, concept: Seq<char> },
    FacetWithoutClaims { line: nat, facet: Seq<char> },
    OrphanFacet { line: nat },
    OrphanClaim { line: nat },
    EmptyClaimText { line: nat },
    UnexpectedIndentation { line: nat, found: nat },
    EmptyConceptName { line: nat },
    EmptyFacetName { line: nat },
    InvalidReferenceFormat { line: nat, reference: Seq<char> },
    UndefinedReference { line: nat, reference: Seq<char> },
    EmptyCondition { line: nat },
    EmptySource { line: nat },
    EmptyReference { line: nat },
    BriefFormMissingLeftOperand { line: nat, operator: Seq<char> },
    BriefFormMissingRightOperand { line: nat, operator: Seq<char> },
    UnclosedEvolutionMarker { line: nat },
    EmptyEvolutionMarker { line: nat },
    MalformedEvolutionMarker { line: nat },
    StandaloneModifier { line: nat, modifier: Seq<char> },
}

/// Mathematical view of a [`ValidationResult`].
pub struct ResultView {
    pub errors: Seq<ErrorView>,
    pub warnings: Seq<ErrorView>,
    pub lines: Seq<LineView>,
}

/// A brief-form operator found in a claim, with the term before and after it.
#[derive(Debug, Clone, PartialEq, Eq)]
pub struct BriefFormUsage {
    pub operator: String,
    pub left_operand: String,
    pub right_operand: String,
}

/// A modifier glyph found in a claim, with the term it modifies.
#[derive(Debug, Clone, PartialEq, Eq)]
pub struct ModifierUsage {
    pub symbol: char,
    pub attached_to: String,
}

/// An evolution marker `[<= prior belief]` found in a claim.
#[derive(Debug, Clone, PartialEq, Eq)]
pub struct EvolutionMarker {
    pub prior_belief: String,
}

/// Parsed claim data: the core assertion plus every inline element found.
#[derive(Debug, Clone, PartialEq, Eq)]
pub struct ClaimData {
    pub text: String,
    pub conditions: Vec<String>,
    pub sources: Vec<String>,
    pub references: Vec<String>,
    pub brief_forms: Vec<BriefFormUsage>,
    pub modifiers: Vec<ModifierUsage>,
    pub evolution: Option<EvolutionMarker>,
}

/// The classification of a single input line.
#[derive(Debug, Clone, PartialEq, Eq)]
pub enum LineType {
    /// Empty line, whitespace-only line, or malformed line degraded to blank.
    Blank,
    /// A concept (unindented text).
    Concept(String),
    /// A facet (2-space indent, `.` prefix).
    Facet(String),
    /// A claim (4-space indent, `-` prefix).
    Claim(ClaimData),
}

/// A parsed line with its 1-based line number and original text.
#[derive(Debug, Clone)]
pub struct ParsedLine {
    pub line_number: usize,
    pub line_type: LineType,
    pub raw: String,
}

/// Errors and warnings that validation can report, each carrying the
/// offending 1-based line number and any relevant offending substrings.
#[derive(Debug, Clone, PartialEq, Eq)]
pub enum ValidationError {
    InvalidIndentation { line: usize, expected: &'static str, found: usize },
    MissingFacetPrefix { line: usize },
    MissingClaimPrefix { line: usize },
    ConceptWithoutFacets { line: usize, concept: String },
    FacetWithoutClaims { line: usize, facet: String },
    OrphanFacet { line: usize },
    OrphanClaim { line: usize },
    EmptyClaimText { line: usize },
    UnexpectedIndentation { line: usize, found: usize },
    EmptyConceptName { line: usize },
    EmptyFacetName { line: usize },
    InvalidReferenceFormat { line: usize, reference: String },
    UndefinedReference { line: usize, reference: String },
    EmptyCondition { line: usize },
    EmptySource { line: usize },
    EmptyReference { line: usize },
    BriefFormMissingLeftOperand { line: usize, operator: String },
    BriefFormMissingRightOperand { line: usize, operator: String },
    UnclosedEvolutionMarker { line: usize },
    EmptyEvolutionMarker { line: usize },
    MalformedEvolutionMarker { line: usize },
    StandaloneModifier { line: usize, modifier: String },
}

/// Result of validating a document: the errors and warnings in the order
/// collected, and every input line as parsed.
#[derive(Debug, Clone)]
pub struct ValidationResult {
    pub errors: Vec<ValidationError>,
    pub warnings: Vec<ValidationError>,
    pub lines: Vec<ParsedLine>,
}

impl View for BriefFormUsage {
    type V = BriefFormView;

    open spec fn view(&self) -> BriefFormView {
        BriefFormView {
            operator: self.operator@,
            left_operand: self.left_operand@,
            right_operand: self.right_operand@,
        }
    }
}

impl DeepView for BriefFormUsage {
    type V = BriefFormView;

    open spec fn deep_view(&self) -> BriefFormView {
        self.view()
    }
}

impl View for ModifierUsage {
    type V = ModifierView;

    open spec fn view(&self) -> ModifierView {
        ModifierView { symbol: self.symbol, attached_to: self.attached_to@ }
    }
}

impl DeepView for ModifierUsage {
    type V = ModifierView;

    open spec fn deep_view(&self) -> ModifierView {
        self.view()
    }
}

impl View for EvolutionMarker {
    type V = EvolutionView;

    open spec fn view(&self) -> EvolutionView {
        EvolutionView { prior_belief: self.prior_belief@ }
    }
}

impl DeepView for EvolutionMarker {
    type V = EvolutionView;

    open spec fn deep_view(&self) -> EvolutionView {
        self.view()
    }
}

impl View for ClaimData {
    type V = ClaimView;

    open spec fn view(&self) -> ClaimView {
        ClaimView {
            text: self.text@,
            conditions: self.conditions.deep_view(),
            sources: self.sources.deep_view(),
            references: self.references.deep_view(),
            brief_forms: self.brief_forms.deep_view(),
            modifiers: self.modifiers.deep_view(),
            evolution: self.evolution.deep_view(),
        }
    }
}

impl DeepView for ClaimData {
    type V = ClaimView;

    open spec fn deep_view(&self) -> ClaimView {
        self.view()
    }
}

impl View for LineType {
    type V = LineTypeView;

    open spec fn view(&self) -> LineTypeView {
        match self {
            LineType::Blank => LineTypeView::Blank,
            LineType::Concept(name) => LineTypeView::Concept(name@),
            LineType::Facet(name) => LineTypeView::Facet(name@),
            LineType::Claim(claim) => LineTypeView::Claim(claim@),
        }
    }
}

impl DeepView for LineType {
    type V = LineTypeView;

    open spec fn deep_view(&self) -> LineTypeView {
        self.view()
    }
}

impl View for ParsedLine {
    type V = LineView;

    open spec fn view(&self) -> LineView {
        LineView {
            line_number: self.line_number as nat,
            line_type: self.line_type@,
            raw: self.raw@,
        }
    }
}

impl DeepView for ParsedLine {
    type V = LineView;

    open spec fn deep_view(&self) -> LineView {
        self.view()
    }
}

impl View for ValidationError {
    type V = ErrorView;

    open spec fn view(&self) -> ErrorView {
        match self {
            ValidationError::InvalidIndentation { line, expected, found } =>
                ErrorView::InvalidIndentation {
                    line: *line as nat,
                    expected: expected@,
                    found: *found as nat,
                },
            ValidationError::MissingFacetPrefix { line } => ErrorView::MissingFacetPrefix {
                line: *line as nat,
            },
            ValidationError::MissingClaimPrefix { line } => ErrorView::MissingClaimPrefix {
                line: *line as nat,
            },
            ValidationError::ConceptWithoutFacets { line, concept } =>
                ErrorView::ConceptWithoutFacets { line: *line as nat, concept: concept@ },
            ValidationError::FacetWithoutClaims { line, facet } => ErrorView::FacetWithoutClaims {
                line: *line as nat,
                facet: facet@,
            },
            ValidationError::OrphanFacet { line } => ErrorView::OrphanFacet {
                line: *line as nat,
            },
            ValidationError::OrphanClaim { line } => ErrorView::OrphanClaim {
                line: *line as nat,
            },
            ValidationError::EmptyClaimText { line } => ErrorView::EmptyClaimText {
                line: *line as nat,
            },
            ValidationError::UnexpectedIndentation { line, found } =>
                ErrorView::UnexpectedIndentation { line: *line as nat, found: *found as nat },
            ValidationError::EmptyConceptName { line } => ErrorView::EmptyConceptName {
                line: *line as nat,
            },
            ValidationError::EmptyFacetName { line } => ErrorView::EmptyFacetName {
                line: *line as nat,
            },
            ValidationError::InvalidReferenceFormat { line, reference } =>
                ErrorView::InvalidReferenceFormat { line: *line as nat, reference: reference@ },
            ValidationError::UndefinedReference { line, reference } =>
                ErrorView::UndefinedReference { line: *line as nat, reference: reference@ },
            ValidationError::EmptyCondition { line } => ErrorView::EmptyCondition {
                line: *line as nat,
            },
            ValidationError::EmptySource { line } => ErrorView::EmptySource {
                line: *line as nat,
            },
            ValidationError::EmptyReference { line } => ErrorView::EmptyReference {
                line: *line as nat,
            },
            ValidationError::BriefFormMissingLeftOperand { line, operator } =>
                ErrorView::BriefFormMissingLeftOperand { line: *line as nat, operator: operator@ },
            ValidationError::BriefFormMissingRightOperand { line, operator } =>
                ErrorView::BriefFormMissingRightOperand { line: *line as nat, operator: operator@ },
            ValidationError::UnclosedEvolutionMarker { line } => ErrorView::UnclosedEvolutionMarker {
                line: *line as nat,
            },
            ValidationError::EmptyEvolutionMarker { line } => ErrorView::EmptyEvolutionMarker {
                line: *line as nat,
            },
            ValidationError::MalformedEvolutionMarker { line } =>
                ErrorView::MalformedEvolutionMarker { line: *line as nat },
            ValidationError::StandaloneModifier { line, modifier } => ErrorView::StandaloneModifier {
                line: *line as nat,
                modifier: modifier@,
            },
        }
    }
}

impl DeepView for ValidationError {
    type V = ErrorView;

    open spec fn deep_view(&self) -> ErrorView {
        self.view()
    }
}

impl View for ValidationResult {
    type V = ResultView;

    open spec fn view(&self) -> ResultView {
        ResultView {
            errors: self.errors.deep_view(),
            warnings: self.warnings.deep_view(),
            lines: self.lines.deep_view(),
        }
    }
}

/// Append one error, tracking its view.
pub(crate) fn push_err(errors: &mut Vec<ValidationError>, e: ValidationError)
    ensures
        final(errors).deep_view() == old(errors).deep_view().push(e@),
{
    let ghost pre = errors.deep_view();
    errors.push(e);
    proof {
        assert(errors.deep_view() =~= pre.push(e@));
    }
}

impl ValidationError {
    /// True of the soft diagnostics (standalone modifiers): reported apart
    /// from the hard errors, and never making a document invalid.
    pub fn is_warning(&self) -> (r: bool)
        ensures
            r == (self@ is StandaloneModifier),
    {
        matches!(self, ValidationError::StandaloneModifier { .. })
    }
}

impl ValidationResult {
    /// A document is valid exactly when validation found no error.
    pub fn is_valid(&self) -> (r: bool)
        ensures
            r == (self@.errors.len() == 0),
    {
        self.errors.is_empty()
    }

    /// True when validation found at least one warning.
    pub fn has_warnings(&self) -> (r: bool)
        ensures
            r == (self@.warnings.len() > 0),
    {
        !self.warnings.is_empty()
    }
}

} // verus!
