//! Validator for the Worldview line-oriented knowledge notation.
//!
//! A Worldview document is a hierarchy of concepts (unindented lines), facets
//! (2-space indent, `.` prefix) and claims (4-space indent, `-` prefix).
//! Claims may carry inline conditions (`|`), sources (`@`), cross-references
//! (`&Concept.facet`), brief-form relational operators (`=>`, `vs`, ...),
//! single-glyph modifiers (`^`, `v`, `!`, `?`, `*`) and evolution markers
//! (`[<= prior belief]`).
//!
//! [`validate`] classifies every input line, parses claims, checks the
//! structural hierarchy and the inline claim syntax, and returns every error
//! and warning found, ordered, together with the parsed line sequence.

pub mod brief_forms;
pub mod engine;
pub mod evolution;
pub mod laws;
pub mod modifiers;
pub mod ops;
pub mod parse;
pub mod refs;
pub mod render;
pub mod structure;
pub mod syntax;
pub mod text;
pub mod tokenize;
pub mod types;

pub use brief_forms::extract_brief_forms;
pub use engine::validate;
pub use evolution::extract_evolution_marker;
pub use modifiers::extract_modifiers;
pub use parse::parse_claim;
pub use refs::collect_valid_references;
pub use structure::validate_structure;
pub use syntax::validate_claim_syntax;
pub use text::count_leading_spaces;
pub use tokenize::tokenize_line;
pub use types::BriefFormUsage;
pub use types::BriefFormView;
pub use types::ClaimData;
pub use types::ClaimView;
pub use types::ErrorView;
pub use types::EvolutionMarker;
pub use types::EvolutionView;
pub use types::LineType;
pub use types::LineTypeView;
pub use types::LineView;
pub use types::ModifierUsage;
pub use types::ModifierView;
pub use types::ParsedLine;
pub use types::ResultView;
pub use types::ValidationError;
pub use types::ValidationResult;
