//! Rendering: the deterministic textual report of a validation result, and
//! the `line <n>: <message>` form of every error and warning. Verus gives no
//! contract to `Display`, so the report is built by hand and specified down
//! to the character.

use vstd::prelude::*;
use vstd::string::StrSliceExecFns;
use vstd::string::StringExecFns;
use crate::types::ErrorView;
use crate::types::ResultView;
use crate::types::ValidationError;
use crate::types::ValidationResult;

verus! {

/// The decimal digit character for `d`.
pub open spec fn dec_digit(d: int) -> char {
    if d == 0 {
        '0'
    } else if d == 1 {
        '1'
    } else if d == 2 {
        '2'
    } else if d == 3 {
        '3'
    } else if d == 4 {
        '4'
    } else if d == 5 {
        '5'
    } else if d == 6 {
        '6'
    } else if d == 7 {
        '7'
    } else if d == 8 {
        '8'
    } else {
        '9'
    }
}

/// The decimal rendering of `n`, most significant digit first.
pub open spec fn dec_str(n: int) -> Seq<char>
    decreases n,
{
    if n < 10 {
        seq![dec_digit(n)]
    } else {
        dec_str(n / 10).push(dec_digit(n % 10))
    }
}

/// The `line <n>: ` prefix every message carries.
pub open spec fn line_prefix(l: nat) -> Seq<char> {
    "line "@ + dec_str(l as int) + ": "@
}

/// The rendered message of one error or warning.
pub open spec fn message_of(e: ErrorView) -> Seq<char> {
    match e {
        ErrorView::InvalidIndentation { line, expected, found } => line_prefix(line)
            + "invalid indentation (expected "@ + expected + " spaces, found "@ + dec_str(
            found as int,
        ) + ")"@,
        ErrorView::MissingFacetPrefix { line } => line_prefix(line) + "facet must have '.' prefix"@,
        ErrorView::MissingClaimPrefix { line } => line_prefix(line) + "claim must have '-' prefix"@,
        ErrorView::ConceptWithoutFacets { line, concept } => line_prefix(line) + "concept '"@
            + concept + "' has no facets"@,
        ErrorView::FacetWithoutClaims { line, facet } => line_prefix(line) + "facet '"@ + facet
            + "' has no claims"@,
        ErrorView::OrphanFacet { line } => line_prefix(line)
            + "orphan facet (no preceding concept)"@,
        ErrorView::OrphanClaim { line } => line_prefix(line)
            + "orphan claim (no preceding facet)"@,
        ErrorView::EmptyClaimText { line } => line_prefix(line) + "empty claim text"@,
        ErrorView::UnexpectedIndentation { line, found } => line_prefix(line)
            + "unexpected indentation level ("@ + dec_str(found as int) + " spaces)"@,
        ErrorView::EmptyConceptName { line } => line_prefix(line)
            + "concept name cannot be empty"@,
        ErrorView::EmptyFacetName { line } => line_prefix(line) + "facet name cannot be empty"@,
        ErrorView::InvalidReferenceFormat { line, reference } => line_prefix(line)
            + "invalid reference format '"@ + reference + "' (expected &Concept.facet)"@,
        ErrorView::UndefinedReference { line, reference } => line_prefix(line)
            + "undefined reference '"@ + reference + "' (no such concept.facet in document)"@,
        ErrorView::EmptyCondition { line } => line_prefix(line)
            + "empty condition (standalone '|')"@,
        ErrorView::EmptySource { line } => line_prefix(line) + "empty source (standalone '@')"@,
        ErrorView::EmptyReference { line } => line_prefix(line)
            + "empty reference (standalone '&')"@,
        ErrorView::BriefFormMissingLeftOperand { line, operator } => line_prefix(line)
            + "brief form '"@ + operator + "' missing left operand"@,
        ErrorView::BriefFormMissingRightOperand { line, operator } => line_prefix(line)
            + "brief form '"@ + operator + "' missing right operand"@,
        ErrorView::UnclosedEvolutionMarker { line } => line_prefix(line)
            + "unclosed evolution marker '[<=' (missing ']')"@,
        ErrorView::EmptyEvolutionMarker { line } => line_prefix(line)
            + "empty evolution marker '[<= ]' (no prior belief specified)"@,
        ErrorView::MalformedEvolutionMarker { line } => line_prefix(line)
            + "malformed evolution marker (expected '[<= prior belief]')"@,
        ErrorView::StandaloneModifier { line, modifier } => line_prefix(line)
            + "standalone modifier '"@ + modifier + "' may be unintentional"@,
    }
}

/// One indented report line per message, each ending in a newline.
pub open spec fn message_lines(s: Seq<ErrorView>) -> Seq<char>
    decreases s.len(),
{
    if s.len() == 0 {
        Seq::empty()
    } else {
        message_lines(s.drop_last()) + "  "@ + message_of(s.last()) + "\n"@
    }
}

/// The deterministic textual report of a validation result.
pub open spec fn render_of(r: ResultView) -> Seq<char> {
    if r.errors.len() == 0 && r.warnings.len() == 0 {
        "Valid Worldview document"@
    } else if r.errors.len() == 0 {
        "Valid Worldview document with "@ + dec_str(r.warnings.len() as int) + " warning(s):\n"@
            + message_lines(r.warnings)
    } else {
        "Invalid Worldview document ("@ + dec_str(r.errors.len() as int) + " error(s)):\n"@
            + message_lines(r.errors) + (if r.warnings.len() > 0 {
            "Additionally, "@ + dec_str(r.warnings.len() as int) + " warning(s):\n"@
                + message_lines(r.warnings)
        } else {
            Seq::<char>::empty()
        })
    }
}

fn digit_str(d: usize) -> (r: &'static str)
    requires
        d < 10,
    ensures
        r@ == seq![dec_digit(d as int)],
{
    if d == 0 {
        proof {
            reveal_strlit("0");
            assert("0"@ =~= seq![dec_digit(0int)]);
        }
        "0"
    } else if d == 1 {
        proof {
            reveal_strlit("1");
            assert("1"@ =~= seq![dec_digit(1int)]);
        }
        "1"
    } else if d == 2 {
        proof {
            reveal_strlit("2");
            assert("2"@ =~= seq![dec_digit(2int)]);
        }
        "2"
    } else if d == 3 {
        proof {
            reveal_strlit("3");
            assert("3"@ =~= seq![dec_digit(3int)]);
        }
        "3"
    } else if d == 4 {
        proof {
            reveal_strlit("4");
            assert("4"@ =~= seq![dec_digit(4int)]);
        }
        "4"
    } else if d == 5 {
        proof {
            reveal_strlit("5");
            assert("5"@ =~= seq![dec_digit(5int)]);
        }
        "5"
    } else if d == 6 {
        proof {
            reveal_strlit("6");
            assert("6"@ =~= seq![dec_digit(6int)]);
        }
        "6"
    } else if d == 7 {
        proof {
            reveal_strlit("7");
            assert("7"@ =~= seq![dec_digit(7int)]);
        }
        "7"
    } else if d == 8 {
        proof {
            reveal_strlit("8");
            assert("8"@ =~= seq![dec_digit(8int)]);
        }
        "8"
    } else {
        proof {
            reveal_strlit("9");
            assert("9"@ =~= seq![dec_digit(9int)]);
        }
        "9"
    }
}

/// The decimal rendering of `n`.
pub fn dec_string(n: usize) -> (r: String)
    ensures
        r@ == dec_str(n as int),
    decreases n,
{
    if n < 10 {
        String::from_str(digit_str(n))
    } else {
        let mut s = dec_string(n / 10);
        s.append(digit_str(n % 10));
        proof {
            assert(s@ =~= dec_str(n as int));
        }
        s
    }
}

impl ValidationError {
    /// The `line <n>: <message>` form of this error.
    pub fn message(&self) -> (r: String)
        ensures
            r@ == message_of(self@),
    {
        let mut s = String::from_str("line ");
        match self {
            ValidationError::InvalidIndentation { line, expected, found } => {
                s.append(dec_string(*line).as_str());
                s.append(": ");
                s.append("invalid indentation (expected ");
                s.append(expected);
                s.append(" spaces, found ");
                s.append(dec_string(*found).as_str());
                s.append(")");
            },
            ValidationError::MissingFacetPrefix { line } => {
                s.append(dec_string(*line).as_str());
                s.append(": ");
                s.append("facet must have '.' prefix");
            },
            ValidationError::MissingClaimPrefix { line } => {
                s.append(dec_string(*line).as_str());
                s.append(": ");
                s.append("claim must have '-' prefix");
            },
            ValidationError::ConceptWithoutFacets { line, concept } => {
                s.append(dec_string(*line).as_str());
                s.append(": ");
                s.append("concept '");
                s.append(concept.as_str());
                s.append("' has no facets");
            },
            ValidationError::FacetWithoutClaims { line, facet } => {
                s.append(dec_string(*line).as_str());
                s.append(": ");
                s.append("facet '");
                s.append(facet.as_str());
                s.append("' has no claims");
            },
            ValidationError::OrphanFacet { line } => {
                s.append(dec_string(*line).as_str());
                s.append(": ");
                s.append("orphan facet (no preceding concept)");
            },
            ValidationError::OrphanClaim { line } => {
                s.append(dec_string(*line).as_str());
                s.append(": ");
                s.append("orphan claim (no preceding facet)");
            },
            ValidationError::EmptyClaimText { line } => {
                s.append(dec_string(*line).as_str());
                s.append(": ");
                s.append("empty claim text");
            },
            ValidationError::UnexpectedIndentation { line, found } => {
                s.append(dec_string(*line).as_str());
                s.append(": ");
                s.append("unexpected indentation level (");
                s.append(dec_string(*found).as_str());
                s.append(" spaces)");
            },
            ValidationError::EmptyConceptName { line } => {
                s.append(dec_string(*line).as_str());
                s.append(": ");
                s.append("concept name cannot be empty");
            },
            ValidationError::EmptyFacetName { line } => {
                s.append(dec_string(*line).as_str());
                s.append(": ");
                s.append("facet name cannot be empty");
            },
            ValidationError::InvalidReferenceFormat { line, reference } => {
                s.append(dec_string(*line).as_str());
                s.append(": ");
                s.append("invalid reference format '");
                s.append(reference.as_str());
                s.append("' (expected &Concept.facet)");
            },
            ValidationError::UndefinedReference { line, reference } => {
                s.append(dec_string(*line).as_str());
                s.append(": ");
                s.append("undefined reference '");
                s.append(reference.as_str());
                s.append("' (no such concept.facet in document)");
            },
            ValidationError::EmptyCondition { line } => {
                s.append(dec_string(*line).as_str());
                s.append(": ");
                s.append("empty condition (standalone '|')");
            },
            ValidationError::EmptySource { line } => {
                s.append(dec_string(*line).as_str());
                s.append(": ");
                s.append("empty source (standalone '@')");
            },
            ValidationError::EmptyReference { line } => {
                s.append(dec_string(*line).as_str());
                s.append(": ");
                s.append("empty reference (standalone '&')");
            },
            ValidationError::BriefFormMissingLeftOperand { line, operator } => {
                s.append(dec_string(*line).as_str());
                s.append(": ");
                s.append("brief form '");
                s.append(operator.as_str());
                s.append("' missing left operand");
            },
            ValidationError::BriefFormMissingRightOperand { line, operator } => {
                s.append(dec_string(*line).as_str());
                s.append(": ");
                s.append("brief form '");
                s.append(operator.as_str());
                s.append("' missing right operand");
            },
            ValidationError::UnclosedEvolutionMarker { line } => {
                s.append(dec_string(*line).as_str());
                s.append(": ");
                s.append("unclosed evolution marker '[<=' (missing ']')");
            },
            ValidationError::EmptyEvolutionMarker { line } => {
                s.append(dec_string(*line).as_str());
                s.append(": ");
                s.append("empty evolution marker '[<= ]' (no prior belief specified)");
            },
            ValidationError::MalformedEvolutionMarker { line } => {
                s.append(dec_string(*line).as_str());
                s.append(": ");
                s.append("malformed evolution marker (expected '[<= prior belief]')");
            },
            ValidationError::StandaloneModifier { line, modifier } => {
                s.append(dec_string(*line).as_str());
                s.append(": ");
                s.append("standalone modifier '");
                s.append(modifier.as_str());
                s.append("' may be unintentional");
            },
        }
        s
    }
}

/// Append one indented report line per message.
fn append_message_lines(out: &mut String, items: &Vec<ValidationError>)
    ensures
        final(out)@ == old(out)@ + message_lines(items.deep_view()),
{
    let ghost base = out@;
    let ghost idv = items.deep_view();
    let n = items.len();
    let mut i: usize = 0;
    proof {
        assert(idv.take(0) =~= Seq::<ErrorView>::empty());
        assert(out@ =~= base + message_lines(idv.take(0)));
    }
    while i < n
        invariant
            0 <= i <= n,
            n == items@.len(),
            idv == items.deep_view(),
            idv.len() == n,
            out@ == base + message_lines(idv.take(i as int)),
        decreases n - i,
    {
        proof {
            assert(idv.take(i + 1).drop_last() =~= idv.take(i as int));
            assert(idv.take(i + 1).last() == idv[i as int]);
            assert(items@[i as int].deep_view() == idv[i as int]);
        }
        out.append("  ");
        let m = items[i].message();
        out.append(m.as_str());
        out.append("\n");
        proof {
            assert(out@ =~= base + message_lines(idv.take(i + 1)));
        }
        i = i + 1;
    }
    proof {
        assert(idv.take(n as int) =~= idv);
    }
}

impl ValidationResult {
    /// The deterministic textual report: `Valid Worldview document`, the
    /// valid-with-warnings form, or the invalid form listing every error and
    /// then every warning, each as `line <n>: <message>`.
    pub fn render(&self) -> (r: String)
        ensures
            r@ == render_of(self@),
    {
        if self.errors.is_empty() && self.warnings.is_empty() {
            String::from_str("Valid Worldview document")
        } else if self.errors.is_empty() {
            let mut out = String::from_str("Valid Worldview document with ");
            out.append(dec_string(self.warnings.len()).as_str());
            out.append(" warning(s):\n");
            append_message_lines(&mut out, &self.warnings);
            proof {
                assert(out@ =~= render_of(self@));
            }
            out
        } else {
            let mut out = String::from_str("Invalid Worldview document (");
            out.append(dec_string(self.errors.len()).as_str());
            out.append(" error(s)):\n");
            append_message_lines(&mut out, &self.errors);
            if !self.warnings.is_empty() {
                out.append("Additionally, ");
                out.append(dec_string(self.warnings.len()).as_str());
                out.append(" warning(s):\n");
                append_message_lines(&mut out, &self.warnings);
            }
            proof {
                assert(out@ =~= render_of(self@));
            }
            out
        }
    }
}

} // verus!
