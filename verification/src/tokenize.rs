//! The line classifier: each raw input line becomes exactly one of Blank,
//! Concept, Facet or Claim from its indentation and prefix. A malformed line
//! records an error and degrades to Blank, so it never contributes to the
//! structure — with one exception: a facet named emptily keeps its facet
//! identity alongside the error.

use vstd::prelude::*;
use vstd::string::StrSliceExecFns;
use vstd::string::StringExecFns;
use crate::parse::parse_claim;
use crate::parse::parse_claim_spec;
use crate::text::count_leading_spaces;
use crate::text::leading_spaces;
use crate::text::trim_str;
use crate::text::trim_ws;
use crate::types::ErrorView;
use crate::types::LineType;
use crate::types::LineTypeView;
use crate::types::ValidationError;

verus! {

/// The indentation levels a line may legitimately have, as named in the
/// invalid-indentation error.
pub open spec fn expected_indent_levels() -> Seq<char> {
    "0, 2, or 4"@
}

/// What classifying raw line `raw` with 1-based number `n` yields: its line
/// type and the errors recorded for it.
pub open spec fn classify_line(raw: Seq<char>, n: nat) -> (LineTypeView, Seq<ErrorView>) {
    if trim_ws(raw).len() == 0 {
        (LineTypeView::Blank, Seq::empty())
    } else {
        let indent = leading_spaces(raw);
        let content = trim_ws(raw);
        if indent == 0 {
            if content.len() == 0 {
                (LineTypeView::Blank, seq![ErrorView::EmptyConceptName { line: n }])
            } else {
                (LineTypeView::Concept(content), Seq::empty())
            }
        } else if indent == 2 {
            if content[0] != '.' {
                (LineTypeView::Blank, seq![ErrorView::MissingFacetPrefix { line: n }])
            } else {
                let name = trim_ws(content.drop_first());
                if name.len() == 0 {
                    (LineTypeView::Facet(name), seq![ErrorView::EmptyFacetName { line: n }])
                } else {
                    (LineTypeView::Facet(name), Seq::empty())
                }
            }
        } else if indent == 4 {
            if content[0] != '-' {
                (LineTypeView::Blank, seq![ErrorView::MissingClaimPrefix { line: n }])
            } else {
                (
                    LineTypeView::Claim(parse_claim_spec(trim_ws(content.drop_first()))),
                    Seq::empty(),
                )
            }
        } else if indent == 1 || indent == 3 {
            (
                LineTypeView::Blank,
                seq![
                    ErrorView::InvalidIndentation {
                        line: n,
                        expected: expected_indent_levels(),
                        found: indent as nat,
                    },
                ],
            )
        } else {
            (
                LineTypeView::Blank,
                seq![ErrorView::UnexpectedIndentation { line: n, found: indent as nat }],
            )
        }
    }
}

/// Classify a single raw line, appending any errors found.
pub fn tokenize_line(line: &str, line_number: usize, errors: &mut Vec<ValidationError>) -> (t:
    LineType)
    ensures
        t@ == classify_line(line@, line_number as nat).0,
        final(errors).deep_view() == old(errors).deep_view() + classify_line(
            line@,
            line_number as nat,
        ).1,
{
    let ghost n = line_number as nat;
    let ghost base = errors.deep_view();
    let content = trim_str(line);
    if content.is_empty() {
        proof {
            assert(errors.deep_view() =~= base + classify_line(line@, n).1);
        }
        return LineType::Blank;
    }
    let indent = count_leading_spaces(line);
    let clen = content.unicode_len();
    if indent == 0 {
        proof {
            assert(errors.deep_view() =~= base + classify_line(line@, n).1);
        }
        LineType::Concept(String::from_str(content))
    } else if indent == 2 {
        if content.get_char(0) != '.' {
            errors.push(ValidationError::MissingFacetPrefix { line: line_number });
            proof {
                assert(errors.deep_view() =~= base + classify_line(line@, n).1);
            }
            LineType::Blank
        } else {
            let name = trim_str(content.substring_char(1, clen));
            proof {
                assert(content@.subrange(1, clen as int) =~= content@.drop_first());
            }
            if name.is_empty() {
                errors.push(ValidationError::EmptyFacetName { line: line_number });
                proof {
                    assert(errors.deep_view() =~= base + classify_line(line@, n).1);
                }
                LineType::Facet(String::from_str(name))
            } else {
                proof {
                    assert(errors.deep_view() =~= base + classify_line(line@, n).1);
                }
                LineType::Facet(String::from_str(name))
            }
        }
    } else if indent == 4 {
        if content.get_char(0) != '-' {
            errors.push(ValidationError::MissingClaimPrefix { line: line_number });
            proof {
                assert(errors.deep_view() =~= base + classify_line(line@, n).1);
            }
            LineType::Blank
        } else {
            let body = trim_str(content.substring_char(1, clen));
            proof {
                assert(content@.subrange(1, clen as int) =~= content@.drop_first());
            }
            let claim = parse_claim(body);
            proof {
                assert(errors.deep_view() =~= base + classify_line(line@, n).1);
            }
            LineType::Claim(claim)
        }
    } else {
        if indent == 1 || indent == 3 {
            errors.push(ValidationError::InvalidIndentation {
                line: line_number,
                expected: "0, 2, or 4",
                found: indent,
            });
        } else {
            errors.push(ValidationError::UnexpectedIndentation {
                line: line_number,
                found: indent,
            });
        }
        proof {
            assert(errors.deep_view() =~= base + classify_line(line@, n).1);
        }
        LineType::Blank
    }
}

} // verus!
