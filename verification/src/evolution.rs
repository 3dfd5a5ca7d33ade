//! Evolution markers: a claim may carry one bracketed `[<= prior belief]`
//! annotation recording the belief it supersedes. The marker is cut out of
//! the claim body before any other claim parsing; the trimmed text before and
//! after the bracketed span is concatenated with no separating space (the
//! notation's own, deliberately preserved splice rule).

use vstd::prelude::*;
use vstd::string::StrSliceExecFns;
use vstd::string::StringExecFns;
use crate::ops::evo_open;
use crate::text::find_char_from;
use crate::text::find_sub_from;
use crate::text::find_char_at;
use crate::text::find_sub3_at;
use crate::text::lemma_scan_while;
use crate::text::trim_str;
use crate::text::trim_ws;
use crate::types::EvolutionMarker;
use crate::types::EvolutionView;

verus! {

/// What extracting the evolution marker from claim body `t` yields: the
/// remaining text and the marker, if a `[<=` with a closing `]` after it is
/// present. An unclosed `[<=` leaves the text unchanged and yields no marker
/// (the unclosed-marker error is detected later, from the text itself).
pub open spec fn evo_split(t: Seq<char>) -> (Seq<char>, Option<EvolutionView>) {
    let st = find_sub_from(t, evo_open(), 0);
    if st >= 0 {
        let e = find_char_from(t, ']', st);
        if e < t.len() {
            (
                trim_ws(t.subrange(0, st)) + trim_ws(t.subrange(e + 1, t.len() as int)),
                Some(EvolutionView { prior_belief: trim_ws(t.subrange(st + 3, e)) }),
            )
        } else {
            (t, None)
        }
    } else {
        (t, None)
    }
}

/// Cut the evolution marker, if any, out of a claim body.
pub fn extract_evolution_marker(text: &str) -> (r: (String, Option<EvolutionMarker>))
    ensures
        r.0@ == evo_split(text@).0,
        r.1.deep_view() == evo_split(text@).1,
{
    let len = text.unicode_len();
    match find_sub3_at(text, '[', '<', '=', 0) {
        None => (String::from_str(text), None),
        Some(st) => {
            let e = find_char_at(text, ']', st);
            if e == len {
                proof {
                    lemma_scan_while(text@, |x: char| x != ']', st as int);
                }
                (String::from_str(text), None)
            } else {
                proof {
                    lemma_scan_while(text@, |x: char| x != ']', st as int);
                    let pat = evo_open();
                    assert(text@.subrange(st as int, st + 3) == pat);
                    assert(text@[st as int] == pat[0] && text@[st + 1] == pat[1] && text@[st + 2]
                        == pat[2]) by {
                        assert(text@.subrange(st as int, st + 3)[0] == text@[st as int]);
                        assert(text@.subrange(st as int, st + 3)[1] == text@[st + 1]);
                        assert(text@.subrange(st as int, st + 3)[2] == text@[st + 2]);
                    }
                    assert(text@[e as int] == ']');
                    assert(e >= st + 3);
                }
                let prior = trim_str(text.substring_char(st + 3, e));
                let before = trim_str(text.substring_char(0, st));
                let after = trim_str(text.substring_char(e + 1, len));
                let mut cleaned = String::from_str(before);
                cleaned.append(after);
                (cleaned, Some(EvolutionMarker { prior_belief: String::from_str(prior) }))
            }
        },
    }
}

} // verus!
