//! The claim parser: decomposes a claim body (prefix already stripped) into
//! its core text, conditions, sources, references, brief forms, modifiers and
//! evolution marker. Parsing never fails: malformed input yields empty
//! fields, and every failure is reported later by the claim-syntax validator.
//!
//! The inline scan walks the body left to right. `|` closes the claim text
//! (first time) or flushes a condition; `@` and `&` do the same flush and
//! then greedily take the following token as a source or reference. Trailing
//! free text becomes a condition only when no source or reference was
//! collected; after one, it is discarded (the notation's own asymmetric rule,
//! preserved deliberately).

use vstd::prelude::*;
use vstd::string::StrSliceExecFns;
use vstd::string::StringExecFns;
use crate::brief_forms::brief_forms_of;
use crate::brief_forms::extract_brief_forms;
use crate::evolution::evo_split;
use crate::evolution::extract_evolution_marker;
use crate::modifiers::extract_modifiers;
use crate::modifiers::modifiers_of;
use crate::text::scan_while;
use crate::text::trim_str;
use crate::text::trim_ws;
use crate::types::ClaimData;
use crate::types::ClaimView;

verus! {

/// The characters that end the greedy source/reference token: a space or
/// another inline marker.
pub open spec fn is_inline_stop(c: char) -> bool {
    c == ' ' || c == '|' || c == '@' || c == '&'
}

/// End of the source/reference token starting at `j`: the first stop
/// character at or after `j`, or the end of the text.
pub open spec fn token_end(t: Seq<char>, j: int) -> int {
    scan_while(t, |c: char| !is_inline_stop(c), j)
}

/// The state of the inline scan: whether the claim-text segment is still
/// open, the fields collected so far, and the pending accumulator segment.
pub struct ScanState {
    pub in_claim: bool,
    pub text: Seq<char>,
    pub conditions: Seq<Seq<char>>,
    pub sources: Seq<Seq<char>>,
    pub references: Seq<Seq<char>>,
    pub seg: Seq<char>,
}

/// The scan's starting state.
pub open spec fn scan_init() -> ScanState {
    ScanState {
        in_claim: true,
        text: Seq::empty(),
        conditions: Seq::empty(),
        sources: Seq::empty(),
        references: Seq::empty(),
        seg: Seq::empty(),
    }
}

/// Flush the accumulator at a marker: the first flush closes the claim text;
/// later ones append a non-blank segment to the conditions.
pub open spec fn scan_flush(st: ScanState) -> ScanState {
    if st.in_claim {
        ScanState { in_claim: false, text: trim_ws(st.seg), seg: Seq::empty(), ..st }
    } else if trim_ws(st.seg).len() > 0 {
        ScanState { conditions: st.conditions.push(trim_ws(st.seg)), seg: Seq::empty(), ..st }
    } else {
        ScanState { seg: Seq::empty(), ..st }
    }
}

/// One pass of the inline scan over `t` from position `i` in state `st`.
pub open spec fn inline_scan(t: Seq<char>, i: int, st: ScanState) -> ScanState
    decreases t.len() - i,
{
    if !(0 <= i < t.len()) {
        st
    } else if t[i] == '|' {
        inline_scan(t, i + 1, scan_flush(st))
    } else if t[i] == '@' || t[i] == '&' {
        let st1 = scan_flush(st);
        let k = token_end(t, i + 1);
        let tok = trim_ws(t.subrange(i + 1, k));
        let st2 = if tok.len() == 0 {
            st1
        } else if t[i] == '@' {
            ScanState { sources: st1.sources.push(tok), ..st1 }
        } else {
            ScanState { references: st1.references.push(tok), ..st1 }
        };
        if i + 1 <= k <= t.len() {
            inline_scan(t, k, st2)
        } else {
            st2
        }
    } else {
        inline_scan(t, i + 1, ScanState { seg: st.seg.push(t[i]), ..st })
    }
}

/// The end-of-input flush: a pending non-blank segment becomes the claim
/// text if that segment never closed, or one more condition — but only when
/// no source or reference was collected; otherwise it is discarded.
pub open spec fn scan_finish(st: ScanState) -> ScanState {
    if trim_ws(st.seg).len() == 0 {
        st
    } else if st.in_claim {
        ScanState { text: trim_ws(st.seg), ..st }
    } else if st.sources.len() == 0 && st.references.len() == 0 {
        ScanState { conditions: st.conditions.push(trim_ws(st.seg)), ..st }
    } else {
        st
    }
}

/// What parsing the trimmed claim body yields: the evolution marker is cut
/// out first, the remainder is scanned for inline elements, and brief forms
/// and modifiers are read off the finalized claim text.
pub open spec fn parse_claim_spec(body: Seq<char>) -> ClaimView {
    let t = evo_split(body).0;
    let evo = evo_split(body).1;
    let st = scan_finish(inline_scan(t, 0, scan_init()));
    ClaimView {
        text: st.text,
        conditions: st.conditions,
        sources: st.sources,
        references: st.references,
        brief_forms: brief_forms_of(st.text),
        modifiers: modifiers_of(st.text),
        evolution: evo,
    }
}

fn is_inline_stop_exec(c: char) -> (r: bool)
    ensures
        r == is_inline_stop(c),
{
    c == ' ' || c == '|' || c == '@' || c == '&'
}

/// Executable form of [`token_end`].
fn scan_token_end(s: &str, from: usize) -> (r: usize)
    requires
        from <= s@.len(),
    ensures
        r == token_end(s@, from as int),
        from <= r <= s@.len(),
{
    let len = s.unicode_len();
    let mut i: usize = from;
    while i < len && !is_inline_stop_exec(s.get_char(i))
        invariant
            from <= i <= len,
            len == s@.len(),
            token_end(s@, from as int) == token_end(s@, i as int),
        decreases len - i,
    {
        i = i + 1;
    }
    i
}

/// Flush the accumulator segment `seg` at a marker or at end of input; the
/// executable form of [`scan_flush`] on the three fields it can change.
fn do_flush(seg: &str, in_claim: &mut bool, claim_text: &mut String, conditions: &mut Vec<String>)
    ensures
        *final(in_claim) == false,
        *old(in_claim) ==> final(claim_text)@ == trim_ws(seg@) && *final(conditions)
            =~= *old(conditions),
        !*old(in_claim) ==> *final(claim_text) =~= *old(claim_text) && (if trim_ws(seg@).len() > 0 {
            final(conditions).deep_view() == old(conditions).deep_view().push(trim_ws(seg@))
        } else {
            *final(conditions) =~= *old(conditions)
        }),
{
    let t = trim_str(seg);
    if *in_claim {
        *claim_text = String::from_str(t);
        *in_claim = false;
    } else if !t.is_empty() {
        let ghost pre = conditions.deep_view();
        conditions.push(String::from_str(t));
        proof {
            assert(conditions.deep_view() =~= pre.push(trim_ws(seg@)));
        }
    }
}

/// Parse a claim body (the text after the `-` prefix, already trimmed) into
/// structured claim data. Never fails; empty fields signal errors that the
/// claim-syntax validator reports.
pub fn parse_claim(text: &str) -> (c: ClaimData)
    ensures
        c@ == parse_claim_spec(text@),
{
    let (scan_text, evolution) = extract_evolution_marker(text);
    let t = scan_text.as_str();
    let len = t.unicode_len();
    let mut in_claim = true;
    let mut claim_text = String::new();
    let mut conditions: Vec<String> = Vec::new();
    let mut sources: Vec<String> = Vec::new();
    let mut references: Vec<String> = Vec::new();
    let mut seg_start: usize = 0;
    let mut i: usize = 0;
    proof {
        assert(conditions.deep_view() =~= Seq::<Seq<char>>::empty());
        assert(sources.deep_view() =~= Seq::<Seq<char>>::empty());
        assert(references.deep_view() =~= Seq::<Seq<char>>::empty());
        assert(t@.subrange(0, 0) =~= Seq::<char>::empty());
        assert((ScanState {
            in_claim: in_claim,
            text: claim_text@,
            conditions: conditions.deep_view(),
            sources: sources.deep_view(),
            references: references.deep_view(),
            seg: t@.subrange(0, 0),
        }) == scan_init());
    }
    while i < len
        invariant
            0 <= seg_start <= i <= len,
            len == t@.len(),
            t@ == evo_split(text@).0,
            inline_scan(t@, 0, scan_init()) == inline_scan(
                t@,
                i as int,
                (ScanState {
                    in_claim: in_claim,
                    text: claim_text@,
                    conditions: conditions.deep_view(),
                    sources: sources.deep_view(),
                    references: references.deep_view(),
                    seg: t@.subrange(seg_start as int, i as int),
                }),
            ),
        decreases len - i,
    {
        let ghost st = ScanState {
            in_claim: in_claim,
            text: claim_text@,
            conditions: conditions.deep_view(),
            sources: sources.deep_view(),
            references: references.deep_view(),
            seg: t@.subrange(seg_start as int, i as int),
        };
        let c = t.get_char(i);
        if c == '|' {
            do_flush(t.substring_char(seg_start, i), &mut in_claim, &mut claim_text,
                &mut conditions);
            proof {
                let st1 = ScanState {
                    in_claim: in_claim,
                    text: claim_text@,
                    conditions: conditions.deep_view(),
                    sources: sources.deep_view(),
                    references: references.deep_view(),
                    seg: t@.subrange(i + 1, i + 1),
                };
                assert(t@.subrange(i + 1, i + 1) =~= Seq::<char>::empty());
                assert(st1 == scan_flush(st));
            }
            seg_start = i + 1;
            i = i + 1;
        } else if c == '@' || c == '&' {
            do_flush(t.substring_char(seg_start, i), &mut in_claim, &mut claim_text,
                &mut conditions);
            let k = scan_token_end(t, i + 1);
            let tok = trim_str(t.substring_char(i + 1, k));
            let ghost st1 = scan_flush(st);
            if !tok.is_empty() {
                if c == '@' {
                    let ghost pre = sources.deep_view();
                    sources.push(String::from_str(tok));
                    proof {
                        assert(sources.deep_view() =~= pre.push(trim_ws(t@.subrange(
                            i + 1,
                            k as int,
                        ))));
                    }
                } else {
                    let ghost pre = references.deep_view();
                    references.push(String::from_str(tok));
                    proof {
                        assert(references.deep_view() =~= pre.push(trim_ws(t@.subrange(
                            i + 1,
                            k as int,
                        ))));
                    }
                }
            }
            proof {
                let st2 = ScanState {
                    in_claim: in_claim,
                    text: claim_text@,
                    conditions: conditions.deep_view(),
                    sources: sources.deep_view(),
                    references: references.deep_view(),
                    seg: t@.subrange(k as int, k as int),
                };
                assert(t@.subrange(k as int, k as int) =~= Seq::<char>::empty());
                assert(inline_scan(t@, i as int, st) == inline_scan(t@, k as int, st2));
            }
            seg_start = k;
            i = k;
        } else {
            proof {
                let st1 = ScanState {
                    in_claim: in_claim,
                    text: claim_text@,
                    conditions: conditions.deep_view(),
                    sources: sources.deep_view(),
                    references: references.deep_view(),
                    seg: t@.subrange(seg_start as int, i + 1),
                };
                assert(t@.subrange(seg_start as int, i + 1) =~= t@.subrange(
                    seg_start as int,
                    i as int,
                ).push(t@[i as int]));
                assert(st1 == (ScanState { seg: st.seg.push(t@[i as int]), ..st }));
            }
            i = i + 1;
        }
    }
    // End of input: final flush, with the asymmetric condition rule.
    let fin = trim_str(t.substring_char(seg_start, len));
    if !fin.is_empty() {
        if in_claim {
            claim_text = String::from_str(fin);
        } else if sources.is_empty() && references.is_empty() {
            let ghost pre = conditions.deep_view();
            conditions.push(String::from_str(fin));
            proof {
                assert(conditions.deep_view() =~= pre.push(trim_ws(t@.subrange(
                    seg_start as int,
                    len as int,
                ))));
            }
        }
    }
    let brief_forms = extract_brief_forms(claim_text.as_str());
    let modifiers = extract_modifiers(claim_text.as_str());
    let r = ClaimData { text: claim_text, conditions, sources, references, brief_forms, modifiers,
        evolution };
    proof {
        let stf = scan_finish(inline_scan(evo_split(text@).0, 0, scan_init()));
        assert(r@.text == stf.text);
        assert(r@.conditions =~= stf.conditions);
        assert(r@.sources =~= stf.sources);
        assert(r@.references =~= stf.references);
    }
    r
}

} // verus!
