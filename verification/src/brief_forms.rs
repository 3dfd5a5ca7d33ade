//! Brief forms: short relational operators inside a claim's core text
//! (`power => corruption`). Operators are extracted in a fixed precedence
//! order, longer and more specific symbols first, so that no operator is
//! double-counted as a substring of another; the bare `=` gets a dedicated
//! scan that refuses positions belonging to `=>`, `<=` or `><`. Operands are
//! the whitespace tokens on either side, with trailing modifier glyphs
//! stripped (except for `=`, whose operands are taken verbatim).

use vstd::prelude::*;
use vstd::string::StrSliceExecFns;
use vstd::string::StringExecFns;
use crate::ops::evo_open;
use crate::ops::op_caused_by;
use crate::ops::op_causes;
use crate::ops::op_contrast;
use crate::ops::op_equiv;
use crate::ops::op_mutual;
use crate::ops::op_regardless;
use crate::ops::op_similar;
use crate::ops::op_tension;
use crate::ops::strip_operand_glyphs;
use crate::ops::strip_operand_glyphs_str;
use crate::text::contains_sub;
use crate::text::find_sub_from;
use crate::text::find_sub1_at;
use crate::text::find_sub2_at;
use crate::text::find_sub3_at;
use crate::text::first_token_from;
use crate::text::first_token_str;
use crate::text::last_token_str;
use crate::text::last_token_upto;
use crate::types::BriefFormUsage;
use crate::types::BriefFormView;

verus! {

/// The usage recorded for an occurrence of `op` at position `idx` of `t`:
/// the operator, the token just before it and the token just after it, the
/// operand tokens cleaned of trailing modifier glyphs.
pub open spec fn bf_at(t: Seq<char>, op: Seq<char>, idx: int) -> BriefFormView {
    BriefFormView {
        operator: op,
        left_operand: strip_operand_glyphs(last_token_upto(t, idx)),
        right_operand: strip_operand_glyphs(first_token_from(t, idx + op.len())),
    }
}

/// The usages of `op` over its left-to-right, non-overlapping occurrences in
/// `t` at or after position `i`.
pub open spec fn bf_from(t: Seq<char>, op: Seq<char>, i: int) -> Seq<BriefFormView>
    decreases t.len() - i,
{
    if !(0 <= i <= t.len()) || op.len() == 0 {
        Seq::empty()
    } else {
        let j = find_sub_from(t, op, i);
        if j < 0 {
            Seq::empty()
        } else if i <= j && j + op.len() <= t.len() {
            seq![bf_at(t, op, j)] + bf_from(t, op, j + op.len())
        } else {
            Seq::empty()
        }
    }
}

/// All usages of `op` in `t`.
pub open spec fn bf_for_op(t: Seq<char>, op: Seq<char>) -> Seq<BriefFormView> {
    bf_from(t, op, 0)
}

/// The usages of the bare `=` operator at or after position `i`: every `=`
/// not immediately preceded by `<` or `>` and not immediately followed by
/// `>`, with verbatim operand tokens, kept only when at least one operand is
/// non-empty.
pub open spec fn eq_usages_from(t: Seq<char>, i: int) -> Seq<BriefFormView>
    decreases t.len() - i,
{
    if !(0 <= i < t.len()) {
        Seq::empty()
    } else {
        let rest = eq_usages_from(t, i + 1);
        if t[i] == '=' && (i == 0 || (t[i - 1] != '<' && t[i - 1] != '>')) && (i + 1 == t.len()
            || t[i + 1] != '>') {
            let left = last_token_upto(t, i);
            let right = first_token_from(t, i + 1);
            if left.len() > 0 || right.len() > 0 {
                seq![
                    BriefFormView { operator: op_equiv(), left_operand: left, right_operand: right },
                ] + rest
            } else {
                rest
            }
        } else {
            rest
        }
    }
}

/// Every brief-form usage of claim text `t`, in operator precedence order
/// (`=>`, `<=`, `<>`, `><`, `//`, `vs`, `~`, `=`), occurrences of one
/// operator left to right. `<=` is skipped entirely while an unclosed `[<=`
/// bracket remains in the text.
pub open spec fn brief_forms_of(t: Seq<char>) -> Seq<BriefFormView> {
    bf_for_op(t, op_causes()) + (if contains_sub(t, evo_open()) {
        Seq::<BriefFormView>::empty()
    } else {
        bf_for_op(t, op_caused_by())
    }) + bf_for_op(t, op_mutual()) + bf_for_op(t, op_tension()) + bf_for_op(t, op_regardless())
        + bf_for_op(t, op_contrast()) + bf_for_op(t, op_similar()) + eq_usages_from(t, 0)
}

/// Append the usages of the two-character operator `a b` to `v`.
fn collect_op2(s: &str, a: char, b: char, op_str: &str, v: &mut Vec<BriefFormUsage>)
    requires
        op_str@ == seq![a, b],
    ensures
        final(v).deep_view() == old(v).deep_view() + bf_from(s@, seq![a, b], 0),
{
    let ghost op = seq![a, b];
    let ghost base = v.deep_view();
    let len = s.unicode_len();
    let mut from: usize = 0;
    loop
        invariant
            from <= len,
            len == s@.len(),
            op == seq![a, b],
            op_str@ == op,
            base == old(v).deep_view(),
            base + bf_from(s@, op, 0) == v.deep_view() + bf_from(s@, op, from as int),
        decreases len - from,
    {
        match find_sub2_at(s, a, b, from) {
            None => {
                assert(bf_from(s@, op, from as int) =~= Seq::<BriefFormView>::empty());
                assert(v.deep_view() =~= base + bf_from(s@, op, 0));
                return;
            },
            Some(j) => {
                let left = last_token_str(s, j);
                let right = first_token_str(s, j + 2);
                let u = BriefFormUsage {
                    operator: String::from_str(op_str),
                    left_operand: strip_operand_glyphs_str(left.as_str()),
                    right_operand: strip_operand_glyphs_str(right.as_str()),
                };
                proof {
                    assert(u@ == bf_at(s@, op, j as int));
                    assert(bf_from(s@, op, from as int) == seq![bf_at(s@, op, j as int)] + bf_from(
                        s@,
                        op,
                        j + 2,
                    ));
                }
                let ghost pre = v.deep_view();
                v.push(u);
                proof {
                    assert(v.deep_view() =~= pre.push(bf_at(s@, op, j as int)));
                    assert(pre + bf_from(s@, op, from as int) =~= v.deep_view() + bf_from(
                        s@,
                        op,
                        j + 2,
                    ));
                }
                from = j + 2;
            },
        }
    }
}

/// Append the usages of the one-character operator `a` to `v`.
fn collect_op1(s: &str, a: char, op_str: &str, v: &mut Vec<BriefFormUsage>)
    requires
        op_str@ == seq![a],
    ensures
        final(v).deep_view() == old(v).deep_view() + bf_from(s@, seq![a], 0),
{
    let ghost op = seq![a];
    let ghost base = v.deep_view();
    let len = s.unicode_len();
    let mut from: usize = 0;
    loop
        invariant
            from <= len,
            len == s@.len(),
            op == seq![a],
            op_str@ == op,
            base == old(v).deep_view(),
            base + bf_from(s@, op, 0) == v.deep_view() + bf_from(s@, op, from as int),
        decreases len - from,
    {
        match find_sub1_at(s, a, from) {
            None => {
                assert(bf_from(s@, op, from as int) =~= Seq::<BriefFormView>::empty());
                assert(v.deep_view() =~= base + bf_from(s@, op, 0));
                return;
            },
            Some(j) => {
                let left = last_token_str(s, j);
                let right = first_token_str(s, j + 1);
                let u = BriefFormUsage {
                    operator: String::from_str(op_str),
                    left_operand: strip_operand_glyphs_str(left.as_str()),
                    right_operand: strip_operand_glyphs_str(right.as_str()),
                };
                proof {
                    assert(u@ == bf_at(s@, op, j as int));
                    assert(bf_from(s@, op, from as int) == seq![bf_at(s@, op, j as int)] + bf_from(
                        s@,
                        op,
                        j + 1,
                    ));
                }
                let ghost pre = v.deep_view();
                v.push(u);
                proof {
                    assert(v.deep_view() =~= pre.push(bf_at(s@, op, j as int)));
                    assert(pre + bf_from(s@, op, from as int) =~= v.deep_view() + bf_from(
                        s@,
                        op,
                        j + 1,
                    ));
                }
                from = j + 1;
            },
        }
    }
}

/// Append the usages of the bare `=` operator to `v`.
fn collect_eq(s: &str, v: &mut Vec<BriefFormUsage>)
    ensures
        final(v).deep_view() == old(v).deep_view() + eq_usages_from(s@, 0),
{
    let ghost base = v.deep_view();
    let len = s.unicode_len();
    let mut i: usize = 0;
    while i < len
        invariant
            i <= len,
            len == s@.len(),
            base + eq_usages_from(s@, 0) == v.deep_view() + eq_usages_from(s@, i as int),
        decreases len - i,
    {
        if s.get_char(i) == '=' && (i == 0 || (s.get_char(i - 1) != '<' && s.get_char(i - 1)
            != '>')) && (i + 1 == len || s.get_char(i + 1) != '>') {
            let left = last_token_str(s, i);
            let right = first_token_str(s, i + 1);
            if !left.as_str().is_empty() || !right.as_str().is_empty() {
                let u = BriefFormUsage {
                    operator: eq_op_string(),
                    left_operand: left,
                    right_operand: right,
                };
                proof {
                    assert(u@ == (BriefFormView {
                        operator: op_equiv(),
                        left_operand: last_token_upto(s@, i as int),
                        right_operand: first_token_from(s@, i + 1),
                    }));
                }
                let ghost pre = v.deep_view();
                v.push(u);
                proof {
                    assert(v.deep_view() =~= pre.push(u@));
                    assert(pre + eq_usages_from(s@, i as int) =~= v.deep_view() + eq_usages_from(
                        s@,
                        i + 1,
                    ));
                }
            } else {
                assert(v.deep_view() + eq_usages_from(s@, i as int) =~= v.deep_view()
                    + eq_usages_from(s@, i + 1));
            }
        } else {
            assert(v.deep_view() + eq_usages_from(s@, i as int) =~= v.deep_view()
                + eq_usages_from(s@, i + 1));
        }
        i = i + 1;
    }
    assert(eq_usages_from(s@, i as int) =~= Seq::<BriefFormView>::empty());
    assert(v.deep_view() =~= v.deep_view() + eq_usages_from(s@, i as int));
}

/// The bare `=` operator as an owned string.
fn eq_op_string() -> (r: String)
    ensures
        r@ == op_equiv(),
{
    proof {
        reveal_strlit("=");
    }
    let r = String::from_str("=");
    proof {
        assert(r@ =~= op_equiv());
    }
    r
}

/// Every brief-form usage of the finalized claim text, in the fixed operator
/// precedence order.
pub fn extract_brief_forms(text: &str) -> (v: Vec<BriefFormUsage>)
    ensures
        v.deep_view() == brief_forms_of(text@),
{
    proof {
        reveal_strlit("=>");
        reveal_strlit("<=");
        reveal_strlit("<>");
        reveal_strlit("><");
        reveal_strlit("//");
        reveal_strlit("vs");
        reveal_strlit("~");
    }
    let mut v: Vec<BriefFormUsage> = Vec::new();
    proof {
        assert("=>"@ =~= op_causes());
        assert("<="@ =~= op_caused_by());
        assert("<>"@ =~= op_mutual());
        assert("><"@ =~= op_tension());
        assert("//"@ =~= op_regardless());
        assert("vs"@ =~= op_contrast());
        assert("~"@ =~= op_similar());
    }
    collect_op2(text, '=', '>', "=>", &mut v);
    if find_sub3_at(text, '[', '<', '=', 0).is_none() {
        collect_op2(text, '<', '=', "<=", &mut v);
    }
    collect_op2(text, '<', '>', "<>", &mut v);
    collect_op2(text, '>', '<', "><", &mut v);
    collect_op2(text, '/', '/', "//", &mut v);
    collect_op2(text, 'v', 's', "vs", &mut v);
    collect_op1(text, '~', "~", &mut v);
    collect_eq(text, &mut v);
    proof {
        assert(v.deep_view() =~= brief_forms_of(text@));
    }
    v
}

} // verus!
