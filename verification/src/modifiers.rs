//! Modifiers: single-glyph annotations (`^`, `v`, `!`, `?`, `*`) attached to
//! a term of the claim text, either glued to the token (`concentration^`) or
//! standing alone just after it (`fast !`). A standalone glyph does not
//! attach to a brief-form operator, and the letter `v` counts only when it is
//! a whole token of its own, so ordinary words keep their `v`s.

use vstd::prelude::*;
use vstd::string::StrSliceExecFns;
use crate::ops::ends_with_any_op;
use crate::ops::ends_with_op;
use crate::ops::is_mod_symbol;
use crate::ops::strip_glyph;
use crate::ops::strip_glyph_str;
use crate::ops::strip_mod_symbols;
use crate::ops::strip_mod_symbols_str;
use crate::ops::strip_operand_glyphs;
use crate::ops::strip_operand_glyphs_str;
use crate::text::split_ws;
use crate::text::tokens_of;
use crate::types::ModifierUsage;
use crate::types::ModifierView;

verus! {

/// The usage recorded when token `tok` carries glyph `m` glued to its end.
pub open spec fn attached_mod(tok: Seq<char>, m: char) -> Seq<ModifierView> {
    if tok.len() > 1 && tok.last() == m {
        seq![ModifierView { symbol: m, attached_to: strip_glyph(tok, m) }]
    } else {
        Seq::empty()
    }
}

/// The usage recorded when token `i` is exactly the glyph `m`, standing
/// alone after a term that is not a brief-form operator.
pub open spec fn standalone_mod(toks: Seq<Seq<char>>, i: int, m: char) -> Seq<ModifierView> {
    if toks[i].len() == 1 && toks[i][0] == m && i > 0 && !ends_with_any_op(toks[i - 1]) {
        seq![ModifierView { symbol: m, attached_to: strip_operand_glyphs(toks[i - 1]) }]
    } else {
        Seq::empty()
    }
}

/// The usage recorded when token `i` is the bare letter `v` after a term
/// that is not a brief-form operator.
pub open spec fn v_mod(toks: Seq<Seq<char>>, i: int) -> Seq<ModifierView> {
    if toks[i] == seq!['v'] && i > 0 && !ends_with_any_op(toks[i - 1]) {
        seq![ModifierView { symbol: 'v', attached_to: strip_mod_symbols(toks[i - 1]) }]
    } else {
        Seq::empty()
    }
}

/// Every modifier usage contributed by token `i`: attached glyphs first
/// (`^`, `!`, `?`, `*` in that order), then standalone glyphs in the same
/// order, then the bare `v`.
pub open spec fn mods_of_token(toks: Seq<Seq<char>>, i: int) -> Seq<ModifierView> {
    attached_mod(toks[i], '^') + attached_mod(toks[i], '!') + attached_mod(toks[i], '?')
        + attached_mod(toks[i], '*') + standalone_mod(toks, i, '^') + standalone_mod(toks, i, '!')
        + standalone_mod(toks, i, '?') + standalone_mod(toks, i, '*') + v_mod(toks, i)
}

/// The modifier usages of tokens `i..` in order.
pub open spec fn mods_fold(toks: Seq<Seq<char>>, i: int) -> Seq<ModifierView>
    decreases toks.len() - i,
{
    if !(0 <= i < toks.len()) {
        Seq::empty()
    } else {
        mods_of_token(toks, i) + mods_fold(toks, i + 1)
    }
}

/// Every modifier usage of claim text `t`, token by token.
pub open spec fn modifiers_of(t: Seq<char>) -> Seq<ModifierView> {
    mods_fold(tokens_of(t), 0)
}

/// Push the attached-modifier usage of `tok` for glyph `m`, if any.
fn push_attached(tok: &str, m: char, v: &mut Vec<ModifierUsage>)
    ensures
        final(v).deep_view() == old(v).deep_view() + attached_mod(tok@, m),
{
    let ghost base = v.deep_view();
    let len = tok.unicode_len();
    if len > 1 && tok.get_char(len - 1) == m {
        let u = ModifierUsage { symbol: m, attached_to: strip_glyph_str(tok, m) };
        v.push(u);
        proof {
            assert(v.deep_view() =~= base + attached_mod(tok@, m));
        }
    } else {
        proof {
            assert(v.deep_view() =~= base + attached_mod(tok@, m));
        }
    }
}

/// Push the standalone-modifier usage of token `i` for glyph `m`, if any.
/// `c` is the single character of the token, already extracted.
fn push_standalone(toks: &Vec<String>, i: usize, c: char, m: char, v: &mut Vec<ModifierUsage>)
    requires
        i < toks@.len(),
        toks.deep_view()[i as int].len() == 1,
        toks.deep_view()[i as int][0] == c,
    ensures
        final(v).deep_view() == old(v).deep_view() + standalone_mod(toks.deep_view(), i as int, m),
{
    let ghost tdv = toks.deep_view();
    let ghost base = v.deep_view();
    if c == m && i > 0 {
        let prev = &toks[i - 1];
        assert(prev@ == tdv[i - 1]);
        if !ends_with_op(prev.as_str()) {
            let u = ModifierUsage { symbol: m, attached_to: strip_operand_glyphs_str(
                prev.as_str(),
            ) };
            v.push(u);
            proof {
                assert(v.deep_view() =~= base + standalone_mod(tdv, i as int, m));
            }
        } else {
            proof {
                assert(v.deep_view() =~= base + standalone_mod(tdv, i as int, m));
            }
        }
    } else {
        proof {
            assert(v.deep_view() =~= base + standalone_mod(tdv, i as int, m));
        }
    }
}

/// Every modifier usage of the finalized claim text, token by token.
pub fn extract_modifiers(text: &str) -> (v: Vec<ModifierUsage>)
    ensures
        v.deep_view() == modifiers_of(text@),
{
    let toks = split_ws(text);
    let ghost tdv = toks.deep_view();
    let mut v: Vec<ModifierUsage> = Vec::new();
    let n = toks.len();
    let mut i: usize = 0;
    while i < n
        invariant
            0 <= i <= n,
            n == toks@.len(),
            tdv == toks.deep_view(),
            tdv == tokens_of(text@),
            v.deep_view() + mods_fold(tdv, i as int) == mods_fold(tdv, 0),
        decreases n - i,
    {
        let ghost at_entry = v.deep_view();
        let tok = &toks[i];
        assert(tok@ == tdv[i as int]);
        push_attached(tok.as_str(), '^', &mut v);
        push_attached(tok.as_str(), '!', &mut v);
        push_attached(tok.as_str(), '?', &mut v);
        push_attached(tok.as_str(), '*', &mut v);
        let len = tok.unicode_len();
        if len == 1 {
            let c = tok.get_char(0);
            push_standalone(&toks, i, c, '^', &mut v);
            push_standalone(&toks, i, c, '!', &mut v);
            push_standalone(&toks, i, c, '?', &mut v);
            push_standalone(&toks, i, c, '*', &mut v);
            if c == 'v' && i > 0 {
                assert(tdv[i as int] =~= seq!['v']);
                let prev = &toks[i - 1];
                assert(prev@ == tdv[i - 1]);
                if !ends_with_op(prev.as_str()) {
                    let u = ModifierUsage {
                        symbol: 'v',
                        attached_to: strip_mod_symbols_str(prev.as_str()),
                    };
                    v.push(u);
                }
            } else {
                proof {
                    if tdv[i as int] == seq!['v'] {
                        assert(tdv[i as int][0] == 'v');
                    }
                    assert(v_mod(tdv, i as int) =~= Seq::<ModifierView>::empty());
                }
            }
        } else {
            proof {
                assert forall|m: char| #[trigger] standalone_mod(tdv, i as int, m) =~= Seq::<
                    ModifierView,
                >::empty() by {
                    assert(tdv[i as int].len() != 1);
                }
                if tdv[i as int] == seq!['v'] {
                    assert(tdv[i as int].len() == 1);
                }
                assert(v_mod(tdv, i as int) =~= Seq::<ModifierView>::empty());
            }
        }
        proof {
            assert(v.deep_view() =~= at_entry + mods_of_token(tdv, i as int));
            assert(v.deep_view() + mods_fold(tdv, i + 1) =~= mods_fold(tdv, 0));
        }
        i = i + 1;
    }
    proof {
        assert(mods_fold(tdv, i as int) =~= Seq::<ModifierView>::empty());
        assert(v.deep_view() =~= mods_fold(tdv, 0));
    }
    v
}

} // verus!
