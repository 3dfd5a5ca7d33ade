//! The fixed symbol tables of the notation: brief-form operators, modifier
//! glyphs, inline-element markers and the evolution-marker brackets. Every
//! other module takes the symbol sets from here, so the tables have a single
//! source of truth.

use vstd::prelude::*;
use vstd::string::StrSliceExecFns;
use vstd::string::StringExecFns;
use crate::text::ends_with_seq;
use crate::text::lemma_strip_trailing;
use crate::text::strip_trailing;

verus! {

/// `=>`: causes, leads to.
pub open spec fn op_causes() -> Seq<char> {
    seq!['=', '>']
}

/// `<=`: caused by, results from.
pub open spec fn op_caused_by() -> Seq<char> {
    seq!['<', '=']
}

/// `<>`: mutual, bidirectional.
pub open spec fn op_mutual() -> Seq<char> {
    seq!['<', '>']
}

/// `><`: tension, conflicts with.
pub open spec fn op_tension() -> Seq<char> {
    seq!['>', '<']
}

/// `//`: regardless of.
pub open spec fn op_regardless() -> Seq<char> {
    seq!['/', '/']
}

/// `vs`: in contrast to.
pub open spec fn op_contrast() -> Seq<char> {
    seq!['v', 's']
}

/// `~`: similar to, resembles.
pub open spec fn op_similar() -> Seq<char> {
    seq!['~']
}

/// `=`: equivalent to, means.
pub open spec fn op_equiv() -> Seq<char> {
    seq!['=']
}

/// The opening bracket of an evolution marker, `[<=`.
pub open spec fn evo_open() -> Seq<char> {
    seq!['[', '<', '=']
}

/// The modifier glyphs that may trail an operand (`^`, `v`, `!`, `?`, `*`).
pub open spec fn is_operand_glyph(c: char) -> bool {
    c == '^' || c == 'v' || c == '!' || c == '?' || c == '*'
}

/// The four symbolic modifier glyphs (`v` stands apart: it is also a letter).
pub open spec fn is_mod_symbol(c: char) -> bool {
    c == '^' || c == '!' || c == '?' || c == '*'
}

/// `s` ends with one of the brief-form operator symbols.
pub open spec fn ends_with_any_op(s: Seq<char>) -> bool {
    ||| ends_with_seq(s, op_causes())
    ||| ends_with_seq(s, op_caused_by())
    ||| ends_with_seq(s, op_mutual())
    ||| ends_with_seq(s, op_tension())
    ||| ends_with_seq(s, op_similar())
    ||| ends_with_seq(s, op_equiv())
    ||| ends_with_seq(s, op_contrast())
    ||| ends_with_seq(s, op_regardless())
}

/// `s` with every trailing operand glyph removed.
pub open spec fn strip_operand_glyphs(s: Seq<char>) -> Seq<char> {
    strip_trailing(s, |c: char| is_operand_glyph(c))
}

/// `s` with every trailing symbolic modifier glyph removed (`v` kept).
pub open spec fn strip_mod_symbols(s: Seq<char>) -> Seq<char> {
    strip_trailing(s, |c: char| is_mod_symbol(c))
}

/// `s` with every trailing copy of the one glyph `m` removed.
pub open spec fn strip_glyph(s: Seq<char>, m: char) -> Seq<char>
    decreases s.len(),
{
    if s.len() > 0 && s.last() == m {
        strip_glyph(s.drop_last(), m)
    } else {
        s
    }
}

proof fn lemma_strip_glyph(s: Seq<char>, m: char, hi: int)
    requires
        0 <= hi <= s.len(),
        forall|k: int| hi <= k < s.len() ==> s[k] == m,
        hi == 0 || s[hi - 1] != m,
    ensures
        strip_glyph(s, m) == s.subrange(0, hi),
    decreases s.len(),
{
    if hi == s.len() {
        assert(strip_glyph(s, m) =~= s.subrange(0, hi));
    } else {
        let s1 = s.drop_last();
        lemma_strip_glyph(s1, m, hi);
        assert(s1.subrange(0, hi) =~= s.subrange(0, hi));
    }
}

/// `s` ends with the two characters `a`, `b`.
pub fn ends_with2(s: &str, a: char, b: char) -> (r: bool)
    ensures
        r == ends_with_seq(s@, seq![a, b]),
{
    let len = s.unicode_len();
    if len < 2 {
        proof {
            assert(!ends_with_seq(s@, seq![a, b]));
        }
        false
    } else {
        let r = s.get_char(len - 2) == a && s.get_char(len - 1) == b;
        proof {
            if r {
                assert(s@.subrange(s@.len() - 2, s@.len() as int) =~= seq![a, b]);
            } else {
                assert(s@.subrange(s@.len() - 2, s@.len() as int) != seq![a, b]) by {
                    let sub = s@.subrange(s@.len() - 2, s@.len() as int);
                    assert(sub[0] == s@[s@.len() - 2] && sub[1] == s@[s@.len() - 1]);
                }
            }
        }
        r
    }
}

/// `s` ends with the one character `a`.
pub fn ends_with1(s: &str, a: char) -> (r: bool)
    ensures
        r == ends_with_seq(s@, seq![a]),
{
    let len = s.unicode_len();
    if len < 1 {
        proof {
            assert(!ends_with_seq(s@, seq![a]));
        }
        false
    } else {
        let r = s.get_char(len - 1) == a;
        proof {
            let sub = s@.subrange(s@.len() - 1, s@.len() as int);
            assert(sub[0] == s@[s@.len() - 1]);
            if r {
                assert(sub =~= seq![a]);
            }
        }
        r
    }
}

/// `s` ends with one of the brief-form operator symbols; the executable form
/// of [`ends_with_any_op`].
pub fn ends_with_op(s: &str) -> (r: bool)
    ensures
        r == ends_with_any_op(s@),
{
    ends_with2(s, '=', '>') || ends_with2(s, '<', '=') || ends_with2(s, '<', '>') || ends_with2(
        s,
        '>',
        '<',
    ) || ends_with1(s, '~') || ends_with1(s, '=') || ends_with2(s, 'v', 's') || ends_with2(
        s,
        '/',
        '/',
    )
}

fn is_operand_glyph_exec(c: char) -> (r: bool)
    ensures
        r == is_operand_glyph(c),
{
    c == '^' || c == 'v' || c == '!' || c == '?' || c == '*'
}

fn is_mod_symbol_exec(c: char) -> (r: bool)
    ensures
        r == is_mod_symbol(c),
{
    c == '^' || c == '!' || c == '?' || c == '*'
}

/// Executable form of [`strip_operand_glyphs`].
pub fn strip_operand_glyphs_str(s: &str) -> (t: String)
    ensures
        t@ == strip_operand_glyphs(s@),
{
    let len = s.unicode_len();
    let mut e: usize = len;
    while e > 0 && is_operand_glyph_exec(s.get_char(e - 1))
        invariant
            0 <= e <= len,
            len == s@.len(),
            forall|k: int| e <= k < len ==> is_operand_glyph(s@[k]),
        decreases e,
    {
        e = e - 1;
    }
    proof {
        lemma_strip_trailing(s@, |c: char| is_operand_glyph(c), e as int);
    }
    String::from_str(s.substring_char(0, e))
}

/// Executable form of [`strip_mod_symbols`].
pub fn strip_mod_symbols_str(s: &str) -> (t: String)
    ensures
        t@ == strip_mod_symbols(s@),
{
    let len = s.unicode_len();
    let mut e: usize = len;
    while e > 0 && is_mod_symbol_exec(s.get_char(e - 1))
        invariant
            0 <= e <= len,
            len == s@.len(),
            forall|k: int| e <= k < len ==> is_mod_symbol(s@[k]),
        decreases e,
    {
        e = e - 1;
    }
    proof {
        lemma_strip_trailing(s@, |c: char| is_mod_symbol(c), e as int);
    }
    String::from_str(s.substring_char(0, e))
}

/// Executable form of [`strip_glyph`].
pub fn strip_glyph_str(s: &str, m: char) -> (t: String)
    ensures
        t@ == strip_glyph(s@, m),
{
    let len = s.unicode_len();
    let mut e: usize = len;
    while e > 0 && s.get_char(e - 1) == m
        invariant
            0 <= e <= len,
            len == s@.len(),
            forall|k: int| e <= k < len ==> s@[k] == m,
        decreases e,
    {
        e = e - 1;
    }
    proof {
        lemma_strip_glyph(s@, m, e as int);
    }
    String::from_str(s.substring_char(0, e))
}

} // verus!
