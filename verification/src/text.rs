//! Character-sequence primitives shared by the whole validator: whitespace
//! classification, trimming, scanning for characters and substrings, and
//! whitespace tokenization, each as a spec function over `Seq<char>` with a
//! verified executable counterpart over `&str`.

use vstd::prelude::*;
use vstd::string::StrSliceExecFns;
use vstd::string::StringExecFns;

verus! {

/// The whitespace characters the validator recognizes (the ASCII subset of
/// Unicode whitespace; input documents are line-oriented plain text).
pub open spec fn is_wspace(c: char) -> bool {
    c == ' ' || c == '\t' || c == '\n' || c == '\r' || c == '\u{000B}' || c == '\u{000C}'
}

/// Number of leading `' '` characters (indentation depth).
pub open spec fn leading_spaces(s: Seq<char>) -> int
    decreases s.len(),
{
    if s.len() > 0 && s[0] == ' ' {
        1 + leading_spaces(s.drop_first())
    } else {
        0
    }
}

proof fn lemma_leading_spaces_bounds(s: Seq<char>)
    ensures
        0 <= leading_spaces(s) <= s.len(),
        forall|k: int| 0 <= k < leading_spaces(s) ==> s[k] == ' ',
        leading_spaces(s) < s.len() ==> s[leading_spaces(s)] != ' ',
    decreases s.len(),
{
    if s.len() > 0 && s[0] == ' ' {
        lemma_leading_spaces_bounds(s.drop_first());
        assert forall|k: int| 0 <= k < leading_spaces(s) implies s[k] == ' ' by {
            if k > 0 {
                assert(s.drop_first()[k - 1] == s[k]);
            }
        }
    }
}

/// `s` with leading whitespace removed.
pub open spec fn drop_leading_ws(s: Seq<char>) -> Seq<char>
    decreases s.len(),
{
    if s.len() > 0 && is_wspace(s[0]) {
        drop_leading_ws(s.drop_first())
    } else {
        s
    }
}

/// `s` with trailing whitespace removed.
pub open spec fn drop_trailing_ws(s: Seq<char>) -> Seq<char>
    decreases s.len(),
{
    if s.len() > 0 && is_wspace(s.last()) {
        drop_trailing_ws(s.drop_last())
    } else {
        s
    }
}

/// `s` with whitespace removed from both ends (the meaning of trimming a
/// line or a segment).
pub open spec fn trim_ws(s: Seq<char>) -> Seq<char> {
    drop_trailing_ws(drop_leading_ws(s))
}

pub proof fn lemma_drop_leading_ws(s: Seq<char>, lo: int)
    requires
        0 <= lo <= s.len(),
        forall|k: int| 0 <= k < lo ==> is_wspace(s[k]),
        lo == s.len() || !is_wspace(s[lo]),
    ensures
        drop_leading_ws(s) == s.subrange(lo, s.len() as int),
    decreases lo,
{
    if lo == 0 {
        assert(drop_leading_ws(s) =~= s.subrange(0, s.len() as int));
    } else {
        let s1 = s.drop_first();
        assert(forall|k: int| 0 <= k < lo - 1 ==> s1[k] == s[k + 1]);
        lemma_drop_leading_ws(s1, lo - 1);
        assert(s1.subrange(lo - 1, s1.len() as int) =~= s.subrange(lo, s.len() as int));
    }
}

pub proof fn lemma_drop_trailing_ws(s: Seq<char>, hi: int)
    requires
        0 <= hi <= s.len(),
        forall|k: int| hi <= k < s.len() ==> is_wspace(s[k]),
        hi == 0 || !is_wspace(s[hi - 1]),
    ensures
        drop_trailing_ws(s) == s.subrange(0, hi),
    decreases s.len(),
{
    if hi == s.len() {
        if s.len() > 0 && is_wspace(s.last()) {
            assert(false);
        }
        assert(drop_trailing_ws(s) =~= s.subrange(0, hi));
    } else {
        let s1 = s.drop_last();
        lemma_drop_trailing_ws(s1, hi);
        assert(s1.subrange(0, hi) =~= s.subrange(0, hi));
    }
}

/// Trim a string slice on both ends; the executable form of [`trim_ws`].
pub fn trim_str<'a>(s: &'a str) -> (r: &'a str)
    ensures
        r@ == trim_ws(s@),
{
    let len = s.unicode_len();
    let mut lo: usize = 0;
    while lo < len && is_wspace_exec(s.get_char(lo))
        invariant
            0 <= lo <= len,
            len == s@.len(),
            forall|k: int| 0 <= k < lo ==> is_wspace(s@[k]),
        decreases len - lo,
    {
        lo = lo + 1;
    }
    if lo == len {
        proof {
            lemma_drop_leading_ws(s@, lo as int);
            lemma_drop_trailing_ws(s@.subrange(lo as int, len as int), 0);
        }
        let r = s.substring_char(len, len);
        proof {
            assert(r@ =~= trim_ws(s@));
        }
        r
    } else {
        let mut hi: usize = len;
        while hi > lo && is_wspace_exec(s.get_char(hi - 1))
            invariant
                lo <= hi <= len,
                len == s@.len(),
                lo < len,
                !is_wspace(s@[lo as int]),
                forall|k: int| hi <= k < len ==> is_wspace(s@[k]),
            decreases hi,
        {
            hi = hi - 1;
        }
        proof {
            lemma_drop_leading_ws(s@, lo as int);
            let tail = s@.subrange(lo as int, len as int);
            assert(forall|k: int| hi - lo <= k < tail.len() ==> is_wspace(tail[k]));
            if hi > lo {
                assert(tail[(hi - lo) - 1] == s@[hi - 1]);
            }
            lemma_drop_trailing_ws(tail, hi - lo);
            assert(tail.subrange(0, hi - lo) =~= s@.subrange(lo as int, hi as int));
        }
        s.substring_char(lo, hi)
    }
}

fn is_wspace_exec(c: char) -> (r: bool)
    ensures
        r == is_wspace(c),
{
    c == ' ' || c == '\t' || c == '\n' || c == '\r' || c == '\u{000B}' || c == '\u{000C}'
}

/// First index at or after `i` whose character fails `p`, or `s.len()`.
pub open spec fn scan_while(s: Seq<char>, p: spec_fn(char) -> bool, i: int) -> int
    decreases s.len() - i,
{
    if !(0 <= i < s.len()) {
        s.len() as int
    } else if !p(s[i]) {
        i
    } else {
        scan_while(s, p, i + 1)
    }
}

pub proof fn lemma_scan_while(s: Seq<char>, p: spec_fn(char) -> bool, i: int)
    requires
        0 <= i <= s.len(),
    ensures
        i <= scan_while(s, p, i) <= s.len(),
        scan_while(s, p, i) < s.len() ==> !p(s[scan_while(s, p, i)]),
        forall|k: int| i <= k < scan_while(s, p, i) ==> p(s[k]),
    decreases s.len() - i,
{
    if 0 <= i < s.len() && p(s[i]) {
        lemma_scan_while(s, p, i + 1);
    }
}

/// First index at or after `i` holding a non-whitespace character, or `s.len()`.
pub open spec fn next_non_ws(s: Seq<char>, i: int) -> int {
    scan_while(s, |c: char| is_wspace(c), i)
}

/// First index at or after `i` holding a whitespace character, or `s.len()`.
pub open spec fn next_ws(s: Seq<char>, i: int) -> int {
    scan_while(s, |c: char| !is_wspace(c), i)
}

/// First index at or after `i` holding `c`, or `s.len()`.
pub open spec fn find_char_from(s: Seq<char>, c: char, i: int) -> int {
    scan_while(s, |x: char| x != c, i)
}

pub proof fn lemma_find_char_from(s: Seq<char>, c: char, i: int)
    requires
        0 <= i <= s.len(),
    ensures
        i <= find_char_from(s, c, i) <= s.len(),
        find_char_from(s, c, i) < s.len() ==> s[find_char_from(s, c, i)] == c,
        forall|k: int| i <= k < find_char_from(s, c, i) ==> s[k] != c,
    decreases s.len() - i,
{
    if 0 <= i < s.len() && s[i] != c {
        lemma_find_char_from(s, c, i + 1);
    }
}

/// `pat` occurs in `s` at position `i`.
pub open spec fn matches_at(s: Seq<char>, pat: Seq<char>, i: int) -> bool {
    0 <= i && i + pat.len() <= s.len() && s.subrange(i, i + pat.len()) == pat
}

/// First position at or after `i` where `pat` occurs in `s`, or `-1`.
pub open spec fn find_sub_from(s: Seq<char>, pat: Seq<char>, i: int) -> int
    decreases s.len() - i,
{
    if !(0 <= i) || pat.len() == 0 || i + pat.len() > s.len() {
        -1
    } else if matches_at(s, pat, i) {
        i
    } else {
        find_sub_from(s, pat, i + 1)
    }
}

pub proof fn lemma_find_sub_from(s: Seq<char>, pat: Seq<char>, i: int)
    requires
        0 <= i,
        pat.len() > 0,
    ensures
        find_sub_from(s, pat, i) == -1 || find_sub_from(s, pat, i) >= 0,
        find_sub_from(s, pat, i) == -1 ==> forall|j: int| i <= j ==> !matches_at(s, pat, j),
        find_sub_from(s, pat, i) >= 0 ==> i <= find_sub_from(s, pat, i) && matches_at(
            s,
            pat,
            find_sub_from(s, pat, i),
        ),
        forall|j: int|
            i <= j < find_sub_from(s, pat, i) ==> !matches_at(s, pat, j),
    decreases s.len() - i,
{
    if i + pat.len() > s.len() {
        assert forall|j: int| i <= j implies !matches_at(s, pat, j) by {}
    } else if !matches_at(s, pat, i) {
        lemma_find_sub_from(s, pat, i + 1);
    }
}

/// `s` contains `pat` somewhere.
pub open spec fn contains_sub(s: Seq<char>, pat: Seq<char>) -> bool {
    find_sub_from(s, pat, 0) >= 0
}

/// `s` contains the character `c`.
pub open spec fn contains_char(s: Seq<char>, c: char) -> bool {
    find_char_from(s, c, 0) < s.len()
}

/// Largest `e' <= e` such that no whitespace character stands just before `e'`.
pub open spec fn skip_ws_rev(s: Seq<char>, e: int) -> int
    decreases e,
{
    if 0 < e <= s.len() && is_wspace(s[e - 1]) {
        skip_ws_rev(s, e - 1)
    } else {
        e
    }
}

/// Largest `e' <= e` such that no token character stands just before `e'`.
pub open spec fn skip_tok_rev(s: Seq<char>, e: int) -> int
    decreases e,
{
    if 0 < e <= s.len() && !is_wspace(s[e - 1]) {
        skip_tok_rev(s, e - 1)
    } else {
        e
    }
}

/// The last whitespace-separated token of `s.subrange(0, end)`, or the empty
/// sequence if there is none.
pub open spec fn last_token_upto(s: Seq<char>, end: int) -> Seq<char> {
    let te = skip_ws_rev(s, end);
    let ts = skip_tok_rev(s, te);
    s.subrange(ts, te)
}

/// The first whitespace-separated token of `s` at or after `from`, or the
/// empty sequence if there is none.
pub open spec fn first_token_from(s: Seq<char>, from: int) -> Seq<char> {
    let ts = next_non_ws(s, from);
    let te = next_ws(s, ts);
    s.subrange(ts, te)
}

/// The whitespace-separated tokens of `s` starting at `i`, in order.
pub open spec fn tokens_from(s: Seq<char>, i: int) -> Seq<Seq<char>>
    decreases s.len() - i,
{
    if !(0 <= i <= s.len()) {
        Seq::empty()
    } else {
        let j = next_non_ws(s, i);
        if j >= s.len() {
            Seq::empty()
        } else {
            let k = next_ws(s, j);
            if i <= j < k <= s.len() {
                seq![s.subrange(j, k)] + tokens_from(s, k)
            } else {
                Seq::empty()
            }
        }
    }
}

/// The whitespace-separated tokens of `s`.
pub open spec fn tokens_of(s: Seq<char>) -> Seq<Seq<char>> {
    tokens_from(s, 0)
}

/// `s` with trailing characters satisfying `p` removed.
pub open spec fn strip_trailing(s: Seq<char>, p: spec_fn(char) -> bool) -> Seq<char>
    decreases s.len(),
{
    if s.len() > 0 && p(s.last()) {
        strip_trailing(s.drop_last(), p)
    } else {
        s
    }
}

pub proof fn lemma_strip_trailing(s: Seq<char>, p: spec_fn(char) -> bool, hi: int)
    requires
        0 <= hi <= s.len(),
        forall|k: int| hi <= k < s.len() ==> p(s[k]),
        hi == 0 || !p(s[hi - 1]),
    ensures
        strip_trailing(s, p) == s.subrange(0, hi),
    decreases s.len(),
{
    if hi == s.len() {
        assert(strip_trailing(s, p) =~= s.subrange(0, hi));
    } else {
        let s1 = s.drop_last();
        lemma_strip_trailing(s1, p, hi);
        assert(s1.subrange(0, hi) =~= s.subrange(0, hi));
    }
}

/// `s` ends with `pat`.
pub open spec fn ends_with_seq(s: Seq<char>, pat: Seq<char>) -> bool {
    pat.len() <= s.len() && s.subrange(s.len() - pat.len(), s.len() as int) == pat
}

/// Executable form of [`next_non_ws`].
pub fn scan_non_ws(s: &str, from: usize) -> (r: usize)
    requires
        from <= s@.len(),
    ensures
        r == next_non_ws(s@, from as int),
        from <= r <= s@.len(),
{
    let len = s.unicode_len();
    let mut i: usize = from;
    while i < len && is_wspace_exec(s.get_char(i))
        invariant
            from <= i <= len,
            len == s@.len(),
            next_non_ws(s@, from as int) == next_non_ws(s@, i as int),
        decreases len - i,
    {
        i = i + 1;
    }
    i
}

/// Executable form of [`next_ws`].
pub fn scan_ws(s: &str, from: usize) -> (r: usize)
    requires
        from <= s@.len(),
    ensures
        r == next_ws(s@, from as int),
        from <= r <= s@.len(),
{
    let len = s.unicode_len();
    let mut i: usize = from;
    while i < len && !is_wspace_exec(s.get_char(i))
        invariant
            from <= i <= len,
            len == s@.len(),
            next_ws(s@, from as int) == next_ws(s@, i as int),
        decreases len - i,
    {
        i = i + 1;
    }
    i
}

/// Executable form of [`find_char_from`].
pub fn find_char_at(s: &str, c: char, from: usize) -> (r: usize)
    requires
        from <= s@.len(),
    ensures
        r == find_char_from(s@, c, from as int),
        from <= r <= s@.len(),
        r < s@.len() ==> s@[r as int] == c,
{
    let len = s.unicode_len();
    let mut i: usize = from;
    while i < len && s.get_char(i) != c
        invariant
            from <= i <= len,
            len == s@.len(),
            find_char_from(s@, c, from as int) == find_char_from(s@, c, i as int),
        decreases len - i,
    {
        i = i + 1;
    }
    i
}

/// Executable form of [`skip_ws_rev`].
pub fn rev_skip_ws(s: &str, end: usize) -> (r: usize)
    requires
        end <= s@.len(),
    ensures
        r == skip_ws_rev(s@, end as int),
        r <= end,
{
    let mut e: usize = end;
    while e > 0 && is_wspace_exec(s.get_char(e - 1))
        invariant
            0 <= e <= end <= s@.len(),
            skip_ws_rev(s@, end as int) == skip_ws_rev(s@, e as int),
        decreases e,
    {
        e = e - 1;
    }
    e
}

/// Executable form of [`skip_tok_rev`].
pub fn rev_skip_tok(s: &str, end: usize) -> (r: usize)
    requires
        end <= s@.len(),
    ensures
        r == skip_tok_rev(s@, end as int),
        r <= end,
{
    let mut e: usize = end;
    while e > 0 && !is_wspace_exec(s.get_char(e - 1))
        invariant
            0 <= e <= end <= s@.len(),
            skip_tok_rev(s@, end as int) == skip_tok_rev(s@, e as int),
        decreases e,
    {
        e = e - 1;
    }
    e
}

/// The last whitespace-separated token of `s` before `end`, as an owned string.
pub fn last_token_str(s: &str, end: usize) -> (t: String)
    requires
        end <= s@.len(),
    ensures
        t@ == last_token_upto(s@, end as int),
{
    let te = rev_skip_ws(s, end);
    let ts = rev_skip_tok(s, te);
    String::from_str(s.substring_char(ts, te))
}

/// The first whitespace-separated token of `s` at or after `from`, as an
/// owned string.
pub fn first_token_str(s: &str, from: usize) -> (t: String)
    requires
        from <= s@.len(),
    ensures
        t@ == first_token_from(s@, from as int),
{
    let ts = scan_non_ws(s, from);
    let te = scan_ws(s, ts);
    String::from_str(s.substring_char(ts, te))
}

/// Split `s` into its whitespace-separated tokens.
pub fn split_ws(s: &str) -> (v: Vec<String>)
    ensures
        v.deep_view() == tokens_of(s@),
{
    let len = s.unicode_len();
    let mut v: Vec<String> = Vec::new();
    let mut cur: usize = 0;
    while cur < len
        invariant
            0 <= cur <= len,
            len == s@.len(),
            tokens_of(s@) == v.deep_view() + tokens_from(s@, cur as int),
        decreases len - cur,
    {
        let j = scan_non_ws(s, cur);
        if j == len {
            assert(tokens_from(s@, cur as int) =~= Seq::<Seq<char>>::empty());
            assert(v.deep_view() =~= v.deep_view() + tokens_from(s@, cur as int));
            cur = len;
        } else {
            let k = scan_ws(s, j);
            proof {
                lemma_scan_while(s@, |c: char| is_wspace(c), cur as int);
                lemma_scan_while(s@, |c: char| !is_wspace(c), j as int);
            }
            assert(k > j) by {
                assert(!is_wspace(s@[j as int]));
            }
            let ghost old_dv = v.deep_view();
            let tok = String::from_str(s.substring_char(j, k));
            v.push(tok);
            proof {
                assert(v.deep_view() =~= old_dv.push(s@.subrange(j as int, k as int)));
                assert(tokens_from(s@, cur as int) == seq![s@.subrange(j as int, k as int)]
                    + tokens_from(s@, k as int));
                assert(tokens_of(s@) =~= v.deep_view() + tokens_from(s@, k as int));
            }
            cur = k;
        }
    }
    assert(tokens_from(s@, cur as int) =~= Seq::<Seq<char>>::empty());
    assert(v.deep_view() =~= v.deep_view() + tokens_from(s@, cur as int));
    v
}

/// First occurrence of the two-character pattern `a b` at or after `from`.
pub fn find_sub2_at(s: &str, a: char, b: char, from: usize) -> (r: Option<usize>)
    requires
        from <= s@.len(),
    ensures
        match r {
            Some(j) => find_sub_from(s@, seq![a, b], from as int) == j && from <= j && j + 2
                <= s@.len() && matches_at(s@, seq![a, b], j as int),
            None => find_sub_from(s@, seq![a, b], from as int) == -1,
        },
{
    let len = s.unicode_len();
    let ghost pat = seq![a, b];
    if len < 2 {
        return None;
    }
    let mut i: usize = from;
    while i <= len - 2
        invariant
            from <= i <= len,
            2 <= len == s@.len(),
            pat == seq![a, b],
            find_sub_from(s@, pat, from as int) == find_sub_from(s@, pat, i as int),
        decreases len - i,
    {
        if s.get_char(i) == a && s.get_char(i + 1) == b {
            proof {
                assert(s@.subrange(i as int, i + 2) =~= pat);
            }
            return Some(i);
        }
        proof {
            let sub = s@.subrange(i as int, i + 2);
            assert(sub[0] == s@[i as int] && sub[1] == s@[i + 1]);
            assert(!matches_at(s@, pat, i as int));
        }
        i = i + 1;
    }
    None
}

/// First occurrence of the one-character pattern `a` at or after `from`.
pub fn find_sub1_at(s: &str, a: char, from: usize) -> (r: Option<usize>)
    requires
        from <= s@.len(),
    ensures
        match r {
            Some(j) => find_sub_from(s@, seq![a], from as int) == j && from <= j && j + 1
                <= s@.len() && matches_at(s@, seq![a], j as int),
            None => find_sub_from(s@, seq![a], from as int) == -1,
        },
{
    let len = s.unicode_len();
    let ghost pat = seq![a];
    if len < 1 {
        return None;
    }
    let mut i: usize = from;
    while i <= len - 1
        invariant
            from <= i <= len,
            1 <= len == s@.len(),
            pat == seq![a],
            find_sub_from(s@, pat, from as int) == find_sub_from(s@, pat, i as int),
        decreases len - i,
    {
        if s.get_char(i) == a {
            proof {
                assert(s@.subrange(i as int, i + 1) =~= pat);
            }
            return Some(i);
        }
        proof {
            let sub = s@.subrange(i as int, i + 1);
            assert(sub[0] == s@[i as int]);
            assert(!matches_at(s@, pat, i as int));
        }
        i = i + 1;
    }
    None
}

/// First occurrence of the three-character pattern `a b c` at or after `from`.
pub fn find_sub3_at(s: &str, a: char, b: char, c: char, from: usize) -> (r: Option<usize>)
    requires
        from <= s@.len(),
    ensures
        match r {
            Some(j) => find_sub_from(s@, seq![a, b, c], from as int) == j && from <= j && j + 3
                <= s@.len() && matches_at(s@, seq![a, b, c], j as int),
            None => find_sub_from(s@, seq![a, b, c], from as int) == -1,
        },
{
    let len = s.unicode_len();
    let ghost pat = seq![a, b, c];
    if len < 3 {
        return None;
    }
    let mut i: usize = from;
    while i <= len - 3
        invariant
            from <= i <= len,
            3 <= len == s@.len(),
            pat == seq![a, b, c],
            find_sub_from(s@, pat, from as int) == find_sub_from(s@, pat, i as int),
        decreases len - i,
    {
        if s.get_char(i) == a && s.get_char(i + 1) == b && s.get_char(i + 2) == c {
            proof {
                assert(s@.subrange(i as int, i + 3) =~= pat);
            }
            return Some(i);
        }
        proof {
            let sub = s@.subrange(i as int, i + 3);
            assert(sub[0] == s@[i as int] && sub[1] == s@[i + 1] && sub[2] == s@[i + 2]);
            assert(!matches_at(s@, pat, i as int));
        }
        i = i + 1;
    }
    None
}

/// Character-wise string equality.
pub fn str_eq(a: &str, b: &str) -> (r: bool)
    ensures
        r == (a@ == b@),
{
    let alen = a.unicode_len();
    let blen = b.unicode_len();
    if alen != blen {
        proof {
            assert(a@ != b@);
        }
        return false;
    }
    let mut i: usize = 0;
    while i < alen
        invariant
            0 <= i <= alen,
            alen == a@.len(),
            alen == b@.len(),
            forall|k: int| 0 <= k < i ==> a@[k] == b@[k],
        decreases alen - i,
    {
        if a.get_char(i) != b.get_char(i) {
            proof {
                assert(a@ != b@);
            }
            return false;
        }
        i = i + 1;
    }
    proof {
        assert(a@ =~= b@);
    }
    true
}

/// Count of leading space characters of a line.
pub fn count_leading_spaces(line: &str) -> (n: usize)
    ensures
        n == leading_spaces(line@),
{
    let len = line.unicode_len();
    let mut i: usize = 0;
    proof {
        lemma_leading_spaces_bounds(line@);
    }
    while i < len && line.get_char(i) == ' '
        invariant
            0 <= i <= len,
            len == line@.len(),
            forall|k: int| 0 <= k < i ==> line@[k] == ' ',
            i <= leading_spaces(line@),
        decreases len - i,
    {
        proof {
            lemma_leading_spaces_bounds(line@);
        }
        i = i + 1;
    }
    proof {
        lemma_leading_spaces_bounds(line@);
    }
    i
}

} // verus!
