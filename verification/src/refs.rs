//! The reference index: one scan over the whole classified document collects
//! every `Concept.facet` pair a facet line declares under its most recent
//! concept line. Because the index is built before any claim is checked,
//! references may point forward to pairs declared later in the document.

use vstd::prelude::*;
use vstd::string::StringExecFns;
use crate::text::str_eq;
use crate::types::LineType;
use crate::types::LineTypeView;
use crate::types::LineView;
use crate::types::ParsedLine;

verus! {

/// The scan's result after a prefix of the lines: the concept currently in
/// scope and the set of `Concept.facet` targets declared so far.
pub open spec fn refs_fold(ls: Seq<LineView>) -> (Option<Seq<char>>, Set<Seq<char>>)
    decreases ls.len(),
{
    if ls.len() == 0 {
        (None, Set::empty())
    } else {
        let prev = refs_fold(ls.drop_last());
        match ls.last().line_type {
            LineTypeView::Concept(name) => (Some(name), prev.1),
            LineTypeView::Facet(name) => match prev.0 {
                Some(c) => (prev.0, prev.1.insert(c + seq!['.'] + name)),
                None => prev,
            },
            _ => prev,
        }
    }
}

/// Every valid `Concept.facet` reference target of the document.
pub open spec fn valid_refs_of(ls: Seq<LineView>) -> Set<Seq<char>> {
    refs_fold(ls).1
}

proof fn lemma_to_set_push(s: Seq<Seq<char>>, x: Seq<char>)
    ensures
        s.push(x).to_set() == s.to_set().insert(x),
{
    assert forall|a: Seq<char>| s.push(x).to_set().contains(a) implies s.to_set().insert(
        x,
    ).contains(a) by {
        let i = choose|i: int| 0 <= i < s.push(x).len() && s.push(x)[i] == a;
        if i < s.len() {
            assert(s[i] == a);
        }
    }
    assert forall|a: Seq<char>| s.to_set().insert(x).contains(a) implies s.push(x).to_set().contains(
        a,
    ) by {
        if a == x {
            assert(s.push(x)[s.len() as int] == a);
        } else {
            let i = choose|i: int| 0 <= i < s.len() && s[i] == a;
            assert(s.push(x)[i] == a);
        }
    }
    assert(s.push(x).to_set() =~= s.to_set().insert(x));
}

/// The view of the scan's concept register.
pub open spec fn concept_reg_view(o: Option<String>) -> Option<Seq<char>> {
    match o {
        Some(c) => Some(c@),
        None => None,
    }
}

/// Collect every valid `Concept.facet` reference target of the document.
/// The result lists each target at least once; only membership matters.
pub fn collect_valid_references(lines: &Vec<ParsedLine>) -> (v: Vec<String>)
    ensures
        v.deep_view().to_set() == valid_refs_of(lines.deep_view()),
{
    proof {
        reveal_strlit(".");
    }
    let ghost ldv = lines.deep_view();
    let mut v: Vec<String> = Vec::new();
    let mut cur_concept: Option<String> = None;
    let n = lines.len();
    let mut i: usize = 0;
    proof {
        assert(v.deep_view() =~= Seq::<Seq<char>>::empty());
        assert(v.deep_view().to_set() =~= Set::<Seq<char>>::empty());
        assert(ldv.take(0) =~= Seq::<LineView>::empty());
    }
    while i < n
        invariant
            0 <= i <= n,
            n == lines@.len(),
            ldv == lines.deep_view(),
            ldv.len() == n,
            concept_reg_view(cur_concept) == refs_fold(ldv.take(i as int)).0,
            v.deep_view().to_set() == refs_fold(ldv.take(i as int)).1,
        decreases n - i,
    {
        proof {
            assert(ldv.take(i + 1).drop_last() =~= ldv.take(i as int));
            assert(ldv.take(i + 1).last() == ldv[i as int]);
            assert(lines@[i as int].deep_view() == ldv[i as int]);
        }
        let line = &lines[i];
        match &line.line_type {
            LineType::Concept(name) => {
                cur_concept = Some(name.clone());
            },
            LineType::Facet(name) => {
                match &cur_concept {
                    Some(c) => {
                        let mut target = c.clone();
                        target.append(".");
                        target.append(name.as_str());
                        proof {
                            reveal_strlit(".");
                            assert("."@ =~= seq!['.']);
                            assert(target@ == c@ + seq!['.'] + name@);
                            lemma_to_set_push(v.deep_view(), target@);
                        }
                        let ghost pre = v.deep_view();
                        v.push(target);
                        proof {
                            assert(v.deep_view() =~= pre.push(c@ + seq!['.'] + name@));
                        }
                    },
                    None => {},
                }
            },
            _ => {},
        }
        i = i + 1;
    }
    proof {
        assert(ldv.take(n as int) =~= ldv);
    }
    v
}

/// Membership in the collected reference targets.
pub fn contains_ref(refs: &Vec<String>, s: &str) -> (r: bool)
    ensures
        r == refs.deep_view().to_set().contains(s@),
{
    let n = refs.len();
    let mut i: usize = 0;
    while i < n
        invariant
            0 <= i <= n,
            n == refs@.len(),
            forall|k: int| 0 <= k < i ==> refs.deep_view()[k] != s@,
        decreases n - i,
    {
        if str_eq(refs[i].as_str(), s) {
            proof {
                assert(refs.deep_view()[i as int] == s@);
                assert(refs.deep_view().contains(s@));
            }
            return true;
        }
        i = i + 1;
    }
    proof {
        if refs.deep_view().to_set().contains(s@) {
            let k = choose|k: int| 0 <= k < refs.deep_view().len() && refs.deep_view()[k] == s@;
            assert(refs.deep_view()[k] != s@);
        }
    }
    false
}

} // verus!
