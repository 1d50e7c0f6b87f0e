use vstd::prelude::*;
use crate::bindings::Bindings;
use crate::expr::{Expr, Term};

verus! {

broadcast use vstd::std_specs::vec::axiom_vec_index_decreases;

/// Matches pattern `p` against subject `s`, extending the bindings `b`.
/// Every symbol of the pattern is a variable; a variable already bound
/// matches only a structurally equal subject.
pub open spec fn match_term(p: Term, s: Term, b: Map<Seq<char>, Term>) -> Option<
    Map<Seq<char>, Term>,
>
    decreases p, 0int,
{
    match p {
        Term::Sym(v) => if b.contains_key(v) {
            if b[v] == s {
                Some(b)
            } else {
                None
            }
        } else {
            Some(b.insert(v, s))
        },
        Term::Fun(n1, ps) => match s {
            Term::Sym(_) => None,
            Term::Fun(n2, ss) => if n1 == n2 && ps.len() == ss.len() {
                match_args(ps, ss, ps.len() as int, b)
            } else {
                None
            },
        },
    }
}

/// Matches the first `i` children of `ps` against those of `ss`, left to
/// right, threading the bindings.
pub open spec fn match_args(ps: Seq<Term>, ss: Seq<Term>, i: int, b: Map<Seq<char>, Term>) -> Option<
    Map<Seq<char>, Term>,
>
    decreases ps, i,
{
    if i <= 0 {
        Some(b)
    } else if i > ps.len() || i > ss.len() {
        None
    } else {
        match match_args(ps, ss, i - 1, b) {
            Some(b2) => match_term(ps[i - 1], ss[i - 1], b2),
            None => None,
        }
    }
}

/// Once a prefix of the children fails to match, every longer prefix fails.
proof fn lemma_match_args_failure_persists(
    ps: Seq<Term>,
    ss: Seq<Term>,
    i: int,
    k: int,
    b: Map<Seq<char>, Term>,
)
    requires
        0 <= i <= k,
        match_args(ps, ss, i, b) is None,
    ensures
        match_args(ps, ss, k, b) is None,
    decreases k - i,
{
    if k > i {
        lemma_match_args_failure_persists(ps, ss, i, k - 1, b);
    }
}

/// Matches `pattern` against `subject`, adding to `bindings`; returns
/// whether the match succeeded.
fn match_into(pattern: &Expr, subject: &Expr, bindings: &mut Bindings) -> (ok: bool)
    requires
        old(bindings).wf(),
    ensures
        final(bindings).wf(),
        match_term(pattern@, subject@, old(bindings)@) == if ok {
            Some(final(bindings)@)
        } else {
            None
        },
    decreases pattern,
{
    match pattern {
        Expr::Sym(name) => {
            match bindings.get(name) {
                Some(bound) => {
                    return bound.structurally_equal(subject);
                },
                None => {},
            }
            bindings.insert(name.clone(), subject.clone());
            true
        },
        Expr::Fun(n1, a1) => match subject {
            Expr::Sym(_) => false,
            Expr::Fun(n2, a2) => {
                if !n1.eq(n2) || a1.len() != a2.len() {
                    assert(pattern@->Fun_1.len() == a1.len());
                    assert(subject@->Fun_1.len() == a2.len());
                    return false;
                }
                let ghost ps = pattern@->Fun_1;
                let ghost ss = subject@->Fun_1;
                let ghost b0 = bindings@;
                proof {
                    assert forall|j: int| 0 <= j < a1.len() implies decreases_to!(*pattern => a1[j]) by {
                        assert(decreases_to!(*a1 => a1[j]));
                    }
                }
                let mut i: usize = 0;
                while i < a1.len()
                    invariant
                        forall|j: int| 0 <= j < a1.len() ==> decreases_to!(*pattern => a1[j]),
                        ps == pattern@->Fun_1,
                        ss == subject@->Fun_1,
                        ps.len() == a1.len(),
                        ss.len() == a2.len(),
                        a1.len() == a2.len(),
                        forall|j: int| 0 <= j < a1.len() ==> ps[j] == a1[j]@ && ss[j] == a2[j]@,
                        i <= a1.len(),
                        bindings.wf(),
                        b0 == old(bindings)@,
                        match_args(ps, ss, i as int, b0) == Some(bindings@),
                        match_term(pattern@, subject@, b0) == match_args(ps, ss, ps.len() as int, b0),
                    decreases a1.len() - i,
                {
                    if !match_into(&a1[i], &a2[i], bindings) {
                        proof {
                            assert(ps[i as int] == a1[i as int]@ && ss[i as int] == a2[i as int]@);
                            assert(match_args(ps, ss, i + 1, b0) is None);
                            lemma_match_args_failure_persists(ps, ss, i + 1, ps.len() as int, b0);
                        }
                        return false;
                    }
                    i = i + 1;
                }
                true
            },
        },
    }
}

/// Matches `pattern` against `value`, starting from no bindings.
/// Returns the bindings on success and `None` on failure.
pub fn pattern_match(pattern: &Expr, value: &Expr) -> (r: Option<Bindings>)
    ensures
        match r {
            Some(b) => b.wf() && match_term(pattern@, value@, Map::empty()) == Some(b@),
            None => match_term(pattern@, value@, Map::empty()) is None,
        },
{
    let mut bindings = Bindings::new();
    if match_into(pattern, value, &mut bindings) {
        Some(bindings)
    } else {
        None
    }
}

} // verus!
