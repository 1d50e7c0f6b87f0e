//! General properties of matching, substitution and rule application.
use vstd::prelude::*;
use crate::expr::Term;
use crate::matcher::{match_args, match_term};
use crate::rule::apply_term;
use crate::subst::{subst_args, subst_term};

verus! {

/// The names that occur as symbols (leaves) in `t`.
pub open spec fn leaf_symbols(t: Term) -> Set<Seq<char>>
    decreases t, 0int,
{
    match t {
        Term::Sym(n) => set![n],
        Term::Fun(_, args) => leaf_symbols_args(args, args.len() as int),
    }
}

/// The leaf symbols of the first `i` terms of `ts`.
pub open spec fn leaf_symbols_args(ts: Seq<Term>, i: int) -> Set<Seq<char>>
    decreases ts, i,
{
    if i <= 0 || i > ts.len() {
        Set::empty()
    } else {
        leaf_symbols_args(ts, i - 1) + leaf_symbols(ts[i - 1])
    }
}

/// Bindings that map each name of `names` to the symbol of that name.
pub open spec fn identity_bindings(names: Set<Seq<char>>) -> Map<Seq<char>, Term> {
    Map::new(|k: Seq<char>| names.contains(k), |k: Seq<char>| Term::Sym(k))
}

proof fn lemma_match_self_from(t: Term, names: Set<Seq<char>>)
    ensures
        match_term(t, t, identity_bindings(names)) == Some(
            identity_bindings(names + leaf_symbols(t)),
        ),
    decreases t, 0int,
{
    match t {
        Term::Sym(v) => {
            if names.contains(v) {
                assert(names + set![v] =~= names);
            } else {
                assert(identity_bindings(names).insert(v, t) =~= identity_bindings(names + set![v]));
            }
        },
        Term::Fun(_, args) => {
            lemma_match_args_self_from(args, args.len() as int, names);
        },
    }
}

proof fn lemma_match_args_self_from(ts: Seq<Term>, i: int, names: Set<Seq<char>>)
    requires
        0 <= i <= ts.len(),
    ensures
        match_args(ts, ts, i, identity_bindings(names)) == Some(
            identity_bindings(names + leaf_symbols_args(ts, i)),
        ),
    decreases ts, i,
{
    if i == 0 {
        assert(names + Set::empty() =~= names);
    } else {
        lemma_match_args_self_from(ts, i - 1, names);
        let prev = names + leaf_symbols_args(ts, i - 1);
        lemma_match_self_from(ts[i - 1], prev);
        assert(prev + leaf_symbols(ts[i - 1]) =~= names + leaf_symbols_args(ts, i));
    }
}

/// Every expression matches itself, binding each of its leaf symbols to
/// itself and nothing else; a term without leaf symbols yields no bindings.
pub proof fn lemma_match_reflexive(e: Term)
    ensures
        match_term(e, e, Map::empty()) == Some(identity_bindings(leaf_symbols(e))),
{
    lemma_match_self_from(e, Set::empty());
    assert(identity_bindings(Set::empty()) =~= Map::empty());
    assert(Set::empty() + leaf_symbols(e) =~= leaf_symbols(e));
}

/// A variable that occurs twice in a pattern binds both positions to one
/// value: `f(x, x)` matches `f(a, b)` exactly when `a` and `b` are equal,
/// and then binds `x` to `a` alone.
pub proof fn lemma_repeated_variable(f: Seq<char>, x: Seq<char>, a: Term, b: Term)
    ensures
        match_term(
            Term::Fun(f, seq![Term::Sym(x), Term::Sym(x)]),
            Term::Fun(f, seq![a, b]),
            Map::empty(),
        ) == if a == b {
            Some(map![x => a])
        } else {
            None
        },
{
    let ps = seq![Term::Sym(x), Term::Sym(x)];
    let ss = seq![a, b];
    let m = Map::<Seq<char>, Term>::empty().insert(x, a);
    assert(match_args(ps, ss, 0, Map::empty()) == Some(Map::<Seq<char>, Term>::empty()));
    assert(ps[0] == Term::Sym(x) && ps[1] == Term::Sym(x));
    assert(ss[0] == a && ss[1] == b);
    assert(match_term(ps[0], ss[0], Map::empty()) == Some(m));
    assert(match_args(ps, ss, 1, Map::empty()) == Some(m));
    assert(m.contains_key(x) && m[x] == a);
    assert(match_term(ps[1], ss[1], m) == if a == b {
        Some(m)
    } else {
        None
    });
    assert(match_args(ps, ss, 2, Map::empty()) == match_term(ps[1], ss[1], m));
    assert(m =~= map![x => a]);
}

/// Applications with different functor names or different arities never
/// match, whatever the bindings so far.
pub proof fn lemma_shape_mismatch(
    n1: Seq<char>,
    ps: Seq<Term>,
    n2: Seq<char>,
    ss: Seq<Term>,
    b: Map<Seq<char>, Term>,
)
    requires
        n1 != n2 || ps.len() != ss.len(),
    ensures
        match_term(Term::Fun(n1, ps), Term::Fun(n2, ss), b) is None,
{
}

/// An application never matches a symbol.
pub proof fn lemma_application_against_symbol(
    n: Seq<char>,
    ps: Seq<Term>,
    v: Seq<char>,
    b: Map<Seq<char>, Term>,
)
    ensures
        match_term(Term::Fun(n, ps), Term::Sym(v), b) is None,
{
}

/// Substituting no bindings gives the template back unchanged.
pub proof fn lemma_subst_empty(t: Term)
    ensures
        subst_term(Map::empty(), t) == Some(t),
    decreases t, 0int,
{
    if let Term::Fun(n, args) = t {
        lemma_subst_args_empty(args, args.len() as int);
        assert(args.subrange(0, args.len() as int) =~= args);
    }
}

proof fn lemma_subst_args_empty(ts: Seq<Term>, i: int)
    requires
        0 <= i <= ts.len(),
    ensures
        subst_args(Map::empty(), ts, i) == Some(ts.subrange(0, i)),
    decreases ts, i,
{
    if i == 0 {
        assert(ts.subrange(0, 0) =~= Seq::<Term>::empty());
    } else {
        lemma_subst_args_empty(ts, i - 1);
        lemma_subst_empty(ts[i - 1]);
        assert(ts.subrange(0, i - 1).push(ts[i - 1]) =~= ts.subrange(0, i));
    }
}

/// Where the head matches the whole subject, one rewrite step is exactly the
/// body under the bindings of that match, with nothing rewritten further.
pub proof fn lemma_apply_at_root(head: Term, body: Term, s: Term, b: Map<Seq<char>, Term>)
    requires
        match_term(head, s, Map::empty()) == Some(b),
    ensures
        apply_term(head, body, s) == subst_term(b, body),
{
}

} // verus!
