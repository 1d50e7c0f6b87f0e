use vstd::prelude::*;
use crate::bindings::Bindings;
use crate::expr::{Expr, Term};

verus! {

broadcast use vstd::std_specs::vec::axiom_vec_index_decreases;

/// Why a substitution could not be carried out.
#[derive(Debug, PartialEq, Eq, Structural)]
pub enum SubstError {
    /// A functor name is bound to a function application, not a symbol.
    FunctorNotSymbol,
}

/// The functor name that `n` becomes under `b`: its binding's name when it
/// is bound to a symbol, itself when unbound, and nothing when it is bound
/// to an application.
pub open spec fn subst_name(b: Map<Seq<char>, Term>, n: Seq<char>) -> Option<Seq<char>> {
    if b.contains_key(n) {
        match b[n] {
            Term::Sym(m) => Some(m),
            Term::Fun(_, _) => None,
        }
    } else {
        Some(n)
    }
}

/// Replaces every bound variable of `t` by its binding, functor names
/// included; `None` where a functor name is bound to an application.
pub open spec fn subst_term(b: Map<Seq<char>, Term>, t: Term) -> Option<Term>
    decreases t, 0int,
{
    match t {
        Term::Sym(n) => if b.contains_key(n) {
            Some(b[n])
        } else {
            Some(t)
        },
        Term::Fun(n, args) => match subst_name(b, n) {
            Some(m) => match subst_args(b, args, args.len() as int) {
                Some(new_args) => Some(Term::Fun(m, new_args)),
                None => None,
            },
            None => None,
        },
    }
}

/// Substitutes into the first `i` terms of `ts`.
pub open spec fn subst_args(b: Map<Seq<char>, Term>, ts: Seq<Term>, i: int) -> Option<Seq<Term>>
    decreases ts, i,
{
    if i <= 0 {
        Some(Seq::empty())
    } else if i > ts.len() {
        None
    } else {
        match subst_args(b, ts, i - 1) {
            Some(prev) => match subst_term(b, ts[i - 1]) {
                Some(x) => Some(prev.push(x)),
                None => None,
            },
            None => None,
        }
    }
}

/// A successful substitution into a prefix has one term per position.
proof fn lemma_subst_args_len(b: Map<Seq<char>, Term>, ts: Seq<Term>, i: int)
    requires
        0 <= i <= ts.len(),
        subst_args(b, ts, i) is Some,
    ensures
        subst_args(b, ts, i).unwrap().len() == i,
    decreases i,
{
    if i > 0 {
        lemma_subst_args_len(b, ts, i - 1);
    }
}

/// Once substitution into a prefix fails, it fails for every longer prefix.
proof fn lemma_subst_args_failure_persists(b: Map<Seq<char>, Term>, ts: Seq<Term>, i: int, k: int)
    requires
        0 <= i <= k,
        subst_args(b, ts, i) is None,
    ensures
        subst_args(b, ts, k) is None,
    decreases k - i,
{
    if k > i {
        lemma_subst_args_failure_persists(b, ts, i, k - 1);
    }
}

/// Builds a new expression from `expr` with every bound variable replaced by
/// its binding. A functor name bound to a symbol takes that symbol's name; one
/// bound to an application is an error.
pub fn substitute_bindings(bindings: &Bindings, expr: &Expr) -> (r: Result<Expr, SubstError>)
    requires
        bindings.wf(),
    ensures
        match r {
            Ok(e) => subst_term(bindings@, expr@) == Some(e@),
            Err(_) => subst_term(bindings@, expr@) is None,
        },
    decreases expr,
{
    match expr {
        Expr::Sym(name) => match bindings.get(name) {
            Some(value) => Ok(value.clone()),
            None => Ok(expr.clone()),
        },
        Expr::Fun(name, args) => {
            let new_name = match bindings.get(name) {
                Some(Expr::Sym(new_name)) => new_name.clone(),
                None => name.clone(),
                Some(_) => {
                    return Err(SubstError::FunctorNotSymbol);
                },
            };
            let ghost ts = expr@->Fun_1;
            proof {
                assert forall|j: int| 0 <= j < args.len() implies decreases_to!(*expr => args[j]) by {
                    assert(decreases_to!(*args => args[j]));
                }
            }
            let mut new_args: Vec<Expr> = Vec::new();
            let mut i: usize = 0;
            while i < args.len()
                invariant
                    forall|j: int| 0 <= j < args.len() ==> decreases_to!(*expr => args[j]),
                    bindings.wf(),
                    expr@ == Term::Fun(name@, ts),
                    ts.len() == args.len(),
                    forall|j: int| 0 <= j < args.len() ==> ts[j] == args[j]@,
                    i <= args.len(),
                    new_args.len() == i,
                    subst_args(bindings@, ts, i as int) is Some,
                    forall|j: int|
                        0 <= j < i ==> subst_args(bindings@, ts, i as int).unwrap()[j] == new_args[j]@,
                decreases args.len() - i,
            {
                proof {
                    lemma_subst_args_len(bindings@, ts, i as int);
                }
                match substitute_bindings(bindings, &args[i]) {
                    Ok(e) => {
                        new_args.push(e);
                    },
                    Err(err) => {
                        proof {
                            assert(subst_args(bindings@, ts, i + 1) is None);
                            lemma_subst_args_failure_persists(bindings@, ts, i + 1, ts.len() as int);
                        }
                        return Err(err);
                    },
                }
                i = i + 1;
            }
            let r = Expr::Fun(new_name, new_args);
            proof {
                lemma_subst_args_len(bindings@, ts, ts.len() as int);
                assert(r@->Fun_1 =~= subst_args(bindings@, ts, ts.len() as int).unwrap());
            }
            Ok(r)
        },
    }
}

} // verus!
