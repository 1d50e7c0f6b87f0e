use vstd::prelude::*;
use crate::expr::{render_term, Expr, Term};
use crate::matcher::{match_term, pattern_match};
use crate::subst::{subst_term, substitute_bindings, SubstError};

verus! {

broadcast use vstd::std_specs::vec::axiom_vec_index_decreases;

/// A rewrite rule: every symbol of `head` is a variable, and `body` is the
/// template that replaces what `head` matched.
#[derive(Debug)]
pub struct Rule {
    pub head: Expr,
    pub body: Expr,
}

/// One outermost-first rewrite step of `s` by the rule `head => body`: the
/// whole term is replaced where the head matches it; otherwise each child is
/// rewritten on its own. `None` where a substitution fails.
pub open spec fn apply_term(head: Term, body: Term, s: Term) -> Option<Term>
    decreases s, 0int,
{
    match match_term(head, s, Map::empty()) {
        Some(b) => subst_term(b, body),
        None => match s {
            Term::Sym(_) => Some(s),
            Term::Fun(n, args) => match apply_args(head, body, args, args.len() as int) {
                Some(new_args) => Some(Term::Fun(n, new_args)),
                None => None,
            },
        },
    }
}

/// Applies the rewrite step to the first `i` terms of `ts`, each on its own.
pub open spec fn apply_args(head: Term, body: Term, ts: Seq<Term>, i: int) -> Option<Seq<Term>>
    decreases ts, i,
{
    if i <= 0 {
        Some(Seq::empty())
    } else if i > ts.len() {
        None
    } else {
        match apply_args(head, body, ts, i - 1) {
            Some(prev) => match apply_term(head, body, ts[i - 1]) {
                Some(x) => Some(prev.push(x)),
                None => None,
            },
            None => None,
        }
    }
}

proof fn lemma_apply_args_len(head: Term, body: Term, ts: Seq<Term>, i: int)
    requires
        0 <= i <= ts.len(),
        apply_args(head, body, ts, i) is Some,
    ensures
        apply_args(head, body, ts, i).unwrap().len() == i,
    decreases i,
{
    if i > 0 {
        lemma_apply_args_len(head, body, ts, i - 1);
    }
}

proof fn lemma_apply_args_failure_persists(head: Term, body: Term, ts: Seq<Term>, i: int, k: int)
    requires
        0 <= i <= k,
        apply_args(head, body, ts, i) is None,
    ensures
        apply_args(head, body, ts, k) is None,
    decreases k - i,
{
    if k > i {
        lemma_apply_args_failure_persists(head, body, ts, i, k - 1);
    }
}

impl Rule {
    /// Performs one rewrite step on `expr`, outermost first: the whole
    /// expression is replaced if the head matches it, and otherwise each
    /// child is rewritten independently.
    pub fn apply_all(&self, expr: &Expr) -> (r: Result<Expr, SubstError>)
        ensures
            match r {
                Ok(e) => apply_term(self.head@, self.body@, expr@) == Some(e@),
                Err(_) => apply_term(self.head@, self.body@, expr@) is None,
            },
        decreases expr,
    {
        match pattern_match(&self.head, expr) {
            Some(bindings) => {
                return substitute_bindings(&bindings, &self.body);
            },
            None => {},
        }
        match expr {
            Expr::Sym(_) => Ok(expr.clone()),
            Expr::Fun(name, args) => {
                let ghost ts = expr@->Fun_1;
                proof {
                    assert forall|j: int| 0 <= j < args.len() implies decreases_to!(*expr => args[j]) by {
                        assert(decreases_to!(*args => args[j]));
                    }
                }
                let mut new_args: Vec<Expr> = Vec::new();
                let mut i: usize = 0;
                while i < args.len()
                    invariant
                        forall|j: int| 0 <= j < args.len() ==> decreases_to!(*expr => args[j]),
                        expr@ == Term::Fun(name@, ts),
                        match_term(self.head@, expr@, Map::empty()) is None,
                        ts.len() == args.len(),
                        forall|j: int| 0 <= j < args.len() ==> ts[j] == args[j]@,
                        i <= args.len(),
                        new_args.len() == i,
                        apply_args(self.head@, self.body@, ts, i as int) is Some,
                        forall|j: int|
                            0 <= j < i ==> apply_args(self.head@, self.body@, ts, i as int).unwrap()[j]
                                == new_args[j]@,
                    decreases args.len() - i,
                {
                    proof {
                        lemma_apply_args_len(self.head@, self.body@, ts, i as int);
                    }
                    match self.apply_all(&args[i]) {
                        Ok(e) => {
                            new_args.push(e);
                        },
                        Err(err) => {
                            proof {
                                assert(apply_args(self.head@, self.body@, ts, i + 1) is None);
                                lemma_apply_args_failure_persists(
                                    self.head@,
                                    self.body@,
                                    ts,
                                    i + 1,
                                    ts.len() as int,
                                );
                            }
                            return Err(err);
                        },
                    }
                    i = i + 1;
                }
                let r = Expr::Fun(name.clone(), new_args);
                proof {
                    lemma_apply_args_len(self.head@, self.body@, ts, ts.len() as int);
                    assert(r@->Fun_1 =~= apply_args(self.head@, self.body@, ts, ts.len() as int).unwrap());
                }
                Ok(r)
            },
        }
    }

    /// Text of the rule: `head => body`.
    pub fn render(&self) -> (r: String)
        ensures
            r@ == render_term(self.head@) + seq![' ', '=', '>', ' '] + render_term(self.body@),
    {
        let mut out = self.head.render();
        let body = self.body.render();
        proof {
            reveal_strlit(" => ");
        }
        out.append(" => ");
        out.append(body.as_str());
        out
    }
}

} // verus!
