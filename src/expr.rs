use vstd::prelude::*;

verus! {

broadcast use vstd::std_specs::vec::axiom_vec_index_decreases;

/// Mathematical model of an expression: a symbol or a named application.
pub enum Term {
    Sym(Seq<char>),
    Fun(Seq<char>, Seq<Term>),
}

/// A symbolic expression tree; each node owns its children.
#[derive(Debug)]
pub enum Expr {
    Sym(String),
    Fun(String, Vec<Expr>),
}

impl View for Expr {
    type V = Term;

    open spec fn view(&self) -> Term
        decreases self,
    {
        match self {
            Expr::Sym(name) => Term::Sym(name@),
            Expr::Fun(name, args) => Term::Fun(
                name@,
                Seq::new(args.len() as nat, |i: int| if 0 <= i < args.len() { args[i].view() } else { Term::Sym(Seq::empty()) }),
            ),
        }
    }
}


/// The rendering of the arguments `args[0..i]`, separated by `", "`.
pub open spec fn render_args(args: Seq<Term>, i: int) -> Seq<char>
    decreases args, i,
{
    if i <= 0 || i > args.len() {
        Seq::empty()
    } else if i == 1 {
        render_term(args[0])
    } else {
        render_args(args, i - 1) + seq![',', ' '] + render_term(args[i - 1])
    }
}

/// Canonical text of a term: `name` or `name(arg1, arg2, ...)`.
pub open spec fn render_term(t: Term) -> Seq<char>
    decreases t,
{
    match t {
        Term::Sym(name) => name,
        Term::Fun(name, args) => name + seq!['('] + render_args(args, args.len() as int) + seq![')'],
    }
}

impl Expr {
    /// Decides structural equality: same variant, same name, same arity and
    /// pairwise equal children.
    pub fn structurally_equal(&self, other: &Expr) -> (r: bool)
        ensures
            r == (self@ == other@),
        decreases self,
    {
        match self {
            Expr::Sym(a) => match other {
                Expr::Sym(b) => a.eq(b),
                Expr::Fun(_, _) => false,
            },
            Expr::Fun(n1, a1) => match other {
                Expr::Sym(_) => false,
                Expr::Fun(n2, a2) => {
                    if !n1.eq(n2) || a1.len() != a2.len() {
                        assert(self@->Fun_1.len() == a1.len());
                        assert(other@->Fun_1.len() == a2.len());
                        return false;
                    }
                    let ghost s1 = self@->Fun_1;
                    let ghost s2 = other@->Fun_1;
                    proof {
                        assert forall|j: int| 0 <= j < a1.len() implies decreases_to!(*self => a1[j]) by {
                            assert(decreases_to!(*a1 => a1[j]));
                        }
                    }
                    let mut i: usize = 0;
                    while i < a1.len()
                        invariant
                            s1 == self@->Fun_1,
                            s2 == other@->Fun_1,
                            forall|j: int| 0 <= j < a1.len() ==> decreases_to!(*self => a1[j]),
                            a1.len() == a2.len(),
                            s1.len() == a1.len(),
                            s2.len() == a2.len(),
                            i <= a1.len(),
                            forall|j: int| 0 <= j < a1.len() ==> s1[j] == a1[j]@ && s2[j] == a2[j]@,
                            forall|j: int| 0 <= j < i ==> s1[j] == s2[j],
                        decreases a1.len() - i,
                    {
                        if !a1[i].structurally_equal(&a2[i]) {
                            assert(s1[i as int] != s2[i as int]);
                            return false;
                        }
                        i = i + 1;
                    }
                    assert(s1 =~= s2);
                    true
                },
            },
        }
    }

    /// Canonical text of the expression: `name` for a symbol,
    /// `name(child1, child2, ...)` for an application.
    pub fn render(&self) -> (r: String)
        ensures
            r@ == render_term(self@),
        decreases self,
    {
        match self {
            Expr::Sym(name) => name.clone(),
            Expr::Fun(name, args) => {
                let ghost ts = self@->Fun_1;
                let mut out = name.clone();
                proof {
                    reveal_strlit("(");
                    reveal_strlit(")");
                    reveal_strlit(", ");
                }
                out.append("(");
                proof {
                    assert forall|j: int| 0 <= j < args.len() implies decreases_to!(*self => args[j]) by {
                        assert(decreases_to!(*args => args[j]));
                    }
                }
                let mut i: usize = 0;
                while i < args.len()
                    invariant
                        forall|j: int| 0 <= j < args.len() ==> decreases_to!(*self => args[j]),
                        ts == self@->Fun_1,
                        ts.len() == args.len(),
                        i <= args.len(),
                        forall|j: int| 0 <= j < args.len() ==> ts[j] == args[j]@,
                        out@ == name@ + seq!['('] + render_args(ts, i as int),
                    decreases args.len() - i,
                {
                    proof {
                        reveal_strlit(", ");
                    }
                    if i > 0 {
                        out.append(", ");
                    }
                    let child = args[i].render();
                    out.append(child.as_str());
                    i = i + 1;
                }
                out.append(")");
                out
            },
        }
    }
}

impl Clone for Expr {
    fn clone(&self) -> (r: Self)
        ensures
            r@ == self@,
        decreases self,
    {
        match self {
            Expr::Sym(name) => Expr::Sym(name.clone()),
            Expr::Fun(name, args) => {
                proof {
                    assert forall|j: int| 0 <= j < args.len() implies decreases_to!(*self => args[j]) by {
                        assert(decreases_to!(*args => args[j]));
                    }
                }
                let mut out: Vec<Expr> = Vec::new();
                let mut i: usize = 0;
                while i < args.len()
                    invariant
                        forall|j: int| 0 <= j < args.len() ==> decreases_to!(*self => args[j]),
                        i <= args.len(),
                        out.len() == i,
                        forall|j: int| 0 <= j < i ==> out[j]@ == args[j]@,
                    decreases args.len() - i,
                {
                    out.push(args[i].clone());
                    i = i + 1;
                }
                let r = Expr::Fun(name.clone(), out);
                assert(r@->Fun_1 =~= self@->Fun_1);
                r
            },
        }
    }
}

impl PartialEq for Expr {
    fn eq(&self, other: &Expr) -> (r: bool) {
        self.structurally_equal(other)
    }
}

impl vstd::std_specs::cmp::PartialEqSpecImpl for Expr {
    open spec fn obeys_eq_spec() -> bool {
        true
    }

    open spec fn eq_spec(&self, other: &Expr) -> bool {
        self@ == other@
    }
}

} // verus!
