use noq::bindings::Bindings;
use noq::expr::Expr;
use noq::matcher::pattern_match;
use noq::rule::Rule;
use noq::subst::{substitute_bindings, SubstError};

fn sym(name: &str) -> Expr {
    Expr::Sym(name.to_string())
}

fn fun(name: &str, args: Vec<Expr>) -> Expr {
    Expr::Fun(name.to_string(), args)
}

fn key(name: &str) -> String {
    name.to_string()
}

#[test]
fn match_self_binds_each_leaf_to_itself() {
    let e = fun("f", vec![sym("x"), fun("g", vec![sym("y")]), sym("x")]);
    let b = pattern_match(&e, &e).expect("an expression matches itself");
    assert_eq!(b.get(&key("x")), Some(&sym("x")));
    assert_eq!(b.get(&key("y")), Some(&sym("y")));
    assert_eq!(b.get(&key("f")), None);
    assert_eq!(b.get(&key("g")), None);
}

#[test]
fn match_self_without_leaves_binds_nothing() {
    let e = fun("f", vec![fun("g", vec![])]);
    let b = pattern_match(&e, &e).expect("an expression matches itself");
    assert_eq!(b.get(&key("f")), None);
    assert_eq!(b.get(&key("g")), None);
}

#[test]
fn repeated_variable_with_different_values_fails() {
    let p = fun("f", vec![sym("x"), sym("x")]);
    let s = fun("f", vec![sym("a"), sym("b")]);
    assert!(pattern_match(&p, &s).is_none());
}

#[test]
fn repeated_variable_with_equal_values_binds_once() {
    let p = fun("f", vec![sym("x"), sym("x")]);
    let v = fun("g", vec![sym("a")]);
    let s = fun("f", vec![v.clone(), v.clone()]);
    let b = pattern_match(&p, &s).expect("equal arguments match");
    assert_eq!(b.get(&key("x")), Some(&v));
}

#[test]
fn functor_name_mismatch_fails() {
    let p = fun("f", vec![sym("x")]);
    let s = fun("g", vec![sym("a")]);
    assert!(pattern_match(&p, &s).is_none());
}

#[test]
fn arity_mismatch_fails() {
    let p = fun("f", vec![sym("x")]);
    let s = fun("f", vec![sym("a"), sym("b")]);
    assert!(pattern_match(&p, &s).is_none());
}

#[test]
fn application_against_symbol_fails() {
    let p = fun("f", vec![sym("x")]);
    assert!(pattern_match(&p, &sym("a")).is_none());
}

#[test]
fn symbol_pattern_binds_whole_subject() {
    let s = fun("f", vec![sym("a"), sym("b")]);
    let b = pattern_match(&sym("x"), &s).expect("a symbol matches anything");
    assert_eq!(b.get(&key("x")), Some(&s));
}

#[test]
fn substitute_with_no_bindings_is_identity() {
    let t = fun("f", vec![sym("x"), fun("g", vec![sym("y"), sym("x")])]);
    let r = substitute_bindings(&Bindings::new(), &t).expect("no functor is bound");
    assert_eq!(r, t);
}

#[test]
fn substitute_replaces_variables_and_functor_names() {
    let mut b = Bindings::new();
    b.insert(key("x"), fun("g", vec![sym("a")]));
    b.insert(key("f"), sym("h"));
    let t = fun("f", vec![sym("x"), sym("y")]);
    let r = substitute_bindings(&b, &t).expect("f is bound to a symbol");
    assert_eq!(r, fun("h", vec![fun("g", vec![sym("a")]), sym("y")]));
    assert_eq!(r.render(), "h(g(a), y)");
}

#[test]
fn substitute_functor_bound_to_application_fails() {
    let mut b = Bindings::new();
    b.insert(key("f"), fun("g", vec![sym("a")]));
    let t = fun("f", vec![sym("y")]);
    assert_eq!(substitute_bindings(&b, &t), Err(SubstError::FunctorNotSymbol));
}

#[test]
fn bindings_insert_replaces_earlier_value() {
    let mut b = Bindings::new();
    b.insert(key("x"), sym("a"));
    b.insert(key("x"), sym("b"));
    assert_eq!(b.get(&key("x")), Some(&sym("b")));
    assert_eq!(b.get(&key("y")), None);
}

#[test]
fn apply_at_root_equals_substitution_of_match() {
    let rule = Rule {
        head: fun("swap", vec![fun("pair", vec![sym("a"), sym("b")])]),
        body: fun("pair", vec![sym("b"), sym("a")]),
    };
    let s = fun("swap", vec![fun("pair", vec![fun("f", vec![sym("c")]), sym("d")])]);
    let b = pattern_match(&rule.head, &s).expect("the head matches");
    let expected = substitute_bindings(&b, &rule.body).unwrap();
    let r = rule.apply_all(&s).unwrap();
    assert_eq!(r, expected);
    assert_eq!(r, fun("pair", vec![sym("d"), fun("f", vec![sym("c")])]));
}

#[test]
fn apply_descends_when_root_does_not_match() {
    let rule = Rule { head: fun("f", vec![sym("a")]), body: sym("c") };
    let s = fun("g", vec![fun("f", vec![sym("a")])]);
    assert_eq!(rule.apply_all(&s).unwrap(), fun("g", vec![sym("c")]));
}

#[test]
fn apply_replaces_root_without_rewriting_inside() {
    let rule = Rule { head: fun("g", vec![sym("x")]), body: fun("h", vec![sym("x")]) };
    let s = fun("g", vec![fun("f", vec![sym("a")])]);
    assert_eq!(rule.apply_all(&s).unwrap(), fun("h", vec![fun("f", vec![sym("a")])]));
}

#[test]
fn apply_rewrites_each_matching_child_once() {
    let rule = Rule { head: fun("f", vec![sym("x")]), body: fun("f", vec![fun("f", vec![sym("x")])]) };
    let s = fun("g", vec![fun("f", vec![sym("a")]), sym("b"), fun("f", vec![sym("c")])]);
    let r = rule.apply_all(&s).unwrap();
    assert_eq!(r.render(), "g(f(f(a)), b, f(f(c)))");
}

#[test]
fn apply_without_match_leaves_expression_unchanged() {
    let rule = Rule { head: fun("f", vec![sym("x")]), body: sym("x") };
    let s = fun("g", vec![sym("a"), fun("h", vec![])]);
    assert_eq!(rule.apply_all(&s).unwrap(), s);
    assert_eq!(rule.apply_all(&sym("a")).unwrap(), sym("a"));
}

#[test]
fn apply_reports_functor_bound_to_application() {
    let rule = Rule { head: fun("f", vec![sym("x")]), body: fun("x", vec![sym("a")]) };
    let s = fun("k", vec![fun("f", vec![fun("g", vec![sym("b")])])]);
    assert_eq!(rule.apply_all(&s), Err(SubstError::FunctorNotSymbol));
}

#[test]
fn render_symbol_and_applications() {
    assert_eq!(sym("a").render(), "a");
    assert_eq!(fun("f", vec![]).render(), "f()");
    assert_eq!(fun("f", vec![sym("a"), fun("g", vec![sym("b"), sym("c")])]).render(), "f(a, g(b, c))");
}

#[test]
fn render_rule() {
    let rule = Rule {
        head: fun("swap", vec![fun("pair", vec![sym("a"), sym("b")])]),
        body: fun("pair", vec![sym("b"), sym("a")]),
    };
    assert_eq!(rule.render(), "swap(pair(a, b)) => pair(b, a)");
}

#[test]
fn structural_equality() {
    assert!(fun("f", vec![sym("a")]) == fun("f", vec![sym("a")]));
    assert!(fun("f", vec![sym("a")]) != fun("f", vec![sym("b")]));
    assert!(fun("f", vec![sym("a")]) != fun("g", vec![sym("a")]));
    assert!(fun("f", vec![]) != sym("f"));
    assert!(fun("f", vec![sym("a")]) != fun("f", vec![sym("a"), sym("a")]));
}
