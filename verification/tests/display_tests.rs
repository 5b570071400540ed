use functional::ctypes::{num, ContainedTerm, Naming, Natural, Term};
use functional::display::{
    pretty_print_base, subscriptify, try_pretty_print, AliasMap, DisplayContext, TypingContext,
};
use functional::equals::refl;
use functional::kernel::ctn_unchecked;

fn c(t: Term) -> ContainedTerm {
    t.ctn().unwrap()
}

fn nat_ty() -> ContainedTerm {
    c(Term::Nat)
}

#[test]
fn subscripts() {
    assert_eq!(subscriptify(0), "");
    assert_eq!(subscriptify(7), "\u{2087}");
    assert_eq!(subscriptify(12), "\u{2081}\u{2082}");
    assert_eq!(subscriptify(305), "\u{2083}\u{2080}\u{2085}");
}

#[test]
fn display_context_counts_names() {
    let d = DisplayContext::new();
    assert!(d.last().is_none());
    let d = d.add_name(Naming::new("x"));
    assert_eq!(d.last().unwrap(), "x");
    let d = d.add_name(Naming::new("y"));
    let d = d.add_name(Naming::new("x"));
    assert_eq!(d.last().unwrap(), "x\u{2081}");
    assert_eq!(d.get(0).unwrap(), "x\u{2081}");
    assert_eq!(d.get(1).unwrap(), "y");
    assert_eq!(d.get(2).unwrap(), "x");
}

#[test]
fn typing_context_lookup() {
    let mut tc = TypingContext::new();
    assert!(tc.get(0).is_err());
    tc.push(nat_ty()).unwrap();
    assert!(*tc.get(0).unwrap() == nat_ty());
    assert!(tc.get(1).is_err());
}

#[test]
fn aliases_replace() {
    let mut a = AliasMap::new();
    assert!(a.get(&num(1)).is_none());
    a.add_alias(num(1), "one".to_string());
    assert_eq!(a.get(&num(1)).unwrap(), "one");
    a.add_alias(num(1), "uno".to_string());
    assert_eq!(a.get(&num(1)).unwrap(), "uno");
    assert!(a.get(&num(2)).is_none());
}

#[test]
fn prints_constants() {
    let a = AliasMap::new();
    assert_eq!(pretty_print_base(num(0), &a), "0");
    assert_eq!(pretty_print_base(num(12), &a), "12");
    assert_eq!(pretty_print_base(nat_ty(), &a), "\u{2115}");
    assert_eq!(pretty_print_base(c(Term::Universe(Natural::from(3u8))), &a), "Type{3}");
    assert_eq!(pretty_print_base(c(Term::II), &a), "I");
    assert_eq!(pretty_print_base(c(Term::IA), &a), "I\u{2080}");
    assert_eq!(pretty_print_base(c(Term::IB), &a), "I\u{2081}");
}

#[test]
fn prints_binders_with_subscripts() {
    let a = AliasMap::new();
    let v0 = c(Term::DeBrujin(Natural::from(0u8), nat_ty()));
    let id = c(Term::Lam(nat_ty(), v0, Naming::new("x")));
    assert_eq!(pretty_print_base(id.clone(), &a), "(x: \u{2115} \u{2192} x)");
    let pi = c(Term::Pi(nat_ty(), nat_ty(), Naming::new("x")));
    let nested = c(Term::Lam(nat_ty(), id, Naming::new("x")));
    assert_eq!(
        pretty_print_base(nested, &a),
        "(x: \u{2115} \u{2192} (x\u{2081}: \u{2115} \u{2192} x\u{2081}))"
    );
    assert_eq!(pretty_print_base(pi, &a), "(x: \u{2115} \u{2192} \u{2115})");
}

#[test]
fn prints_aliases_and_equalities() {
    let mut a = AliasMap::new();
    let r = refl(num(0)).unwrap();
    a.add_alias(r.clone(), "reflzero".to_string());
    assert_eq!(pretty_print_base(r, &a), "reflzero");
    let ty = refl(num(2)).unwrap().typed().unwrap();
    assert_eq!(pretty_print_base(ty, &AliasMap::new()), "(2\u{2261}2)");
}

#[test]
fn prints_successor_of_variable() {
    let v0 = c(Term::DeBrujin(Natural::from(0u8), nat_ty()));
    let f = c(Term::Lam(nat_ty(), c(Term::Succ(v0)), Naming::new("n")));
    assert_eq!(pretty_print_base(f, &AliasMap::new()), "(n: \u{2115} \u{2192} S n)");
}

#[test]
fn free_variable_leaves_partial_text() {
    let v0 = c(Term::DeBrujin(Natural::from(0u8), nat_ty()));
    let app = ctn_unchecked(Term::App(v0.clone(), v0));
    assert_eq!(pretty_print_base(app, &AliasMap::new()), "(");
}

#[test]
fn composition_is_unprintable() {
    let i = c(Term::IA);
    let h = ctn_unchecked(Term::HComp { family: i.clone(), base: i.clone(), first: i.clone(), second: i });
    assert!(try_pretty_print(h, &AliasMap::new()).is_none());
    assert_eq!(try_pretty_print(num(4), &AliasMap::new()), Some("4".to_string()));
}
