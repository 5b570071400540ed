use functional::ctypes::{lam_helper, num, ContainedTerm, Naming, Natural, Term};
use functional::display::TypingContext;
use functional::equals::{refl, split_path, straight_eq};
use functional::numbers::successor_function;

fn c(t: Term) -> ContainedTerm {
    t.ctn().unwrap()
}

#[test]
fn equality_applied_to_endpoints() {
    let r = refl(num(2)).unwrap();
    assert!(c(Term::EqUw(r.clone(), c(Term::IA))) == num(2));
    assert!(c(Term::EqUw(r, c(Term::IB))) == num(2));
}

#[test]
fn wrapped_function_applied_to_variable() {
    let body = lam_helper([], c(Term::II), Naming::new("i"), |_s: [ContainedTerm; 0], i| {
        Term::EqUw(refl(num(1))?, i).ctn()
    })
    .unwrap();
    assert!(body == c(Term::Lam(c(Term::II), num(1), Naming::new("i"))));
}

#[test]
fn lambda_eta_contracts() {
    let s = successor_function().unwrap();
    let eta = lam_helper([s.clone()], c(Term::Nat), Naming::new("x"), |[f], x| Term::App(f, x).ctn()).unwrap();
    assert!(eta == s);
}

#[test]
fn pushed_context_shifts_entries() {
    let mut tc = TypingContext::new();
    tc.push(c(Term::Nat)).unwrap();
    tc.push(c(Term::II)).unwrap();
    assert!(*tc.get(0).unwrap() == c(Term::II));
    assert!(*tc.get(1).unwrap() == c(Term::Nat));
    assert!(tc.get(2).is_err());
}

#[test]
fn conjunction_commutes_on_variables() {
    let v = |k: u8| c(Term::DeBrujin(Natural::from(k), c(Term::II)));
    let ab = c(Term::And(v(0), v(3)));
    let ba = c(Term::And(v(3), v(0)));
    assert!(ab == ba);
    assert!(c(Term::And(ab.clone(), c(Term::IB))) == ab);
}

#[test]
fn numeral_round_trip() {
    for k in [0usize, 1, 2, 10, 57] {
        assert_eq!(num(k).get_number(), Some(k));
    }
}

#[test]
fn check_const_undoes_push_on_a_type() {
    let nat = c(Term::Nat);
    let v1 = c(Term::DeBrujin(Natural::from(1u8), nat.clone()));
    let t = c(Term::Pi(nat.clone(), c(Term::Eq(c(Term::II), v1.clone(), v1)), Naming::new("x")));
    let pushed = t.clone().push_scope(Natural::from(0u8)).unwrap();
    assert!(pushed != t);
    assert!(pushed.check_const(Natural::from(0u8)).unwrap() == t);
}

#[test]
fn negating_a_variable_twice() {
    let i = c(Term::DeBrujin(Natural::from(2u8), c(Term::II)));
    let ni = c(Term::Not(i.clone()));
    assert!(c(Term::Not(ni)) == i);
}

#[test]
fn induction_waits_for_constructors() {
    let n = ctn_var(Term::Nat);
    let ind = c(Term::NatInd(n.clone(), Natural::from(0u8)));
    assert!(matches!(ind.clone().pop(), Term::NatInd(_, _)));
    let on_zero = c(Term::NatInd(num(0), Natural::from(0u8)));
    assert!(matches!(on_zero.pop(), Term::Lam(_, _, _)));
    let on_two = c(Term::NatInd(num(2), Natural::from(0u8)));
    assert!(matches!(on_two.pop(), Term::Lam(_, _, _)));
}

fn ctn_var(ty: Term) -> ContainedTerm {
    c(Term::DeBrujin(Natural::from(0u8), c(ty)))
}

#[test]
fn building_type_formers_keeps_them() {
    let fam = c(Term::Lam(c(Term::Nat), c(Term::Nat), Naming::new("n")));
    let s = c(Term::Sig(fam.clone()));
    assert!(matches!(s.pop(), Term::Sig(_)));
    let v = ctn_var(Term::II);
    assert!(matches!(v.pop(), Term::DeBrujin(_, _)));
}

#[test]
fn splitting_a_variable_path_whole() {
    let ty = straight_eq(num(1), num(1)).unwrap();
    let p = c(Term::DeBrujin(Natural::from(0u8), ty));
    assert!(split_path(p.clone(), c(Term::IA), c(Term::IB)).unwrap() == p);
}

#[test]
fn splitting_a_variable_path_at_its_start() {
    let ty = straight_eq(num(1), num(2)).unwrap();
    let p = c(Term::DeBrujin(Natural::from(0u8), ty));
    assert!(split_path(p.clone(), c(Term::IA), c(Term::IA)).unwrap() == refl(num(1)).unwrap());
    // At the other end the index `¬(¬(I₁ ∧ i) ∧ ¬(I₁ ∧ ¬i))` keeps `i ∧ ¬i`, which does not reduce.
    assert!(split_path(p, c(Term::IB), c(Term::IB)).unwrap() != refl(num(2)).unwrap());
}

#[test]
fn reflexivity_typed_on_a_type_and_a_variable() {
    let nat = c(Term::Nat);
    let r = refl(nat.clone()).unwrap();
    assert!(r.typed().unwrap() == straight_eq(nat.clone(), nat).unwrap());
    let v = c(Term::DeBrujin(Natural::from(4u8), c(Term::Nat)));
    let rv = refl(v.clone()).unwrap();
    assert!(rv.typed().unwrap() == straight_eq(v.clone(), v).unwrap());
}

#[test]
fn equality_eta_contracts() {
    let ty = straight_eq(num(0), num(0)).unwrap();
    let p = c(Term::DeBrujin(Natural::from(0u8), ty));
    let l = lam_helper([p.clone()], c(Term::II), Naming::new("i"), |[p], i| Term::EqUw(p, i).ctn()).unwrap();
    assert!(c(Term::EqLam(l)) == p);
}

#[test]
fn beta_substitutes_the_argument() {
    let s = successor_function().unwrap();
    assert_eq!(c(Term::App(s, num(2))).get_number(), Some(3));
    let id = lam_helper([], c(Term::Nat), Naming::new("x"), |_s: [ContainedTerm; 0], x| Ok(x)).unwrap();
    assert!(c(Term::App(id, num(4))) == num(4));
}

#[test]
fn ill_typed_applications_fail() {
    let s = successor_function().unwrap();
    assert!(Term::App(s, c(Term::IA)).ctn().is_err());
    assert!(Term::App(num(1), num(2)).ctn().is_err());
}

#[test]
fn neutral_application_stays() {
    let fty = c(Term::Pi(c(Term::Nat), c(Term::Nat), Naming::new("x")));
    let f = c(Term::DeBrujin(Natural::from(0u8), fty));
    let a = c(Term::App(f.clone(), num(1)));
    assert!(matches!(a.pop(), Term::App(_, _)));
}

#[test]
fn transport_along_a_constant_line() {
    let line = refl(c(Term::Nat)).unwrap();
    assert!(c(Term::Transp(line, num(3))) == num(3));
}
