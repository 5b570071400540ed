use functional::bool::BoolData;
use functional::ctypes::{
    check, lam_helper, num, unwrap_natural, ContainedTerm, Naming, Natural, Term,
};
use functional::equals::{cong, refl, split_path, straight_eq, sym, trans, EqualTheorems};
use functional::impossible::FalseData;
use functional::numbers::{successor_function, zero_eq_trivial, NatData};
use functional::display::{pretty_print_base, AliasMap};

fn c(t: Term) -> ContainedTerm {
    t.ctn().unwrap()
}

fn nat_ty() -> ContainedTerm {
    c(Term::Nat)
}

fn ivar(k: u8) -> ContainedTerm {
    c(Term::DeBrujin(Natural::from(k), c(Term::II)))
}

#[test]
fn numerals_read_back() {
    assert_eq!(num(7).get_number(), Some(7));
    assert_eq!(num(0).get_number(), Some(0));
    assert!(num(0) == c(Term::Zero));
    assert_eq!(nat_ty().get_number(), None);
}

#[test]
fn check_refl_on_constant_and_identity() {
    let constant = c(Term::Lam(nat_ty(), c(Term::Zero), Naming::new("x")));
    let r = constant.check_refl(num(3)).unwrap();
    assert!(r == Some(c(Term::Zero)));
    let identity = c(Term::Lam(nat_ty(), c(Term::DeBrujin(Natural::from(0u8), nat_ty())), Naming::new("x")));
    assert!(identity.check_refl(num(3)).unwrap().is_none());
}

#[test]
fn interval_negation() {
    assert!(c(Term::Not(c(Term::IA))) == c(Term::IB));
    assert!(c(Term::Not(c(Term::IB))) == c(Term::IA));
    let i = ivar(0);
    let ni = c(Term::Not(i.clone()));
    assert!(ni != i);
    assert!(c(Term::Not(ni)) == i);
}

#[test]
fn interval_conjunction() {
    let i = ivar(0);
    let j = ivar(1);
    assert!(c(Term::And(c(Term::IA), i.clone())) == c(Term::IA));
    assert!(c(Term::And(i.clone(), c(Term::IA))) == c(Term::IA));
    assert!(c(Term::And(c(Term::IB), i.clone())) == i);
    assert!(c(Term::And(i.clone(), c(Term::IB))) == i);
    assert!(c(Term::And(i.clone(), j.clone())) == c(Term::And(j, i)));
}

#[test]
fn refl_has_straight_equality_type() {
    let two = num(2);
    let r = refl(two.clone()).unwrap();
    assert!(r.typed().unwrap() == straight_eq(two.clone(), two).unwrap());
}

#[test]
fn split_path_endpoints() {
    let r = refl(num(1)).unwrap();
    assert!(split_path(r.clone(), c(Term::IA), c(Term::IB)).unwrap() == r);
    assert!(sym(r.clone()).unwrap() == r);
}

#[test]
fn cong_successor_on_refl() {
    let s = successor_function().unwrap();
    assert!(cong(s, refl(num(0)).unwrap()).unwrap() == refl(num(1)).unwrap());
}

#[test]
fn successor_function_is_typed() {
    let s = successor_function().unwrap();
    assert!(s.clone().typed().unwrap() == c(Term::Pi(nat_ty(), nat_ty(), Naming::new("n"))));
    let three = c(Term::App(s, num(2)));
    assert_eq!(three.get_number(), Some(3));
}

#[test]
fn booleans_are_typed() {
    let b = BoolData::new().unwrap();
    assert!(b.bool_true.clone().typed().unwrap() == b.bool_type);
    assert!(b.bool_false.clone().typed().unwrap() == b.bool_type);
    assert!(b.bool_true != b.bool_false);
}

#[test]
fn check_numeral() {
    let (w, ty) = check(num(3));
    assert!(w.is_ok());
    assert!(ty.unwrap() == nat_ty());
}

#[test]
fn ill_typed_application_fails() {
    assert!(Term::App(num(1), num(2)).ctn().is_err());
}

#[test]
fn lam_helper_builds_identity() {
    let id = lam_helper([], nat_ty(), Naming::new("x"), |_s: [ContainedTerm; 0], x| Ok(x)).unwrap();
    let expected = c(Term::Lam(nat_ty(), c(Term::DeBrujin(Natural::from(0u8), nat_ty())), Naming::new("y")));
    assert!(id == expected);
    assert!(id.typed().unwrap() == c(Term::Pi(nat_ty(), nat_ty(), Naming::new("x"))));
}

#[test]
fn push_scope_then_check_const() {
    let v = c(Term::DeBrujin(Natural::from(0u8), nat_ty()));
    let pushed = v.clone().push_scope(Natural::from(0u8)).unwrap();
    assert!(pushed == c(Term::DeBrujin(Natural::from(1u8), nat_ty())));
    assert!(pushed.clone().check_const(Natural::from(0u8)).unwrap() == v);
    assert!(v.check_const(Natural::from(0u8)).is_err());
}

#[test]
fn natural_induction_counts() {
    let family = c(Term::Lam(nat_ty(), nat_ty(), Naming::new("_")));
    let step = lam_helper([], nat_ty(), Naming::new("n"), |_s: [ContainedTerm; 0], _n| {
        lam_helper([], nat_ty(), Naming::new("acc"), |_s: [ContainedTerm; 0], acc| Term::Succ(acc).ctn())
    })
    .unwrap();
    let ind = c(Term::NatInd(num(3), Natural::from(0u8)));
    let r = c(Term::App(c(Term::App(c(Term::App(ind, family)), num(0))), step));
    assert_eq!(r.get_number(), Some(3));
}

#[test]
fn false_data_and_exfalso() {
    let f = FalseData::new().unwrap();
    assert!(f.exfalso(nat_ty()).is_ok());
    assert!(f.exfalso(num(1)).is_err());
}

#[test]
fn zero_eq_trivial_builds() {
    assert!(zero_eq_trivial().is_ok());
}

#[test]
fn equal_theorems_build() {
    assert!(EqualTheorems::new(Natural::from(0u8), Natural::from(0u8)).is_ok());
}

#[test]
fn nat_data_adds() {
    let d = NatData::new().unwrap();
    let partial = c(Term::App(d.add_func.clone(), num(15)));
    assert_eq!(c(Term::App(partial, num(17))).get_number(), Some(32));
    assert!(d.add_zero_right.clone().typed().is_ok());
    assert!(d.add_succ_right.clone().typed().is_ok());
    assert!(d.add_sym.clone().typed().is_ok());
}

#[test]
fn natural_arithmetic() {
    let a = Natural::from(7u8);
    let b = Natural::from(5u8);
    assert_eq!(unwrap_natural(a.add(b)), 12);
    assert_eq!(a.sub(b).map(unwrap_natural), Ok(2));
    assert_eq!(b.sub(a).map_err(unwrap_natural), Err(2));
}

#[test]
fn addition_is_symmetric_on_numerals() {
    let d = NatData::new().unwrap();
    let s2 = Term::App(d.add_sym.clone(), num(2)).ctn().unwrap();
    let s23 = Term::App(s2, num(3)).ctn().unwrap();
    assert!(s23.typed().unwrap() == straight_eq(num(5), num(5)).unwrap());
}

#[test]
fn transitivity_of_reflexive_paths_types() {
    let r = refl(num(1)).unwrap();
    let t = trans(r.clone(), r).unwrap();
    assert!(t.typed().unwrap() == straight_eq(num(1), num(1)).unwrap());
}

#[test]
fn equality_theorems_have_their_types_at_other_levels() {
    assert!(EqualTheorems::new(Natural::from(1u8), Natural::from(0u8)).is_ok());
    assert!(EqualTheorems::new(Natural::from(0u8), Natural::from(2u8)).is_ok());
}

#[test]
fn exfalso_into_several_types() {
    let f = FalseData::new().unwrap();
    for t in [Term::Universe(Natural::from(0u8)), Term::Universe(Natural::from(3u8)), Term::II] {
        let x = f.exfalso(t.ctn().unwrap()).unwrap();
        assert!(x.typed().is_ok());
    }
}

#[test]
fn the_type_of_symmetry_of_addition() {
    let d = NatData::new().unwrap();
    let ty = d.add_sym.clone().typed().unwrap();
    let s = pretty_print_base(ty, &AliasMap::new());
    assert!(s.starts_with("(x: ℕ → (y: ℕ → "));
}
