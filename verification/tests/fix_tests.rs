use functional::ctypes::{check, num, sig_ex0, sig_ex1, unwrap_natural, ContainedTerm, Naming, Natural, Term};
use functional::display::DisplayContext;
use functional::numbers::flatten_natural;

fn c(t: Term) -> ContainedTerm {
    t.ctn().unwrap()
}

fn const_nat_family() -> ContainedTerm {
    c(Term::Lam(c(Term::Nat), c(Term::Nat), Naming::new("x")))
}

#[test]
fn flatten_natural_maps_zero_to_zero_and_the_rest_to_one() {
    assert_eq!(flatten_natural(num(0)).unwrap().get_number(), Some(0));
    assert_eq!(flatten_natural(num(1)).unwrap().get_number(), Some(1));
    assert_eq!(flatten_natural(num(4)).unwrap().get_number(), Some(1));
}

#[test]
fn projections_of_a_pair() {
    let f = const_nat_family();
    let p = c(Term::Pair(f.clone(), num(1), num(2)));
    let first = c(Term::App(sig_ex0(f.clone()).unwrap(), p.clone()));
    assert_eq!(first.get_number(), Some(1));
    let second = c(Term::App(sig_ex1(f.clone()).unwrap(), p));
    assert_eq!(second.get_number(), Some(2));
    assert!(sig_ex0(num(3)).is_err());
}

#[test]
fn negation_needs_an_interval_value() {
    let (w, _) = check(c(Term::Not(num(0))));
    assert!(w.is_err());
    let v = c(Term::DeBrujin(Natural::from(0u8), c(Term::II)));
    let lam = c(Term::Lam(c(Term::II), c(Term::Not(v)), Naming::new("i")));
    assert!(check(lam).0.is_ok());
}

#[test]
fn display_context_get_out_of_range() {
    let d = DisplayContext::new().add_name(Naming::new("x"));
    assert_eq!(d.get(0).unwrap(), "x");
    assert_eq!(d.get(1).unwrap_err().message, "Index out of bounds!");
}

#[test]
fn natural_from_byte() {
    assert_eq!(unwrap_natural(Natural::from(3u8)), 3);
    assert_eq!(unwrap_natural(Natural::from(3u8).suc()), 4);
}
