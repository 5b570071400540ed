//! Theorems about the natural numbers.
use vstd::prelude::*;
use crate::model::{STerm, app, db, eqlam, equw, lam, natind, pi, succ};
use crate::semantics::{STEP_FUEL, rd, s_typed, sh, var_of};
use crate::ctypes::{ContainedTerm, Natural, Res, Term, err_str, res_is};
use crate::kernel::{node, nm, rd_x, sh_x, term_eq, var_x};
use crate::equals::{
    cong, cong_term, refl, refl_term, split_path, split_path_term, straight_eq, straight_eq_term,
    trans, trans_term,
};

verus! {

/// `λ (n: ℕ), S n`.
pub open spec fn successor_term() -> Option<STerm> {
    let n = var_of(STerm::Nat);
    if n is Some {
        rd(lam(STerm::Nat, succ(n->0)))
    } else {
        None
    }
}

/// `natind n 0 (λ _, ℕ) 0 (λ _ _, 1)`: induction on `n` over the constant family `ℕ`,
/// starting at `0`, each step giving `1`.
pub open spec fn flatten_natural_term(n: STerm) -> Option<STerm> {
    let family = rd(lam(STerm::Nat, STerm::Nat));
    let ni = rd(natind(n, 0));
    let a1 = rd(app(ni->0, family->0));
    let a2 = rd(app(a1->0, STerm::Zero));
    let l_in = rd(lam(STerm::Nat, succ(STerm::Zero)));
    let l = rd(lam(STerm::Nat, l_in->0));
    if family is Some && ni is Some && a1 is Some && a2 is Some && l_in is Some && l is Some {
        rd(app(a2->0, l->0))
    } else {
        None
    }
}

/// `λ (n: ℕ), Π (_: 0 ≡ n), 0 ≡ n`.
pub open spec fn zero_eq_family_term() -> Option<STerm> {
    let n = var_of(STerm::Nat);
    let n1 = sh(n->0);
    let se = straight_eq_term(STerm::Zero, n->0);
    let v = var_of(se->0);
    let inner = straight_eq_term(STerm::Zero, n1->0);
    if n is Some && n1 is Some && se is Some && v is Some && inner is Some {
        rd(lam(STerm::Nat, pi(se->0, inner->0)))
    } else {
        None
    }
}

/// `λ (n: ℕ), natind n 0 fam (λ _, refl 0) (λ n _ hyp, hyp)`: maps each `h : 0 ≡ n` to a path
/// that is `refl 0` at zero.
pub open spec fn zero_eq_func_term(fam: STerm) -> Option<STerm> {
    let fam1 = sh(fam);
    let n = var_of(STerm::Nat);
    let ni = rd(natind(n->0, 0));
    let a1 = rd(app(ni->0, fam1->0));
    let zz = straight_eq_term(STerm::Zero, STerm::Zero);
    let vz = var_of(zz->0);
    let rz = refl_term(STerm::Zero);
    let lz = rd(lam(zz->0, rz->0));
    let a2 = rd(app(a1->0, lz->0));
    let fam2 = sh(fam1->0);
    let n2 = var_of(STerm::Nat);
    let tyx = rd(app(fam2->0, n2->0));
    let n3 = sh(n2->0);
    let vx = var_of(tyx->0);
    let sz = straight_eq_term(STerm::Zero, succ(n3->0));
    let h = var_of(sz->0);
    let lh = rd(lam(sz->0, h->0));
    let lx = rd(lam(tyx->0, lh->0));
    let ln = rd(lam(STerm::Nat, lx->0));
    let body = rd(app(a2->0, ln->0));
    if fam1 is Some && n is Some && ni is Some && a1 is Some && zz is Some && vz is Some
        && rz is Some && lz is Some && a2 is Some && fam2 is Some && n2 is Some && tyx is Some
        && n3 is Some && vx is Some && sz is Some && h is Some && lh is Some && lx is Some
        && ln is Some && body is Some {
        rd(lam(STerm::Nat, body->0))
    } else {
        None
    }
}

/// `λ (i: I), func (hyp @ i) (split_path hyp IA i)`: a family of paths from `0` to `hyp @ i`.
pub open spec fn zero_eq_izero_term(hyp: STerm) -> Option<STerm> {
    let hyp1 = sh(hyp);
    let i = var_of(STerm::II);
    let fam = zero_eq_family_term();
    let func = zero_eq_func_term(fam->0);
    let split = split_path_term(hyp1->0, STerm::IA, i->0);
    let hi = rd(equw(hyp1->0, i->0));
    let f1 = rd(app(func->0, hi->0));
    let ns = rd(app(f1->0, split->0));
    if hyp1 is Some && i is Some && fam is Some && func is Some && split is Some && hi is Some
        && f1 is Some && ns is Some {
        rd(lam(STerm::II, ns->0))
    } else {
        None
    }
}

/// `λ (hyp: 0 ≡ 0), λ i j, izero j @ i : refl 0 ≡ hyp`.
pub open spec fn zero_eq_trivial_term() -> Option<STerm> {
    let zz = straight_eq_term(STerm::Zero, STerm::Zero);
    let hyp = var_of(zz->0);
    let izero = zero_eq_izero_term(hyp->0);
    let iz1 = sh(izero->0);
    let i = var_of(STerm::II);
    let iz2 = sh(iz1->0);
    let i1 = sh(i->0);
    let j = var_of(STerm::II);
    let aj = rd(app(iz2->0, j->0));
    let e = rd(equw(aj->0, i1->0));
    let lj = rd(lam(STerm::II, e->0));
    let elj = rd(eqlam(lj->0));
    let li = rd(lam(STerm::II, elj->0));
    let eli = rd(eqlam(li->0));
    if zz is Some && hyp is Some && izero is Some && iz1 is Some && i is Some && iz2 is Some
        && i1 is Some && j is Some && aj is Some && e is Some && lj is Some && elj is Some
        && li is Some && eli is Some {
        rd(lam(zz->0, eli->0))
    } else {
        None
    }
}

/// The successor function `λ (n: ℕ), S n`.
pub fn successor_function() -> (r: Res<ContainedTerm>)
    ensures
        res_is(r, successor_term()),
{
    let n = var_x(&node(Term::Nat))?;
    rd_x(Term::Lam(node(Term::Nat), node(Term::Succ(n)), nm("n")))
}

/// A function where 0 ↦ 0 and the rest ↦ 1, as the induction principle on `n`.
pub fn flatten_natural(n: ContainedTerm) -> (r: Res<ContainedTerm>)
    ensures
        res_is(r, flatten_natural_term(n@)),
{
    let family = rd_x(Term::Lam(node(Term::Nat), node(Term::Nat), nm("_")))?;
    let ni = rd_x(Term::NatInd(n, Natural::from_usize(0)))?;
    let a1 = rd_x(Term::App(ni, family))?;
    let a2 = rd_x(Term::App(a1, node(Term::Zero)))?;
    let l_in = rd_x(Term::Lam(node(Term::Nat), node(Term::Succ(node(Term::Zero))), nm("_")))?;
    let l = rd_x(Term::Lam(node(Term::Nat), l_in, nm("_")))?;
    rd_x(Term::App(a2, l))
}

fn zero_eq_family() -> (r: Res<ContainedTerm>)
    ensures
        res_is(r, zero_eq_family_term()),
{
    let n = var_x(&node(Term::Nat))?;
    let n1 = sh_x(&n)?;
    let se = straight_eq(node(Term::Zero), n)?;
    let _v = var_x(&se)?;
    let inner = straight_eq(node(Term::Zero), n1)?;
    rd_x(Term::Lam(node(Term::Nat), node(Term::Pi(se, inner, nm("_"))), nm("n")))
}

fn zero_eq_func(fam: &ContainedTerm) -> (r: Res<ContainedTerm>)
    ensures
        res_is(r, zero_eq_func_term(fam@)),
{
    let fam1 = sh_x(fam)?;
    let n = var_x(&node(Term::Nat))?;
    let ni = rd_x(Term::NatInd(n, Natural::from_usize(0)))?;
    let a1 = rd_x(Term::App(ni, fam1.clone()))?;
    let zz = straight_eq(node(Term::Zero), node(Term::Zero))?;
    let _vz = var_x(&zz)?;
    let rz = refl(node(Term::Zero))?;
    let lz = rd_x(Term::Lam(zz, rz, nm("_")))?;
    let a2 = rd_x(Term::App(a1, lz))?;
    let fam2 = sh_x(&fam1)?;
    let n2 = var_x(&node(Term::Nat))?;
    let tyx = rd_x(Term::App(fam2, n2.clone()))?;
    let n3 = sh_x(&n2)?;
    let _vx = var_x(&tyx)?;
    let sz = straight_eq(node(Term::Zero), node(Term::Succ(n3)))?;
    let h = var_x(&sz)?;
    let lh = rd_x(Term::Lam(sz, h, nm("hyp")))?;
    let lx = rd_x(Term::Lam(tyx, lh, nm("_")))?;
    let ln = rd_x(Term::Lam(node(Term::Nat), lx, nm("n")))?;
    let body = rd_x(Term::App(a2, ln))?;
    rd_x(Term::Lam(node(Term::Nat), body, nm("n")))
}

fn zero_eq_izero(hyp: &ContainedTerm) -> (r: Res<ContainedTerm>)
    ensures
        res_is(r, zero_eq_izero_term(hyp@)),
{
    let hyp1 = sh_x(hyp)?;
    let i = var_x(&node(Term::II))?;
    let fam = zero_eq_family()?;
    let func = zero_eq_func(&fam)?;
    let split = split_path(hyp1.clone(), node(Term::IA), i.clone())?;
    let hi = rd_x(Term::EqUw(hyp1, i))?;
    let f1 = rd_x(Term::App(func, hi))?;
    let ns = rd_x(Term::App(f1, split))?;
    rd_x(Term::Lam(node(Term::II), ns, nm("i")))
}

/// A proof that every value of `0 ≡ 0` is `refl 0`: a term of type `(h : 0 ≡ 0) → refl 0 ≡ h`.
pub fn zero_eq_trivial() -> (r: Res<ContainedTerm>)
    ensures
        res_is(r, zero_eq_trivial_term()),
{
    let zz = straight_eq(node(Term::Zero), node(Term::Zero))?;
    let hyp = var_x(&zz)?;
    let izero = zero_eq_izero(&hyp)?;
    let iz1 = sh_x(&izero)?;
    let i = var_x(&node(Term::II))?;
    let iz2 = sh_x(&iz1)?;
    let i1 = sh_x(&i)?;
    let j = var_x(&node(Term::II))?;
    let aj = rd_x(Term::App(iz2, j))?;
    let e = rd_x(Term::EqUw(aj, i1))?;
    let lj = rd_x(Term::Lam(node(Term::II), e, nm("j")))?;
    let elj = rd_x(Term::EqLam(lj))?;
    let li = rd_x(Term::Lam(node(Term::II), elj, nm("i")))?;
    let eli = rd_x(Term::EqLam(li))?;
    rd_x(Term::Lam(zz, eli, nm("hyp")))
}

/// Addition on naturals with its facts `add x 0 = x`, `add x (S y) = S (add x y)`
/// and `add x y = add y x`.
pub struct NatData {
    pub add_func: ContainedTerm,
    pub add_zero_right: ContainedTerm,
    pub add_succ_right: ContainedTerm,
    pub add_sym: ContainedTerm,
}

/// The family `λ z, add x z ≡ add z x` under the binders `x` and `y`.
pub open spec fn add_sym_family_body(add: STerm) -> Option<STerm> {
    let a1 = sh(add);
    let a2 = sh(a1->0);
    let a3 = sh(a2->0);
    let x = db(2, STerm::Nat);
    let z = db(0, STerm::Nat);
    let axz = rd(app(a3->0, x));
    let lhs = rd(app(axz->0, z));
    let az = rd(app(a3->0, z));
    let rhs = rd(app(az->0, x));
    if a1 is Some && a2 is Some && a3 is Some && axz is Some && lhs is Some && az is Some
        && rhs is Some {
        straight_eq_term(lhs->0, rhs->0)
    } else {
        None
    }
}

/// The step `λ z (ih: add x z ≡ add z x), trans (asr x z) (cong S ih)` under `x` and `y`.
pub open spec fn add_sym_step(asr: STerm, fam_body: STerm) -> Option<STerm> {
    let s1 = sh(asr);
    let s2 = sh(s1->0);
    let s3 = sh(s2->0);
    let s4 = sh(s3->0);
    let ax = rd(app(s4->0, db(3, STerm::Nat)));
    let axz = rd(app(ax->0, db(1, STerm::Nat)));
    let ih = var_of(fam_body);
    let succ_fn = successor_term();
    let cs = cong_term(succ_fn->0, ih->0);
    let st = trans_term(axz->0, cs->0);
    let lih = rd(lam(fam_body, st->0));
    if s1 is Some && s2 is Some && s3 is Some && s4 is Some && ax is Some && axz is Some
        && ih is Some && succ_fn is Some && cs is Some && st is Some && lih is Some {
        rd(lam(STerm::Nat, lih->0))
    } else {
        None
    }
}

/// `λ x y, natind y 0 (λ z, add x z ≡ add z x) (azr x) (λ z ih, trans (asr x z) (cong S ih))`.
pub open spec fn add_sym_term(add: STerm, azr: STerm, asr: STerm) -> Option<STerm> {
    let fam_body = add_sym_family_body(add);
    let family = rd(lam(STerm::Nat, fam_body->0));
    let z1 = sh(azr);
    let z2 = sh(z1->0);
    let base = rd(app(z2->0, db(1, STerm::Nat)));
    let step = add_sym_step(asr, fam_body->0);
    let ni = rd(natind(db(0, STerm::Nat), 0));
    let a1 = rd(app(ni->0, family->0));
    let a2 = rd(app(a1->0, base->0));
    let body = rd(app(a2->0, step->0));
    let ly = rd(lam(STerm::Nat, body->0));
    if fam_body is Some && family is Some && z1 is Some && z2 is Some && base is Some
        && step is Some && ni is Some && a1 is Some && a2 is Some && body is Some && ly is Some {
        rd(lam(STerm::Nat, ly->0))
    } else {
        None
    }
}

/// `λ n, natind n 0 (λ _, ℕ → ℕ) (λ x, x) (λ n f x, S (f x))`.
pub open spec fn addition_term() -> Option<STerm> {
    let n = var_of(STerm::Nat);
    let family = rd(lam(STerm::Nat, pi(STerm::Nat, STerm::Nat)));
    let x = var_of(STerm::Nat);
    let base = rd(lam(STerm::Nat, x->0));
    let fty = pi(STerm::Nat, STerm::Nat);
    let f = var_of(fty);
    let f1 = sh(f->0);
    let fx = rd(app(f1->0, x->0));
    let lx = rd(lam(STerm::Nat, succ(fx->0)));
    let lf = rd(lam(fty, lx->0));
    let step = rd(lam(STerm::Nat, lf->0));
    let ni = rd(natind(n->0, 0));
    let a1 = rd(app(ni->0, family->0));
    let a2 = rd(app(a1->0, base->0));
    let body = rd(app(a2->0, step->0));
    if n is Some && family is Some && x is Some && base is Some && f is Some && f1 is Some
        && fx is Some && lx is Some && lf is Some && step is Some && ni is Some && a1 is Some
        && a2 is Some && body is Some {
        rd(lam(STerm::Nat, body->0))
    } else {
        None
    }
}

/// `λ x, natind x 0 (λ x, add x 0 ≡ x) (refl 0) (λ x p, cong S p)`.
pub open spec fn add_zero_right_term(add: STerm) -> Option<STerm> {
    let add1 = sh(add);
    let x = var_of(STerm::Nat);
    let add2 = sh(add1->0);
    let ay = rd(app(add2->0, x->0));
    let ay0 = rd(app(ay->0, STerm::Zero));
    let fam_body = straight_eq_term(ay0->0, x->0);
    let family = rd(lam(STerm::Nat, fam_body->0));
    let base = refl_term(STerm::Zero);
    let p = var_of(fam_body->0);
    let succ_fn = successor_term();
    let cp = cong_term(succ_fn->0, p->0);
    let lp = rd(lam(fam_body->0, cp->0));
    let step = rd(lam(STerm::Nat, lp->0));
    let ni = rd(natind(x->0, 0));
    let a1 = rd(app(ni->0, family->0));
    let a2 = rd(app(a1->0, base->0));
    let body = rd(app(a2->0, step->0));
    if add1 is Some && x is Some && add2 is Some && ay is Some && ay0 is Some && fam_body is Some
        && family is Some && base is Some && p is Some && succ_fn is Some && cp is Some
        && lp is Some && step is Some && ni is Some && a1 is Some && a2 is Some && body is Some {
        rd(lam(STerm::Nat, body->0))
    } else {
        None
    }
}

/// `λ x y, natind x 0 (λ x, add x (S y) ≡ S (add x y)) (refl (S y)) (λ x p, cong S p)`.
pub open spec fn add_succ_right_term(add: STerm) -> Option<STerm> {
    let add1 = sh(add);
    let x = var_of(STerm::Nat);
    let add2 = sh(add1->0);
    let x2 = sh(x->0);
    let add3 = sh(add2->0);
    let y3 = sh(x->0);
    let ax = rd(app(add3->0, x->0));
    let axsy = rd(app(ax->0, succ(y3->0)));
    let axy = rd(app(ax->0, y3->0));
    let fam_body = straight_eq_term(axsy->0, succ(axy->0));
    let family = rd(lam(STerm::Nat, fam_body->0));
    let base = refl_term(succ(x->0));
    let fam1 = sh(family->0);
    let pty = rd(app(fam1->0, x->0));
    let p = var_of(pty->0);
    let succ_fn = successor_term();
    let cp = cong_term(succ_fn->0, p->0);
    let lp = rd(lam(pty->0, cp->0));
    let step = rd(lam(STerm::Nat, lp->0));
    let ni = rd(natind(x2->0, 0));
    let a1 = rd(app(ni->0, family->0));
    let a2 = rd(app(a1->0, base->0));
    let body = rd(app(a2->0, step->0));
    let ly = rd(lam(STerm::Nat, body->0));
    if add1 is Some && x is Some && add2 is Some && x2 is Some && add3 is Some && y3 is Some
        && ax is Some && axsy is Some && axy is Some && fam_body is Some && family is Some
        && base is Some && fam1 is Some && pty is Some && p is Some && succ_fn is Some
        && cp is Some && lp is Some && step is Some && ni is Some && a1 is Some && a2 is Some
        && body is Some && ly is Some {
        rd(lam(STerm::Nat, ly->0))
    } else {
        None
    }
}

/// `λ n, natind n 0 (λ _, ℕ → ℕ) (λ x, x) (λ n f x, S (f x))`: addition by recursion on the
/// first argument.
fn addition() -> (r: Res<ContainedTerm>)
    ensures
        res_is(r, addition_term()),
{
    let n = var_x(&node(Term::Nat))?;
    let fam_body = node(Term::Pi(node(Term::Nat), node(Term::Nat), nm("x")));
    let family = rd_x(Term::Lam(node(Term::Nat), fam_body, nm("n")))?;
    let x = var_x(&node(Term::Nat))?;
    let base = rd_x(Term::Lam(node(Term::Nat), x, nm("x")))?;
    let _m = var_x(&node(Term::Nat))?;
    let fty = node(Term::Pi(node(Term::Nat), node(Term::Nat), nm("n")));
    let f = var_x(&fty)?;
    let f1 = sh_x(&f)?;
    let x2 = var_x(&node(Term::Nat))?;
    let fx = rd_x(Term::App(f1, x2))?;
    let lx = rd_x(Term::Lam(node(Term::Nat), node(Term::Succ(fx)), nm("x")))?;
    let lf = rd_x(Term::Lam(fty, lx, nm("f")))?;
    let step = rd_x(Term::Lam(node(Term::Nat), lf, nm("n")))?;
    let ni = rd_x(Term::NatInd(n, Natural::from_usize(0)))?;
    let a1 = rd_x(Term::App(ni, family))?;
    let a2 = rd_x(Term::App(a1, base))?;
    let body = rd_x(Term::App(a2, step))?;
    rd_x(Term::Lam(node(Term::Nat), body, nm("n")))
}

/// `λ x, natind x 0 (λ x, add x 0 ≡ x) (refl 0) (λ x p, cong S p)`.
fn add_zero_right(addition: &ContainedTerm) -> (r: Res<ContainedTerm>)
    ensures
        res_is(r, add_zero_right_term(addition@)),
{
    let add1 = sh_x(addition)?;
    let x = var_x(&node(Term::Nat))?;
    let add2 = sh_x(&add1)?;
    let y = var_x(&node(Term::Nat))?;
    let ay = rd_x(Term::App(add2.clone(), y.clone()))?;
    let ay0 = rd_x(Term::App(ay, node(Term::Zero)))?;
    let fam_body = straight_eq(ay0, y)?;
    let family = rd_x(Term::Lam(node(Term::Nat), fam_body, nm("x")))?;
    let base = refl(node(Term::Zero))?;
    let add3 = sh_x(&add1)?;
    let z = var_x(&node(Term::Nat))?;
    let az = rd_x(Term::App(add3, z.clone()))?;
    let az0 = rd_x(Term::App(az, node(Term::Zero)))?;
    let pty = straight_eq(az0, z)?;
    let p = var_x(&pty)?;
    let succ_fn = successor_function()?;
    let cp = cong(succ_fn, p)?;
    let lp = rd_x(Term::Lam(pty, cp, nm("p")))?;
    let step = rd_x(Term::Lam(node(Term::Nat), lp, nm("x")))?;
    let ni = rd_x(Term::NatInd(x, Natural::from_usize(0)))?;
    let a1 = rd_x(Term::App(ni, family))?;
    let a2 = rd_x(Term::App(a1, base))?;
    let body = rd_x(Term::App(a2, step))?;
    rd_x(Term::Lam(node(Term::Nat), body, nm("x")))
}

/// `λ x y, natind x 0 (λ x, add x (S y) ≡ S (add x y)) (refl (S y)) (λ x p, cong S p)`.
fn add_succ_right(addition: &ContainedTerm) -> (r: Res<ContainedTerm>)
    ensures
        res_is(r, add_succ_right_term(addition@)),
{
    let add1 = sh_x(addition)?;
    let x = var_x(&node(Term::Nat))?;
    let add2 = sh_x(&add1)?;
    let x2 = sh_x(&x)?;
    let y = var_x(&node(Term::Nat))?;
    let add3 = sh_x(&add2)?;
    let y3 = sh_x(&y)?;
    let xv = var_x(&node(Term::Nat))?;
    let ax = rd_x(Term::App(add3.clone(), xv.clone()))?;
    let axsy = rd_x(Term::App(ax, node(Term::Succ(y3.clone()))))?;
    let ax2 = rd_x(Term::App(add3, xv))?;
    let axy = rd_x(Term::App(ax2, y3))?;
    let fam_body = straight_eq(axsy, node(Term::Succ(axy)))?;
    let family = rd_x(Term::Lam(node(Term::Nat), fam_body, nm("x")))?;
    let base = refl(node(Term::Succ(y)))?;
    let fam1 = sh_x(&family)?;
    let xs = var_x(&node(Term::Nat))?;
    let pty = rd_x(Term::App(fam1, xs))?;
    let p = var_x(&pty)?;
    let succ_fn = successor_function()?;
    let cp = cong(succ_fn, p)?;
    let lp = rd_x(Term::Lam(pty, cp, nm("p")))?;
    let step = rd_x(Term::Lam(node(Term::Nat), lp, nm("x")))?;
    let ni = rd_x(Term::NatInd(x2, Natural::from_usize(0)))?;
    let a1 = rd_x(Term::App(ni, family))?;
    let a2 = rd_x(Term::App(a1, base))?;
    let body = rd_x(Term::App(a2, step))?;
    let ly = rd_x(Term::Lam(node(Term::Nat), body, nm("y")))?;
    rd_x(Term::Lam(node(Term::Nat), ly, nm("x")))
}

fn add_sym_family_body_of(add: &ContainedTerm) -> (r: Res<ContainedTerm>)
    ensures
        res_is(r, add_sym_family_body(add@)),
{
    let a1 = sh_x(add)?;
    let a2 = sh_x(&a1)?;
    let a3 = sh_x(&a2)?;
    let x = node(Term::DeBrujin(Natural::from_usize(2), node(Term::Nat)));
    let z = node(Term::DeBrujin(Natural::from_usize(0), node(Term::Nat)));
    let axz = rd_x(Term::App(a3.clone(), x.clone()))?;
    let lhs = rd_x(Term::App(axz, z.clone()))?;
    let az = rd_x(Term::App(a3, z))?;
    let rhs = rd_x(Term::App(az, x))?;
    straight_eq(lhs, rhs)
}

fn add_sym_step_of(asr: &ContainedTerm, fam_body: &ContainedTerm) -> (r: Res<ContainedTerm>)
    ensures
        res_is(r, add_sym_step(asr@, fam_body@)),
{
    let s1 = sh_x(asr)?;
    let s2 = sh_x(&s1)?;
    let s3 = sh_x(&s2)?;
    let s4 = sh_x(&s3)?;
    let ax = rd_x(Term::App(s4, node(Term::DeBrujin(Natural::from_usize(3), node(Term::Nat)))))?;
    let axz = rd_x(Term::App(ax, node(Term::DeBrujin(Natural::from_usize(1), node(Term::Nat)))))?;
    let ih = var_x(fam_body)?;
    let succ_fn = successor_function()?;
    let cs = cong(succ_fn, ih)?;
    let st = trans(axz, cs)?;
    let lih = rd_x(Term::Lam(fam_body.clone(), st, nm("ih")))?;
    rd_x(Term::Lam(node(Term::Nat), lih, nm("z")))
}

/// Symmetry of addition, by induction on the second argument.
fn add_sym(add: &ContainedTerm, azr: &ContainedTerm, asr: &ContainedTerm) -> (r: Res<ContainedTerm>)
    ensures
        res_is(r, add_sym_term(add@, azr@, asr@)),
{
    let fam_body = add_sym_family_body_of(add)?;
    let family = rd_x(Term::Lam(node(Term::Nat), fam_body.clone(), nm("z")))?;
    let z1 = sh_x(azr)?;
    let z2 = sh_x(&z1)?;
    let base = rd_x(Term::App(z2, node(Term::DeBrujin(Natural::from_usize(1), node(Term::Nat)))))?;
    let step = add_sym_step_of(asr, &fam_body)?;
    let ni = rd_x(Term::NatInd(node(Term::DeBrujin(Natural::from_usize(0), node(Term::Nat))), Natural::from_usize(0)))?;
    let a1 = rd_x(Term::App(ni, family))?;
    let a2 = rd_x(Term::App(a1, base))?;
    let body = rd_x(Term::App(a2, step))?;
    let ly = rd_x(Term::Lam(node(Term::Nat), body, nm("y")))?;
    rd_x(Term::Lam(node(Term::Nat), ly, nm("x")))
}

/// `add x y` for `x` and `y` in scope, with `add` closed.
pub open spec fn add_applied(add2: STerm, x: STerm, y: STerm) -> Option<STerm> {
    let ax = rd(app(add2, x));
    if ax is Some {
        rd(app(ax->0, y))
    } else {
        None
    }
}

/// `Π x, add x 0 ≡ x`.
pub open spec fn add_zero_right_type(add: STerm) -> Option<STerm> {
    let a1 = sh(add);
    let x = db(0, STerm::Nat);
    let l = add_applied(a1->0, x, STerm::Zero);
    let e = straight_eq_term(l->0, x);
    if a1 is Some && l is Some && e is Some {
        Some(pi(STerm::Nat, e->0))
    } else {
        None
    }
}

/// `Π x y, add x (S y) ≡ S (add x y)`.
pub open spec fn add_succ_right_type(add: STerm) -> Option<STerm> {
    let a1 = sh(add);
    let a2 = sh(a1->0);
    let x = db(1, STerm::Nat);
    let y = db(0, STerm::Nat);
    let l = add_applied(a2->0, x, succ(y));
    let r = add_applied(a2->0, x, y);
    let e = straight_eq_term(l->0, succ(r->0));
    if a1 is Some && a2 is Some && l is Some && r is Some && e is Some {
        Some(pi(STerm::Nat, pi(STerm::Nat, e->0)))
    } else {
        None
    }
}

/// `Π x y, add x y ≡ add y x`.
pub open spec fn add_sym_type(add: STerm) -> Option<STerm> {
    let a1 = sh(add);
    let a2 = sh(a1->0);
    let x = db(1, STerm::Nat);
    let y = db(0, STerm::Nat);
    let l = add_applied(a2->0, x, y);
    let r = add_applied(a2->0, y, x);
    let e = straight_eq_term(l->0, r->0);
    if a1 is Some && a2 is Some && l is Some && r is Some && e is Some {
        Some(pi(STerm::Nat, pi(STerm::Nat, e->0)))
    } else {
        None
    }
}

fn add_applied_of(add2: &ContainedTerm, x: &ContainedTerm, y: &ContainedTerm) -> (r: Res<ContainedTerm>)
    ensures
        res_is(r, add_applied(add2@, x@, y@)),
{
    let ax = rd_x(Term::App(add2.clone(), x.clone()))?;
    rd_x(Term::App(ax, y.clone()))
}

fn nat_var(k: usize) -> (r: ContainedTerm)
    ensures
        r@ == db(k as nat, STerm::Nat),
{
    node(Term::DeBrujin(Natural::from_usize(k), node(Term::Nat)))
}

fn add_zero_right_type_of(add: &ContainedTerm) -> (r: Res<ContainedTerm>)
    ensures
        res_is(r, add_zero_right_type(add@)),
{
    let a1 = sh_x(add)?;
    let x = nat_var(0);
    let l = add_applied_of(&a1, &x, &node(Term::Zero))?;
    let e = straight_eq(l, x)?;
    Ok(node(Term::Pi(node(Term::Nat), e, nm("x"))))
}

fn add_succ_right_type_of(add: &ContainedTerm) -> (r: Res<ContainedTerm>)
    ensures
        res_is(r, add_succ_right_type(add@)),
{
    let a1 = sh_x(add)?;
    let a2 = sh_x(&a1)?;
    let x = nat_var(1);
    let y = nat_var(0);
    let l = add_applied_of(&a2, &x, &node(Term::Succ(y.clone())))?;
    let r = add_applied_of(&a2, &x, &y)?;
    let e = straight_eq(l, node(Term::Succ(r)))?;
    Ok(node(Term::Pi(node(Term::Nat), node(Term::Pi(node(Term::Nat), e, nm("y"))), nm("x"))))
}

fn add_sym_type_of(add: &ContainedTerm) -> (r: Res<ContainedTerm>)
    ensures
        res_is(r, add_sym_type(add@)),
{
    let a1 = sh_x(add)?;
    let a2 = sh_x(&a1)?;
    let x = nat_var(1);
    let y = nat_var(0);
    let l = add_applied_of(&a2, &x, &y)?;
    let r = add_applied_of(&a2, &y, &x)?;
    let e = straight_eq(l, r)?;
    Ok(node(Term::Pi(node(Term::Nat), node(Term::Pi(node(Term::Nat), e, nm("y"))), nm("x"))))
}

/// Checks that `t` has the type `ty` builds to; fails with `msg` otherwise.
fn has_type(t: &ContainedTerm, ty: Res<ContainedTerm>, msg: &str) -> (r: Res<()>)
    ensures
        r is Ok <==> (ty matches Ok(u) && s_typed(t@, STEP_FUEL as nat) == Some(u@)),
{
    let u = ty?;
    let tt = t.clone().typed()?;
    if term_eq(&tt, &u) {
        Ok(())
    } else {
        err_str(msg)
    }
}

/// Addition and its facts as built, each with the type stated of it.
pub open spec fn nat_data_holds(d: NatData) -> bool {
    &&& addition_term() == Some(d.add_func@)
    &&& add_zero_right_term(d.add_func@) == Some(d.add_zero_right@)
    &&& add_succ_right_term(d.add_func@) == Some(d.add_succ_right@)
    &&& add_sym_term(d.add_func@, d.add_zero_right@, d.add_succ_right@) == Some(d.add_sym@)
    &&& add_zero_right_type(d.add_func@) is Some
    &&& s_typed(d.add_zero_right@, STEP_FUEL as nat) == add_zero_right_type(d.add_func@)
    &&& add_succ_right_type(d.add_func@) is Some
    &&& s_typed(d.add_succ_right@, STEP_FUEL as nat) == add_succ_right_type(d.add_func@)
    &&& add_sym_type(d.add_func@) is Some
    &&& s_typed(d.add_sym@, STEP_FUEL as nat) == add_sym_type(d.add_func@)
}

impl NatData {
    /// Builds addition, then `add x 0 = x` and `add x (S y) = S (add x y)`, and from
    /// them `add x y = add y x`; each fact is checked to have the type stated of it.
    pub fn new() -> (r: Res<Self>)
        ensures
            r matches Ok(d) ==> nat_data_holds(d),
            r is Err ==> !exists|d: NatData| nat_data_holds(d),
    {
        let add_func = addition()?;
        let add_zero_right = add_zero_right(&add_func)?;
        let add_succ_right = add_succ_right(&add_func)?;
        let add_sym = add_sym(&add_func, &add_zero_right, &add_succ_right)?;
        has_type(&add_zero_right, add_zero_right_type_of(&add_func), "add x 0 = x does not have its type")?;
        has_type(&add_succ_right, add_succ_right_type_of(&add_func), "add x (S y) = S (add x y) does not have its type")?;
        has_type(&add_sym, add_sym_type_of(&add_func), "add x y = add y x does not have its type")?;
        Ok(NatData { add_func, add_zero_right, add_succ_right, add_sym })
    }
}

} // verus!
