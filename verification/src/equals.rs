//! Axiom-J style equality on top of cubical equality: the usual
//! principles of equality, built as terms.
use vstd::prelude::*;
use crate::model::{STerm, app, eqlam, eqty, equw, iand, inot, lam, pair, pi, sig, sigind, transp};
use crate::semantics::{STEP_FUEL, rd, s_typed, sh, ty_of, var_of};
use crate::ctypes::{ContainedTerm, Natural, Res, Term, err_str, res_is};
use crate::kernel::{node, nm, rd_x, sh_x, term_eq, ty_x, var_x};

verus! {

/// The type `a ≡ b` over the constant family of `a`'s type.
pub open spec fn straight_eq_term(a: STerm, b: STerm) -> Option<STerm> {
    let ty = ty_of(a);
    let ty1 = sh(ty->0);
    let i = var_of(STerm::II);
    let fam = rd(lam(STerm::II, ty1->0));
    if ty is Some && ty1 is Some && i is Some && fam is Some {
        Some(eqty(fam->0, a, b))
    } else {
        None
    }
}

/// `refl a : a ≡ a`, the constant path.
pub open spec fn refl_term(a: STerm) -> Option<STerm> {
    let a1 = sh(a);
    let i = var_of(STerm::II);
    let l = rd(lam(STerm::II, a1->0));
    if a1 is Some && i is Some && l is Some {
        rd(eqlam(l->0))
    } else {
        None
    }
}

/// The path `λ i, eq @ ((i2 ∧ i) ∨ (i1 ∧ ¬i))`, written with `¬` and `∧`.
pub open spec fn split_path_term(eq: STerm, i1: STerm, i2: STerm) -> Option<STerm> {
    let eq1 = sh(eq);
    let i11 = sh(i1);
    let i21 = sh(i2);
    let i = var_of(STerm::II);
    let a1 = rd(iand(i21->0, i->0));
    let n1 = rd(inot(a1->0));
    let ni = rd(inot(i->0));
    let a2 = rd(iand(i11->0, ni->0));
    let n2 = rd(inot(a2->0));
    let a3 = rd(iand(n1->0, n2->0));
    let n3 = rd(inot(a3->0));
    let body = rd(equw(eq1->0, n3->0));
    let l = rd(lam(STerm::II, body->0));
    if eq1 is Some && i11 is Some && i21 is Some && i is Some && a1 is Some && n1 is Some
        && ni is Some && a2 is Some && n2 is Some && a3 is Some && n3 is Some && body is Some
        && l is Some {
        rd(eqlam(l->0))
    } else {
        None
    }
}

/// Transport of `begin` along the equality of types `eq`.
pub open spec fn transport_eq_term(eq: STerm, begin: STerm) -> Option<STerm> {
    let eq1 = sh(eq);
    let i = var_of(STerm::II);
    let body = rd(equw(eq1->0, i->0));
    let l = rd(lam(STerm::II, body->0));
    if eq1 is Some && i is Some && body is Some && l is Some {
        rd(transp(l->0, begin))
    } else {
        None
    }
}

/// `cong func eq : func a ≡ func b` for `eq : a ≡ b`.
pub open spec fn cong_term(func: STerm, eq: STerm) -> Option<STerm> {
    let func1 = sh(func);
    let eq1 = sh(eq);
    let i = var_of(STerm::II);
    let ei = rd(equw(eq1->0, i->0));
    let body = rd(app(func1->0, ei->0));
    let l = rd(lam(STerm::II, body->0));
    if func1 is Some && eq1 is Some && i is Some && ei is Some && body is Some && l is Some {
        rd(eqlam(l->0))
    } else {
        None
    }
}

/// The family `λ i, cfirst ≡ eqB @ i` used to concatenate two paths.
pub open spec fn trans_family(eq_b: STerm, cfirst: STerm) -> Option<STerm> {
    let eqb1 = sh(eq_b);
    let cf1 = sh(cfirst);
    let i = var_of(STerm::II);
    let ei = rd(equw(eqb1->0, i->0));
    let body = straight_eq_term(cf1->0, ei->0);
    let l = rd(lam(STerm::II, body->0));
    if eqb1 is Some && cf1 is Some && i is Some && ei is Some && body is Some && l is Some {
        rd(eqlam(l->0))
    } else {
        None
    }
}

/// The concatenation of `eqA : a ≡ b` and `eqB : b ≡ c`.
pub open spec fn trans_term(eq_a: STerm, eq_b: STerm) -> Option<STerm> {
    let cfirst = rd(equw(eq_a, STerm::IA));
    let family = trans_family(eq_b, cfirst->0);
    if cfirst is Some && family is Some {
        transport_eq_term(family->0, eq_a)
    } else {
        None
    }
}

/// `λ j, p @ (i ∧ j)` wrapped as an equality.
pub open spec fn connection_term(p: STerm, i: STerm) -> Option<STerm> {
    let p1 = sh(p);
    let i1 = sh(i);
    let j = var_of(STerm::II);
    let ij = rd(iand(i1->0, j->0));
    let e = rd(equw(p1->0, ij->0));
    let lj = rd(lam(STerm::II, e->0));
    if p1 is Some && i1 is Some && j is Some && ij is Some && e is Some && lj is Some {
        rd(eqlam(lj->0))
    } else {
        None
    }
}

/// Contractibility of singletons, at the innermost binder `p : eqtyf b`.
pub open spec fn sig_contr_path_term(eqtyf: STerm, a: STerm, b: STerm, p: STerm) -> Option<STerm> {
    let eqtyf1 = sh(eqtyf);
    let a1 = sh(a);
    let b1 = sh(b);
    let p1 = sh(p);
    let i = var_of(STerm::II);
    let pi_ = rd(equw(p1->0, i->0));
    let el = connection_term(p1->0, i->0);
    let l = rd(lam(STerm::II, pair(eqtyf1->0, pi_->0, el->0)));
    if eqtyf1 is Some && a1 is Some && b1 is Some && p1 is Some && i is Some && pi_ is Some
        && el is Some && l is Some {
        rd(eqlam(l->0))
    } else {
        None
    }
}

/// Contractibility of singletons, under the binders `ty`, `a` and `p : Σ (b: ty), a ≡ b`.
pub open spec fn sig_contr_body_term(ty: STerm, a: STerm, pty: STerm, eqtyf: STerm, p: STerm, n: nat) -> Option<
    STerm,
> {
    let si = rd(sigind(p, n + 1));
    let eqtyf2 = sh(eqtyf);
    let a4 = sh(a);
    let pv = var_of(pty);
    let r = refl_term(a4->0);
    let se = straight_eq_term(pair(eqtyf2->0, a4->0, r->0), pv->0);
    let l1 = rd(lam(pty, se->0));
    let x1 = rd(app(si->0, l1->0));
    let a5 = sh(a);
    let eqtyf3 = sh(eqtyf);
    let b = var_of(ty);
    let ptype = rd(app(eqtyf3->0, b->0));
    let a6 = sh(a5->0);
    let eqtyf4 = sh(eqtyf3->0);
    let b1 = sh(b->0);
    let p2 = var_of(ptype->0);
    let path = sig_contr_path_term(eqtyf4->0, a6->0, b1->0, p2->0);
    let lp = rd(lam(ptype->0, path->0));
    let l2 = rd(lam(ty, lp->0));
    if n < usize::MAX && si is Some && eqtyf2 is Some && a4 is Some && pv is Some && r is Some
        && se is Some && l1 is Some && x1 is Some && a5 is Some && eqtyf3 is Some && b is Some
        && ptype is Some && a6 is Some && eqtyf4 is Some && b1 is Some && p2 is Some && path is Some
        && lp is Some && l2 is Some {
        rd(app(x1->0, l2->0))
    } else {
        None
    }
}

/// `∀ (T: Type{n}) (a: T) (s: Σ (b: T), a ≡ b), (a, refl a) ≡ s`.
pub open spec fn sig_contr_term(n: nat) -> Option<STerm> {
    let un = STerm::Universe(n);
    let ty1 = var_of(un);
    let ty2 = sh(ty1->0);
    let a1 = var_of(ty1->0);
    let ty3 = sh(ty2->0);
    let a2 = sh(a1->0);
    let bv = var_of(ty2->0);
    let se = straight_eq_term(a2->0, bv->0);
    let eqtyf = rd(lam(ty2->0, se->0));
    let pty = sig(eqtyf->0);
    let ty4 = sh(ty2->0);
    let a3 = sh(a1->0);
    let pty1 = sh(pty);
    let eqtyf1 = sh(eqtyf->0);
    let p = var_of(pty);
    let body3 = sig_contr_body_term(ty4->0, a3->0, pty1->0, eqtyf1->0, p->0, n);
    let l3 = rd(lam(pty, body3->0));
    let l2 = rd(lam(ty1->0, l3->0));
    if ty1 is Some && ty2 is Some && a1 is Some && ty3 is Some && a2 is Some && bv is Some
        && se is Some && eqtyf is Some && ty4 is Some && a3 is Some && pty1 is Some
        && eqtyf1 is Some && p is Some && body3 is Some && l3 is Some && l2 is Some {
        rd(lam(un, l2->0))
    } else {
        None
    }
}

/// The body of J under `fam`, `init`, `b` and `h`: `transp (λ i, fam (h i) (λ j, h (i ∧ j))) init`.
pub open spec fn axiom_j_core_term(fam: STerm, init: STerm, h: STerm) -> Option<STerm> {
    let fam4 = sh(fam);
    let h1 = sh(h);
    let i = var_of(STerm::II);
    let hi = rd(equw(h1->0, i->0));
    let fh = rd(app(fam4->0, hi->0));
    let el = connection_term(h1->0, i->0);
    let body = rd(app(fh->0, el->0));
    let li = rd(lam(STerm::II, body->0));
    if fam4 is Some && h1 is Some && i is Some && hi is Some && fh is Some && el is Some
        && body is Some && li is Some {
        rd(transp(li->0, init))
    } else {
        None
    }
}

/// J under the binders `T`, `a` and `fam`.
pub open spec fn axiom_j_fam_term(a3: STerm, ty3: STerm, fam: STerm) -> Option<STerm> {
    let fa = rd(app(fam, a3));
    let ra = refl_term(a3);
    let initty = rd(app(fa->0, ra->0));
    let a4 = sh(a3);
    let ty4 = sh(ty3);
    let fam1 = sh(fam);
    let init = var_of(initty->0);
    let a5 = sh(a4->0);
    let fam2 = sh(fam1->0);
    let init1 = sh(init->0);
    let b = var_of(ty4->0);
    let hty = straight_eq_term(a5->0, b->0);
    let fam3 = sh(fam2->0);
    let init2 = sh(init1->0);
    let h = var_of(hty->0);
    let core = axiom_j_core_term(fam3->0, init2->0, h->0);
    let lh = rd(lam(hty->0, core->0));
    let lb = rd(lam(ty4->0, lh->0));
    if fa is Some && ra is Some && initty is Some && a4 is Some && ty4 is Some && fam1 is Some
        && init is Some && a5 is Some && fam2 is Some && init1 is Some && b is Some && hty is Some
        && fam3 is Some && init2 is Some && h is Some && core is Some && lh is Some && lb is Some {
        rd(lam(initty->0, lb->0))
    } else {
        None
    }
}

/// `J : ∀ (T: Type{n}) (a: T) (f: ∀ (b: T) (h: a ≡ b), Type{m}), f a (refl a) → ∀ (b: T) (h: a ≡ b), f b h`.
pub open spec fn axiom_j_term(n: nat, m: nat) -> Option<STerm> {
    let un = STerm::Universe(n);
    let ty1 = var_of(un);
    let ty2 = sh(ty1->0);
    let a1 = var_of(ty1->0);
    let a2 = sh(a1->0);
    let bv = var_of(ty2->0);
    let se = straight_eq_term(a2->0, bv->0);
    let hv = var_of(se->0);
    let fty = pi(ty2->0, pi(se->0, STerm::Universe(m)));
    let a3 = sh(a1->0);
    let ty3 = sh(ty2->0);
    let fam = var_of(fty);
    let body = axiom_j_fam_term(a3->0, ty3->0, fam->0);
    let lf = rd(lam(fty, body->0));
    let la = rd(lam(ty1->0, lf->0));
    if ty1 is Some && ty2 is Some && a1 is Some && a2 is Some && bv is Some && se is Some
        && hv is Some && a3 is Some && ty3 is Some && fam is Some && body is Some && lf is Some
        && la is Some {
        rd(lam(un, la->0))
    } else {
        None
    }
}

/// The type of J: `Π (T: Type{n}) (a: T) (fam: Π (b: T) (h: a ≡ b), Type{m})
/// (init: fam a (refl a)) (b: T) (h: a ≡ b), fam b h`.
pub open spec fn axiom_j_type(n: nat, m: nat) -> Option<STerm> {
    let un = STerm::Universe(n);
    let t1 = var_of(un);
    let t2 = sh(t1->0);
    let a2 = var_of(t1->0);
    let a3 = sh(a2->0);
    let b3 = var_of(t2->0);
    let eab = straight_eq_term(a3->0, b3->0);
    let fty = pi(t2->0, pi(eab->0, STerm::Universe(m)));
    let a4 = sh(a2->0);
    let t4 = sh(t2->0);
    let fam4 = var_of(fty);
    let fa = rd(app(fam4->0, a4->0));
    let ra = refl_term(a4->0);
    let initty = rd(app(fa->0, ra->0));
    let a5 = sh(a4->0);
    let t5 = sh(t4->0);
    let fam5 = sh(fam4->0);
    let a6 = sh(a5->0);
    let fam6 = sh(fam5->0);
    let b6 = var_of(t5->0);
    let hty = straight_eq_term(a6->0, b6->0);
    let fam7 = sh(fam6->0);
    let b7 = sh(b6->0);
    let h7 = var_of(hty->0);
    let fb = rd(app(fam7->0, b7->0));
    let goal = rd(app(fb->0, h7->0));
    if t1 is Some && t2 is Some && a2 is Some && a3 is Some && b3 is Some && eab is Some
        && a4 is Some && t4 is Some && fam4 is Some && fa is Some && ra is Some && initty is Some
        && a5 is Some && t5 is Some && fam5 is Some && a6 is Some && fam6 is Some && b6 is Some
        && hty is Some && fam7 is Some && b7 is Some && h7 is Some && fb is Some && goal is Some {
        Some(pi(un, pi(t1->0, pi(fty, pi(initty->0, pi(t5->0, pi(hty->0, goal->0)))))))
    } else {
        None
    }
}

/// The type of contractibility of singletons:
/// `Π (T: Type{n}) (a: T) (s: Σ (b: T), a ≡ b), (a, refl a) ≡ s`.
pub open spec fn sig_contr_type(n: nat) -> Option<STerm> {
    let un = STerm::Universe(n);
    let t1 = var_of(un);
    let t2 = sh(t1->0);
    let a2 = var_of(t1->0);
    let a3 = sh(a2->0);
    let b3 = var_of(t2->0);
    let eab = straight_eq_term(a3->0, b3->0);
    let eqtyf = rd(lam(t2->0, eab->0));
    let pty = sig(eqtyf->0);
    let eqtyf4 = sh(eqtyf->0);
    let a4 = sh(a2->0);
    let s4 = var_of(pty);
    let ra = refl_term(a4->0);
    let goal = straight_eq_term(pair(eqtyf4->0, a4->0, ra->0), s4->0);
    if t1 is Some && t2 is Some && a2 is Some && a3 is Some && b3 is Some && eab is Some
        && eqtyf is Some && eqtyf4 is Some && a4 is Some && s4 is Some && ra is Some
        && goal is Some {
        Some(pi(un, pi(t1->0, pi(pty, goal->0))))
    } else {
        None
    }
}

/// Splits a path over two interval values:
/// `split_path(eq, IA, IB) = eq`, `split_path(eq, IB, IA) = sym eq`, `split_path(eq, x, x) = refl (eq x)`.
pub fn split_path(eq: ContainedTerm, i1: ContainedTerm, i2: ContainedTerm) -> (r: Res<ContainedTerm>)
    ensures
        res_is(r, split_path_term(eq@, i1@, i2@)),
{
    let eq1 = sh_x(&eq)?;
    let i11 = sh_x(&i1)?;
    let i21 = sh_x(&i2)?;
    let i = var_x(&node(Term::II))?;
    let a1 = rd_x(Term::And(i21, i.clone()))?;
    let n1 = rd_x(Term::Not(a1))?;
    let ni = rd_x(Term::Not(i))?;
    let a2 = rd_x(Term::And(i11, ni))?;
    let n2 = rd_x(Term::Not(a2))?;
    let a3 = rd_x(Term::And(n1, n2))?;
    let n3 = rd_x(Term::Not(a3))?;
    let body = rd_x(Term::EqUw(eq1, n3))?;
    let l = rd_x(Term::Lam(node(Term::II), body, nm("i")))?;
    rd_x(Term::EqLam(l))
}

/// Transitivity of equality: concatenates `eqA : a ≡ b` and `eqB : b ≡ c`.
pub fn trans(eq_a: ContainedTerm, eq_b: ContainedTerm) -> (r: Res<ContainedTerm>)
    ensures
        res_is(r, trans_term(eq_a@, eq_b@)),
{
    let cfirst = rd_x(Term::EqUw(eq_a.clone(), node(Term::IA)))?;
    let eqb1 = sh_x(&eq_b)?;
    let cf1 = sh_x(&cfirst)?;
    let i = var_x(&node(Term::II))?;
    let ei = rd_x(Term::EqUw(eqb1, i))?;
    let body = straight_eq(cf1, ei)?;
    let l = rd_x(Term::Lam(node(Term::II), body, nm("i")))?;
    let family = rd_x(Term::EqLam(l))?;
    transport_eq(family, eq_a)
}

/// Symmetry of equality: `a ≡ b` to `b ≡ a`.
pub fn sym(eq: ContainedTerm) -> (r: Res<ContainedTerm>)
    ensures
        res_is(r, split_path_term(eq@, STerm::IB, STerm::IA)),
{
    split_path(eq, node(Term::IB), node(Term::IA))
}

/// Congruence: `cong(func, eq: a ≡ b) : func a ≡ func b`.
pub fn cong(func: ContainedTerm, eq: ContainedTerm) -> (r: Res<ContainedTerm>)
    ensures
        res_is(r, cong_term(func@, eq@)),
{
    let func1 = sh_x(&func)?;
    let eq1 = sh_x(&eq)?;
    let i = var_x(&node(Term::II))?;
    let ei = rd_x(Term::EqUw(eq1, i))?;
    let body = rd_x(Term::App(func1, ei))?;
    let l = rd_x(Term::Lam(node(Term::II), body, nm("i")))?;
    rd_x(Term::EqLam(l))
}

/// Transports a term along an equality of types.
pub fn transport_eq(eq: ContainedTerm, begin: ContainedTerm) -> (r: Res<ContainedTerm>)
    ensures
        res_is(r, transport_eq_term(eq@, begin@)),
{
    let eq1 = sh_x(&eq)?;
    let i = var_x(&node(Term::II))?;
    let body = rd_x(Term::EqUw(eq1, i))?;
    let l = rd_x(Term::Lam(node(Term::II), body, nm("i")))?;
    rd_x(Term::Transp(l, begin))
}

/// The type `a ≡ b`, for `a` and `b` of the same type.
pub fn straight_eq(a: ContainedTerm, b: ContainedTerm) -> (r: Res<ContainedTerm>)
    ensures
        res_is(r, straight_eq_term(a@, b@)),
{
    let ty = ty_x(&a)?;
    let ty1 = sh_x(&ty)?;
    let _i = var_x(&node(Term::II))?;
    let fam = rd_x(Term::Lam(node(Term::II), ty1, nm("i")))?;
    Ok(node(Term::Eq(fam, a, b)))
}

/// Reflexivity: `refl a : a ≡ a`.
pub fn refl(a: ContainedTerm) -> (r: Res<ContainedTerm>)
    ensures
        res_is(r, refl_term(a@)),
{
    let a1 = sh_x(&a)?;
    let _i = var_x(&node(Term::II))?;
    let l = rd_x(Term::Lam(node(Term::II), a1, nm("i")))?;
    rd_x(Term::EqLam(l))
}

fn connection(p: &ContainedTerm, i: &ContainedTerm) -> (r: Res<ContainedTerm>)
    ensures
        res_is(r, connection_term(p@, i@)),
{
    let p1 = sh_x(p)?;
    let i1 = sh_x(i)?;
    let j = var_x(&node(Term::II))?;
    let ij = rd_x(Term::And(i1, j))?;
    let e = rd_x(Term::EqUw(p1, ij))?;
    let lj = rd_x(Term::Lam(node(Term::II), e, nm("j")))?;
    rd_x(Term::EqLam(lj))
}

fn sig_contr_path(eqtyf: &ContainedTerm, a: &ContainedTerm, b: &ContainedTerm, p: &ContainedTerm) -> (r: Res<
    ContainedTerm,
>)
    ensures
        res_is(r, sig_contr_path_term(eqtyf@, a@, b@, p@)),
{
    let eqtyf1 = sh_x(eqtyf)?;
    let _a1 = sh_x(a)?;
    let _b1 = sh_x(b)?;
    let p1 = sh_x(p)?;
    let i = var_x(&node(Term::II))?;
    let pi_ = rd_x(Term::EqUw(p1.clone(), i.clone()))?;
    let el = connection(&p1, &i)?;
    let l = rd_x(Term::Lam(node(Term::II), node(Term::Pair(eqtyf1, pi_, el)), nm("i")))?;
    rd_x(Term::EqLam(l))
}

fn sig_contr_body(
    ty: &ContainedTerm,
    a: &ContainedTerm,
    pty: &ContainedTerm,
    eqtyf: &ContainedTerm,
    p: &ContainedTerm,
    n: Natural,
) -> (r: Res<ContainedTerm>)
    ensures
        res_is(r, sig_contr_body_term(ty@, a@, pty@, eqtyf@, p@, n@)),
{
    let n1 = Natural::checked_suc(n)?;
    let si = rd_x(Term::SigInd(p.clone(), n1))?;
    let eqtyf2 = sh_x(eqtyf)?;
    let a4 = sh_x(a)?;
    let pv = var_x(pty)?;
    let r = refl(a4.clone())?;
    let se = straight_eq(node(Term::Pair(eqtyf2, a4, r)), pv)?;
    let l1 = rd_x(Term::Lam(pty.clone(), se, nm("p")))?;
    let x1 = rd_x(Term::App(si, l1))?;
    let a5 = sh_x(a)?;
    let eqtyf3 = sh_x(eqtyf)?;
    let b = var_x(ty)?;
    let ptype = rd_x(Term::App(eqtyf3.clone(), b.clone()))?;
    let a6 = sh_x(&a5)?;
    let eqtyf4 = sh_x(&eqtyf3)?;
    let b1 = sh_x(&b)?;
    let p2 = var_x(&ptype)?;
    let path = sig_contr_path(&eqtyf4, &a6, &b1, &p2)?;
    let lp = rd_x(Term::Lam(ptype, path, nm("p")))?;
    let l2 = rd_x(Term::Lam(ty.clone(), lp, nm("b")))?;
    rd_x(Term::App(x1, l2))
}

fn sig_contr(n: Natural) -> (r: Res<ContainedTerm>)
    ensures
        res_is(r, sig_contr_term(n@)),
{
    let un = node(Term::Universe(n));
    let ty1 = var_x(&un)?;
    let ty2 = sh_x(&ty1)?;
    let a1 = var_x(&ty1)?;
    let _ty3 = sh_x(&ty2)?;
    let a2 = sh_x(&a1)?;
    let bv = var_x(&ty2)?;
    let se = straight_eq(a2, bv)?;
    let eqtyf = rd_x(Term::Lam(ty2.clone(), se, nm("b")))?;
    let pty = node(Term::Sig(eqtyf.clone()));
    let ty4 = sh_x(&ty2)?;
    let a3 = sh_x(&a1)?;
    let pty1 = sh_x(&pty)?;
    let eqtyf1 = sh_x(&eqtyf)?;
    let p = var_x(&pty)?;
    let body3 = sig_contr_body(&ty4, &a3, &pty1, &eqtyf1, &p, n)?;
    let l3 = rd_x(Term::Lam(pty, body3, nm("sig")))?;
    let l2 = rd_x(Term::Lam(ty1, l3, nm("a")))?;
    rd_x(Term::Lam(un, l2, nm("ty")))
}

fn axiom_j_core(fam: &ContainedTerm, init: &ContainedTerm, h: &ContainedTerm) -> (r: Res<
    ContainedTerm,
>)
    ensures
        res_is(r, axiom_j_core_term(fam@, init@, h@)),
{
    let fam4 = sh_x(fam)?;
    let h1 = sh_x(h)?;
    let i = var_x(&node(Term::II))?;
    let hi = rd_x(Term::EqUw(h1.clone(), i.clone()))?;
    let fh = rd_x(Term::App(fam4, hi))?;
    let el = connection(&h1, &i)?;
    let body = rd_x(Term::App(fh, el))?;
    let li = rd_x(Term::Lam(node(Term::II), body, nm("i")))?;
    rd_x(Term::Transp(li, init.clone()))
}

fn axiom_j_fam(a3: &ContainedTerm, ty3: &ContainedTerm, fam: &ContainedTerm) -> (r: Res<
    ContainedTerm,
>)
    ensures
        res_is(r, axiom_j_fam_term(a3@, ty3@, fam@)),
{
    let fa = rd_x(Term::App(fam.clone(), a3.clone()))?;
    let ra = refl(a3.clone())?;
    let initty = rd_x(Term::App(fa, ra))?;
    let a4 = sh_x(a3)?;
    let ty4 = sh_x(ty3)?;
    let fam1 = sh_x(fam)?;
    let init = var_x(&initty)?;
    let a5 = sh_x(&a4)?;
    let fam2 = sh_x(&fam1)?;
    let init1 = sh_x(&init)?;
    let b = var_x(&ty4)?;
    let hty = straight_eq(a5, b)?;
    let fam3 = sh_x(&fam2)?;
    let init2 = sh_x(&init1)?;
    let h = var_x(&hty)?;
    let core = axiom_j_core(&fam3, &init2, &h)?;
    let lh = rd_x(Term::Lam(hty, core, nm("h")))?;
    let lb = rd_x(Term::Lam(ty4, lh, nm("b")))?;
    rd_x(Term::Lam(initty, lb, nm("init")))
}

fn axiom_j(n: Natural, m: Natural) -> (r: Res<ContainedTerm>)
    ensures
        res_is(r, axiom_j_term(n@, m@)),
{
    let un = node(Term::Universe(n));
    let ty1 = var_x(&un)?;
    let ty2 = sh_x(&ty1)?;
    let a1 = var_x(&ty1)?;
    let a2 = sh_x(&a1)?;
    let bv = var_x(&ty2)?;
    let se = straight_eq(a2, bv)?;
    let _hv = var_x(&se)?;
    let fty = node(
        Term::Pi(
            ty2.clone(),
            node(Term::Pi(se, node(Term::Universe(m)), nm("h"))),
            nm("b"),
        ),
    );
    let a3 = sh_x(&a1)?;
    let ty3 = sh_x(&ty2)?;
    let fam = var_x(&fty)?;
    let body = axiom_j_fam(&a3, &ty3, &fam)?;
    let lf = rd_x(Term::Lam(fty, body, nm("fam")))?;
    let la = rd_x(Term::Lam(ty1, lf, nm("a")))?;
    rd_x(Term::Lam(un, la, nm("T")))
}

/// Theorems about equality:
/// Axiom J: `∀ (T: Type) (a: T) (f: ∀ (b: T) (h: a ≡ b), Type), f a (λ i => a) → ∀ (b: T) (h: a ≡ b), f b h`;
/// contractibility of singletons: `∀ (T: Type) (a: T) (s: Σ (b: T), (a ≡ b)), s = (a, refl)`.
pub struct EqualTheorems {
    pub sig_contr: ContainedTerm,
    pub axiom_j: ContainedTerm,
}

fn axiom_j_type_of(n: Natural, m: Natural) -> (r: Res<ContainedTerm>)
    ensures
        res_is(r, axiom_j_type(n@, m@)),
{
    let un = node(Term::Universe(n));
    let t1 = var_x(&un)?;
    let t2 = sh_x(&t1)?;
    let a2 = var_x(&t1)?;
    let a3 = sh_x(&a2)?;
    let b3 = var_x(&t2)?;
    let eab = straight_eq(a3, b3)?;
    let fty = node(
        Term::Pi(t2.clone(), node(Term::Pi(eab, node(Term::Universe(m)), nm("h"))), nm("b")),
    );
    let a4 = sh_x(&a2)?;
    let t4 = sh_x(&t2)?;
    let fam4 = var_x(&fty)?;
    let fa = rd_x(Term::App(fam4.clone(), a4.clone()))?;
    let ra = refl(a4.clone())?;
    let initty = rd_x(Term::App(fa, ra))?;
    let a5 = sh_x(&a4)?;
    let t5 = sh_x(&t4)?;
    let fam5 = sh_x(&fam4)?;
    let a6 = sh_x(&a5)?;
    let fam6 = sh_x(&fam5)?;
    let b6 = var_x(&t5)?;
    let hty = straight_eq(a6, b6.clone())?;
    let fam7 = sh_x(&fam6)?;
    let b7 = sh_x(&b6)?;
    let h7 = var_x(&hty)?;
    let fb = rd_x(Term::App(fam7, b7))?;
    let goal = rd_x(Term::App(fb, h7))?;
    let p6 = node(Term::Pi(hty, goal, nm("h")));
    let p5 = node(Term::Pi(t5, p6, nm("b")));
    let p4 = node(Term::Pi(initty, p5, nm("init")));
    let p3 = node(Term::Pi(fty, p4, nm("fam")));
    let p2 = node(Term::Pi(t1, p3, nm("a")));
    Ok(node(Term::Pi(un, p2, nm("T"))))
}

fn sig_contr_type_of(n: Natural) -> (r: Res<ContainedTerm>)
    ensures
        res_is(r, sig_contr_type(n@)),
{
    let un = node(Term::Universe(n));
    let t1 = var_x(&un)?;
    let t2 = sh_x(&t1)?;
    let a2 = var_x(&t1)?;
    let a3 = sh_x(&a2)?;
    let b3 = var_x(&t2)?;
    let eab = straight_eq(a3, b3)?;
    let eqtyf = rd_x(Term::Lam(t2, eab, nm("b")))?;
    let pty = node(Term::Sig(eqtyf.clone()));
    let eqtyf4 = sh_x(&eqtyf)?;
    let a4 = sh_x(&a2)?;
    let s4 = var_x(&pty)?;
    let ra = refl(a4.clone())?;
    let goal = straight_eq(node(Term::Pair(eqtyf4, a4, ra)), s4)?;
    let p2 = node(Term::Pi(pty, goal, nm("s")));
    let p1 = node(Term::Pi(t1, p2, nm("a")));
    Ok(node(Term::Pi(un, p1, nm("T"))))
}

/// The theorems as built: `Ok` exactly when both build and each has its stated type.
pub open spec fn equal_theorems_hold(n: nat, m: nat, c: STerm, j: STerm) -> bool {
    &&& sig_contr_term(n) == Some(c)
    &&& axiom_j_term(n, m) == Some(j)
    &&& sig_contr_type(n) is Some
    &&& s_typed(c, STEP_FUEL as nat) == sig_contr_type(n)
    &&& axiom_j_type(n, m) is Some
    &&& s_typed(j, STEP_FUEL as nat) == axiom_j_type(n, m)
}

impl EqualTheorems {
    /// The theorems at input universe level `n` and output universe level `m`, each
    /// checked to have the type stated of it.
    pub fn new(n: Natural, m: Natural) -> (r: Res<EqualTheorems>)
        ensures
            r matches Ok(t) ==> equal_theorems_hold(n@, m@, t.sig_contr@, t.axiom_j@),
            r is Err ==> !exists|c: STerm, j: STerm| equal_theorems_hold(n@, m@, c, j),
    {
        let sig_contr = sig_contr(n)?;
        let axiom_j = axiom_j(n, m)?;
        let ct = sig_contr_type_of(n)?;
        let jt = axiom_j_type_of(n, m)?;
        let tc = sig_contr.clone().typed()?;
        let tj = axiom_j.clone().typed()?;
        if !term_eq(&tc, &ct) {
            return err_str("contractibility of singletons does not have its type");
        }
        if !term_eq(&tj, &jt) {
            return err_str("axiom J does not have its type");
        }
        Ok(EqualTheorems { sig_contr, axiom_j })
    }
}

} // verus!
