//! The meaning of the type checker's operations on the term model.
//!
//! Every operation takes a fuel argument that bounds the depth of its recursion;
//! running out of fuel is a failure (`None`). Building a term runs with `FUEL`;
//! asking for a type, substituting and checking that a term is constant run with
//! `STEP_FUEL`, one less, which is the fuel at which building calls them. So the
//! computation rules of building hold between the public operations as they are.
use vstd::prelude::*;
use crate::model::{
    STerm, app, db, eqlam, eqty, equw, hcomp, iand, inot, is_inert, lam, natind, pair, pi, sig,
    sigind, succ, term_lt, transp,
};

verus! {

/// The fuel the library's entry points run with.
pub const FUEL: u64 = 0xffff_ffff_ffff_ffffu64;

/// The fuel of the operations that building a term calls one step down.
pub const STEP_FUEL: u64 = 0xffff_ffff_ffff_fffeu64;

pub open spec fn nat_max(a: nat, b: nat) -> nat {
    if a >= b {
        a
    } else {
        b
    }
}

/// `t` with every free index at or above `n` raised by one, rebuilt bottom-up.
pub open spec fn s_push(t: STerm, n: nat, f: nat) -> Option<STerm>
    decreases f, 0nat,
{
    if f == 0 {
        None
    } else {
        let g = (f - 1) as nat;
        match t {
            STerm::DeBrujin(m, ty) => {
                let ty2 = s_push(*ty, n, g);
                if m >= n {
                    if ty2 is Some && m < usize::MAX {
                        Some(db(m + 1, ty2->0))
                    } else {
                        None
                    }
                } else {
                    if ty2 is Some {
                        Some(db(m, ty2->0))
                    } else {
                        None
                    }
                }
            },
            STerm::Lam(a, b) => {
                let a2 = s_push(*a, n, g);
                let b2 = s_push(*b, n + 1, g);
                if a2 is Some && b2 is Some && n < usize::MAX {
                    s_reduce(lam(a2->0, b2->0), g)
                } else {
                    None
                }
            },
            STerm::Pi(a, b) => {
                let a2 = s_push(*a, n, g);
                let b2 = s_push(*b, n + 1, g);
                if a2 is Some && b2 is Some && n < usize::MAX {
                    Some(pi(a2->0, b2->0))
                } else {
                    None
                }
            },
            STerm::App(a, b) => {
                let a2 = s_push(*a, n, g);
                let b2 = s_push(*b, n, g);
                if a2 is Some && b2 is Some {
                    s_reduce(app(a2->0, b2->0), g)
                } else {
                    None
                }
            },
            STerm::Succ(a) => {
                let a2 = s_push(*a, n, g);
                if a2 is Some {
                    Some(succ(a2->0))
                } else {
                    None
                }
            },
            STerm::NatInd(a, m) => {
                let a2 = s_push(*a, n, g);
                if a2 is Some {
                    s_reduce(natind(a2->0, m), g)
                } else {
                    None
                }
            },
            STerm::Not(a) => {
                let a2 = s_push(*a, n, g);
                if a2 is Some {
                    s_reduce(inot(a2->0), g)
                } else {
                    None
                }
            },
            STerm::And(a, b) => {
                let a2 = s_push(*a, n, g);
                let b2 = s_push(*b, n, g);
                if a2 is Some && b2 is Some {
                    s_reduce(iand(a2->0, b2->0), g)
                } else {
                    None
                }
            },
            STerm::EqLam(a) => {
                let a2 = s_push(*a, n, g);
                if a2 is Some {
                    s_reduce(eqlam(a2->0), g)
                } else {
                    None
                }
            },
            STerm::Eq(a, b, c) => {
                let a2 = s_push(*a, n, g);
                let b2 = s_push(*b, n, g);
                let c2 = s_push(*c, n, g);
                if a2 is Some && b2 is Some && c2 is Some {
                    Some(eqty(a2->0, b2->0, c2->0))
                } else {
                    None
                }
            },
            STerm::EqUw(a, b) => {
                let a2 = s_push(*a, n, g);
                let b2 = s_push(*b, n, g);
                if a2 is Some && b2 is Some {
                    s_reduce(equw(a2->0, b2->0), g)
                } else {
                    None
                }
            },
            STerm::HComp { family, base, first, second } => {
                let a2 = s_push(*family, n, g);
                let b2 = s_push(*base, n, g);
                let c2 = s_push(*first, n, g);
                let d2 = s_push(*second, n, g);
                if a2 is Some && b2 is Some && c2 is Some && d2 is Some {
                    Some(hcomp(a2->0, b2->0, c2->0, d2->0))
                } else {
                    None
                }
            },
            STerm::Transp(a, b) => {
                let a2 = s_push(*a, n, g);
                let b2 = s_push(*b, n, g);
                if a2 is Some && b2 is Some {
                    s_reduce(transp(a2->0, b2->0), g)
                } else {
                    None
                }
            },
            STerm::Sig(a) => {
                let a2 = s_push(*a, n, g);
                if a2 is Some {
                    Some(sig(a2->0))
                } else {
                    None
                }
            },
            STerm::Pair(a, b, c) => {
                let a2 = s_push(*a, n, g);
                let b2 = s_push(*b, n, g);
                let c2 = s_push(*c, n, g);
                if a2 is Some && b2 is Some && c2 is Some {
                    Some(pair(a2->0, b2->0, c2->0))
                } else {
                    None
                }
            },
            STerm::SigInd(a, u) => {
                let a2 = s_push(*a, n, g);
                if a2 is Some {
                    s_reduce(sigind(a2->0, u), g)
                } else {
                    None
                }
            },
            _ => Some(t),
        }
    }
}

/// `t` with `other` put in place of index `layer`, indices above it lowered by one,
/// rebuilt bottom-up.
pub open spec fn s_subst(t: STerm, other: STerm, layer: nat, f: nat) -> Option<STerm>
    decreases f, 0nat,
{
    if f == 0 {
        None
    } else {
        let g = (f - 1) as nat;
        match t {
            STerm::DeBrujin(n, ty) => {
                if n == layer {
                    Some(other)
                } else {
                    let ty2 = s_subst(*ty, other, layer, g);
                    if ty2 is Some {
                        if n < layer {
                            Some(db(n, ty2->0))
                        } else {
                            Some(db((n - 1) as nat, ty2->0))
                        }
                    } else {
                        None
                    }
                }
            },
            STerm::Lam(a, b) => {
                let a2 = s_subst(*a, other, layer, g);
                let o2 = s_push(other, 0, g);
                let b2 = s_subst(*b, o2->0, layer + 1, g);
                if a2 is Some && o2 is Some && layer < usize::MAX && b2 is Some {
                    s_reduce(lam(a2->0, b2->0), g)
                } else {
                    None
                }
            },
            STerm::Pi(a, b) => {
                let a2 = s_subst(*a, other, layer, g);
                let o2 = s_push(other, 0, g);
                let b2 = s_subst(*b, o2->0, layer + 1, g);
                if a2 is Some && o2 is Some && layer < usize::MAX && b2 is Some {
                    Some(pi(a2->0, b2->0))
                } else {
                    None
                }
            },
            STerm::App(a, b) => {
                let a2 = s_subst(*a, other, layer, g);
                let b2 = s_subst(*b, other, layer, g);
                if a2 is Some && b2 is Some {
                    s_reduce(app(a2->0, b2->0), g)
                } else {
                    None
                }
            },
            STerm::Succ(a) => {
                let a2 = s_subst(*a, other, layer, g);
                if a2 is Some {
                    Some(succ(a2->0))
                } else {
                    None
                }
            },
            STerm::NatInd(a, m) => {
                let a2 = s_subst(*a, other, layer, g);
                if a2 is Some {
                    s_reduce(natind(a2->0, m), g)
                } else {
                    None
                }
            },
            STerm::Not(a) => {
                let a2 = s_subst(*a, other, layer, g);
                if a2 is Some {
                    s_reduce(inot(a2->0), g)
                } else {
                    None
                }
            },
            STerm::And(a, b) => {
                let a2 = s_subst(*a, other, layer, g);
                let b2 = s_subst(*b, other, layer, g);
                if a2 is Some && b2 is Some {
                    s_reduce(iand(a2->0, b2->0), g)
                } else {
                    None
                }
            },
            STerm::EqLam(a) => {
                let a2 = s_subst(*a, other, layer, g);
                if a2 is Some {
                    s_reduce(eqlam(a2->0), g)
                } else {
                    None
                }
            },
            STerm::Eq(a, b, c) => {
                let a2 = s_subst(*a, other, layer, g);
                let b2 = s_subst(*b, other, layer, g);
                let c2 = s_subst(*c, other, layer, g);
                if a2 is Some && b2 is Some && c2 is Some {
                    Some(eqty(a2->0, b2->0, c2->0))
                } else {
                    None
                }
            },
            STerm::EqUw(a, b) => {
                let a2 = s_subst(*a, other, layer, g);
                let b2 = s_subst(*b, other, layer, g);
                if a2 is Some && b2 is Some {
                    s_reduce(equw(a2->0, b2->0), g)
                } else {
                    None
                }
            },
            STerm::HComp { family, base, first, second } => {
                let a2 = s_subst(*family, other, layer, g);
                let b2 = s_subst(*base, other, layer, g);
                let c2 = s_subst(*first, other, layer, g);
                let d2 = s_subst(*second, other, layer, g);
                if a2 is Some && b2 is Some && c2 is Some && d2 is Some {
                    Some(hcomp(a2->0, b2->0, c2->0, d2->0))
                } else {
                    None
                }
            },
            STerm::Transp(a, b) => {
                let a2 = s_subst(*a, other, layer, g);
                let b2 = s_subst(*b, other, layer, g);
                if a2 is Some && b2 is Some {
                    s_reduce(transp(a2->0, b2->0), g)
                } else {
                    None
                }
            },
            STerm::Sig(a) => {
                let a2 = s_subst(*a, other, layer, g);
                if a2 is Some {
                    Some(sig(a2->0))
                } else {
                    None
                }
            },
            STerm::Pair(a, b, c) => {
                let a2 = s_subst(*a, other, layer, g);
                let b2 = s_subst(*b, other, layer, g);
                let c2 = s_subst(*c, other, layer, g);
                if a2 is Some && b2 is Some && c2 is Some {
                    Some(pair(a2->0, b2->0, c2->0))
                } else {
                    None
                }
            },
            STerm::SigInd(a, u) => {
                let a2 = s_subst(*a, other, layer, g);
                if a2 is Some {
                    s_reduce(sigind(a2->0, u), g)
                } else {
                    None
                }
            },
            _ => Some(t),
        }
    }
}

/// `t` with every index above `layer` lowered by one; `None` when `t` mentions `layer`.
pub open spec fn s_cc(t: STerm, layer: nat, f: nat) -> Option<STerm>
    decreases f, 0nat,
{
    if f == 0 {
        None
    } else {
        let g = (f - 1) as nat;
        match t {
            STerm::DeBrujin(n, ty) => {
                if n == layer {
                    None
                } else {
                    let ty2 = s_cc(*ty, layer, g);
                    if ty2 is Some {
                        if n < layer {
                            Some(db(n, ty2->0))
                        } else {
                            Some(db((n - 1) as nat, ty2->0))
                        }
                    } else {
                        None
                    }
                }
            },
            STerm::Lam(a, b) => {
                let a2 = s_cc(*a, layer, g);
                let b2 = s_cc(*b, layer + 1, g);
                if a2 is Some && layer < usize::MAX && b2 is Some {
                    s_reduce(lam(a2->0, b2->0), g)
                } else {
                    None
                }
            },
            STerm::Pi(a, b) => {
                let a2 = s_cc(*a, layer, g);
                let b2 = s_cc(*b, layer + 1, g);
                if a2 is Some && layer < usize::MAX && b2 is Some {
                    Some(pi(a2->0, b2->0))
                } else {
                    None
                }
            },
            STerm::App(a, b) => {
                let a2 = s_cc(*a, layer, g);
                let b2 = s_cc(*b, layer, g);
                if a2 is Some && b2 is Some {
                    s_reduce(app(a2->0, b2->0), g)
                } else {
                    None
                }
            },
            STerm::Succ(a) => {
                let a2 = s_cc(*a, layer, g);
                if a2 is Some {
                    Some(succ(a2->0))
                } else {
                    None
                }
            },
            STerm::NatInd(a, m) => {
                let a2 = s_cc(*a, layer, g);
                if a2 is Some {
                    s_reduce(natind(a2->0, m), g)
                } else {
                    None
                }
            },
            STerm::Not(a) => {
                let a2 = s_cc(*a, layer, g);
                if a2 is Some {
                    s_reduce(inot(a2->0), g)
                } else {
                    None
                }
            },
            STerm::And(a, b) => {
                let a2 = s_cc(*a, layer, g);
                let b2 = s_cc(*b, layer, g);
                if a2 is Some && b2 is Some {
                    s_reduce(iand(a2->0, b2->0), g)
                } else {
                    None
                }
            },
            STerm::EqLam(a) => {
                let a2 = s_cc(*a, layer, g);
                if a2 is Some {
                    s_reduce(eqlam(a2->0), g)
                } else {
                    None
                }
            },
            STerm::Eq(a, b, c) => {
                let a2 = s_cc(*a, layer, g);
                let b2 = s_cc(*b, layer, g);
                let c2 = s_cc(*c, layer, g);
                if a2 is Some && b2 is Some && c2 is Some {
                    Some(eqty(a2->0, b2->0, c2->0))
                } else {
                    None
                }
            },
            STerm::EqUw(a, b) => {
                let a2 = s_cc(*a, layer, g);
                let b2 = s_cc(*b, layer, g);
                if a2 is Some && b2 is Some {
                    s_reduce(equw(a2->0, b2->0), g)
                } else {
                    None
                }
            },
            STerm::HComp { family, base, first, second } => {
                let a2 = s_cc(*family, layer, g);
                let b2 = s_cc(*base, layer, g);
                let c2 = s_cc(*first, layer, g);
                let d2 = s_cc(*second, layer, g);
                if a2 is Some && b2 is Some && c2 is Some && d2 is Some {
                    Some(hcomp(a2->0, b2->0, c2->0, d2->0))
                } else {
                    None
                }
            },
            STerm::Transp(a, b) => {
                let a2 = s_cc(*a, layer, g);
                let b2 = s_cc(*b, layer, g);
                if a2 is Some && b2 is Some {
                    s_reduce(transp(a2->0, b2->0), g)
                } else {
                    None
                }
            },
            STerm::Sig(a) => {
                let a2 = s_cc(*a, layer, g);
                if a2 is Some {
                    Some(sig(a2->0))
                } else {
                    None
                }
            },
            STerm::Pair(a, b, c) => {
                let a2 = s_cc(*a, layer, g);
                let b2 = s_cc(*b, layer, g);
                let c2 = s_cc(*c, layer, g);
                if a2 is Some && b2 is Some && c2 is Some {
                    Some(pair(a2->0, b2->0, c2->0))
                } else {
                    None
                }
            },
            STerm::SigInd(a, u) => {
                let a2 = s_cc(*a, layer, g);
                if a2 is Some {
                    s_reduce(sigind(a2->0, u), g)
                } else {
                    None
                }
            },
            _ => Some(t),
        }
    }
}

/// The three types of the induction principle on naturals at one universe level.
pub struct NatIndParts {
    pub family: STerm,
    pub initial: STerm,
    pub next: STerm,
}

/// The family `Π (_: ℕ), Type{un}` of the induction principle on naturals, with its base-case
/// type `fam 0` and step type `Π (n: ℕ) (_: fam n), fam (S n)` (in the context of `fam`).
pub open spec fn natind_parts(un: nat, g: nat) -> Option<NatIndParts>
    decreases g, 1nat,
{
    let family = pi(STerm::Nat, STerm::Universe(un));
    let initial = s_reduce(app(db(0, family), STerm::Zero), g);
    let cur = s_reduce(app(db(2, family), db(0, STerm::Nat)), g);
    let nxt = s_reduce(app(db(3, family), succ(db(1, STerm::Nat))), g);
    if initial is Some && cur is Some && nxt is Some {
        Some(
            NatIndParts {
                family,
                initial: initial->0,
                next: pi(STerm::Nat, pi(cur->0, nxt->0)),
            },
        )
    } else {
        None
    }
}

/// `Π (a: arg) (b: f a), family (f, a, b)`, in a context where `f`, `family` and `arg` stand.
pub open spec fn sig_initial(f: STerm, family: STerm, arg: STerm, g: nat) -> Option<STerm>
    decreases g, 1nat,
{
    let f1 = s_push(f, 0, g);
    let fam1 = s_push(family, 0, g);
    let arg1 = s_push(arg, 0, g);
    let a = db(0, arg1->0);
    let tyb = s_reduce(app(f1->0, a), g);
    let fam2 = s_push(fam1->0, 0, g);
    let f2 = s_push(f1->0, 0, g);
    let a2 = s_push(a, 0, g);
    let tyb1 = s_push(tyb->0, 0, g);
    let b = db(0, tyb1->0);
    let body = s_reduce(app(fam2->0, pair(f2->0, a2->0, b)), g);
    if f1 is Some && fam1 is Some && arg1 is Some && tyb is Some && fam2 is Some && f2 is Some
        && a2 is Some && tyb1 is Some && body is Some {
        Some(pi(arg, pi(tyb->0, body->0)))
    } else {
        None
    }
}

/// Whether `t` applied to `example` is constant: `Some(Some(r))` with `r` the result when
/// `t` is a lambda whose body is that result, `Some(None)` otherwise.
pub open spec fn s_refl(t: STerm, example: STerm, g: nat) -> Option<Option<STerm>>
    decreases g, 1nat,
{
    let result = s_reduce(app(t, example), g);
    if result is Some {
        match t {
            STerm::Lam(_, x) => {
                let r = s_push(result->0, 0, g);
                if r is Some {
                    Some(
                        if r->0 == *x {
                            Some(result->0)
                        } else {
                            None
                        },
                    )
                } else {
                    None
                }
            },
            _ => Some(None),
        }
    } else {
        None
    }
}

/// The first projection out of `Σ family`.
pub open spec fn s_sig_ex0(family: STerm, g: nat) -> Option<STerm>
    decreases g, 1nat,
{
    let tf = s_typed(family, g);
    let a0 = match tf {
        Some(STerm::Pi(a, _)) => Some(*a),
        _ => None,
    };
    let ta = s_typed(a0->0, g);
    let ty0l = match ta {
        Some(STerm::Universe(n)) => Some(n),
        _ => None,
    };
    let sty = sig(family);
    let a1 = s_push(a0->0, 0, g);
    let fam1 = s_push(family, 0, g);
    let sty1 = s_push(sty, 0, g);
    let value = db(0, sty1->0);
    let si = s_reduce(sigind(value, ty0l->0), g);
    let sty2 = sig(fam1->0);
    let a2 = s_push(a1->0, 0, g);
    let sty3 = s_push(sty2, 0, g);
    let l1 = s_reduce(lam(sty2, a2->0), g);
    let si_l1 = s_reduce(app(si->0, l1->0), g);
    let fam2 = s_push(fam1->0, 0, g);
    let a1s = s_push(a1->0, 0, g);
    let av = db(0, a1s->0);
    let tyb = s_reduce(app(fam2->0, av), g);
    let av2 = s_push(av, 0, g);
    let tyb1 = s_push(tyb->0, 0, g);
    let lb = s_reduce(lam(tyb->0, av2->0), g);
    let la = s_reduce(lam(a1->0, lb->0), g);
    let body = s_reduce(app(si_l1->0, la->0), g);
    if tf is Some && a0 is Some && ta is Some && ty0l is Some && a1 is Some && fam1 is Some
        && sty1 is Some && si is Some && a2 is Some && sty3 is Some && l1 is Some && si_l1 is Some
        && fam2 is Some && a1s is Some && tyb is Some && av2 is Some && tyb1 is Some && lb is Some
        && la is Some && body is Some {
        s_reduce(lam(sty, body->0), g)
    } else {
        None
    }
}

/// The dependent second projection out of `Σ family`.
pub open spec fn s_sig_ex1(family: STerm, g: nat) -> Option<STerm>
    decreases g, 2nat,
{
    let tf = s_typed(family, g);
    let a0 = match tf {
        Some(STerm::Pi(a, _)) => Some(*a),
        _ => None,
    };
    let ta = s_typed(a0->0, g);
    let ty0l = match ta {
        Some(STerm::Universe(n)) => Some(n),
        _ => None,
    };
    let a1ty = match tf {
        Some(STerm::Pi(_, b)) => Some(*b),
        _ => None,
    };
    let ty1l = match a1ty {
        Some(STerm::Universe(n)) => Some(n),
        _ => None,
    };
    let sty = sig(family);
    let a1 = s_push(a0->0, 0, g);
    let fam1 = s_push(family, 0, g);
    let sty1 = s_push(sty, 0, g);
    let value = db(0, sty1->0);
    let si = s_reduce(sigind(value, ty1l->0), g);
    let sty2 = sig(fam1->0);
    let fam2 = s_push(fam1->0, 0, g);
    let sty3 = s_push(sty2, 0, g);
    let x = db(0, sty3->0);
    let e0 = s_sig_ex0(fam2->0, g);
    let ex = s_reduce(app(e0->0, x), g);
    let bx = s_reduce(app(fam2->0, ex->0), g);
    let l1 = s_reduce(lam(sty2, bx->0), g);
    let si_l1 = s_reduce(app(si->0, l1->0), g);
    let fam3 = s_push(fam1->0, 0, g);
    let a1s = s_push(a1->0, 0, g);
    let av = db(0, a1s->0);
    let tyb = s_reduce(app(fam3->0, av), g);
    let av2 = s_push(av, 0, g);
    let tyb1 = s_push(tyb->0, 0, g);
    let bv = db(0, tyb1->0);
    let lb = s_reduce(lam(tyb->0, bv), g);
    let la = s_reduce(lam(a1->0, lb->0), g);
    let body = s_reduce(app(si_l1->0, la->0), g);
    if tf is Some && a0 is Some && ta is Some && ty0l is Some && a1ty is Some
        && ty1l is Some && a1 is Some && fam1 is Some && sty1 is Some && si is Some && fam2 is Some
        && sty3 is Some && e0 is Some && ex is Some && bx is Some && l1 is Some && si_l1 is Some
        && fam3 is Some && a1s is Some && tyb is Some && av2 is Some && tyb1 is Some && lb is Some
        && la is Some && body is Some {
        s_reduce(lam(sty, body->0), g)
    } else {
        None
    }
}

/// The type of a term.
pub open spec fn s_typed(t: STerm, f: nat) -> Option<STerm>
    decreases f, 0nat,
{
    if f == 0 {
        None
    } else {
        let g = (f - 1) as nat;
        match t {
            STerm::DeBrujin(_, ty) => Some(*ty),
            STerm::Lam(a, b) => {
                let tb = s_typed(*b, g);
                if tb is Some {
                    Some(pi(*a, tb->0))
                } else {
                    None
                }
            },
            STerm::Pi(a, b) => {
                let ta = s_typed(*a, g);
                let tb = s_typed(*b, g);
                match (ta, tb) {
                    (Some(STerm::Universe(x)), Some(STerm::Universe(y))) => Some(
                        STerm::Universe(nat_max(x, y)),
                    ),
                    _ => None,
                }
            },
            STerm::App(a, b) => {
                let ta = s_typed(*a, g);
                let tb = s_typed(*b, g);
                match ta {
                    Some(STerm::Pi(arg, ab)) => if tb is Some && *arg == tb->0 {
                        s_subst(*ab, *b, 0, g)
                    } else {
                        None
                    },
                    _ => None,
                }
            },
            STerm::Universe(n) => if n < usize::MAX {
                Some(STerm::Universe(n + 1))
            } else {
                None
            },
            STerm::Zero => Some(STerm::Nat),
            STerm::Nat => Some(STerm::Universe(0)),
            STerm::Succ(_) => Some(STerm::Nat),
            STerm::NatInd(term, n) => typed_natind(*term, n, g),
            STerm::II => Some(STerm::Universe(0)),
            STerm::IA => Some(STerm::II),
            STerm::IB => Some(STerm::II),
            STerm::Not(_) => Some(STerm::II),
            STerm::And(_, _) => Some(STerm::II),
            STerm::EqLam(term) => {
                let fa = s_reduce(app(*term, STerm::IA), g);
                let fb = s_reduce(app(*term, STerm::IB), g);
                let tt = s_typed(*term, g);
                let fl = match tt {
                    Some(STerm::Pi(i, ff)) => s_reduce(lam(*i, *ff), g),
                    _ => None,
                };
                if fa is Some && fb is Some && fl is Some {
                    Some(eqty(fl->0, fa->0, fb->0))
                } else {
                    None
                }
            },
            STerm::Eq(fm, _, _) => match *fm {
                STerm::Lam(_, body) => s_typed(pi(STerm::II, *body), g),
                _ => None,
            },
            STerm::EqUw(e, i) => match s_typed(*e, g) {
                Some(STerm::Eq(fm, _, _)) => s_reduce(app(*fm, *i), g),
                _ => None,
            },
            STerm::Transp(fm, _) => s_reduce(app(*fm, STerm::IB), g),
            STerm::HComp { family, base: _, first, second } => {
                let c = s_reduce(equw(*first, STerm::IB), g);
                let d = s_reduce(equw(*second, STerm::IB), g);
                let fin = s_reduce(app(*family, STerm::IB), g);
                if c is Some && d is Some && fin is Some {
                    Some(eqty(fin->0, c->0, d->0))
                } else {
                    None
                }
            },
            STerm::Sig(fm) => {
                let tf = s_typed(*fm, g);
                if tf is Some {
                    s_typed(tf->0, g)
                } else {
                    None
                }
            },
            STerm::Pair(fm, _, _) => Some(sig(*fm)),
            STerm::SigInd(s, n) => typed_sigind(*s, n, g),
        }
    }
}

/// The type of the induction principle on naturals applied to `term`.
pub open spec fn typed_natind(term: STerm, n: nat, g: nat) -> Option<STerm>
    decreases g, 2nat,
{
    let tt = s_typed(term, g);
    let parts = natind_parts(n, g);
    let t1 = s_push(term, 0, g);
    let t2 = s_push(t1->0, 0, g);
    let t3 = s_push(t2->0, 0, g);
    let ap = s_reduce(app(db(2, parts->0.family), t3->0), g);
    if tt == Some(STerm::Nat) && parts is Some && t1 is Some && t2 is Some && t3 is Some
        && ap is Some {
        Some(pi(parts->0.family, pi(parts->0.initial, pi(parts->0.next, ap->0))))
    } else {
        None
    }
}

/// The type of the induction principle on dependent sums applied to `s`.
pub open spec fn typed_sigind(s: STerm, n: nat, g: nat) -> Option<STerm>
    decreases g, 2nat,
{
    let ts = s_typed(s, g);
    let fm = match ts {
        Some(STerm::Sig(x)) => Some(*x),
        _ => None,
    };
    let tf = s_typed(fm->0, g);
    let arg = match tf {
        Some(STerm::Pi(ty, _)) => Some(*ty),
        _ => None,
    };
    let ts1 = s_push(ts->0, 0, g);
    let input = pi(ts->0, STerm::Universe(n));
    let s1 = s_push(s, 0, g);
    let f1 = s_push(fm->0, 0, g);
    let arg1 = s_push(arg->0, 0, g);
    let input1 = s_push(input, 0, g);
    let family = db(0, input1->0);
    let initial = sig_initial(f1->0, family, arg1->0, g);
    let fam2 = s_push(family, 0, g);
    let s2 = s_push(s1->0, 0, g);
    let initial1 = s_push(initial->0, 0, g);
    let body = s_reduce(app(fam2->0, s2->0), g);
    if ts is Some && fm is Some && tf is Some && arg is Some && ts1 is Some && s1 is Some
        && f1 is Some && arg1 is Some && input1 is Some && initial is Some && fam2 is Some
        && s2 is Some && initial1 is Some && body is Some {
        Some(pi(input, pi(initial->0, body->0)))
    } else {
        None
    }
}

/// The normal form of a node whose children are already normal.
pub open spec fn s_reduce(t: STerm, f: nat) -> Option<STerm>
    decreases f, 0nat,
{
    if is_inert(t) {
        Some(t)
    } else if f == 0 {
        None
    } else {
        let g = (f - 1) as nat;
        match t {
            STerm::App(a, b) => red_app(*a, *b, g),
            STerm::NatInd(term, un) => red_natind(*term, un, g),
            STerm::SigInd(s, n) => red_sigind(*s, n, g),
            STerm::Not(i) => red_not(*i, g),
            STerm::And(i, j) => red_and(*i, *j, g),
            STerm::EqUw(e, i) => red_equw(*e, *i, g),
            STerm::EqLam(x) => red_eqlam(*x, g),
            STerm::Transp(x, y) => red_transp(*x, *y, g),
            STerm::Lam(ty, body) => red_lam(*ty, *body, g),
            _ => Some(t),
        }
    }
}

/// Application: beta-reduces a lambda applied to an argument of its parameter type.
pub open spec fn red_app(a: STerm, b: STerm, g: nat) -> Option<STerm>
    decreases g, 1nat,
{
    let ta = s_typed(a, g);
    let tb = s_typed(b, g);
    match ta {
        Some(STerm::Pi(arg, _)) => if tb is Some && *arg == tb->0 {
            match a {
                STerm::Lam(_, ret) => s_subst(*ret, b, 0, g),
                _ => {
                    let a2 = s_reduce(a, g);
                    if a2 is Some {
                        Some(app(a2->0, b))
                    } else {
                        None
                    }
                },
            }
        } else {
            None
        },
        _ => None,
    }
}

/// Induction on naturals: computes on zero and successors.
pub open spec fn red_natind(term: STerm, un: nat, g: nat) -> Option<STerm>
    decreases g, 3nat,
{
    match term {
        STerm::Zero => {
            let parts = natind_parts(un, g);
            let i1 = s_push(parts->0.initial, 0, g);
            let i2 = s_push(i1->0, 0, g);
            let l1 = s_reduce(lam(parts->0.next, db(1, i2->0)), g);
            let l2 = s_reduce(lam(parts->0.initial, l1->0), g);
            if parts is Some && i1 is Some && i2 is Some && l1 is Some && l2 is Some {
                Some(lam(parts->0.family, l2->0))
            } else {
                None
            }
        },
        STerm::Succ(v) => red_natind_succ(*v, un, g),
        _ => match s_typed(term, g) {
            Some(STerm::Nat) => Some(natind(term, un)),
            _ => None,
        },
    }
}

/// Induction on naturals at a successor `S v`.
pub open spec fn red_natind_succ(v: STerm, un: nat, g: nat) -> Option<STerm>
    decreases g, 2nat,
{
    let parts = natind_parts(un, g);
    let family = parts->0.family;
    let initial = parts->0.initial;
    let next = parts->0.next;
    let base = s_reduce(natind(v, un), g);
    let next1 = s_push(next, 0, g);
    let v1 = s_push(v, 0, g);
    let v2 = s_push(v1->0, 0, g);
    let v3 = s_push(v2->0, 0, g);
    let t1 = s_reduce(app(db(0, next1->0), v3->0), g);
    let b1 = s_push(base->0, 0, g);
    let b2 = s_push(b1->0, 0, g);
    let b3 = s_push(b2->0, 0, g);
    let f1 = s_push(family, 0, g);
    let f2 = s_push(f1->0, 0, g);
    let f3 = s_push(f2->0, 0, g);
    let t2 = s_reduce(app(b3->0, db(2, f3->0)), g);
    let i1 = s_push(initial, 0, g);
    let i2 = s_push(i1->0, 0, g);
    let t3 = s_reduce(app(t2->0, db(1, i2->0)), g);
    let t4 = s_reduce(app(t3->0, db(0, next1->0)), g);
    let t5 = s_reduce(app(t1->0, t4->0), g);
    let l1 = s_reduce(lam(next, t5->0), g);
    let l2 = s_reduce(lam(initial, l1->0), g);
    if parts is Some && base is Some && next1 is Some && v1 is Some && v2 is Some && v3 is Some
        && t1 is Some && b1 is Some && b2 is Some
        && b3 is Some && f1 is Some && f2 is Some && f3 is Some && t2 is Some && i1 is Some
        && i2 is Some && t3 is Some && t4 is Some && t5 is Some && l1 is Some && l2 is Some {
        Some(lam(family, l2->0))
    } else {
        None
    }
}

/// Induction on dependent sums: on a pair `(F, a, b)` it is `λ (T: Σ F → Type n) (q: Π x y, T (F, x, y)), q a b`.
pub open spec fn red_sigind(s: STerm, n: nat, g: nat) -> Option<STerm>
    decreases g, 2nat,
{
    match s {
        STerm::Pair(fm, a, b) => {
            let tf = s_typed(*fm, g);
            let arg = match tf {
                Some(STerm::Pi(ty, _)) => Some(*ty),
                _ => None,
            };
            let input = pi(sig(*fm), STerm::Universe(n));
            let f2 = s_push(*fm, 0, g);
            let a2 = s_push(*a, 0, g);
            let b2 = s_push(*b, 0, g);
            let arg2 = s_push(arg->0, 0, g);
            let input1 = s_push(input, 0, g);
            let family = db(0, input1->0);
            let initial = sig_initial(f2->0, family, arg2->0, g);
            let a3 = s_push(a2->0, 0, g);
            let b3 = s_push(b2->0, 0, g);
            let initial1 = s_push(initial->0, 0, g);
            let q = db(0, initial1->0);
            let qa = s_reduce(app(q, a3->0), g);
            let qab = s_reduce(app(qa->0, b3->0), g);
            let inner = s_reduce(lam(initial->0, qab->0), g);
            if tf is Some && arg is Some && f2 is Some && a2 is Some && b2 is Some && arg2 is Some && input1 is Some && initial is Some
                && a3 is Some && b3 is Some && initial1 is Some && qa is Some && qab is Some
                && inner is Some {
                s_reduce(lam(input, inner->0), g)
            } else {
                None
            }
        },
        _ => Some(sigind(s, n)),
    }
}

/// Interval negation: swaps the endpoints and cancels a double negation.
pub open spec fn red_not(i: STerm, g: nat) -> Option<STerm>
    decreases g, 1nat,
{
    match i {
        STerm::IA => Some(STerm::IB),
        STerm::IB => Some(STerm::IA),
        STerm::Not(x) => Some(*x),
        _ => {
            let x = s_reduce(i, g);
            if x is Some {
                Some(inot(x->0))
            } else {
                None
            }
        },
    }
}

/// Interval conjunction: the operands in structural order, then the endpoint laws.
pub open spec fn red_and(i0: STerm, j0: STerm, g: nat) -> Option<STerm>
    decreases g, 1nat,
{
    let i = if term_lt(j0, i0) {
        j0
    } else {
        i0
    };
    let j = if term_lt(j0, i0) {
        i0
    } else {
        j0
    };
    if i == STerm::IA || j == STerm::IA {
        Some(STerm::IA)
    } else if i == STerm::IB {
        s_reduce(j, g)
    } else if j == STerm::IB {
        s_reduce(i, g)
    } else {
        let i2 = s_reduce(i, g);
        let j2 = s_reduce(j, g);
        if i2 is Some && j2 is Some {
            Some(iand(i2->0, j2->0))
        } else {
            None
        }
    }
}

/// Applying an equality to an interval point.
pub open spec fn red_equw(e: STerm, i: STerm, g: nat) -> Option<STerm>
    decreases g, 1nat,
{
    match i {
        STerm::IA => match s_typed(e, g) {
            Some(STerm::Eq(_, v, _)) => Some(*v),
            _ => None,
        },
        STerm::IB => match s_typed(e, g) {
            Some(STerm::Eq(_, _, v)) => Some(*v),
            _ => None,
        },
        _ => match e {
            STerm::EqLam(x) => s_reduce(app(*x, i), g),
            _ => match s_typed(e, g) {
                Some(STerm::Eq(_, _, _)) => Some(equw(e, i)),
                _ => None,
            },
        },
    }
}

/// Wrapping a function on the interval as an equality: eta-contracts `λ i, e @ i`.
pub open spec fn red_eqlam(fm: STerm, g: nat) -> Option<STerm>
    decreases g, 1nat,
{
    match fm {
        STerm::Lam(ty, body) => match *body {
            STerm::EqUw(e, x) => match s_cc(*e, 0, g) {
                Some(e2) => match *x {
                    STerm::DeBrujin(n, val) => if n == 0 && *val == *ty {
                        Some(e2)
                    } else {
                        Some(eqlam(fm))
                    },
                    _ => Some(eqlam(fm)),
                },
                None => Some(eqlam(fm)),
            },
            _ => Some(eqlam(fm)),
        },
        _ => Some(eqlam(fm)),
    }
}

/// A lambda: eta-contracts `λ x, f x` when `f` does not mention `x`.
pub open spec fn red_lam(ty: STerm, body: STerm, g: nat) -> Option<STerm>
    decreases g, 1nat,
{
    match body {
        STerm::App(fm, x) => match s_cc(*fm, 0, g) {
            Some(f2) => match *x {
                STerm::DeBrujin(n, val) => if n == 0 && *val == ty {
                    Some(f2)
                } else {
                    Some(lam(ty, body))
                },
                _ => Some(lam(ty, body)),
            },
            None => Some(lam(ty, body)),
        },
        _ => Some(lam(ty, body)),
    }
}

/// Transport along a line of types.
pub open spec fn red_transp(fm: STerm, x: STerm, g: nat) -> Option<STerm>
    decreases g, 4nat,
{
    match fm {
        STerm::EqLam(g0) => match s_refl(*g0, STerm::IA, g) {
            Some(o) => if o is Some {
                Some(x)
            } else {
                Some(transp(fm, x))
            },
            None => None,
        },
        STerm::HComp { family: _, base, first, second } => red_transp_hcomp(
            *base,
            *first,
            *second,
            x,
            g,
        ),
        STerm::Lam(ii, g1) => match *g1 {
            STerm::Pi(ty, body) => red_transp_pi(*ii, *ty, *body, x, g),
            STerm::Eq(f2, a, b) => {
                let lf = s_reduce(lam(*ii, *f2), g);
                let la = s_reduce(lam(*ii, *a), g);
                let lb = s_reduce(lam(*ii, *b), g);
                let pa = s_reduce(eqlam(la->0), g);
                let pb = s_reduce(eqlam(lb->0), g);
                if lf is Some && la is Some && lb is Some && pa is Some && pb is Some {
                    Some(hcomp(lf->0, x, pa->0, pb->0))
                } else {
                    None
                }
            },
            STerm::Sig(f2) => red_transp_sig(*ii, *f2, x, g),
            _ => Some(transp(fm, x)),
        },
        _ => Some(transp(fm, x)),
    }
}

/// Transport along a composition: back along `first`, then along `base`, then along `second`.
pub open spec fn red_transp_hcomp(base: STerm, first: STerm, second: STerm, x: STerm, g: nat) -> Option<
    STerm,
>
    decreases g, 1nat,
{
    let first1 = s_push(first, 0, g);
    let base1 = s_push(base, 0, g);
    let second1 = s_push(second, 0, g);
    let ii1 = s_push(STerm::II, 0, g);
    let i = db(0, ii1->0);
    let ef = s_reduce(equw(first1->0, i), g);
    let eb = s_reduce(equw(base1->0, i), g);
    let es = s_reduce(equw(second1->0, i), g);
    let lfirst = s_reduce(lam(STerm::II, ef->0), g);
    let lbase = s_reduce(lam(STerm::II, eb->0), g);
    let lsecond = s_reduce(lam(STerm::II, es->0), g);
    let lf1 = s_push(lfirst->0, 0, g);
    let ni = s_reduce(inot(i), g);
    let body = s_reduce(app(lf1->0, ni->0), g);
    let sym = s_reduce(lam(STerm::II, body->0), g);
    let t1 = s_reduce(transp(sym->0, x), g);
    let t2 = s_reduce(transp(lbase->0, t1->0), g);
    if first1 is Some && base1 is Some && second1 is Some && ii1 is Some && ef is Some
        && eb is Some && es is Some && lfirst is Some && lbase is Some && lsecond is Some
        && lf1 is Some && ni is Some && body is Some && sym is Some && t1 is Some && t2 is Some {
        s_reduce(transp(lsecond->0, t2->0), g)
    } else {
        None
    }
}

/// Transport along a line of function types.
pub open spec fn red_transp_pi(ii: STerm, ty: STerm, body: STerm, x: STerm, g: nat) -> Option<STerm>
    decreases g, 2nat,
{
    let lty = s_reduce(lam(ii, ty), g);
    let lbody_in = s_reduce(lam(ty, body), g);
    let lbody = s_reduce(lam(ii, lbody_in->0), g);
    let ty_ib = s_reduce(app(lty->0, STerm::IB), g);
    let sym_lty = transp_pi_sym(lty->0, ii, g);
    let body2 = transp_pi_body(lty->0, sym_lty->0, x, ty_ib->0, g);
    if lty is Some && lbody_in is Some && lbody is Some && ty_ib is Some && sym_lty is Some
        && body2 is Some {
        s_reduce(lam(ty_ib->0, body2->0), g)
    } else {
        None
    }
}

/// `λ (i: ii), lty (¬ i)`.
pub open spec fn transp_pi_sym(lty: STerm, ii: STerm, g: nat) -> Option<STerm>
    decreases g, 1nat,
{
    let lty1 = s_push(lty, 0, g);
    let ii1 = s_push(ii, 0, g);
    let i = db(0, ii1->0);
    let ni = s_reduce(inot(i), g);
    let sb = s_reduce(app(lty1->0, ni->0), g);
    if lty1 is Some && ii1 is Some && ni is Some && sb is Some {
        s_reduce(lam(ii, sb->0), g)
    } else {
        None
    }
}

/// The body of the transported function, under a binder for its input at `I₁`.
pub open spec fn transp_pi_body(lty: STerm, sym_lty: STerm, func: STerm, ty_ib: STerm, g: nat) -> Option<
    STerm,
>
    decreases g, 1nat,
{
    let lty2 = s_push(lty, 0, g);
    let sym2 = s_push(sym_lty, 0, g);
    let func2 = s_push(func, 0, g);
    let tyib1 = s_push(ty_ib, 0, g);
    let xv = db(0, tyib1->0);
    let input_ia = s_reduce(transp(sym2->0, xv), g);
    let fa = s_reduce(app(func2->0, STerm::IA), g);
    let output_ia = s_reduce(app(fa->0, input_ia->0), g);
    let lty3 = s_push(lty2->0, 0, g);
    let func3 = s_push(func2->0, 0, g);
    let x3 = s_push(xv, 0, g);
    let ii3 = s_push(STerm::II, 0, g);
    let i3 = db(0, ii3->0);
    let fi = s_reduce(app(func3->0, i3), g);
    let lty4 = s_push(lty3->0, 0, g);
    let i4 = s_push(i3, 0, g);
    let ii4 = s_push(STerm::II, 0, g);
    let j = db(0, ii4->0);
    let ni4 = s_reduce(inot(i4->0), g);
    let nj = s_reduce(inot(j), g);
    let an = s_reduce(iand(ni4->0, nj->0), g);
    let b4 = s_reduce(app(lty4->0, an->0), g);
    let famj = s_reduce(lam(STerm::II, b4->0), g);
    let tr = s_reduce(transp(famj->0, x3->0), g);
    let pb = s_reduce(app(fi->0, tr->0), g);
    let path = s_reduce(lam(STerm::II, pb->0), g);
    if lty2 is Some && sym2 is Some && func2 is Some && tyib1 is Some && input_ia is Some
        && fa is Some && output_ia is Some && lty3 is Some && func3 is Some && x3 is Some
        && ii3 is Some && fi is Some && lty4 is Some && i4 is Some && ii4 is Some && ni4 is Some
        && nj is Some && an is Some && b4 is Some && famj is Some && tr is Some && pb is Some
        && path is Some {
        s_reduce(transp(path->0, output_ia->0), g)
    } else {
        None
    }
}

/// Transport along a line of dependent sums.
pub open spec fn red_transp_sig(ii: STerm, f2: STerm, x: STerm, g: nat) -> Option<STerm>
    decreases g, 3nat,
{
    let tf = s_typed(f2, g);
    let lfa = match tf {
        Some(STerm::Pi(ty, _)) => s_reduce(lam(ii, *ty), g),
        _ => None,
    };
    let lf = s_reduce(lam(ii, f2), g);
    let family0 = s_reduce(app(lf->0, STerm::IA), g);
    let family1 = s_reduce(app(lf->0, STerm::IB), g);
    let e0 = s_sig_ex0(family0->0, g);
    let a0 = s_reduce(app(e0->0, x), g);
    let e1 = s_sig_ex1(family0->0, g);
    let b0 = s_reduce(app(e1->0, x), g);
    let a1 = s_reduce(transp(lfa->0, a0->0), g);
    let p = transp_sig_path(lf->0, a0->0, lfa->0, g);
    let b1 = s_reduce(transp(p->0, b0->0), g);
    if lfa is Some && lf is Some && family0 is Some && family1 is Some && e0 is Some && a0 is Some && e1 is Some
        && b0 is Some && a1 is Some && p is Some && b1 is Some {
        Some(pair(family1->0, a1->0, b1->0))
    } else {
        None
    }
}

/// `λ (i: I), lf i (transp (λ j, lfa (i ∧ j)) a0)`.
pub open spec fn transp_sig_path(lf: STerm, a0: STerm, lfa: STerm, g: nat) -> Option<STerm>
    decreases g, 1nat,
{
    let lf1 = s_push(lf, 0, g);
    let a01 = s_push(a0, 0, g);
    let lfa1 = s_push(lfa, 0, g);
    let ii1 = s_push(STerm::II, 0, g);
    let i = db(0, ii1->0);
    let li = s_reduce(app(lf1->0, i), g);
    let i2 = s_push(i, 0, g);
    let lfa2 = s_push(lfa1->0, 0, g);
    let ii2 = s_push(STerm::II, 0, g);
    let j = db(0, ii2->0);
    let ij = s_reduce(iand(i2->0, j), g);
    let bj = s_reduce(app(lfa2->0, ij->0), g);
    let famj = s_reduce(lam(STerm::II, bj->0), g);
    let tr = s_reduce(transp(famj->0, a01->0), g);
    let pb = s_reduce(app(li->0, tr->0), g);
    if lf1 is Some && a01 is Some && lfa1 is Some && ii1 is Some && li is Some && i2 is Some
        && lfa2 is Some && ii2 is Some && ij is Some && bj is Some && famj is Some && tr is Some
        && pb is Some {
        s_reduce(lam(STerm::II, pb->0), g)
    } else {
        None
    }
}

} // verus!

verus! {

/// The context with every entry shifted under one more binder.
pub open spec fn ctx_push_scope(ctx: Seq<STerm>) -> Option<Seq<STerm>>
    decreases ctx.len(),
{
    if ctx.len() == 0 {
        Some(Seq::empty())
    } else {
        let front = ctx_push_scope(ctx.drop_last());
        let last = s_push(ctx.last(), 0, FUEL as nat);
        if front is Some && last is Some {
            Some(front->0.push(last->0))
        } else {
            None
        }
    }
}

/// The context extended by a variable of type `v`, under one more binder.
pub open spec fn ctx_push(ctx: Seq<STerm>, v: STerm) -> Option<Seq<STerm>> {
    let c = ctx_push_scope(ctx);
    let v2 = s_push(v, 0, FUEL as nat);
    if c is Some && v2 is Some {
        Some(c->0.push(v2->0))
    } else {
        None
    }
}

/// The type of variable `n` in the context: the `n`-th entry from the end.
pub open spec fn ctx_get(ctx: Seq<STerm>, n: nat) -> Option<STerm> {
    if n >= ctx.len() {
        None
    } else {
        Some(ctx[ctx.len() - 1 - n])
    }
}

/// `λ (i: I), f i pt` for a point `pt` of the interval.
pub open spec fn hcomp_side(f: STerm, pt: STerm) -> Option<STerm> {
    let f1 = s_push(f, 0, FUEL as nat);
    let ii1 = s_push(STerm::II, 0, FUEL as nat);
    let i = db(0, ii1->0);
    let fi = s_reduce(app(f1->0, i), FUEL as nat);
    let b = s_reduce(app(fi->0, pt), FUEL as nat);
    if f1 is Some && ii1 is Some && fi is Some && b is Some {
        s_reduce(lam(STerm::II, b->0), FUEL as nat)
    } else {
        None
    }
}

/// The side conditions of a composition: the base lies over `family IA`, and the two
/// sides start at the base's endpoints, over `family i IA` and `family i IB`.
pub open spec fn hcomp_fits(family: STerm, base: STerm, first: STerm, second: STerm) -> bool {
    match s_typed(base, STEP_FUEL as nat) {
        Some(STerm::Eq(f, a, b)) => {
            &&& s_reduce(app(family, STerm::IA), FUEL as nat) == Some(*f)
            &&& match s_typed(first, STEP_FUEL as nat) {
                Some(STerm::Eq(g, a2, _)) => *a2 == *a && hcomp_side(*f, STerm::IA) == Some(*g),
                _ => false,
            }
            &&& match s_typed(second, STEP_FUEL as nat) {
                Some(STerm::Eq(g, b2, _)) => *b2 == *b && hcomp_side(*f, STerm::IB) == Some(*g),
                _ => false,
            }
        },
        _ => false,
    }
}

/// Whether a term is well typed in a context of variable types (the last entry is index 0).
pub open spec fn s_wt(t: STerm, ctx: Seq<STerm>) -> bool
    decreases t,
{
    let fl = FUEL as nat;
    let tl = STEP_FUEL as nat;
    match t {
        STerm::DeBrujin(n, ty) => ctx_get(ctx, n) == Some(*ty),
        STerm::Lam(a, b) => s_wt(*a, ctx) && match ctx_push(ctx, *a) {
            Some(c2) => s_wt(*b, c2),
            None => false,
        },
        STerm::Pi(a, b) => s_wt(*a, ctx) && match ctx_push(ctx, *a) {
            Some(c2) => s_wt(*b, c2),
            None => false,
        },
        STerm::App(f, x) => s_wt(*f, ctx) && s_wt(*x, ctx) && match s_typed(*f, tl) {
            Some(STerm::Pi(arg, _)) => s_typed(*x, tl) == Some(*arg),
            _ => false,
        },
        STerm::Succ(x) => s_typed(*x, tl) == Some(STerm::Nat) && s_wt(*x, ctx),
        STerm::NatInd(x, _) => s_typed(*x, tl) == Some(STerm::Nat) && s_wt(*x, ctx),
        STerm::Not(x) => s_typed(*x, tl) == Some(STerm::II) && s_wt(*x, ctx),
        STerm::And(x, y) => s_typed(*x, tl) == Some(STerm::II) && s_typed(*y, tl) == Some(
            STerm::II,
        ) && s_wt(*x, ctx) && s_wt(*y, ctx),
        STerm::EqLam(x) => (match s_typed(*x, tl) {
            Some(STerm::Pi(arg, _)) => *arg == STerm::II,
            _ => false,
        }) && s_wt(*x, ctx),
        STerm::Eq(f, x, y) => s_wt(*f, ctx) && s_wt(*x, ctx) && s_wt(*y, ctx),
        STerm::EqUw(e, i) => s_wt(*e, ctx) && s_wt(*i, ctx),
        STerm::HComp { family, base, first, second } => s_wt(*family, ctx) && s_wt(*base, ctx)
            && s_wt(*first, ctx) && s_wt(*second, ctx) && hcomp_fits(*family, *base, *first, *second),
        STerm::Transp(f, x) => (match s_reduce(app(*f, STerm::IA), fl) {
            Some(start) => s_typed(*x, tl) == Some(start),
            None => false,
        }) && s_wt(*f, ctx) && s_wt(*x, ctx),
        STerm::Sig(f) => s_wt(*f, ctx),
        STerm::Pair(f, a, b) => {
            let fa = s_reduce(app(*f, *a), fl);
            let tb = s_typed(*b, tl);
            fa is Some && tb is Some && fa == tb && s_wt(*f, ctx) && s_wt(*a, ctx) && s_wt(*b, ctx)
        },
        STerm::SigInd(s, _) => (s_typed(*s, tl) matches Some(STerm::Sig(_))) && s_wt(*s, ctx),
        _ => true,
    }
}

} // verus!

verus! {

/// Moving a term under one more binder, at the library's fuel.
pub open spec fn sh(t: STerm) -> Option<STerm> {
    s_push(t, 0, FUEL as nat)
}

/// The normal form of a node, at the library's fuel.
pub open spec fn rd(t: STerm) -> Option<STerm> {
    s_reduce(t, FUEL as nat)
}

/// The type of a term, at the library's fuel.
pub open spec fn ty_of(t: STerm) -> Option<STerm> {
    s_typed(t, FUEL as nat)
}

/// The variable bound by a new binder of type `ty`.
pub open spec fn var_of(ty: STerm) -> Option<STerm> {
    match sh(ty) {
        Some(t) => Some(db(0, t)),
        None => None,
    }
}

} // verus!
