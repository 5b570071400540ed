//! The false type, and ex falso quodlibet.
use vstd::prelude::*;
use crate::model::{STerm, app, equw, lam, natind, pi, succ, transp};
use crate::semantics::{STEP_FUEL, rd, s_typed, sh, ty_of, var_of};
use crate::ctypes::{ContainedTerm, Natural, Res, Term, err_str, res_is, unwrap_natural};
use crate::kernel::{node, nm, rd_x, sh_x, term_eq, ty_x, var_x};
use crate::equals::{straight_eq, straight_eq_term};

verus! {

/// The false type `0 ≡ 1`.
pub open spec fn false_type_term() -> Option<STerm> {
    straight_eq_term(STerm::Zero, succ(STerm::Zero))
}

/// A type one universe below `Type{n}` that has an element: `ℕ`'s element `0` for `n = 0`,
/// `ℕ` itself for `n = 1`, and `Type{n - 2}` above.
pub open spec fn exfalso_other(n: nat) -> STerm {
    if n == 0 {
        STerm::Zero
    } else if n == 1 {
        STerm::Nat
    } else {
        STerm::Universe((n - 2) as nat)
    }
}

/// The line of types `λ i, natind (hyp @ i) (λ _, Type{n}) othertype (λ _ _, target)`.
pub open spec fn exfalso_family_term(othertype: STerm, target: STerm, hyp: STerm, n: nat) -> Option<
    STerm,
> {
    let ot2 = sh(othertype);
    let tg2 = sh(target);
    let hyp1 = sh(hyp);
    let i = var_of(STerm::II);
    let number = rd(equw(hyp1->0, i->0));
    let ni = rd(natind(number->0, n + 1));
    let lam_u = rd(lam(STerm::Nat, STerm::Universe(n)));
    let a1 = rd(app(ni->0, lam_u->0));
    let a2 = rd(app(a1->0, ot2->0));
    let tg3 = sh(tg2->0);
    let v1 = var_of(STerm::Nat);
    let tg4 = sh(tg3->0);
    let v2 = var_of(STerm::Universe(n));
    let l_in = rd(lam(STerm::Universe(n), tg4->0));
    let l_out = rd(lam(STerm::Nat, l_in->0));
    let body = rd(app(a2->0, l_out->0));
    if n < usize::MAX && ot2 is Some && tg2 is Some && hyp1 is Some && i is Some && number is Some
        && ni is Some && lam_u is Some && a1 is Some && a2 is Some && tg3 is Some && v1 is Some
        && tg4 is Some && v2 is Some && l_in is Some && l_out is Some && body is Some {
        rd(lam(STerm::II, body->0))
    } else {
        None
    }
}

/// `λ (hyp: false_type), transp (exfalso_family …) other : target`, for a type `target`.
pub open spec fn exfalso_term(false_type: STerm, target: STerm) -> Option<STerm> {
    match ty_of(target) {
        Some(STerm::Universe(n)) => {
            let other = exfalso_other(n);
            let othertype = ty_of(other);
            let ot1 = sh(othertype->0);
            let tg1 = sh(target);
            let oth1 = sh(other);
            let hyp = var_of(false_type);
            let family = exfalso_family_term(ot1->0, tg1->0, hyp->0, n);
            let tr = rd(transp(family->0, oth1->0));
            if othertype is Some && ot1 is Some && tg1 is Some && oth1 is Some && hyp is Some
                && family is Some && tr is Some {
                rd(lam(false_type, tr->0))
            } else {
                None
            }
        },
        _ => None,
    }
}

/// The false type.
pub struct FalseData {
    pub false_type: ContainedTerm,
}

impl Clone for FalseData {
    fn clone(&self) -> (r: Self)
        ensures
            r == *self,
    {
        FalseData { false_type: self.false_type.clone() }
    }
}

fn exfalso_family(
    othertype: &ContainedTerm,
    target: &ContainedTerm,
    hyp: &ContainedTerm,
    n: Natural,
) -> (r: Res<ContainedTerm>)
    ensures
        res_is(r, exfalso_family_term(othertype@, target@, hyp@, n@)),
{
    let ot2 = sh_x(othertype)?;
    let tg2 = sh_x(target)?;
    let hyp1 = sh_x(hyp)?;
    let i = var_x(&node(Term::II))?;
    let number = rd_x(Term::EqUw(hyp1, i))?;
    let n1 = n.checked_suc()?;
    let ni = rd_x(Term::NatInd(number, n1))?;
    let lam_u = rd_x(Term::Lam(node(Term::Nat), node(Term::Universe(n)), nm("_")))?;
    let a1 = rd_x(Term::App(ni, lam_u))?;
    let a2 = rd_x(Term::App(a1, ot2))?;
    let tg3 = sh_x(&tg2)?;
    let _v1 = var_x(&node(Term::Nat))?;
    let tg4 = sh_x(&tg3)?;
    let _v2 = var_x(&node(Term::Universe(n)))?;
    let l_in = rd_x(Term::Lam(node(Term::Universe(n)), tg4, nm("_")))?;
    let l_out = rd_x(Term::Lam(node(Term::Nat), l_in, nm("_")))?;
    let body = rd_x(Term::App(a2, l_out))?;
    rd_x(Term::Lam(node(Term::II), body, nm("i")))
}

impl FalseData {
    /// The false type `0 ≡ 1`.
    pub fn new() -> (r: Res<Self>)
        ensures
            match r {
                Ok(d) => false_type_term() == Some(d.false_type@),
                Err(_) => false_type_term() is None,
            },
    {
        let false_type = straight_eq(node(Term::Zero), node(Term::Succ(node(Term::Zero))))?;
        Ok(Self { false_type })
    }

    /// From the false type, a function into any type `target`, checked to have the type
    /// `Π (hyp: 0 ≡ 1), target`.
    pub fn exfalso(&self, target: ContainedTerm) -> (r: Res<ContainedTerm>)
        ensures
            r is Ok <==> (exfalso_term(self.false_type@, target@) matches Some(x) && sh(target@) matches Some(t)
                && s_typed(x, STEP_FUEL as nat) == Some(pi(self.false_type@, t))),
            r matches Ok(x) ==> exfalso_term(self.false_type@, target@) == Some(x@),
    {
        let x = self.exfalso_unchecked(target.clone())?;
        let t = sh_x(&target)?;
        let tx = x.clone().typed()?;
        if term_eq(&tx, &node(Term::Pi(self.false_type.clone(), t, nm("hyp")))) {
            Ok(x)
        } else {
            err_str("the function out of the false type does not have its type")
        }
    }

    pub(crate) fn exfalso_unchecked(&self, target: ContainedTerm) -> (r: Res<ContainedTerm>)
        ensures
            res_is(r, exfalso_term(self.false_type@, target@)),
    {
        let tt = ty_x(&target)?;
        match tt.pop() {
            Term::Universe(n) => {
                let k = unwrap_natural(n);
                let other = if k == 0 {
                    node(Term::Zero)
                } else if k == 1 {
                    node(Term::Nat)
                } else {
                    node(Term::Universe(n.pred().pred()))
                };
                let othertype = ty_x(&other)?;
                let ot1 = sh_x(&othertype)?;
                let tg1 = sh_x(&target)?;
                let oth1 = sh_x(&other)?;
                let hyp = var_x(&self.false_type)?;
                let family = exfalso_family(&ot1, &tg1, &hyp, n)?;
                let tr = rd_x(Term::Transp(family, oth1))?;
                rd_x(Term::Lam(self.false_type.clone(), tr, nm("hyp")))
            },
            _ => err_str("target is not a type!"),
        }
    }
}

} // verus!
