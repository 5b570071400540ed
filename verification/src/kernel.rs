//! The type checker's operations on terms: normal forms, shifting, substitution, types.
//! Each one is the executable counterpart of the function of the same role in
//! `semantics`, and its contract says so.
use std::rc::Rc;
use vstd::prelude::*;
use crate::model::{STerm, tag, order_int, lex, sig, term_order};
use crate::semantics::{
    NatIndParts, natind_parts, red_and, red_app, red_eqlam, red_equw, red_lam, red_natind,
    red_natind_succ, red_not, red_sigind, red_transp, red_transp_hcomp, red_transp_pi,
    red_transp_sig, s_cc, s_push, s_reduce, s_refl, s_sig_ex0, s_sig_ex1, s_subst, s_typed,
    sig_initial, FUEL, STEP_FUEL, sh, rd, ty_of, var_of, ctx_push, ctx_push_scope, ctx_get, hcomp_side, hcomp_fits, s_wt,
    transp_pi_body, transp_pi_sym, transp_sig_path, typed_natind, typed_sigind,
};
use crate::ctypes::{
    Context, ContainedTerm, GM, Naming, Natural, Res, Term, err_str, res_is, unwrap_natural,
};
use crate::unique::Unique;

verus! {

/// The term behind a contained term.
pub fn term_of(c: &ContainedTerm) -> (r: &Term)
    ensures
        r@ == c@,
{
    c.0.get_ref()
}

/// Contains a term as it is, without bringing it to normal form.
pub fn ctn_unchecked(t: Term) -> (r: ContainedTerm)
    ensures
        r@ == t@,
{
    ContainedTerm(Unique::new(Rc::new(t), GM))
}

fn name(s: &str) -> Naming {
    Naming::new(s)
}

fn nat_of(n: usize) -> (r: Natural)
    ensures
        r@ == n,
{
    Natural::from_usize(n)
}

fn inc(n: Natural) -> (r: Res<Natural>)
    ensures
        r matches Ok(m) ==> m@ == n@ + 1,
        r is Ok <==> n@ < usize::MAX,
{
    if unwrap_natural(n) == usize::MAX {
        err_str("natural number overflow")
    } else {
        Ok(n.suc())
    }
}

/// Whether two terms have the same model: the same structure, whatever the binder names.
pub fn term_eq(a: &ContainedTerm, b: &ContainedTerm) -> (r: bool)
    ensures
        r == (a@ == b@),
    decreases a,
{
    let ta = a.0.get_ref();
    let tb = b.0.get_ref();
    proof {
        Natural::lemma_view_injective_all();
    }
    match ta {
        Term::DeBrujin(n, t) => match tb {
            Term::DeBrujin(m, u) => n.equals(*m) && term_eq(t, u),
            _ => false,
        },
        Term::Lam(a1, a2, _) => match tb {
            Term::Lam(b1, b2, _) => term_eq(a1, b1) && term_eq(a2, b2),
            _ => false,
        },
        Term::Pi(a1, a2, _) => match tb {
            Term::Pi(b1, b2, _) => term_eq(a1, b1) && term_eq(a2, b2),
            _ => false,
        },
        Term::App(a1, a2) => match tb {
            Term::App(b1, b2) => term_eq(a1, b1) && term_eq(a2, b2),
            _ => false,
        },
        Term::Universe(n) => match tb {
            Term::Universe(m) => n.equals(*m),
            _ => false,
        },
        Term::Nat => matches!(tb, Term::Nat),
        Term::Zero => matches!(tb, Term::Zero),
        Term::Succ(a1) => match tb {
            Term::Succ(b1) => term_eq(a1, b1),
            _ => false,
        },
        Term::NatInd(a1, n) => match tb {
            Term::NatInd(b1, m) => term_eq(a1, b1) && n.equals(*m),
            _ => false,
        },
        Term::II => matches!(tb, Term::II),
        Term::IA => matches!(tb, Term::IA),
        Term::IB => matches!(tb, Term::IB),
        Term::Not(a1) => match tb {
            Term::Not(b1) => term_eq(a1, b1),
            _ => false,
        },
        Term::And(a1, a2) => match tb {
            Term::And(b1, b2) => term_eq(a1, b1) && term_eq(a2, b2),
            _ => false,
        },
        Term::EqLam(a1) => match tb {
            Term::EqLam(b1) => term_eq(a1, b1),
            _ => false,
        },
        Term::Eq(a1, a2, a3) => match tb {
            Term::Eq(b1, b2, b3) => term_eq(a1, b1) && term_eq(a2, b2) && term_eq(a3, b3),
            _ => false,
        },
        Term::EqUw(a1, a2) => match tb {
            Term::EqUw(b1, b2) => term_eq(a1, b1) && term_eq(a2, b2),
            _ => false,
        },
        Term::HComp { family: a1, base: a2, first: a3, second: a4 } => match tb {
            Term::HComp { family: b1, base: b2, first: b3, second: b4 } => term_eq(a1, b1)
                && term_eq(a2, b2) && term_eq(a3, b3) && term_eq(a4, b4),
            _ => false,
        },
        Term::Transp(a1, a2) => match tb {
            Term::Transp(b1, b2) => term_eq(a1, b1) && term_eq(a2, b2),
            _ => false,
        },
        Term::Sig(a1) => match tb {
            Term::Sig(b1) => term_eq(a1, b1),
            _ => false,
        },
        Term::Pair(a1, a2, a3) => match tb {
            Term::Pair(b1, b2, b3) => term_eq(a1, b1) && term_eq(a2, b2) && term_eq(a3, b3),
            _ => false,
        },
        Term::SigInd(a1, n) => match tb {
            Term::SigInd(b1, m) => term_eq(a1, b1) && n.equals(*m),
            _ => false,
        },
    }
}

fn tag_of(t: &Term) -> (r: u8)
    ensures
        r as int == tag(t@),
{
    match t {
        Term::DeBrujin(..) => 0,
        Term::Lam(..) => 1,
        Term::Pi(..) => 2,
        Term::App(..) => 3,
        Term::Universe(..) => 4,
        Term::Nat => 5,
        Term::Zero => 6,
        Term::Succ(..) => 7,
        Term::NatInd(..) => 8,
        Term::II => 9,
        Term::IA => 10,
        Term::IB => 11,
        Term::Not(..) => 12,
        Term::And(..) => 13,
        Term::EqLam(..) => 14,
        Term::Eq(..) => 15,
        Term::EqUw(..) => 16,
        Term::HComp { .. } => 17,
        Term::Transp(..) => 18,
        Term::Sig(..) => 19,
        Term::Pair(..) => 20,
        Term::SigInd(..) => 21,
    }
}

fn order_usize(a: usize, b: usize) -> (r: i8)
    ensures
        r as int == order_int(a as int, b as int),
{
    if a < b {
        -1
    } else if a == b {
        0
    } else {
        1
    }
}

fn lex_i8(first: i8, then: i8) -> (r: i8)
    ensures
        r as int == lex(first as int, then as int),
{
    if first != 0 {
        first
    } else {
        then
    }
}

/// The structural order of two terms: negative, zero or positive.
pub fn term_order_of(a: &ContainedTerm, b: &ContainedTerm) -> (r: i8)
    ensures
        r as int == term_order(a@, b@),
    decreases a,
{
    let ta = a.0.get_ref();
    let tb = b.0.get_ref();
    let xa = tag_of(ta);
    let xb = tag_of(tb);
    if xa != xb {
        return order_usize(xa as usize, xb as usize);
    }
    match ta {
        Term::DeBrujin(n, t) => match tb {
            Term::DeBrujin(m, u) => lex_i8(
                order_usize(unwrap_natural(*n), unwrap_natural(*m)),
                term_order_of(t, u),
            ),
            _ => 0,
        },
        Term::Lam(a1, a2, _) => match tb {
            Term::Lam(b1, b2, _) => lex_i8(term_order_of(a1, b1), term_order_of(a2, b2)),
            _ => 0,
        },
        Term::Pi(a1, a2, _) => match tb {
            Term::Pi(b1, b2, _) => lex_i8(term_order_of(a1, b1), term_order_of(a2, b2)),
            _ => 0,
        },
        Term::App(a1, a2) => match tb {
            Term::App(b1, b2) => lex_i8(term_order_of(a1, b1), term_order_of(a2, b2)),
            _ => 0,
        },
        Term::Universe(n) => match tb {
            Term::Universe(m) => order_usize(unwrap_natural(*n), unwrap_natural(*m)),
            _ => 0,
        },
        Term::Succ(a1) => match tb {
            Term::Succ(b1) => term_order_of(a1, b1),
            _ => 0,
        },
        Term::NatInd(a1, n) => match tb {
            Term::NatInd(b1, m) => lex_i8(
                term_order_of(a1, b1),
                order_usize(unwrap_natural(*n), unwrap_natural(*m)),
            ),
            _ => 0,
        },
        Term::Not(a1) => match tb {
            Term::Not(b1) => term_order_of(a1, b1),
            _ => 0,
        },
        Term::And(a1, a2) => match tb {
            Term::And(b1, b2) => lex_i8(term_order_of(a1, b1), term_order_of(a2, b2)),
            _ => 0,
        },
        Term::EqLam(a1) => match tb {
            Term::EqLam(b1) => term_order_of(a1, b1),
            _ => 0,
        },
        Term::Eq(a1, a2, a3) => match tb {
            Term::Eq(b1, b2, b3) => lex_i8(
                term_order_of(a1, b1),
                lex_i8(term_order_of(a2, b2), term_order_of(a3, b3)),
            ),
            _ => 0,
        },
        Term::EqUw(a1, a2) => match tb {
            Term::EqUw(b1, b2) => lex_i8(term_order_of(a1, b1), term_order_of(a2, b2)),
            _ => 0,
        },
        Term::HComp { family: a1, base: a2, first: a3, second: a4 } => match tb {
            Term::HComp { family: b1, base: b2, first: b3, second: b4 } => lex_i8(
                term_order_of(a1, b1),
                lex_i8(
                    term_order_of(a2, b2),
                    lex_i8(term_order_of(a3, b3), term_order_of(a4, b4)),
                ),
            ),
            _ => 0,
        },
        Term::Transp(a1, a2) => match tb {
            Term::Transp(b1, b2) => lex_i8(term_order_of(a1, b1), term_order_of(a2, b2)),
            _ => 0,
        },
        Term::Sig(a1) => match tb {
            Term::Sig(b1) => term_order_of(a1, b1),
            _ => 0,
        },
        Term::Pair(a1, a2, a3) => match tb {
            Term::Pair(b1, b2, b3) => lex_i8(
                term_order_of(a1, b1),
                lex_i8(term_order_of(a2, b2), term_order_of(a3, b3)),
            ),
            _ => 0,
        },
        Term::SigInd(a1, n) => match tb {
            Term::SigInd(b1, m) => lex_i8(
                term_order_of(a1, b1),
                order_usize(unwrap_natural(*n), unwrap_natural(*m)),
            ),
            _ => 0,
        },
        _ => 0,
    }
}

/// The model of an optional contained term.
pub open spec fn opt_view(o: Option<ContainedTerm>) -> Option<STerm> {
    match o {
        Some(v) => Some(v@),
        None => None,
    }
}

fn mk(t: Term) -> (r: ContainedTerm)
    ensures
        r@ == t@,
{
    ctn_unchecked(t)
}

fn out_of_fuel<T>() -> (r: Res<T>)
    ensures
        r is Err,
{
    err_str("recursion too deep")
}

/// `push_scope` at cutoff zero.
pub(crate) fn ps0(c: &ContainedTerm, g: u64) -> (r: Res<ContainedTerm>)
    ensures
        res_is(r, s_push(c@, 0, g as nat)),
    decreases g, 1nat,
{
    push_node(term_of(c), nat_of(0), g)
}

/// Raises every free index at or above `n` by one and rebuilds the term.
pub fn push_node(t: &Term, n: Natural, fuel: u64) -> (r: Res<ContainedTerm>)
    ensures
        res_is(r, s_push(t@, n@, fuel as nat)),
    decreases fuel, 0nat,
{
    if fuel == 0 {
        return out_of_fuel();
    }
    let g = fuel - 1;
    match t {
        Term::DeBrujin(m, ty) => {
            let ty2 = push_node(term_of(ty), n, g)?;
            if !m.less(n) {
                let m2 = inc(*m)?;
                Ok(mk(Term::DeBrujin(m2, ty2)))
            } else {
                Ok(mk(Term::DeBrujin(*m, ty2)))
            }
        },
        Term::Lam(a, b, nm) => {
            let a2 = push_node(term_of(a), n, g)?;
            let n1 = inc(n)?;
            let b2 = push_node(term_of(b), n1, g)?;
            reduce_node(Term::Lam(a2, b2, nm.clone()), g)
        },
        Term::Pi(a, b, nm) => {
            let a2 = push_node(term_of(a), n, g)?;
            let n1 = inc(n)?;
            let b2 = push_node(term_of(b), n1, g)?;
            Ok(mk(Term::Pi(a2, b2, nm.clone())))
        },
        Term::App(a, b) => {
            let a2 = push_node(term_of(a), n, g)?;
            let b2 = push_node(term_of(b), n, g)?;
            reduce_node(Term::App(a2, b2), g)
        },
        Term::Succ(a) => {
            let a2 = push_node(term_of(a), n, g)?;
            Ok(mk(Term::Succ(a2)))
        },
        Term::NatInd(a, m) => {
            let a2 = push_node(term_of(a), n, g)?;
            reduce_node(Term::NatInd(a2, *m), g)
        },
        Term::Not(a) => {
            let a2 = push_node(term_of(a), n, g)?;
            reduce_node(Term::Not(a2), g)
        },
        Term::And(a, b) => {
            let a2 = push_node(term_of(a), n, g)?;
            let b2 = push_node(term_of(b), n, g)?;
            reduce_node(Term::And(a2, b2), g)
        },
        Term::EqLam(a) => {
            let a2 = push_node(term_of(a), n, g)?;
            reduce_node(Term::EqLam(a2), g)
        },
        Term::Eq(a, b, c) => {
            let a2 = push_node(term_of(a), n, g)?;
            let b2 = push_node(term_of(b), n, g)?;
            let c2 = push_node(term_of(c), n, g)?;
            Ok(mk(Term::Eq(a2, b2, c2)))
        },
        Term::EqUw(a, b) => {
            let a2 = push_node(term_of(a), n, g)?;
            let b2 = push_node(term_of(b), n, g)?;
            reduce_node(Term::EqUw(a2, b2), g)
        },
        Term::HComp { family, base, first, second } => {
            let a2 = push_node(term_of(family), n, g)?;
            let b2 = push_node(term_of(base), n, g)?;
            let c2 = push_node(term_of(first), n, g)?;
            let d2 = push_node(term_of(second), n, g)?;
            Ok(mk(Term::HComp { family: a2, base: b2, first: c2, second: d2 }))
        },
        Term::Transp(a, b) => {
            let a2 = push_node(term_of(a), n, g)?;
            let b2 = push_node(term_of(b), n, g)?;
            reduce_node(Term::Transp(a2, b2), g)
        },
        Term::Sig(a) => {
            let a2 = push_node(term_of(a), n, g)?;
            Ok(mk(Term::Sig(a2)))
        },
        Term::Pair(a, b, c) => {
            let a2 = push_node(term_of(a), n, g)?;
            let b2 = push_node(term_of(b), n, g)?;
            let c2 = push_node(term_of(c), n, g)?;
            Ok(mk(Term::Pair(a2, b2, c2)))
        },
        Term::SigInd(a, u) => {
            let a2 = push_node(term_of(a), n, g)?;
            reduce_node(Term::SigInd(a2, *u), g)
        },
        _ => Ok(mk(t.clone())),
    }
}

/// Puts `other` in place of index `layer`, lowers the indices above it, and rebuilds the term.
pub fn subst_node(t: &Term, other: &ContainedTerm, layer: Natural, fuel: u64) -> (r: Res<
    ContainedTerm,
>)
    ensures
        res_is(r, s_subst(t@, other@, layer@, fuel as nat)),
    decreases fuel, 0nat,
{
    if fuel == 0 {
        return out_of_fuel();
    }
    let g = fuel - 1;
    match t {
        Term::DeBrujin(n, ty) => {
            if n.equals(layer) {
                Ok(other.clone())
            } else {
                let ty2 = subst_node(term_of(ty), other, layer, g)?;
                if n.less(layer) {
                    Ok(mk(Term::DeBrujin(*n, ty2)))
                } else {
                    Ok(mk(Term::DeBrujin(n.pred(), ty2)))
                }
            }
        },
        Term::Lam(a, b, nm) => {
            let a2 = subst_node(term_of(a), other, layer, g)?;
            let o2 = ps0(other, g)?;
            let l1 = inc(layer)?;
            let b2 = subst_node(term_of(b), &o2, l1, g)?;
            reduce_node(Term::Lam(a2, b2, nm.clone()), g)
        },
        Term::Pi(a, b, nm) => {
            let a2 = subst_node(term_of(a), other, layer, g)?;
            let o2 = ps0(other, g)?;
            let l1 = inc(layer)?;
            let b2 = subst_node(term_of(b), &o2, l1, g)?;
            Ok(mk(Term::Pi(a2, b2, nm.clone())))
        },
        Term::App(a, b) => {
            let a2 = subst_node(term_of(a), other, layer, g)?;
            let b2 = subst_node(term_of(b), other, layer, g)?;
            reduce_node(Term::App(a2, b2), g)
        },
        Term::Succ(a) => {
            let a2 = subst_node(term_of(a), other, layer, g)?;
            Ok(mk(Term::Succ(a2)))
        },
        Term::NatInd(a, m) => {
            let a2 = subst_node(term_of(a), other, layer, g)?;
            reduce_node(Term::NatInd(a2, *m), g)
        },
        Term::Not(a) => {
            let a2 = subst_node(term_of(a), other, layer, g)?;
            reduce_node(Term::Not(a2), g)
        },
        Term::And(a, b) => {
            let a2 = subst_node(term_of(a), other, layer, g)?;
            let b2 = subst_node(term_of(b), other, layer, g)?;
            reduce_node(Term::And(a2, b2), g)
        },
        Term::EqLam(a) => {
            let a2 = subst_node(term_of(a), other, layer, g)?;
            reduce_node(Term::EqLam(a2), g)
        },
        Term::Eq(a, b, c) => {
            let a2 = subst_node(term_of(a), other, layer, g)?;
            let b2 = subst_node(term_of(b), other, layer, g)?;
            let c2 = subst_node(term_of(c), other, layer, g)?;
            Ok(mk(Term::Eq(a2, b2, c2)))
        },
        Term::EqUw(a, b) => {
            let a2 = subst_node(term_of(a), other, layer, g)?;
            let b2 = subst_node(term_of(b), other, layer, g)?;
            reduce_node(Term::EqUw(a2, b2), g)
        },
        Term::HComp { family, base, first, second } => {
            let a2 = subst_node(term_of(family), other, layer, g)?;
            let b2 = subst_node(term_of(base), other, layer, g)?;
            let c2 = subst_node(term_of(first), other, layer, g)?;
            let d2 = subst_node(term_of(second), other, layer, g)?;
            Ok(mk(Term::HComp { family: a2, base: b2, first: c2, second: d2 }))
        },
        Term::Transp(a, b) => {
            let a2 = subst_node(term_of(a), other, layer, g)?;
            let b2 = subst_node(term_of(b), other, layer, g)?;
            reduce_node(Term::Transp(a2, b2), g)
        },
        Term::Sig(a) => {
            let a2 = subst_node(term_of(a), other, layer, g)?;
            Ok(mk(Term::Sig(a2)))
        },
        Term::Pair(a, b, c) => {
            let a2 = subst_node(term_of(a), other, layer, g)?;
            let b2 = subst_node(term_of(b), other, layer, g)?;
            let c2 = subst_node(term_of(c), other, layer, g)?;
            Ok(mk(Term::Pair(a2, b2, c2)))
        },
        Term::SigInd(a, u) => {
            let a2 = subst_node(term_of(a), other, layer, g)?;
            reduce_node(Term::SigInd(a2, *u), g)
        },
        _ => Ok(mk(t.clone())),
    }
}

/// Lowers the indices above `layer` and rebuilds the term; fails when the term mentions `layer`.
pub fn const_node(t: &Term, layer: Natural, fuel: u64) -> (r: Res<ContainedTerm>)
    ensures
        res_is(r, s_cc(t@, layer@, fuel as nat)),
    decreases fuel, 0nat,
{
    if fuel == 0 {
        return out_of_fuel();
    }
    let g = fuel - 1;
    match t {
        Term::DeBrujin(n, ty) => {
            if n.equals(layer) {
                err_str("value is not const!")
            } else {
                let ty2 = const_node(term_of(ty), layer, g)?;
                if n.less(layer) {
                    Ok(mk(Term::DeBrujin(*n, ty2)))
                } else {
                    Ok(mk(Term::DeBrujin(n.pred(), ty2)))
                }
            }
        },
        Term::Lam(a, b, nm) => {
            let a2 = const_node(term_of(a), layer, g)?;
            let l1 = inc(layer)?;
            let b2 = const_node(term_of(b), l1, g)?;
            reduce_node(Term::Lam(a2, b2, nm.clone()), g)
        },
        Term::Pi(a, b, nm) => {
            let a2 = const_node(term_of(a), layer, g)?;
            let l1 = inc(layer)?;
            let b2 = const_node(term_of(b), l1, g)?;
            Ok(mk(Term::Pi(a2, b2, nm.clone())))
        },
        Term::App(a, b) => {
            let a2 = const_node(term_of(a), layer, g)?;
            let b2 = const_node(term_of(b), layer, g)?;
            reduce_node(Term::App(a2, b2), g)
        },
        Term::Succ(a) => {
            let a2 = const_node(term_of(a), layer, g)?;
            Ok(mk(Term::Succ(a2)))
        },
        Term::NatInd(a, m) => {
            let a2 = const_node(term_of(a), layer, g)?;
            reduce_node(Term::NatInd(a2, *m), g)
        },
        Term::Not(a) => {
            let a2 = const_node(term_of(a), layer, g)?;
            reduce_node(Term::Not(a2), g)
        },
        Term::And(a, b) => {
            let a2 = const_node(term_of(a), layer, g)?;
            let b2 = const_node(term_of(b), layer, g)?;
            reduce_node(Term::And(a2, b2), g)
        },
        Term::EqLam(a) => {
            let a2 = const_node(term_of(a), layer, g)?;
            reduce_node(Term::EqLam(a2), g)
        },
        Term::Eq(a, b, c) => {
            let a2 = const_node(term_of(a), layer, g)?;
            let b2 = const_node(term_of(b), layer, g)?;
            let c2 = const_node(term_of(c), layer, g)?;
            Ok(mk(Term::Eq(a2, b2, c2)))
        },
        Term::EqUw(a, b) => {
            let a2 = const_node(term_of(a), layer, g)?;
            let b2 = const_node(term_of(b), layer, g)?;
            reduce_node(Term::EqUw(a2, b2), g)
        },
        Term::HComp { family, base, first, second } => {
            let a2 = const_node(term_of(family), layer, g)?;
            let b2 = const_node(term_of(base), layer, g)?;
            let c2 = const_node(term_of(first), layer, g)?;
            let d2 = const_node(term_of(second), layer, g)?;
            Ok(mk(Term::HComp { family: a2, base: b2, first: c2, second: d2 }))
        },
        Term::Transp(a, b) => {
            let a2 = const_node(term_of(a), layer, g)?;
            let b2 = const_node(term_of(b), layer, g)?;
            reduce_node(Term::Transp(a2, b2), g)
        },
        Term::Sig(a) => {
            let a2 = const_node(term_of(a), layer, g)?;
            Ok(mk(Term::Sig(a2)))
        },
        Term::Pair(a, b, c) => {
            let a2 = const_node(term_of(a), layer, g)?;
            let b2 = const_node(term_of(b), layer, g)?;
            let c2 = const_node(term_of(c), layer, g)?;
            Ok(mk(Term::Pair(a2, b2, c2)))
        },
        Term::SigInd(a, u) => {
            let a2 = const_node(term_of(a), layer, g)?;
            reduce_node(Term::SigInd(a2, *u), g)
        },
        _ => Ok(mk(t.clone())),
    }
}

/// Brings a node whose children are in normal form to normal form.
pub fn reduce_node(t: Term, fuel: u64) -> (r: Res<ContainedTerm>)
    ensures
        res_is(r, s_reduce(t@, fuel as nat)),
    decreases fuel, 0nat,
{
    match t {
        Term::App(..) | Term::NatInd(..) | Term::SigInd(..) | Term::Not(..) | Term::And(..)
        | Term::EqUw(..) | Term::EqLam(..) | Term::Transp(..) | Term::Lam(..) => {},
        _ => {
            return Ok(mk(t));
        },
    }
    if fuel == 0 {
        return out_of_fuel();
    }
    let g = fuel - 1;
    match t {
        Term::App(a, b) => reduce_app(&a, &b, g),
        Term::NatInd(term, un) => reduce_natind(&term, un, g),
        Term::SigInd(s, n) => reduce_sigind(&s, n, g),
        Term::Not(i) => reduce_not(&i, g),
        Term::And(i, j) => reduce_and(&i, &j, g),
        Term::EqUw(e, i) => reduce_equw(&e, &i, g),
        Term::EqLam(x) => reduce_eqlam(&x, g),
        Term::Transp(x, y) => reduce_transp(&x, &y, g),
        Term::Lam(ty, body, nm) => reduce_lam(&ty, &body, nm, g),
        _ => Ok(mk(t)),
    }
}

/// The type of a term.
pub fn typed_node(t: &Term, fuel: u64) -> (r: Res<ContainedTerm>)
    ensures
        res_is(r, s_typed(t@, fuel as nat)),
    decreases fuel, 0nat,
{
    if fuel == 0 {
        return out_of_fuel();
    }
    let g = fuel - 1;
    match t {
        Term::DeBrujin(_, ty) => Ok(ty.clone()),
        Term::Lam(a, b, nm) => {
            let tb = typed_node(term_of(b), g)?;
            Ok(mk(Term::Pi(a.clone(), tb, nm.clone())))
        },
        Term::Pi(a, b, _) => {
            let ta = typed_node(term_of(a), g)?;
            let tb = typed_node(term_of(b), g)?;
            ta.type_max(tb)
        },
        Term::App(a, b) => {
            let ta = typed_node(term_of(a), g)?;
            match term_of(&ta) {
                Term::Pi(arg, ab, _) => {
                    let tb = typed_node(term_of(b), g)?;
                    if term_eq(arg, &tb) {
                        subst_node(term_of(ab), b, nat_of(0), g)
                    } else {
                        err_str("Application is not well_typed")
                    }
                },
                _ => err_str("Application isn't even a function... "),
            }
        },
        Term::Universe(n) => {
            let n1 = inc(*n)?;
            Ok(mk(Term::Universe(n1)))
        },
        Term::Zero => Ok(mk(Term::Nat)),
        Term::Nat => Ok(mk(Term::Universe(nat_of(0)))),
        Term::Succ(_) => Ok(mk(Term::Nat)),
        Term::NatInd(term, n) => typed_natind_of(term, *n, g),
        Term::II => Ok(mk(Term::Universe(nat_of(0)))),
        Term::IA => Ok(mk(Term::II)),
        Term::IB => Ok(mk(Term::II)),
        Term::Not(_) => Ok(mk(Term::II)),
        Term::And(_, _) => Ok(mk(Term::II)),
        Term::EqLam(term) => {
            let fa = reduce_node(Term::App(term.clone(), mk(Term::IA)), g)?;
            let fb = reduce_node(Term::App(term.clone(), mk(Term::IB)), g)?;
            let tt = typed_node(term_of(term), g)?;
            let fl = match term_of(&tt) {
                Term::Pi(i, ff, nm) => reduce_node(Term::Lam(i.clone(), ff.clone(), nm.clone()), g)?,
                _ => {
                    return err_str("f is not a function");
                },
            };
            Ok(mk(Term::Eq(fl, fa, fb)))
        },
        Term::Eq(fm, _, _) => match term_of(fm) {
            Term::Lam(_, body, nm) => typed_node(
                &Term::Pi(mk(Term::II), body.clone(), nm.clone()),
                g,
            ),
            _ => err_str("f is not a function"),
        },
        Term::EqUw(e, i) => {
            let te = typed_node(term_of(e), g)?;
            match term_of(&te) {
                Term::Eq(fm, _, _) => reduce_node(Term::App(fm.clone(), i.clone()), g),
                _ => err_str("e is not an eq"),
            }
        },
        Term::Transp(fm, _) => reduce_node(Term::App(fm.clone(), mk(Term::IB)), g),
        Term::HComp { family, base: _, first, second } => {
            let c = reduce_node(Term::EqUw(first.clone(), mk(Term::IB)), g)?;
            let d = reduce_node(Term::EqUw(second.clone(), mk(Term::IB)), g)?;
            let fin = reduce_node(Term::App(family.clone(), mk(Term::IB)), g)?;
            Ok(mk(Term::Eq(fin, c, d)))
        },
        Term::Sig(fm) => {
            let tf = typed_node(term_of(fm), g)?;
            typed_node(term_of(&tf), g)
        },
        Term::Pair(fm, _, _) => Ok(mk(Term::Sig(fm.clone()))),
        Term::SigInd(s, n) => typed_sigind_of(s, *n, g),
    }
}

/// The family, base-case type and step type of the induction principle on naturals.
fn natind_parts_of(un: Natural, g: u64) -> (r: Res<(ContainedTerm, ContainedTerm, ContainedTerm)>)
    ensures
        match r {
            Ok((a, b, c)) => natind_parts(un@, g as nat) == Some(
                NatIndParts { family: a@, initial: b@, next: c@ },
            ),
            Err(_) => natind_parts(un@, g as nat) is None,
        },
    decreases g, 2nat,
{
    let u = mk(Term::Universe(un));
    let family = mk(Term::Pi(mk(Term::Nat), u, name("index")));
    let initial = reduce_node(
        Term::App(mk(Term::DeBrujin(nat_of(0), family.clone())), mk(Term::Zero)),
        g,
    )?;
    let cur = reduce_node(
        Term::App(
            mk(Term::DeBrujin(nat_of(2), family.clone())),
            mk(Term::DeBrujin(nat_of(0), mk(Term::Nat))),
        ),
        g,
    )?;
    let nxt = reduce_node(
        Term::App(
            mk(Term::DeBrujin(nat_of(3), family.clone())),
            mk(Term::Succ(mk(Term::DeBrujin(nat_of(1), mk(Term::Nat))))),
        ),
        g,
    )?;
    let next = mk(Term::Pi(mk(Term::Nat), mk(Term::Pi(cur, nxt, name("cur"))), name("n")));
    Ok((family, initial, next))
}

/// `Π (a: arg) (b: f a), family (f, a, b)`.
fn sig_initial_of(f: &ContainedTerm, family: &ContainedTerm, arg: &ContainedTerm, g: u64) -> (r: Res<
    ContainedTerm,
>)
    ensures
        res_is(r, sig_initial(f@, family@, arg@, g as nat)),
    decreases g, 2nat,
{
    let f1 = ps0(f, g)?;
    let fam1 = ps0(family, g)?;
    let arg1 = ps0(arg, g)?;
    let a = mk(Term::DeBrujin(nat_of(0), arg1));
    let tyb = reduce_node(Term::App(f1.clone(), a.clone()), g)?;
    let fam2 = ps0(&fam1, g)?;
    let f2 = ps0(&f1, g)?;
    let a2 = ps0(&a, g)?;
    let tyb1 = ps0(&tyb, g)?;
    let b = mk(Term::DeBrujin(nat_of(0), tyb1));
    let body = reduce_node(Term::App(fam2, mk(Term::Pair(f2, a2, b))), g)?;
    Ok(mk(Term::Pi(arg.clone(), mk(Term::Pi(tyb, body, name("sig_b"))), name("sig_a"))))
}

/// Whether `t` applied to `example` is constant in its argument.
pub fn refl_of(t: &ContainedTerm, example: &ContainedTerm, g: u64) -> (r: Res<Option<ContainedTerm>>)
    ensures
        match r {
            Ok(o) => s_refl(t@, example@, g as nat) == Some(opt_view(o)),
            Err(_) => s_refl(t@, example@, g as nat) is None,
        },
    decreases g, 2nat,
{
    let result = reduce_node(Term::App(t.clone(), example.clone()), g)?;
    match term_of(t) {
        Term::Lam(_, x, _) => {
            let r = ps0(&result, g)?;
            if term_eq(&r, x) {
                Ok(Some(result))
            } else {
                Ok(None)
            }
        },
        _ => Ok(None),
    }
}

/// The first projection out of `Σ family`.
pub fn sig_ex0_of(family: &ContainedTerm, g: u64) -> (r: Res<ContainedTerm>)
    ensures
        res_is(r, s_sig_ex0(family@, g as nat)),
    decreases g, 2nat,
{
    let tf = typed_node(term_of(family), g)?;
    let a0 = match term_of(&tf) {
        Term::Pi(a, _, _) => a.clone(),
        _ => {
            return err_str("Something is wrong with the family in sig_ex0 call");
        },
    };
    let ta = typed_node(term_of(&a0), g)?;
    let ty0l = match term_of(&ta) {
        Term::Universe(n) => *n,
        _ => {
            return err_str("Something is wrong with the family in sig_ex0 call");
        },
    };
    let sty = mk(Term::Sig(family.clone()));
    let a1 = ps0(&a0, g)?;
    let fam1 = ps0(family, g)?;
    let sty1 = ps0(&sty, g)?;
    let value = mk(Term::DeBrujin(nat_of(0), sty1));
    let si = reduce_node(Term::SigInd(value, ty0l), g)?;
    let sty2 = mk(Term::Sig(fam1.clone()));
    let a2 = ps0(&a1, g)?;
    let _sty3 = ps0(&sty2, g)?;
    let l1 = reduce_node(Term::Lam(sty2, a2, name("sig")), g)?;
    let si_l1 = reduce_node(Term::App(si, l1), g)?;
    let fam2 = ps0(&fam1, g)?;
    let a1s = ps0(&a1, g)?;
    let av = mk(Term::DeBrujin(nat_of(0), a1s));
    let tyb = reduce_node(Term::App(fam2, av.clone()), g)?;
    let av2 = ps0(&av, g)?;
    let _tyb1 = ps0(&tyb, g)?;
    let lb = reduce_node(Term::Lam(tyb, av2, name("sig_b")), g)?;
    let la = reduce_node(Term::Lam(a1, lb, name("sig_a")), g)?;
    let body = reduce_node(Term::App(si_l1, la), g)?;
    reduce_node(Term::Lam(sty, body, name("outer_sig")), g)
}

/// The dependent second projection out of `Σ family`.
pub fn sig_ex1_of(family: &ContainedTerm, g: u64) -> (r: Res<ContainedTerm>)
    ensures
        res_is(r, s_sig_ex1(family@, g as nat)),
    decreases g, 3nat,
{
    let tf = typed_node(term_of(family), g)?;
    let a0 = match term_of(&tf) {
        Term::Pi(a, _, _) => a.clone(),
        _ => {
            return err_str("Something is wrong with the family in sig_ex1 call");
        },
    };
    let ta = typed_node(term_of(&a0), g)?;
    match term_of(&ta) {
        Term::Universe(_) => {},
        _ => {
            return err_str("Something is wrong with the family in sig_ex1 call");
        },
    }
    let a1ty = match term_of(&tf) {
        Term::Pi(_, b, _) => b.clone(),
        _ => {
            return err_str("Something is wrong with the family in sig_ex1 call");
        },
    };
    let ty1l = match term_of(&a1ty) {
        Term::Universe(n) => *n,
        _ => {
            return err_str("Something is wrong with the family in sig_ex1 call");
        },
    };
    let sty = mk(Term::Sig(family.clone()));
    let a1 = ps0(&a0, g)?;
    let fam1 = ps0(family, g)?;
    let sty1 = ps0(&sty, g)?;
    let value = mk(Term::DeBrujin(nat_of(0), sty1));
    let si = reduce_node(Term::SigInd(value, ty1l), g)?;
    let sty2 = mk(Term::Sig(fam1.clone()));
    let fam2 = ps0(&fam1, g)?;
    let sty3 = ps0(&sty2, g)?;
    let x = mk(Term::DeBrujin(nat_of(0), sty3));
    let e0 = sig_ex0_of(&fam2, g)?;
    let ex = reduce_node(Term::App(e0, x), g)?;
    let bx = reduce_node(Term::App(fam2, ex), g)?;
    let l1 = reduce_node(Term::Lam(sty2, bx, name("sig")), g)?;
    let si_l1 = reduce_node(Term::App(si, l1), g)?;
    let fam3 = ps0(&fam1, g)?;
    let a1s = ps0(&a1, g)?;
    let av = mk(Term::DeBrujin(nat_of(0), a1s));
    let tyb = reduce_node(Term::App(fam3, av.clone()), g)?;
    let _av2 = ps0(&av, g)?;
    let tyb1 = ps0(&tyb, g)?;
    let bv = mk(Term::DeBrujin(nat_of(0), tyb1));
    let lb = reduce_node(Term::Lam(tyb, bv, name("sig_b")), g)?;
    let la = reduce_node(Term::Lam(a1, lb, name("sig_a")), g)?;
    let body = reduce_node(Term::App(si_l1, la), g)?;
    reduce_node(Term::Lam(sty, body, name("outer_sig")), g)
}

fn reduce_app(a: &ContainedTerm, b: &ContainedTerm, g: u64) -> (r: Res<ContainedTerm>)
    ensures
        res_is(r, red_app(a@, b@, g as nat)),
    decreases g, 2nat,
{
    let ta = typed_node(term_of(a), g)?;
    match term_of(&ta) {
        Term::Pi(arg, _, _) => {
            let tb = typed_node(term_of(b), g)?;
            if term_eq(arg, &tb) {
                match term_of(a) {
                    Term::Lam(_, ret, _) => subst_node(term_of(ret), b, nat_of(0), g),
                    other => {
                        let a2 = reduce_node(other.clone(), g)?;
                        Ok(mk(Term::App(a2, b.clone())))
                    },
                }
            } else {
                err_str("application is not well typed")
            }
        },
        _ => err_str("function is not a function"),
    }
}

fn reduce_natind(term: &ContainedTerm, un: Natural, g: u64) -> (r: Res<ContainedTerm>)
    ensures
        res_is(r, red_natind(term@, un@, g as nat)),
    decreases g, 4nat,
{
    match term_of(term) {
        Term::Zero => {
            let (family, initial, next) = natind_parts_of(un, g)?;
            let i1 = ps0(&initial, g)?;
            let i2 = ps0(&i1, g)?;
            let l1 = reduce_node(
                Term::Lam(next, mk(Term::DeBrujin(nat_of(1), i2)), name("next")),
                g,
            )?;
            let l2 = reduce_node(Term::Lam(initial, l1, name("init")), g)?;
            Ok(mk(Term::Lam(family, l2, name("fam"))))
        },
        Term::Succ(v) => reduce_natind_succ(v, un, g),
        _ => {
            let tt = typed_node(term_of(term), g)?;
            match term_of(&tt) {
                Term::Nat => Ok(mk(Term::NatInd(term.clone(), un))),
                _ => err_str("term is not a nat"),
            }
        },
    }
}

fn reduce_natind_succ(v: &ContainedTerm, un: Natural, g: u64) -> (r: Res<ContainedTerm>)
    ensures
        res_is(r, red_natind_succ(v@, un@, g as nat)),
    decreases g, 3nat,
{
    let (family, initial, next) = natind_parts_of(un, g)?;
    let base = reduce_node(Term::NatInd(v.clone(), un), g)?;
    let next1 = ps0(&next, g)?;
    let v1 = ps0(v, g)?;
    let v2 = ps0(&v1, g)?;
    let v3 = ps0(&v2, g)?;
    let t1 = reduce_node(Term::App(mk(Term::DeBrujin(nat_of(0), next1.clone())), v3), g)?;
    let b1 = ps0(&base, g)?;
    let b2 = ps0(&b1, g)?;
    let b3 = ps0(&b2, g)?;
    let f1 = ps0(&family, g)?;
    let f2 = ps0(&f1, g)?;
    let f3 = ps0(&f2, g)?;
    let t2 = reduce_node(Term::App(b3, mk(Term::DeBrujin(nat_of(2), f3))), g)?;
    let i1 = ps0(&initial, g)?;
    let i2 = ps0(&i1, g)?;
    let t3 = reduce_node(Term::App(t2, mk(Term::DeBrujin(nat_of(1), i2))), g)?;
    let t4 = reduce_node(Term::App(t3, mk(Term::DeBrujin(nat_of(0), next1))), g)?;
    let t5 = reduce_node(Term::App(t1, t4), g)?;
    let l1 = reduce_node(Term::Lam(next, t5, name("next")), g)?;
    let l2 = reduce_node(Term::Lam(initial, l1, name("init")), g)?;
    Ok(mk(Term::Lam(family, l2, name("fam"))))
}

fn reduce_sigind(s: &ContainedTerm, n: Natural, g: u64) -> (r: Res<ContainedTerm>)
    ensures
        res_is(r, red_sigind(s@, n@, g as nat)),
    decreases g, 3nat,
{
    match term_of(s) {
        Term::Pair(fm, a, b) => {
            let tf = typed_node(term_of(fm), g)?;
            let arg = match term_of(&tf) {
                Term::Pi(ty, _, _) => ty.clone(),
                _ => {
                    return err_str("impossible");
                },
            };
            let input = mk(Term::Pi(mk(Term::Sig(fm.clone())), mk(Term::Universe(n)), name("sig")));
            let f2 = ps0(fm, g)?;
            let a2 = ps0(a, g)?;
            let b2 = ps0(b, g)?;
            let arg2 = ps0(&arg, g)?;
            let input1 = ps0(&input, g)?;
            let family = mk(Term::DeBrujin(nat_of(0), input1));
            let initial = sig_initial_of(&f2, &family, &arg2, g)?;
            let a3 = ps0(&a2, g)?;
            let b3 = ps0(&b2, g)?;
            let initial1 = ps0(&initial, g)?;
            let q = mk(Term::DeBrujin(nat_of(0), initial1));
            let qa = reduce_node(Term::App(q, a3), g)?;
            let qab = reduce_node(Term::App(qa, b3), g)?;
            let inner = reduce_node(Term::Lam(initial, qab, name("init")), g)?;
            reduce_node(Term::Lam(input, inner, name("fam")), g)
        },
        _ => Ok(mk(Term::SigInd(s.clone(), n))),
    }
}

fn reduce_not(i: &ContainedTerm, g: u64) -> (r: Res<ContainedTerm>)
    ensures
        res_is(r, red_not(i@, g as nat)),
    decreases g, 2nat,
{
    match term_of(i) {
        Term::IA => Ok(mk(Term::IB)),
        Term::IB => Ok(mk(Term::IA)),
        Term::Not(x) => Ok(x.clone()),
        other => {
            let x = reduce_node(other.clone(), g)?;
            Ok(mk(Term::Not(x)))
        },
    }
}

fn reduce_and(i0: &ContainedTerm, j0: &ContainedTerm, g: u64) -> (r: Res<ContainedTerm>)
    ensures
        res_is(r, red_and(i0@, j0@, g as nat)),
    decreases g, 2nat,
{
    let swap = term_order_of(j0, i0) < 0;
    let i = if swap {
        j0
    } else {
        i0
    };
    let j = if swap {
        i0
    } else {
        j0
    };
    let ti = term_of(i);
    let tj = term_of(j);
    if matches!(ti, Term::IA) || matches!(tj, Term::IA) {
        return Ok(mk(Term::IA));
    }
    if matches!(ti, Term::IB) {
        return reduce_node(tj.clone(), g);
    }
    if matches!(tj, Term::IB) {
        return reduce_node(ti.clone(), g);
    }
    let i2 = reduce_node(ti.clone(), g)?;
    let j2 = reduce_node(tj.clone(), g)?;
    Ok(mk(Term::And(i2, j2)))
}

fn reduce_equw(e: &ContainedTerm, i: &ContainedTerm, g: u64) -> (r: Res<ContainedTerm>)
    ensures
        res_is(r, red_equw(e@, i@, g as nat)),
    decreases g, 2nat,
{
    match term_of(i) {
        Term::IA => {
            let te = typed_node(term_of(e), g)?;
            match term_of(&te) {
                Term::Eq(_, v, _) => Ok(v.clone()),
                _ => err_str("e is not eq"),
            }
        },
        Term::IB => {
            let te = typed_node(term_of(e), g)?;
            match term_of(&te) {
                Term::Eq(_, _, v) => Ok(v.clone()),
                _ => err_str("e is not eq"),
            }
        },
        _ => match term_of(e) {
            Term::EqLam(x) => reduce_node(Term::App(x.clone(), i.clone()), g),
            _ => {
                let te = typed_node(term_of(e), g)?;
                match term_of(&te) {
                    Term::Eq(_, _, _) => Ok(mk(Term::EqUw(e.clone(), i.clone()))),
                    _ => err_str("e is not eq"),
                }
            },
        },
    }
}

fn reduce_eqlam(fm: &ContainedTerm, g: u64) -> (r: Res<ContainedTerm>)
    ensures
        res_is(r, red_eqlam(fm@, g as nat)),
    decreases g, 2nat,
{
    let unchanged = mk(Term::EqLam(fm.clone()));
    match term_of(fm) {
        Term::Lam(ty, body, _) => match term_of(body) {
            Term::EqUw(e, x) => match const_node(term_of(e), nat_of(0), g) {
                Ok(e2) => match term_of(x) {
                    Term::DeBrujin(n, val) => if unwrap_natural(*n) == 0 && term_eq(val, ty) {
                        Ok(e2)
                    } else {
                        Ok(unchanged)
                    },
                    _ => Ok(unchanged),
                },
                Err(_) => Ok(unchanged),
            },
            _ => Ok(unchanged),
        },
        _ => Ok(unchanged),
    }
}

fn reduce_lam(ty: &ContainedTerm, body: &ContainedTerm, nm: Naming, g: u64) -> (r: Res<
    ContainedTerm,
>)
    ensures
        res_is(r, red_lam(ty@, body@, g as nat)),
    decreases g, 2nat,
{
    let unchanged = mk(Term::Lam(ty.clone(), body.clone(), nm));
    match term_of(body) {
        Term::App(fm, x) => match const_node(term_of(fm), nat_of(0), g) {
            Ok(f2) => match term_of(x) {
                Term::DeBrujin(n, val) => if unwrap_natural(*n) == 0 && term_eq(val, ty) {
                    Ok(f2)
                } else {
                    Ok(unchanged)
                },
                _ => Ok(unchanged),
            },
            Err(_) => Ok(unchanged),
        },
        _ => Ok(unchanged),
    }
}

fn reduce_transp(fm: &ContainedTerm, x: &ContainedTerm, g: u64) -> (r: Res<ContainedTerm>)
    ensures
        res_is(r, red_transp(fm@, x@, g as nat)),
    decreases g, 5nat,
{
    match term_of(fm) {
        Term::EqLam(g0) => {
            let o = refl_of(g0, &mk(Term::IA), g)?;
            if o.is_some() {
                Ok(x.clone())
            } else {
                Ok(mk(Term::Transp(fm.clone(), x.clone())))
            }
        },
        Term::HComp { family: _, base, first, second } => reduce_transp_hcomp(
            base,
            first,
            second,
            x,
            g,
        ),
        Term::Lam(ii, g1, iname) => match term_of(g1) {
            Term::Pi(ty, body, tyname) => reduce_transp_pi(ii, iname, ty, body, tyname, x, g),
            Term::Eq(f2, a, b) => {
                let lf = reduce_node(Term::Lam(ii.clone(), f2.clone(), name("i")), g)?;
                let la = reduce_node(Term::Lam(ii.clone(), a.clone(), name("j")), g)?;
                let lb = reduce_node(Term::Lam(ii.clone(), b.clone(), name("j")), g)?;
                let pa = reduce_node(Term::EqLam(la), g)?;
                let pb = reduce_node(Term::EqLam(lb), g)?;
                Ok(mk(Term::HComp { family: lf, base: x.clone(), first: pa, second: pb }))
            },
            Term::Sig(f2) => reduce_transp_sig(ii, iname, f2, x, g),
            _ => Ok(mk(Term::Transp(fm.clone(), x.clone()))),
        },
        _ => Ok(mk(Term::Transp(fm.clone(), x.clone()))),
    }
}

fn reduce_transp_hcomp(
    base: &ContainedTerm,
    first: &ContainedTerm,
    second: &ContainedTerm,
    x: &ContainedTerm,
    g: u64,
) -> (r: Res<ContainedTerm>)
    ensures
        res_is(r, red_transp_hcomp(base@, first@, second@, x@, g as nat)),
    decreases g, 2nat,
{
    let first1 = ps0(first, g)?;
    let base1 = ps0(base, g)?;
    let second1 = ps0(second, g)?;
    let ii1 = ps0(&mk(Term::II), g)?;
    let i = mk(Term::DeBrujin(nat_of(0), ii1));
    let ef = reduce_node(Term::EqUw(first1, i.clone()), g)?;
    let eb = reduce_node(Term::EqUw(base1, i.clone()), g)?;
    let es = reduce_node(Term::EqUw(second1, i.clone()), g)?;
    let lfirst = reduce_node(Term::Lam(mk(Term::II), ef, name("i")), g)?;
    let lbase = reduce_node(Term::Lam(mk(Term::II), eb, name("i")), g)?;
    let lsecond = reduce_node(Term::Lam(mk(Term::II), es, name("i")), g)?;
    let lf1 = ps0(&lfirst, g)?;
    let ni = reduce_node(Term::Not(i), g)?;
    let body = reduce_node(Term::App(lf1, ni), g)?;
    let sym = reduce_node(Term::Lam(mk(Term::II), body, name("i")), g)?;
    let t1 = reduce_node(Term::Transp(sym, x.clone()), g)?;
    let t2 = reduce_node(Term::Transp(lbase, t1), g)?;
    reduce_node(Term::Transp(lsecond, t2), g)
}

fn reduce_transp_pi(
    ii: &ContainedTerm,
    iname: &Naming,
    ty: &ContainedTerm,
    body: &ContainedTerm,
    tyname: &Naming,
    x: &ContainedTerm,
    g: u64,
) -> (r: Res<ContainedTerm>)
    ensures
        res_is(r, red_transp_pi(ii@, ty@, body@, x@, g as nat)),
    decreases g, 3nat,
{
    let lty = reduce_node(Term::Lam(ii.clone(), ty.clone(), iname.clone()), g)?;
    let lbody_in = reduce_node(Term::Lam(ty.clone(), body.clone(), tyname.clone()), g)?;
    let _lbody = reduce_node(Term::Lam(ii.clone(), lbody_in, iname.clone()), g)?;
    let ty_ib = reduce_node(Term::App(lty.clone(), mk(Term::IB)), g)?;
    let sym_lty = transp_pi_sym_of(&lty, ii, iname, g)?;
    let body2 = transp_pi_body_of(&lty, &sym_lty, x, &ty_ib, g)?;
    reduce_node(Term::Lam(ty_ib, body2, name("input_IB")), g)
}

fn transp_pi_sym_of(lty: &ContainedTerm, ii: &ContainedTerm, iname: &Naming, g: u64) -> (r: Res<
    ContainedTerm,
>)
    ensures
        res_is(r, transp_pi_sym(lty@, ii@, g as nat)),
    decreases g, 2nat,
{
    let lty1 = ps0(lty, g)?;
    let ii1 = ps0(ii, g)?;
    let i = mk(Term::DeBrujin(nat_of(0), ii1));
    let ni = reduce_node(Term::Not(i), g)?;
    let sb = reduce_node(Term::App(lty1, ni), g)?;
    reduce_node(Term::Lam(ii.clone(), sb, iname.clone()), g)
}

fn transp_pi_body_of(
    lty: &ContainedTerm,
    sym_lty: &ContainedTerm,
    func: &ContainedTerm,
    ty_ib: &ContainedTerm,
    g: u64,
) -> (r: Res<ContainedTerm>)
    ensures
        res_is(r, transp_pi_body(lty@, sym_lty@, func@, ty_ib@, g as nat)),
    decreases g, 2nat,
{
    let lty2 = ps0(lty, g)?;
    let sym2 = ps0(sym_lty, g)?;
    let func2 = ps0(func, g)?;
    let tyib1 = ps0(ty_ib, g)?;
    let xv = mk(Term::DeBrujin(nat_of(0), tyib1));
    let input_ia = reduce_node(Term::Transp(sym2, xv.clone()), g)?;
    let fa = reduce_node(Term::App(func2.clone(), mk(Term::IA)), g)?;
    let output_ia = reduce_node(Term::App(fa, input_ia), g)?;
    let lty3 = ps0(&lty2, g)?;
    let func3 = ps0(&func2, g)?;
    let x3 = ps0(&xv, g)?;
    let ii3 = ps0(&mk(Term::II), g)?;
    let i3 = mk(Term::DeBrujin(nat_of(0), ii3));
    let fi = reduce_node(Term::App(func3, i3.clone()), g)?;
    let lty4 = ps0(&lty3, g)?;
    let i4 = ps0(&i3, g)?;
    let ii4 = ps0(&mk(Term::II), g)?;
    let j = mk(Term::DeBrujin(nat_of(0), ii4));
    let ni4 = reduce_node(Term::Not(i4), g)?;
    let nj = reduce_node(Term::Not(j), g)?;
    let an = reduce_node(Term::And(ni4, nj), g)?;
    let b4 = reduce_node(Term::App(lty4, an), g)?;
    let famj = reduce_node(Term::Lam(mk(Term::II), b4, name("j")), g)?;
    let tr = reduce_node(Term::Transp(famj, x3), g)?;
    let pb = reduce_node(Term::App(fi, tr), g)?;
    let path = reduce_node(Term::Lam(mk(Term::II), pb, name("i")), g)?;
    reduce_node(Term::Transp(path, output_ia), g)
}

fn reduce_transp_sig(
    ii: &ContainedTerm,
    iname: &Naming,
    f2: &ContainedTerm,
    x: &ContainedTerm,
    g: u64,
) -> (r: Res<ContainedTerm>)
    ensures
        res_is(r, red_transp_sig(ii@, f2@, x@, g as nat)),
    decreases g, 4nat,
{
    let tf = typed_node(term_of(f2), g)?;
    let lfa = match term_of(&tf) {
        Term::Pi(ty, _, nm) => reduce_node(Term::Lam(ii.clone(), ty.clone(), nm.clone()), g)?,
        _ => {
            return err_str("f is not a function!");
        },
    };
    let lf = reduce_node(Term::Lam(ii.clone(), f2.clone(), iname.clone()), g)?;
    let family0 = reduce_node(Term::App(lf.clone(), mk(Term::IA)), g)?;
    let family1 = reduce_node(Term::App(lf.clone(), mk(Term::IB)), g)?;
    let e0 = sig_ex0_of(&family0, g)?;
    let a0 = reduce_node(Term::App(e0, x.clone()), g)?;
    let e1 = sig_ex1_of(&family0, g)?;
    let b0 = reduce_node(Term::App(e1, x.clone()), g)?;
    let a1 = reduce_node(Term::Transp(lfa.clone(), a0.clone()), g)?;
    let p = transp_sig_path_of(&lf, &a0, &lfa, g)?;
    let b1 = reduce_node(Term::Transp(p, b0), g)?;
    Ok(mk(Term::Pair(family1, a1, b1)))
}

fn transp_sig_path_of(lf: &ContainedTerm, a0: &ContainedTerm, lfa: &ContainedTerm, g: u64) -> (r: Res<
    ContainedTerm,
>)
    ensures
        res_is(r, transp_sig_path(lf@, a0@, lfa@, g as nat)),
    decreases g, 2nat,
{
    let lf1 = ps0(lf, g)?;
    let a01 = ps0(a0, g)?;
    let lfa1 = ps0(lfa, g)?;
    let ii1 = ps0(&mk(Term::II), g)?;
    let i = mk(Term::DeBrujin(nat_of(0), ii1));
    let li = reduce_node(Term::App(lf1, i.clone()), g)?;
    let i2 = ps0(&i, g)?;
    let lfa2 = ps0(&lfa1, g)?;
    let ii2 = ps0(&mk(Term::II), g)?;
    let j = mk(Term::DeBrujin(nat_of(0), ii2));
    let ij = reduce_node(Term::And(i2, j), g)?;
    let bj = reduce_node(Term::App(lfa2, ij), g)?;
    let famj = reduce_node(Term::Lam(mk(Term::II), bj, name("j")), g)?;
    let tr = reduce_node(Term::Transp(famj, a01), g)?;
    let pb = reduce_node(Term::App(li, tr), g)?;
    reduce_node(Term::Lam(mk(Term::II), pb, name("i")), g)
}

fn typed_natind_of(term: &ContainedTerm, n: Natural, g: u64) -> (r: Res<ContainedTerm>)
    ensures
        res_is(r, typed_natind(term@, n@, g as nat)),
    decreases g, 3nat,
{
    let tt = typed_node(term_of(term), g)?;
    match term_of(&tt) {
        Term::Nat => {},
        _ => {
            return err_str("term is not a nat");
        },
    }
    let (family, initial, next) = natind_parts_of(n, g)?;
    let t1 = ps0(term, g)?;
    let t2 = ps0(&t1, g)?;
    let t3 = ps0(&t2, g)?;
    let ap = reduce_node(Term::App(mk(Term::DeBrujin(nat_of(2), family.clone())), t3), g)?;
    Ok(
        mk(
            Term::Pi(
                family,
                mk(Term::Pi(initial, mk(Term::Pi(next, ap, name("suc"))), name("init"))),
                name("fam"),
            ),
        ),
    )
}

fn typed_sigind_of(s: &ContainedTerm, n: Natural, g: u64) -> (r: Res<ContainedTerm>)
    ensures
        res_is(r, typed_sigind(s@, n@, g as nat)),
    decreases g, 3nat,
{
    let ts = typed_node(term_of(s), g)?;
    let fm = match term_of(&ts) {
        Term::Sig(x) => x.clone(),
        _ => {
            return err_str("impossible");
        },
    };
    let tf = typed_node(term_of(&fm), g)?;
    let arg = match term_of(&tf) {
        Term::Pi(ty, _, _) => ty.clone(),
        _ => {
            return err_str("impossible");
        },
    };
    let ts_again = typed_node(term_of(s), g)?;
    let _ts1 = ps0(&ts_again, g)?;
    let input = mk(Term::Pi(ts_again, mk(Term::Universe(n)), name("sig")));
    let s1 = ps0(s, g)?;
    let f1 = ps0(&fm, g)?;
    let arg1 = ps0(&arg, g)?;
    let input1 = ps0(&input, g)?;
    let family = mk(Term::DeBrujin(nat_of(0), input1));
    let initial = sig_initial_of(&f1, &family, &arg1, g)?;
    let fam2 = ps0(&family, g)?;
    let s2 = ps0(&s1, g)?;
    let _initial1 = ps0(&initial, g)?;
    let body = reduce_node(Term::App(fam2, s2), g)?;
    Ok(mk(Term::Pi(input, mk(Term::Pi(initial, body, name("init"))), name("fam"))))
}

/// `ctx_push_scope` fails on a context when it fails on one of its prefixes.
proof fn lemma_ctx_push_scope_prefix(ctx: Seq<STerm>, k: int)
    requires
        0 <= k <= ctx.len(),
        ctx_push_scope(ctx.take(k)) is None,
    ensures
        ctx_push_scope(ctx) is None,
    decreases ctx.len() - k,
{
    if k < ctx.len() {
        assert(ctx.take(k + 1).drop_last() =~= ctx.take(k));
        lemma_ctx_push_scope_prefix(ctx, k + 1);
    } else {
        assert(ctx.take(k) =~= ctx);
    }
}

impl Context {
    /// The empty context.
    pub fn new() -> (r: Self)
        ensures
            r@ == Seq::<STerm>::empty(),
    {
        Context { data: Vec::new() }
    }

    /// Every entry shifted under one more binder.
    pub fn push_scope(&self) -> (r: Res<Self>)
        ensures
            match r {
                Ok(c) => ctx_push_scope(self@) == Some(c@),
                Err(_) => ctx_push_scope(self@) is None,
            },
    {
        let mut data: Vec<ContainedTerm> = Vec::new();
        let n = self.data.len();
        let mut i: usize = 0;
        assert(self@.take(0) =~= Seq::<STerm>::empty());
        assert(data@.map_values(|c: ContainedTerm| c@) =~= Seq::<STerm>::empty());
        while i < n
            invariant
                n == self.data.len(),
                0 <= i <= n,
                ctx_push_scope(self@.take(i as int)) == Some(data@.map_values(|c: ContainedTerm| c@)),
            decreases n - i,
        {
            let ghost old_data = data@;
            let shifted = ps0(&self.data[i], FUEL);
            assert(self@.take(i + 1).drop_last() =~= self@.take(i as int));
            assert(self@.take(i + 1).last() == self.data@[i as int]@);
            match shifted {
                Ok(v) => {
                    data.push(v);
                    assert(data@.map_values(|c: ContainedTerm| c@) =~= old_data.map_values(
                        |c: ContainedTerm| c@,
                    ).push(v@));
                },
                Err(e) => {
                    proof {
                        lemma_ctx_push_scope_prefix(self@, i + 1);
                    }
                    return Err(e);
                },
            }
            i = i + 1;
        }
        assert(self@.take(n as int) =~= self@);
        Ok(Context { data })
    }

    /// The context extended by a variable of type `v`, under one more binder.
    pub fn push(&self, v: ContainedTerm) -> (r: Res<Self>)
        ensures
            match r {
                Ok(c) => ctx_push(self@, v@) == Some(c@),
                Err(_) => ctx_push(self@, v@) is None,
            },
    {
        let mut this = self.push_scope()?;
        let v2 = ps0(&v, FUEL)?;
        let ghost old_data = this.data@;
        this.data.push(v2);
        assert(this.data@.map_values(|c: ContainedTerm| c@) =~= old_data.map_values(
            |c: ContainedTerm| c@,
        ).push(v2@));
        Ok(this)
    }

    /// The type of variable `n`: the `n`-th entry from the end.
    pub fn get(&self, n: usize) -> (r: Option<&ContainedTerm>)
        ensures
            match r {
                Some(c) => ctx_get(self@, n as nat) == Some(c@),
                None => ctx_get(self@, n as nat) is None,
            },
    {
        if n >= self.data.len() {
            return None;
        }
        Some(&self.data[self.data.len() - 1 - n])
    }
}

/// `λ (i: I), f i pt`.
fn hcomp_side_of(f: &ContainedTerm, pt: Term) -> (r: Res<ContainedTerm>)
    ensures
        res_is(r, hcomp_side(f@, pt@)),
{
    let f1 = ps0(f, FUEL)?;
    let ii1 = ps0(&mk(Term::II), FUEL)?;
    let i = mk(Term::DeBrujin(nat_of(0), ii1));
    let fi = reduce_node(Term::App(f1, i), FUEL)?;
    let b = reduce_node(Term::App(fi, mk(pt)), FUEL)?;
    reduce_node(Term::Lam(mk(Term::II), b, name("i")), FUEL)
}

fn hcomp_fits_of(
    family: &ContainedTerm,
    base: &ContainedTerm,
    first: &ContainedTerm,
    second: &ContainedTerm,
) -> (r: Res<()>)
    ensures
        r is Ok <==> hcomp_fits(family@, base@, first@, second@),
{
    let tb = typed_node(term_of(base), STEP_FUEL)?;
    match term_of(&tb) {
        Term::Eq(f, a, b) => {
            let fa = reduce_node(Term::App(family.clone(), mk(Term::IA)), FUEL)?;
            if !term_eq(f, &fa) {
                return err_str("family does not match the base");
            }
            let t1 = typed_node(term_of(first), STEP_FUEL)?;
            match term_of(&t1) {
                Term::Eq(g, a2, _) => {
                    if !term_eq(a2, a) {
                        return err_str("first does not start at the base");
                    }
                    let side = hcomp_side_of(f, Term::IA)?;
                    if !term_eq(g, &side) {
                        return err_str("first is not over the family");
                    }
                },
                _ => {
                    return err_str("first is not an equality");
                },
            }
            let t2 = typed_node(term_of(second), STEP_FUEL)?;
            match term_of(&t2) {
                Term::Eq(g, b2, _) => {
                    if !term_eq(b2, b) {
                        return err_str("second does not start at the base");
                    }
                    let side = hcomp_side_of(f, Term::IB)?;
                    if !term_eq(g, &side) {
                        return err_str("second is not over the family");
                    }
                    Ok(())
                },
                _ => err_str("second is not an equality"),
            }
        },
        _ => err_str("base is not an equality"),
    }
}

fn typed_is(x: &ContainedTerm, want: Term) -> (r: Res<()>)
    ensures
        r is Ok <==> s_typed(x@, STEP_FUEL as nat) == Some(want@),
{
    let tx = typed_node(term_of(x), STEP_FUEL)?;
    if term_eq(&tx, &mk(want)) {
        Ok(())
    } else {
        err_str("unexpected type")
    }
}

/// Whether a term is well typed in a context.
#[verifier::spinoff_prover]
#[verifier::rlimit(60)]
pub fn well_typed_node(c: &ContainedTerm, ctx: &Context) -> (r: Res<()>)
    ensures
        r is Ok <==> s_wt(c@, ctx@),
    decreases c,
{
    let t = c.0.get_ref();
    match t {
        Term::DeBrujin(n, ty) => match ctx.get(unwrap_natural(*n)) {
            Some(e) => if term_eq(e, ty) {
                Ok(())
            } else {
                err_str("variable type does not match the context")
            },
            None => err_str("variable is not in the context"),
        },
        Term::Lam(a, b, _) => {
            well_typed_node(a, ctx)?;
            let c2 = ctx.push(a.clone())?;
            well_typed_node(b, &c2)
        },
        Term::Pi(a, b, _) => {
            well_typed_node(a, ctx)?;
            let c2 = ctx.push(a.clone())?;
            well_typed_node(b, &c2)
        },
        Term::App(f, x) => {
            well_typed_node(f, ctx)?;
            well_typed_node(x, ctx)?;
            let tf = typed_node(term_of(f), STEP_FUEL)?;
            match term_of(&tf) {
                Term::Pi(arg, _, _) => match typed_node(term_of(x), STEP_FUEL) {
                    Ok(tx) => if term_eq(&tx, arg) {
                        Ok(())
                    } else {
                        err_str("argument type does not match")
                    },
                    Err(e) => Err(e),
                },
                _ => err_str("f is not a function!"),
            }
        },
        Term::Succ(x) => {
            typed_is(x, Term::Nat)?;
            well_typed_node(x, ctx)
        },
        Term::NatInd(x, _) => {
            typed_is(x, Term::Nat)?;
            well_typed_node(x, ctx)
        },
        Term::Not(x) => {
            typed_is(x, Term::II)?;
            well_typed_node(x, ctx)
        },
        Term::And(x, y) => {
            typed_is(x, Term::II)?;
            typed_is(y, Term::II)?;
            well_typed_node(x, ctx)?;
            well_typed_node(y, ctx)
        },
        Term::EqLam(x) => {
            let tx = typed_node(term_of(x), STEP_FUEL)?;
            match term_of(&tx) {
                Term::Pi(arg, _, _) => if !matches!(term_of(arg), Term::II) {
                    return err_str("argument is not an interval");
                },
                _ => {
                    return err_str("term is not a lambda!");
                },
            }
            well_typed_node(x, ctx)
        },
        Term::Eq(f, x, y) => {
            well_typed_node(f, ctx)?;
            well_typed_node(x, ctx)?;
            well_typed_node(y, ctx)
        },
        Term::EqUw(e, i) => {
            well_typed_node(e, ctx)?;
            well_typed_node(i, ctx)
        },
        Term::HComp { family, base, first, second } => {
            well_typed_node(family, ctx)?;
            well_typed_node(base, ctx)?;
            well_typed_node(first, ctx)?;
            well_typed_node(second, ctx)?;
            hcomp_fits_of(family, base, first, second)
        },
        Term::Transp(f, x) => {
            let fa = reduce_node(Term::App(f.clone(), mk(Term::IA)), FUEL)?;
            let tx = typed_node(term_of(x), STEP_FUEL)?;
            if !term_eq(&fa, &tx) {
                return err_str("value is not at the start of the line");
            }
            well_typed_node(f, ctx)?;
            well_typed_node(x, ctx)
        },
        Term::Sig(f) => well_typed_node(f, ctx),
        Term::Pair(f, a, b) => {
            let fa = reduce_node(Term::App(f.clone(), a.clone()), FUEL)?;
            let tb = typed_node(term_of(b), STEP_FUEL)?;
            if !term_eq(&fa, &tb) {
                return err_str("second value does not fit the family");
            }
            well_typed_node(f, ctx)?;
            well_typed_node(a, ctx)?;
            well_typed_node(b, ctx)
        },
        Term::SigInd(s, _) => {
            let ts = typed_node(term_of(s), STEP_FUEL)?;
            match term_of(&ts) {
                Term::Sig(_) => {},
                _ => {
                    return err_str("It is not sigma");
                },
            }
            well_typed_node(s, ctx)
        },
        _ => Ok(()),
    }
}

/// Moves a term under one more binder.
pub fn sh_x(c: &ContainedTerm) -> (r: Res<ContainedTerm>)
    ensures
        res_is(r, sh(c@)),
{
    ps0(c, FUEL)
}

/// Brings a node to normal form.
pub fn rd_x(t: Term) -> (r: Res<ContainedTerm>)
    ensures
        res_is(r, rd(t@)),
{
    reduce_node(t, FUEL)
}

/// The type of a term.
pub fn ty_x(c: &ContainedTerm) -> (r: Res<ContainedTerm>)
    ensures
        res_is(r, ty_of(c@)),
{
    typed_node(term_of(c), FUEL)
}

/// The variable bound by a new binder of type `ty`.
pub fn var_x(ty: &ContainedTerm) -> (r: Res<ContainedTerm>)
    ensures
        res_is(r, var_of(ty@)),
{
    let t = ps0(ty, FUEL)?;
    Ok(mk(Term::DeBrujin(nat_of(0), t)))
}

/// A contained term made of a node as it stands.
pub fn node(t: Term) -> (r: ContainedTerm)
    ensures
        r@ == t@,
{
    ctn_unchecked(t)
}

/// A naming from a text.
pub fn nm(s: &str) -> Naming {
    Naming::new(s)
}

} // verus!
