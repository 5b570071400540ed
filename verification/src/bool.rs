//! The booleans, described through the natural numbers: a boolean is a number `n` paired
//! with a proof that `trim n` is zero.
use vstd::prelude::*;
use crate::model::{STerm, app, lam, natind, pair, pi, sig, sigind, succ};
use crate::semantics::{STEP_FUEL, rd, s_typed, s_wt, sh, var_of};
use crate::ctypes::{ContainedTerm, Natural, Res, Term, check, err_str, res_is};
use crate::kernel::{node, nm, rd_x, sh_x, term_eq, var_x};
use crate::equals::{
    cong, cong_term, refl, refl_term, straight_eq, straight_eq_term, transport_eq,
    transport_eq_term,
};
use crate::impossible::{FalseData, exfalso_term, false_type_term};
use crate::numbers::{zero_eq_trivial, zero_eq_trivial_term};

verus! {

/// `λ n, natind n 0 (λ _, ℕ) 0 (λ m _, natind m 0 (λ _, ℕ) 0 (λ _ _, 1))`: 0 on 0 and 1,
/// 1 above.
pub open spec fn trim_term() -> Option<STerm> {
    let fam0 = rd(lam(STerm::Nat, STerm::Nat));
    let f1 = sh(fam0->0);
    let n = var_of(STerm::Nat);
    let ni = rd(natind(n->0, 0));
    let a1 = rd(app(ni->0, f1->0));
    let a2 = rd(app(a1->0, STerm::Zero));
    let f2 = sh(f1->0);
    let m = var_of(STerm::Nat);
    let f3 = sh(f2->0);
    let m1 = sh(m->0);
    let w = var_of(STerm::Nat);
    let mi = rd(natind(m1->0, 0));
    let b1 = rd(app(mi->0, f3->0));
    let b2 = rd(app(b1->0, STerm::Zero));
    let ls = rd(lam(STerm::Nat, succ(STerm::Zero)));
    let ls2 = rd(lam(STerm::Nat, ls->0));
    let b3 = rd(app(b2->0, ls2->0));
    let lw = rd(lam(STerm::Nat, b3->0));
    let lm = rd(lam(STerm::Nat, lw->0));
    let body = rd(app(a2->0, lm->0));
    if fam0 is Some && f1 is Some && n is Some && ni is Some && a1 is Some && a2 is Some
        && f2 is Some && m is Some && f3 is Some && m1 is Some && w is Some && mi is Some
        && b1 is Some && b2 is Some && ls is Some && ls2 is Some && b3 is Some && lw is Some
        && lm is Some && body is Some {
        rd(lam(STerm::Nat, body->0))
    } else {
        None
    }
}

/// `λ n, 0 ≡ trim n`.
pub open spec fn bool_fam_term(trim: STerm) -> Option<STerm> {
    let t1 = sh(trim);
    let n = var_of(STerm::Nat);
    let tn = rd(app(t1->0, n->0));
    let se = straight_eq_term(STerm::Zero, tn->0);
    if t1 is Some && n is Some && tn is Some && se is Some {
        rd(lam(STerm::Nat, se->0))
    } else {
        None
    }
}

/// `λ (b: Σ bfam), fam false → fam true → fam b`.
pub open spec fn true_family_term(fam: STerm, bfalse: STerm, btrue: STerm, bfam: STerm) -> Option<
    STerm,
> {
    let sty = sig(bfam);
    let fam2 = sh(fam);
    let bf2 = sh(bfalse);
    let bt2 = sh(btrue);
    let bb = var_of(sty);
    let tyvf = rd(app(fam2->0, bf2->0));
    let bt3 = sh(bt2->0);
    let fam3 = sh(fam2->0);
    let bb1 = sh(bb->0);
    let vf = var_of(tyvf->0);
    let tyvt = rd(app(fam3->0, bt3->0));
    let fam4 = sh(fam3->0);
    let bb2 = sh(bb1->0);
    let vt = var_of(tyvt->0);
    let body = rd(app(fam4->0, bb2->0));
    if fam2 is Some && bf2 is Some && bt2 is Some && bb is Some && tyvf is Some && bt3 is Some
        && fam3 is Some && bb1 is Some && vf is Some && tyvt is Some && fam4 is Some && bb2 is Some
        && vt is Some && body is Some {
        rd(lam(sty, pi(tyvf->0, pi(tyvt->0, body->0))))
    } else {
        None
    }
}

/// The innermost type of the induction family: `fam (bfam, n, hyp)`, under `vf` and `vt`.
pub open spec fn ind_family_inner_term(
    n: STerm,
    btrue: STerm,
    fam: STerm,
    trim: STerm,
    bfam: STerm,
    hyp: STerm,
) -> Option<STerm> {
    let nc = sh(n);
    let btc = sh(btrue);
    let famc = sh(fam);
    let trimc = sh(trim);
    let bfamc = sh(bfam);
    let hypc = sh(hyp);
    let tyvt = rd(app(famc->0, btc->0));
    let nd = sh(nc->0);
    let famd = sh(famc->0);
    let trimd = sh(trimc->0);
    let bfamd = sh(bfamc->0);
    let hypd = sh(hypc->0);
    let vt = var_of(tyvt->0);
    let body = rd(app(famd->0, pair(bfamd->0, nd->0, hypd->0)));
    if nc is Some && btc is Some && famc is Some && trimc is Some && bfamc is Some && hypc is Some
        && tyvt is Some && nd is Some && famd is Some && trimd is Some && bfamd is Some
        && hypd is Some && vt is Some && body is Some {
        Some(pi(tyvt->0, body->0))
    } else {
        None
    }
}

/// `λ n, Π (hyp: 0 ≡ trim n), fam false → fam true → fam (n, hyp)`.
pub open spec fn ind_family_term(bfalse: STerm, btrue: STerm, fam: STerm, trim: STerm, bfam: STerm) -> Option<
    STerm,
> {
    let bfa = sh(bfalse);
    let bta = sh(btrue);
    let fama = sh(fam);
    let trima = sh(trim);
    let bfama = sh(bfam);
    let na = var_of(STerm::Nat);
    let tn = rd(app(trima->0, na->0));
    let hyty = straight_eq_term(STerm::Zero, tn->0);
    let nb = sh(na->0);
    let bfb = sh(bfa->0);
    let btb = sh(bta->0);
    let famb = sh(fama->0);
    let trimb = sh(trima->0);
    let bfamb = sh(bfama->0);
    let hyp = var_of(hyty->0);
    let tyvf = rd(app(famb->0, bfb->0));
    let vf = var_of(tyvf->0);
    let inner = ind_family_inner_term(nb->0, btb->0, famb->0, trimb->0, bfamb->0, hyp->0);
    if bfa is Some && bta is Some && fama is Some && trima is Some && bfama is Some && na is Some
        && tn is Some && hyty is Some && nb is Some && bfb is Some && btb is Some && famb is Some
        && trimb is Some && bfamb is Some && hyp is Some && tyvf is Some && vf is Some
        && inner is Some {
        rd(lam(STerm::Nat, pi(hyty->0, pi(tyvf->0, inner->0))))
    } else {
        None
    }
}

/// The case of a boolean `(k, hyp)` with `k` zero or one: transport the given value along
/// `refl 0 ≡ hyp`.
pub open spec fn endpoint_case_term(bfalse: STerm, btrue: STerm, bfam: STerm, fam: STerm, one: bool) -> Option<
    STerm,
> {
    let zz = straight_eq_term(STerm::Zero, STerm::Zero);
    let bfe = sh(bfalse);
    let bte = sh(btrue);
    let bfame = sh(bfam);
    let fame = sh(fam);
    let hype = var_of(zz->0);
    let tyvf = rd(app(fame->0, bfe->0));
    let btf = sh(bte->0);
    let bfamf = sh(bfame->0);
    let famf = sh(fame->0);
    let hypf = sh(hype->0);
    let vf = var_of(tyvf->0);
    let tyvt = rd(app(famf->0, btf->0));
    let bfamg = sh(bfamf->0);
    let famg = sh(famf->0);
    let hypg = sh(hypf->0);
    let vfg = sh(vf->0);
    let vt = var_of(tyvt->0);
    let zet = zero_eq_trivial_term();
    let refl_hyp = rd(app(zet->0, hypg->0));
    let famh = sh(famg->0);
    let bfamh = sh(bfamg->0);
    let h = var_of(zz->0);
    let k = if one {
        succ(STerm::Zero)
    } else {
        STerm::Zero
    };
    let cb = rd(app(famh->0, pair(bfamh->0, k, h->0)));
    let cong_func = rd(lam(zz->0, cb->0));
    let path = cong_term(cong_func->0, refl_hyp->0);
    let moved = if one {
        vt->0
    } else {
        vfg->0
    };
    let res = transport_eq_term(path->0, moved);
    let l3 = rd(lam(tyvt->0, res->0));
    let l2 = rd(lam(tyvf->0, l3->0));
    if zz is Some && bfe is Some && bte is Some && bfame is Some && fame is Some && hype is Some
        && tyvf is Some && btf is Some && bfamf is Some && famf is Some && hypf is Some
        && vf is Some && tyvt is Some && bfamg is Some && famg is Some && hypg is Some
        && vfg is Some && vt is Some && zet is Some && refl_hyp is Some && famh is Some
        && bfamh is Some && h is Some && cb is Some && cong_func is Some && path is Some
        && res is Some && l3 is Some && l2 is Some {
        rd(lam(zz->0, l2->0))
    } else {
        None
    }
}

/// The case of a number of two or more: the hypothesis `0 ≡ 1` is absurd.
pub open spec fn absurd_case_term(bfalse: STerm, btrue: STerm, bfam: STerm, fam: STerm) -> Option<
    STerm,
> {
    let bfi = sh(bfalse);
    let bti = sh(btrue);
    let bfami = sh(bfam);
    let fami = sh(fam);
    let n2 = var_of(STerm::Nat);
    let z1 = straight_eq_term(STerm::Zero, succ(STerm::Zero));
    let bfj = sh(bfi->0);
    let btj = sh(bti->0);
    let bfamj = sh(bfami->0);
    let famj = sh(fami->0);
    let n2j = sh(n2->0);
    let hyp = var_of(z1->0);
    let nn = succ(succ(n2j->0));
    let tyvf = rd(app(famj->0, bfj->0));
    let nk = sh(nn);
    let btk = sh(btj->0);
    let famk = sh(famj->0);
    let bfamk = sh(bfamj->0);
    let hypk = sh(hyp->0);
    let vf = var_of(tyvf->0);
    let tyvt = rd(app(famk->0, btk->0));
    let nl = sh(nk->0);
    let faml = sh(famk->0);
    let bfaml = sh(bfamk->0);
    let hypl = sh(hypk->0);
    let vt = var_of(tyvt->0);
    let tb = rd(app(faml->0, pair(bfaml->0, nl->0, hypl->0)));
    let target = pi(tyvf->0, pi(tyvt->0, tb->0));
    let ft = false_type_term();
    let ex = exfalso_term(ft->0, target);
    let body = rd(app(ex->0, hyp->0));
    let l2 = rd(lam(z1->0, body->0));
    if bfi is Some && bti is Some && bfami is Some && fami is Some && n2 is Some && z1 is Some
        && bfj is Some && btj is Some && bfamj is Some && famj is Some && n2j is Some
        && hyp is Some && tyvf is Some && nk is Some && btk is Some && famk is Some
        && bfamk is Some && hypk is Some && vf is Some && tyvt is Some && nl is Some
        && faml is Some && bfaml is Some && hypl is Some && vt is Some && tb is Some && ft is Some
        && ex is Some && body is Some && l2 is Some {
        rd(lam(STerm::Nat, l2->0))
    } else {
        None
    }
}

/// Induction one step down: `natind n1 new_indfam fam1 (λ n2 _, fam2 n2)`, under `n1` and
/// a value of `indfam n1`.
pub open spec fn step_case_term(fam1: STerm, fam2: STerm, indfam: STerm, n1: STerm, u: nat) -> Option<
    STerm,
> {
    let indfamn = sh(indfam);
    let nn = var_of(STerm::Nat);
    let sb = rd(app(indfamn->0, succ(nn->0)));
    let new_indfam = rd(lam(STerm::Nat, sb->0));
    let ty_ = rd(app(indfam, n1));
    let fam1o = sh(fam1);
    let fam2o = sh(fam2);
    let indfamo = sh(new_indfam->0);
    let n1o = sh(n1);
    let w = var_of(ty_->0);
    let ni2 = rd(natind(n1o->0, u));
    let x1 = rd(app(ni2->0, indfamo->0));
    let x2 = rd(app(x1->0, fam1o->0));
    let fam2p = sh(fam2o->0);
    let indfamp = sh(indfamo->0);
    let n2 = var_of(STerm::Nat);
    let tyq = rd(app(indfamp->0, n2->0));
    let fam2q = sh(fam2p->0);
    let indfamq = sh(indfamp->0);
    let n2q = sh(n2->0);
    let wq = var_of(tyq->0);
    let bq = rd(app(fam2q->0, n2q->0));
    let lq = rd(lam(tyq->0, bq->0));
    let l2 = rd(lam(STerm::Nat, lq->0));
    let inner = rd(app(x2->0, l2->0));
    if indfamn is Some && nn is Some && sb is Some && new_indfam is Some && ty_ is Some
        && fam1o is Some && fam2o is Some && indfamo is Some && n1o is Some && w is Some
        && ni2 is Some && x1 is Some && x2 is Some && fam2p is Some && indfamp is Some
        && n2 is Some && tyq is Some && fam2q is Some && indfamq is Some && n2q is Some
        && wq is Some && bq is Some && lq is Some && l2 is Some && inner is Some {
        rd(lam(ty_->0, inner->0))
    } else {
        None
    }
}

/// The goal for a number `n`: `(hyp: 0 ≡ trim n) → fam false → fam true → fam (n, hyp)`,
/// by induction on `n` through the cases zero, one, and two or more.
pub open spec fn partial_term(
    trim: STerm,
    fam: STerm,
    bfalse: STerm,
    btrue: STerm,
    bfam: STerm,
    n: STerm,
    u: nat,
) -> Option<STerm> {
    let indfam = ind_family_term(bfalse, btrue, fam, trim, bfam);
    let fam0 = endpoint_case_term(bfalse, btrue, bfam, fam, false);
    let fam1 = endpoint_case_term(bfalse, btrue, bfam, fam, true);
    let fam2 = absurd_case_term(bfalse, btrue, bfam, fam);
    let ni = rd(natind(n, u));
    let y1 = rd(app(ni->0, indfam->0));
    let y2 = rd(app(y1->0, fam0->0));
    let fam1m = sh(fam1->0);
    let fam2m = sh(fam2->0);
    let indfamm = sh(indfam->0);
    let n1 = var_of(STerm::Nat);
    let step = step_case_term(fam1m->0, fam2m->0, indfamm->0, n1->0, u);
    let ln1 = rd(lam(STerm::Nat, step->0));
    if indfam is Some && fam0 is Some && fam1 is Some && fam2 is Some && ni is Some && y1 is Some
        && y2 is Some && fam1m is Some && fam2m is Some && indfamm is Some && n1 is Some
        && step is Some && ln1 is Some {
        rd(app(y2->0, ln1->0))
    } else {
        None
    }
}

/// Boolean induction on `b` at universe level `n`:
/// `λ (fam: bool → Type{n}), sigind b … : fam false → fam true → fam b`.
pub open spec fn bool_ind_term(
    trim: STerm,
    bool_type: STerm,
    bfalse: STerm,
    btrue: STerm,
    bfam: STerm,
    b: STerm,
    n: nat,
) -> Option<STerm> {
    let vb = var_of(bool_type);
    let famtype = pi(bool_type, STerm::Universe(n));
    let b1 = sh(b);
    let trim1 = sh(trim);
    let bf1 = sh(bfalse);
    let bt1 = sh(btrue);
    let bfam1 = sh(bfam);
    let fam = var_of(famtype);
    let tf = true_family_term(fam->0, bf1->0, bt1->0, bfam1->0);
    let si = rd(sigind(b1->0, n));
    let s1 = rd(app(si->0, tf->0));
    let trim2 = sh(trim1->0);
    let fam5 = sh(fam->0);
    let bf3 = sh(bf1->0);
    let bt4 = sh(bt1->0);
    let bfam2 = sh(bfam1->0);
    let nn = var_of(STerm::Nat);
    let part = partial_term(trim2->0, fam5->0, bf3->0, bt4->0, bfam2->0, nn->0, n);
    let lp = rd(lam(STerm::Nat, part->0));
    let body = rd(app(s1->0, lp->0));
    if vb is Some && b1 is Some && trim1 is Some && bf1 is Some && bt1 is Some && bfam1 is Some
        && fam is Some && tf is Some && si is Some && s1 is Some && trim2 is Some && fam5 is Some
        && bf3 is Some && bt4 is Some && bfam2 is Some && nn is Some && part is Some && lp is Some
        && body is Some {
        rd(lam(famtype, body->0))
    } else {
        None
    }
}

/// Basic data describing the booleans.
pub struct BoolData {
    /// The trimming function: 0 on 0 and 1, 1 above.
    pub trim: ContainedTerm,
    /// The type of booleans, a sum requiring `trim` to be zero.
    pub bool_type: ContainedTerm,
    /// The false boolean, of type `bool_type`.
    pub bool_false: ContainedTerm,
    /// The true boolean, of type `bool_type`.
    pub bool_true: ContainedTerm,
    /// The family used in the [`Term::Sig`] of [`BoolData::bool_type`].
    pub bool_fam: ContainedTerm,
}

impl Clone for BoolData {
    fn clone(&self) -> (r: Self)
        ensures
            r == *self,
    {
        BoolData {
            trim: self.trim.clone(),
            bool_type: self.bool_type.clone(),
            bool_false: self.bool_false.clone(),
            bool_true: self.bool_true.clone(),
            bool_fam: self.bool_fam.clone(),
        }
    }
}

fn trim() -> (r: Res<ContainedTerm>)
    ensures
        res_is(r, trim_term()),
{
    let fam0 = rd_x(Term::Lam(node(Term::Nat), node(Term::Nat), nm("_")))?;
    let f1 = sh_x(&fam0)?;
    let n = var_x(&node(Term::Nat))?;
    let ni = rd_x(Term::NatInd(n, Natural::from_usize(0)))?;
    let a1 = rd_x(Term::App(ni, f1.clone()))?;
    let a2 = rd_x(Term::App(a1, node(Term::Zero)))?;
    let f2 = sh_x(&f1)?;
    let m = var_x(&node(Term::Nat))?;
    let f3 = sh_x(&f2)?;
    let m1 = sh_x(&m)?;
    let _w = var_x(&node(Term::Nat))?;
    let mi = rd_x(Term::NatInd(m1, Natural::from_usize(0)))?;
    let b1 = rd_x(Term::App(mi, f3))?;
    let b2 = rd_x(Term::App(b1, node(Term::Zero)))?;
    let ls = rd_x(Term::Lam(node(Term::Nat), node(Term::Succ(node(Term::Zero))), nm("_")))?;
    let ls2 = rd_x(Term::Lam(node(Term::Nat), ls, nm("n2")))?;
    let b3 = rd_x(Term::App(b2, ls2))?;
    let lw = rd_x(Term::Lam(node(Term::Nat), b3, nm("_")))?;
    let lm = rd_x(Term::Lam(node(Term::Nat), lw, nm("n-1")))?;
    let body = rd_x(Term::App(a2, lm))?;
    rd_x(Term::Lam(node(Term::Nat), body, nm("n")))
}

fn bool_fam(trim: &ContainedTerm) -> (r: Res<ContainedTerm>)
    ensures
        res_is(r, bool_fam_term(trim@)),
{
    let t1 = sh_x(trim)?;
    let n = var_x(&node(Term::Nat))?;
    let tn = rd_x(Term::App(t1, n))?;
    let se = straight_eq(node(Term::Zero), tn)?;
    rd_x(Term::Lam(node(Term::Nat), se, nm("n")))
}

fn true_family(fam: &ContainedTerm, bfalse: &ContainedTerm, btrue: &ContainedTerm, bfam: &ContainedTerm) -> (r: Res<
    ContainedTerm,
>)
    ensures
        res_is(r, true_family_term(fam@, bfalse@, btrue@, bfam@)),
{
    let sty = node(Term::Sig(bfam.clone()));
    let fam2 = sh_x(fam)?;
    let bf2 = sh_x(bfalse)?;
    let bt2 = sh_x(btrue)?;
    let bb = var_x(&sty)?;
    let tyvf = rd_x(Term::App(fam2.clone(), bf2))?;
    let bt3 = sh_x(&bt2)?;
    let fam3 = sh_x(&fam2)?;
    let bb1 = sh_x(&bb)?;
    let _vf = var_x(&tyvf)?;
    let tyvt = rd_x(Term::App(fam3.clone(), bt3))?;
    let fam4 = sh_x(&fam3)?;
    let bb2 = sh_x(&bb1)?;
    let _vt = var_x(&tyvt)?;
    let body = rd_x(Term::App(fam4, bb2))?;
    let p2 = node(Term::Pi(tyvt, body, nm("vt")));
    let p1 = node(Term::Pi(tyvf, p2, nm("vf")));
    rd_x(Term::Lam(sty, p1, nm("b")))
}

fn ind_family_inner(
    n: &ContainedTerm,
    btrue: &ContainedTerm,
    fam: &ContainedTerm,
    trim: &ContainedTerm,
    bfam: &ContainedTerm,
    hyp: &ContainedTerm,
) -> (r: Res<ContainedTerm>)
    ensures
        res_is(r, ind_family_inner_term(n@, btrue@, fam@, trim@, bfam@, hyp@)),
{
    let nc = sh_x(n)?;
    let btc = sh_x(btrue)?;
    let famc = sh_x(fam)?;
    let trimc = sh_x(trim)?;
    let bfamc = sh_x(bfam)?;
    let hypc = sh_x(hyp)?;
    let tyvt = rd_x(Term::App(famc.clone(), btc))?;
    let nd = sh_x(&nc)?;
    let famd = sh_x(&famc)?;
    let _trimd = sh_x(&trimc)?;
    let bfamd = sh_x(&bfamc)?;
    let hypd = sh_x(&hypc)?;
    let _vt = var_x(&tyvt)?;
    let body = rd_x(Term::App(famd, node(Term::Pair(bfamd, nd, hypd))))?;
    Ok(node(Term::Pi(tyvt, body, nm("vt"))))
}

fn ind_family(
    bfalse: &ContainedTerm,
    btrue: &ContainedTerm,
    fam: &ContainedTerm,
    trim: &ContainedTerm,
    bfam: &ContainedTerm,
) -> (r: Res<ContainedTerm>)
    ensures
        res_is(r, ind_family_term(bfalse@, btrue@, fam@, trim@, bfam@)),
{
    let bfa = sh_x(bfalse)?;
    let bta = sh_x(btrue)?;
    let fama = sh_x(fam)?;
    let trima = sh_x(trim)?;
    let bfama = sh_x(bfam)?;
    let na = var_x(&node(Term::Nat))?;
    let tn = rd_x(Term::App(trima.clone(), na.clone()))?;
    let hyty = straight_eq(node(Term::Zero), tn)?;
    let nb = sh_x(&na)?;
    let bfb = sh_x(&bfa)?;
    let btb = sh_x(&bta)?;
    let famb = sh_x(&fama)?;
    let trimb = sh_x(&trima)?;
    let bfamb = sh_x(&bfama)?;
    let hyp = var_x(&hyty)?;
    let tyvf = rd_x(Term::App(famb.clone(), bfb))?;
    let _vf = var_x(&tyvf)?;
    let inner = ind_family_inner(&nb, &btb, &famb, &trimb, &bfamb, &hyp)?;
    let p2 = node(Term::Pi(tyvf, inner, nm("vf")));
    let p1 = node(Term::Pi(hyty, p2, nm("hyp")));
    rd_x(Term::Lam(node(Term::Nat), p1, nm("n")))
}

fn endpoint_case(
    bfalse: &ContainedTerm,
    btrue: &ContainedTerm,
    bfam: &ContainedTerm,
    fam: &ContainedTerm,
    one: bool,
) -> (r: Res<ContainedTerm>)
    ensures
        res_is(r, endpoint_case_term(bfalse@, btrue@, bfam@, fam@, one)),
{
    let zz = straight_eq(node(Term::Zero), node(Term::Zero))?;
    let bfe = sh_x(bfalse)?;
    let bte = sh_x(btrue)?;
    let bfame = sh_x(bfam)?;
    let fame = sh_x(fam)?;
    let hype = var_x(&zz)?;
    let tyvf = rd_x(Term::App(fame.clone(), bfe))?;
    let btf = sh_x(&bte)?;
    let bfamf = sh_x(&bfame)?;
    let famf = sh_x(&fame)?;
    let hypf = sh_x(&hype)?;
    let vf = var_x(&tyvf)?;
    let tyvt = rd_x(Term::App(famf.clone(), btf))?;
    let bfamg = sh_x(&bfamf)?;
    let famg = sh_x(&famf)?;
    let hypg = sh_x(&hypf)?;
    let vfg = sh_x(&vf)?;
    let vt = var_x(&tyvt)?;
    let zet = zero_eq_trivial()?;
    let refl_hyp = rd_x(Term::App(zet, hypg))?;
    let famh = sh_x(&famg)?;
    let bfamh = sh_x(&bfamg)?;
    let h = var_x(&zz)?;
    let k = if one {
        node(Term::Succ(node(Term::Zero)))
    } else {
        node(Term::Zero)
    };
    let cb = rd_x(Term::App(famh, node(Term::Pair(bfamh, k, h))))?;
    let cong_func = rd_x(Term::Lam(zz.clone(), cb, nm("hyp")))?;
    let path = cong(cong_func, refl_hyp)?;
    let moved = if one {
        vt
    } else {
        vfg
    };
    let res = transport_eq(path, moved)?;
    let l3 = rd_x(Term::Lam(tyvt, res, nm("vt")))?;
    let l2 = rd_x(Term::Lam(tyvf, l3, nm("vf")))?;
    rd_x(Term::Lam(zz, l2, nm("hyp")))
}

fn absurd_case(bfalse: &ContainedTerm, btrue: &ContainedTerm, bfam: &ContainedTerm, fam: &ContainedTerm) -> (r: Res<
    ContainedTerm,
>)
    ensures
        res_is(r, absurd_case_term(bfalse@, btrue@, bfam@, fam@)),
{
    let bfi = sh_x(bfalse)?;
    let bti = sh_x(btrue)?;
    let bfami = sh_x(bfam)?;
    let fami = sh_x(fam)?;
    let n2 = var_x(&node(Term::Nat))?;
    let z1 = straight_eq(node(Term::Zero), node(Term::Succ(node(Term::Zero))))?;
    let bfj = sh_x(&bfi)?;
    let btj = sh_x(&bti)?;
    let bfamj = sh_x(&bfami)?;
    let famj = sh_x(&fami)?;
    let n2j = sh_x(&n2)?;
    let hyp = var_x(&z1)?;
    let nn = node(Term::Succ(node(Term::Succ(n2j))));
    let tyvf = rd_x(Term::App(famj.clone(), bfj))?;
    let nk = sh_x(&nn)?;
    let btk = sh_x(&btj)?;
    let famk = sh_x(&famj)?;
    let bfamk = sh_x(&bfamj)?;
    let hypk = sh_x(&hyp)?;
    let _vf = var_x(&tyvf)?;
    let tyvt = rd_x(Term::App(famk.clone(), btk))?;
    let nl = sh_x(&nk)?;
    let faml = sh_x(&famk)?;
    let bfaml = sh_x(&bfamk)?;
    let hypl = sh_x(&hypk)?;
    let _vt = var_x(&tyvt)?;
    let tb = rd_x(Term::App(faml, node(Term::Pair(bfaml, nl, hypl))))?;
    let target = node(Term::Pi(tyvf, node(Term::Pi(tyvt, tb, nm("vt"))), nm("vf")));
    let ft = FalseData::new()?;
    let ex = ft.exfalso_unchecked(target)?;
    let body = rd_x(Term::App(ex, hyp))?;
    let l2 = rd_x(Term::Lam(z1, body, nm("hyp")))?;
    rd_x(Term::Lam(node(Term::Nat), l2, nm("n2")))
}

fn step_case(
    fam1: &ContainedTerm,
    fam2: &ContainedTerm,
    indfam: &ContainedTerm,
    n1: &ContainedTerm,
    u: Natural,
) -> (r: Res<ContainedTerm>)
    ensures
        res_is(r, step_case_term(fam1@, fam2@, indfam@, n1@, u@)),
{
    let indfamn = sh_x(indfam)?;
    let nn = var_x(&node(Term::Nat))?;
    let sb = rd_x(Term::App(indfamn, node(Term::Succ(nn))))?;
    let new_indfam = rd_x(Term::Lam(node(Term::Nat), sb, nm("n")))?;
    let ty_ = rd_x(Term::App(indfam.clone(), n1.clone()))?;
    let fam1o = sh_x(fam1)?;
    let fam2o = sh_x(fam2)?;
    let indfamo = sh_x(&new_indfam)?;
    let n1o = sh_x(n1)?;
    let _w = var_x(&ty_)?;
    let ni2 = rd_x(Term::NatInd(n1o, u))?;
    let x1 = rd_x(Term::App(ni2, indfamo.clone()))?;
    let x2 = rd_x(Term::App(x1, fam1o))?;
    let fam2p = sh_x(&fam2o)?;
    let indfamp = sh_x(&indfamo)?;
    let n2 = var_x(&node(Term::Nat))?;
    let tyq = rd_x(Term::App(indfamp.clone(), n2.clone()))?;
    let fam2q = sh_x(&fam2p)?;
    let _indfamq = sh_x(&indfamp)?;
    let n2q = sh_x(&n2)?;
    let _wq = var_x(&tyq)?;
    let bq = rd_x(Term::App(fam2q, n2q))?;
    let lq = rd_x(Term::Lam(tyq, bq, nm("_")))?;
    let l2 = rd_x(Term::Lam(node(Term::Nat), lq, nm("n2")))?;
    let inner = rd_x(Term::App(x2, l2))?;
    rd_x(Term::Lam(ty_, inner, nm("_")))
}

fn partial(
    trim: &ContainedTerm,
    fam: &ContainedTerm,
    bfalse: &ContainedTerm,
    btrue: &ContainedTerm,
    bfam: &ContainedTerm,
    n: &ContainedTerm,
    u: Natural,
) -> (r: Res<ContainedTerm>)
    ensures
        res_is(r, partial_term(trim@, fam@, bfalse@, btrue@, bfam@, n@, u@)),
{
    let indfam = ind_family(bfalse, btrue, fam, trim, bfam)?;
    let fam0 = endpoint_case(bfalse, btrue, bfam, fam, false)?;
    let fam1 = endpoint_case(bfalse, btrue, bfam, fam, true)?;
    let fam2 = absurd_case(bfalse, btrue, bfam, fam)?;
    let ni = rd_x(Term::NatInd(n.clone(), u))?;
    let y1 = rd_x(Term::App(ni, indfam.clone()))?;
    let y2 = rd_x(Term::App(y1, fam0))?;
    let fam1m = sh_x(&fam1)?;
    let fam2m = sh_x(&fam2)?;
    let indfamm = sh_x(&indfam)?;
    let n1 = var_x(&node(Term::Nat))?;
    let step = step_case(&fam1m, &fam2m, &indfamm, &n1, u)?;
    let ln1 = rd_x(Term::Lam(node(Term::Nat), step, nm("n1")))?;
    rd_x(Term::App(y2, ln1))
}

/// The booleans as built: `trim : ℕ → ℕ`, `bool_fam : ℕ → Type{0}`, and `false` and
/// `true` well-typed pairs of `bool_type`.
pub open spec fn bool_data_holds(d: BoolData) -> bool {
    &&& trim_term() == Some(d.trim@)
    &&& bool_fam_term(d.trim@) == Some(d.bool_fam@)
    &&& d.bool_type@ == sig(d.bool_fam@)
    &&& refl_term(STerm::Zero) matches Some(rz) && d.bool_false@ == pair(d.bool_fam@, STerm::Zero, rz)
        && d.bool_true@ == pair(d.bool_fam@, succ(STerm::Zero), rz)
    &&& s_typed(d.trim@, STEP_FUEL as nat) == Some(pi(STerm::Nat, STerm::Nat))
    &&& s_typed(d.bool_fam@, STEP_FUEL as nat) == Some(pi(STerm::Nat, STerm::Universe(0)))
    &&& s_wt(d.bool_false@, Seq::empty())
    &&& s_wt(d.bool_true@, Seq::empty())
}

impl BoolData {
    /// Creates the booleans, checking the types stated of their parts.
    pub fn new() -> (r: Res<BoolData>)
        ensures
            r matches Ok(d) ==> bool_data_holds(d),
            r is Err ==> !exists|d: BoolData| bool_data_holds(d),
    {
        let trim = trim()?;
        let bfam = bool_fam(&trim)?;
        let bool_type = node(Term::Sig(bfam.clone()));
        let r0 = refl(node(Term::Zero))?;
        let bool_false = node(Term::Pair(bfam.clone(), node(Term::Zero), r0));
        let r1 = refl(node(Term::Zero))?;
        let bool_true = node(Term::Pair(bfam.clone(), node(Term::Succ(node(Term::Zero))), r1));
        let tt = trim.clone().typed()?;
        if !term_eq(&tt, &node(Term::Pi(node(Term::Nat), node(Term::Nat), nm("n")))) {
            return err_str("trim is not a function on naturals");
        }
        let tf = bfam.clone().typed()?;
        if !term_eq(&tf, &node(Term::Pi(node(Term::Nat), node(Term::Universe(Natural::from_usize(0))), nm("n")))) {
            return err_str("the family of the booleans is not a family of types");
        }
        check(bool_false.clone()).0?;
        check(bool_true.clone()).0?;
        Ok(BoolData { trim, bool_type, bool_false, bool_true, bool_fam: bfam })
    }

    /// Runs the boolean induction principle on the boolean `b` at universe level `n`.
    pub fn bool_ind(&self, b: ContainedTerm, n: Natural) -> (r: Res<ContainedTerm>)
        ensures
            res_is(
                r,
                bool_ind_term(
                    self.trim@,
                    self.bool_type@,
                    self.bool_false@,
                    self.bool_true@,
                    self.bool_fam@,
                    b@,
                    n@,
                ),
            ),
    {
        let _vb = var_x(&self.bool_type)?;
        let famtype = node(
            Term::Pi(self.bool_type.clone(), node(Term::Universe(n)), nm("_")),
        );
        let b1 = sh_x(&b)?;
        let trim1 = sh_x(&self.trim)?;
        let bf1 = sh_x(&self.bool_false)?;
        let bt1 = sh_x(&self.bool_true)?;
        let bfam1 = sh_x(&self.bool_fam)?;
        let fam = var_x(&famtype)?;
        let tf = true_family(&fam, &bf1, &bt1, &bfam1)?;
        let si = rd_x(Term::SigInd(b1, n))?;
        let s1 = rd_x(Term::App(si, tf))?;
        let trim2 = sh_x(&trim1)?;
        let fam5 = sh_x(&fam)?;
        let bf3 = sh_x(&bf1)?;
        let bt4 = sh_x(&bt1)?;
        let bfam2 = sh_x(&bfam1)?;
        let nn = var_x(&node(Term::Nat))?;
        let part = partial(&trim2, &fam5, &bf3, &bt4, &bfam2, &nn, n)?;
        let lp = rd_x(Term::Lam(node(Term::Nat), part, nm("n")))?;
        let body = rd_x(Term::App(s1, lp))?;
        rd_x(Term::Lam(famtype, body, nm("fam")))
    }

    /// The boolean induction principle at universe level `n`, as a function of the boolean.
    pub fn generic_bool_ind(&self, n: Natural) -> (r: Res<ContainedTerm>)
        ensures
            match var_of(self.bool_type@) {
                Some(b) => match bool_ind_term(
                    self.trim@,
                    self.bool_type@,
                    self.bool_false@,
                    self.bool_true@,
                    self.bool_fam@,
                    b,
                    n@,
                ) {
                    Some(body) => res_is(r, rd(lam(self.bool_type@, body))),
                    None => r is Err,
                },
                None => r is Err,
            },
    {
        let b = var_x(&self.bool_type)?;
        let body = self.bool_ind(b, n)?;
        rd_x(Term::Lam(self.bool_type.clone(), body, nm("b")))
    }
}

} // verus!
