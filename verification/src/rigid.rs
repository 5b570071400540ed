//! Terms built from variables, lambdas, types and data constructors without applications:
//! rebuilding such a term rewrites nothing in it, so shifting, checking for constancy,
//! substitution and typing act on it structurally.
use vstd::prelude::*;
use crate::model::{STerm, lam, pi};
use crate::semantics::{red_lam, s_push, s_reduce, s_subst, s_typed};

verus! {

/// A term built from variables, lambdas, types and data constructors only, with no
/// application in it: nothing in it is rewritten when it is rebuilt.
pub open spec fn is_rigid(t: STerm) -> bool
    decreases t,
{
    match t {
        STerm::DeBrujin(_, ty) => is_rigid(*ty),
        STerm::Lam(a, b) => is_rigid(*a) && is_rigid(*b),
        STerm::Pi(a, b) => is_rigid(*a) && is_rigid(*b),
        STerm::Succ(a) => is_rigid(*a),
        STerm::Eq(a, b, c) => is_rigid(*a) && is_rigid(*b) && is_rigid(*c),
        STerm::Sig(a) => is_rigid(*a),
        STerm::Pair(a, b, c) => is_rigid(*a) && is_rigid(*b) && is_rigid(*c),
        STerm::Universe(_) | STerm::Nat | STerm::Zero | STerm::II | STerm::IA | STerm::IB => true,
        _ => false,
    }
}

/// Pushing such a term gives such a term.
pub proof fn rigid_push_rigid(t: STerm, n: nat, f: nat)
    requires
        is_rigid(t),
        s_push(t, n, f) is Some,
    ensures
        is_rigid(s_push(t, n, f)->0),
        s_push(t, n, f)->0 is Lam ==> t is Lam,
    decreases t,
{
    let g = (f - 1) as nat;
    match t {
        STerm::DeBrujin(_, ty) => {
            rigid_push_rigid(*ty, n, g);
        },
        STerm::Lam(a, b) => {
            rigid_push_rigid(*a, n, g);
            rigid_push_rigid(*b, n + 1, g);
            let a2 = s_push(*a, n, g)->0;
            let b2 = s_push(*b, n + 1, g)->0;
            assert(s_reduce(lam(a2, b2), g) == red_lam(a2, b2, (g - 1) as nat));
        },
        STerm::Pi(a, b) => {
            rigid_push_rigid(*a, n, g);
            rigid_push_rigid(*b, n + 1, g);
        },
        STerm::Succ(a) => {
            rigid_push_rigid(*a, n, g);
        },
        STerm::Eq(a, b, c) => {
            rigid_push_rigid(*a, n, g);
            rigid_push_rigid(*b, n, g);
            rigid_push_rigid(*c, n, g);
        },
        STerm::Sig(a) => {
            rigid_push_rigid(*a, n, g);
        },
        STerm::Pair(a, b, c) => {
            rigid_push_rigid(*a, n, g);
            rigid_push_rigid(*b, n, g);
            rigid_push_rigid(*c, n, g);
        },
        _ => {},
    }
}

/// Pushing a term built from variables, types and data constructors gives the same result
/// at any fuel that suffices.
pub proof fn rigid_push_fuel(t: STerm, n: nat, f: nat, f2: nat)
    requires
        is_rigid(t),
        s_push(t, n, f) is Some,
        f <= f2,
    ensures
        s_push(t, n, f2) == s_push(t, n, f),
    decreases t,
{
    let g = (f - 1) as nat;
    let g2 = (f2 - 1) as nat;
    match t {
        STerm::DeBrujin(_, ty) => {
            rigid_push_fuel(*ty, n, g, g2);
        },
        STerm::Lam(a, b) => {
            rigid_push_fuel(*a, n, g, g2);
            rigid_push_fuel(*b, n + 1, g, g2);
            rigid_push_rigid(*a, n, g);
            rigid_push_rigid(*b, n + 1, g);
            let a2 = s_push(*a, n, g)->0;
            let b2 = s_push(*b, n + 1, g)->0;
            assert(s_reduce(lam(a2, b2), g) == red_lam(a2, b2, (g - 1) as nat));
            assert(s_reduce(lam(a2, b2), g2) == red_lam(a2, b2, (g2 - 1) as nat));
        },
        STerm::Pi(a, b) => {
            rigid_push_fuel(*a, n, g, g2);
            rigid_push_fuel(*b, n + 1, g, g2);
        },
        STerm::Succ(a) => {
            rigid_push_fuel(*a, n, g, g2);
        },
        STerm::Eq(a, b, c) => {
            rigid_push_fuel(*a, n, g, g2);
            rigid_push_fuel(*b, n, g, g2);
            rigid_push_fuel(*c, n, g, g2);
        },
        STerm::Sig(a) => {
            rigid_push_fuel(*a, n, g, g2);
        },
        STerm::Pair(a, b, c) => {
            rigid_push_fuel(*a, n, g, g2);
            rigid_push_fuel(*b, n, g, g2);
            rigid_push_fuel(*c, n, g, g2);
        },
        _ => {},
    }
}

/// The type of such a term is such a term.
pub proof fn rigid_typed_rigid(t: STerm, f: nat)
    requires
        is_rigid(t),
        s_typed(t, f) is Some,
    ensures
        is_rigid(s_typed(t, f)->0),
    decreases f,
{
    let g = (f - 1) as nat;
    match t {
        STerm::Lam(a, b) => {
            rigid_typed_rigid(*b, g);
            assert(is_rigid(*a));
            assert(s_typed(t, f) == Some(pi(*a, s_typed(*b, g)->0)));
            assert(is_rigid(pi(*a, s_typed(*b, g)->0)));
        },
        STerm::Eq(fm, _, _) => {
            if let STerm::Lam(_, body) = *fm {
                let tp = s_typed(pi(STerm::II, *body), g);
                assert(s_typed(t, f) == tp);
                assert(tp->0 is Universe);
            }
        },
        STerm::Sig(fm) => {
            rigid_typed_rigid(*fm, g);
            rigid_typed_rigid(s_typed(*fm, g)->0, g);
        },
        _ => {},
    }
}

/// The type of such a term is the same at any fuel that suffices.
pub proof fn rigid_typed_fuel(t: STerm, f: nat, f2: nat)
    requires
        is_rigid(t),
        s_typed(t, f) is Some,
        f <= f2,
    ensures
        s_typed(t, f2) == s_typed(t, f),
    decreases f,
{
    let g = (f - 1) as nat;
    let g2 = (f2 - 1) as nat;
    match t {
        STerm::Lam(_, b) => {
            rigid_typed_fuel(*b, g, g2);
        },
        STerm::Pi(a, b) => {
            rigid_typed_fuel(*a, g, g2);
            rigid_typed_fuel(*b, g, g2);
        },
        STerm::Eq(fm, _, _) => {
            assert(is_rigid(*fm));
            if let STerm::Lam(_, body) = *fm {
                assert(is_rigid(*body));
                assert(is_rigid(STerm::II));
                assert(is_rigid(pi(STerm::II, *body)));
                rigid_typed_fuel(pi(STerm::II, *body), g, g2);
            }
        },
        STerm::Sig(fm) => {
            rigid_typed_fuel(*fm, g, g2);
            rigid_typed_rigid(*fm, g);
            rigid_typed_fuel(s_typed(*fm, g)->0, g, g2);
        },
        _ => {},
    }
}

/// Typing commutes with pushing, for such a term: the type of the pushed term is the pushed
/// type.
pub proof fn rigid_typed_push(t: STerm, n: nat, f: nat)
    requires
        is_rigid(t),
        s_push(t, n, f) is Some,
        s_typed(t, f) is Some,
    ensures
        s_push(s_typed(t, f)->0, n, f) is Some,
        s_typed(s_push(t, n, f)->0, f) == s_push(s_typed(t, f)->0, n, f),
    decreases f, 1nat,
{
    let g = (f - 1) as nat;
    match t {
        STerm::DeBrujin(_, ty) => {
            rigid_push_fuel(*ty, n, g, f);
        },
        STerm::Lam(a, b) => typed_push_lam(*a, *b, n, f),
        STerm::Pi(a, b) => {
            rigid_typed_push(*a, n, g);
            rigid_typed_push(*b, n + 1, g);
        },
        STerm::Eq(fm, x, y) => typed_push_eq(*fm, *x, *y, n, f),
        STerm::Sig(fm) => typed_push_sig(*fm, n, f),
        _ => {},
    }
}

proof fn typed_push_lam(a: STerm, b: STerm, n: nat, f: nat)
    requires
        is_rigid(a),
        is_rigid(b),
        s_push(lam(a, b), n, f) is Some,
        s_typed(lam(a, b), f) is Some,
    ensures
        s_push(s_typed(lam(a, b), f)->0, n, f) is Some,
        s_typed(s_push(lam(a, b), n, f)->0, f) == s_push(s_typed(lam(a, b), f)->0, n, f),
    decreases f, 0nat,
{
    let g = (f - 1) as nat;
    rigid_typed_push(b, n + 1, g);
    rigid_push_rigid(b, n + 1, g);
    let pa = s_push(a, n, g)->0;
    let pb = s_push(b, n + 1, g)->0;
    assert(s_reduce(lam(pa, pb), g) == red_lam(pa, pb, (g - 1) as nat));
    assert(s_push(lam(a, b), n, f) == Some(lam(pa, pb)));
}

proof fn typed_push_eq(fm: STerm, x: STerm, y: STerm, n: nat, f: nat)
    requires
        is_rigid(fm),
        is_rigid(x),
        is_rigid(y),
        s_push(STerm::Eq(Box::new(fm), Box::new(x), Box::new(y)), n, f) is Some,
        s_typed(STerm::Eq(Box::new(fm), Box::new(x), Box::new(y)), f) is Some,
    ensures
        s_push(s_typed(STerm::Eq(Box::new(fm), Box::new(x), Box::new(y)), f)->0, n, f) is Some,
        s_typed(s_push(STerm::Eq(Box::new(fm), Box::new(x), Box::new(y)), n, f)->0, f) == s_push(
            s_typed(STerm::Eq(Box::new(fm), Box::new(x), Box::new(y)), f)->0,
            n,
            f,
        ),
    decreases f, 0nat,
{
    let t = STerm::Eq(Box::new(fm), Box::new(x), Box::new(y));
    let g = (f - 1) as nat;
    if let STerm::Lam(a, body) = fm {
        let gg = (g - 1) as nat;
        assert(is_rigid(*a) && is_rigid(*body));
        rigid_typed_push(*body, n + 1, gg);
        rigid_push_rigid(*body, n + 1, gg);
        let pa = s_push(*a, n, gg)->0;
        let pb = s_push(*body, n + 1, gg)->0;
        assert(s_reduce(lam(pa, pb), gg) == red_lam(pa, pb, (gg - 1) as nat));
        assert(s_push(fm, n, g) == Some(lam(pa, pb)));
        let tp = s_typed(pi(STerm::II, *body), g);
        assert(s_typed(t, f) == tp);
        assert(s_typed(STerm::II, gg) == Some(STerm::Universe(0)));
        assert(tp->0 is Universe);
        assert(s_typed(pi(STerm::II, pb), g)->0 == tp->0);
    }
}

proof fn typed_push_sig(fm: STerm, n: nat, f: nat)
    requires
        is_rigid(fm),
        s_push(STerm::Sig(Box::new(fm)), n, f) is Some,
        s_typed(STerm::Sig(Box::new(fm)), f) is Some,
    ensures
        s_push(s_typed(STerm::Sig(Box::new(fm)), f)->0, n, f) is Some,
        s_typed(s_push(STerm::Sig(Box::new(fm)), n, f)->0, f) == s_push(
            s_typed(STerm::Sig(Box::new(fm)), f)->0,
            n,
            f,
        ),
    decreases f, 0nat,
{
    let g = (f - 1) as nat;
    rigid_typed_push(fm, n, g);
    rigid_typed_rigid(fm, g);
    let tf = s_typed(fm, g)->0;
    rigid_typed_push(tf, n, g);
    rigid_typed_rigid(tf, g);
    rigid_push_fuel(s_typed(tf, g)->0, n, g, f);
}

/// Substituting an endpoint for layer `n` undoes pushing over layer `n`, for such a term.
pub proof fn subst_point_undoes_push(t: STerm, n: nat, f: nat, x: STerm)
    requires
        is_rigid(t),
        s_push(t, n, f) is Some,
        x == STerm::IA || x == STerm::IB,
    ensures
        s_subst(s_push(t, n, f)->0, x, n, f) == Some(t),
    decreases t,
{
    let g = (f - 1) as nat;
    match t {
        STerm::DeBrujin(_, ty) => {
            subst_point_undoes_push(*ty, n, g, x);
        },
        STerm::Lam(a, b) => {
            subst_point_undoes_push(*a, n, g, x);
            subst_point_undoes_push(*b, n + 1, g, x);
            rigid_push_rigid(*a, n, g);
            rigid_push_rigid(*b, n + 1, g);
            let a2 = s_push(*a, n, g)->0;
            let b2 = s_push(*b, n + 1, g)->0;
            assert(s_reduce(lam(a2, b2), g) == red_lam(a2, b2, (g - 1) as nat));
            assert(s_push(x, 0, g) == Some(x));
            assert(s_reduce(lam(*a, *b), g) == red_lam(*a, *b, (g - 1) as nat));
        },
        STerm::Pi(a, b) => {
            subst_point_undoes_push(*a, n, g, x);
            subst_point_undoes_push(*b, n + 1, g, x);
            assert(s_push(x, 0, g) == Some(x));
        },
        STerm::Succ(a) => {
            subst_point_undoes_push(*a, n, g, x);
        },
        STerm::Eq(a, b, c) => {
            subst_point_undoes_push(*a, n, g, x);
            subst_point_undoes_push(*b, n, g, x);
            subst_point_undoes_push(*c, n, g, x);
        },
        STerm::Sig(a) => {
            subst_point_undoes_push(*a, n, g, x);
        },
        STerm::Pair(a, b, c) => {
            subst_point_undoes_push(*a, n, g, x);
            subst_point_undoes_push(*b, n, g, x);
            subst_point_undoes_push(*c, n, g, x);
        },
        _ => {},
    }
}

} // verus!
