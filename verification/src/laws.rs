//! Laws of the library: what holds of every input, stated over the models that the
//! operations' contracts use.
use vstd::prelude::*;
use crate::model::{
    STerm, app, db, eqlam, eqty, equw, iand, inot, is_inert, lam, natind, number_of, numeral, pi, sigind, tag,
    term_lt, term_order, transp, succ, pair, sig,
};
use crate::semantics::{
    FUEL, STEP_FUEL, ctx_get, ctx_push, ctx_push_scope, rd, red_app, red_transp, s_refl, s_subst, s_wt, red_eqlam, red_equw, red_lam, red_natind, red_natind_succ, red_not, s_cc, s_push,
    s_reduce, s_typed, sh, var_of,
};
use crate::ctypes::{ContainedTerm, Naming, Natural, Term};
use crate::equals::{refl_term, split_path_term, straight_eq_term, transport_eq_term};
use crate::rigid::{
    is_rigid, rigid_push_fuel, rigid_push_rigid, rigid_typed_fuel, rigid_typed_push, rigid_typed_rigid,
    subst_point_undoes_push,
};
use crate::display::{
    AliasMap, DisplayView, Ending, Picks, decimal, part, printed, subscript, tc_after_push, uses,
    with_name,
};

verus! {

/// Reading back the numeral of `n` gives `n`: `num(n).get_number()` is `Some(n)`.
pub proof fn numeral_reads_back(n: nat)
    ensures
        number_of(numeral(n)) == Some(n),
    decreases n,
{
    if n > 0 {
        numeral_reads_back((n - 1) as nat);
    }
}

/// Building a term whose outer constructor is a type former, a variable, a numeral
/// constructor or a point of the interval leaves it as it is.
pub proof fn building_inert_terms_keeps_them(t: STerm, f: nat)
    requires
        is_inert(t),
    ensures
        s_reduce(t, f) == Some(t),
{
}

/// The structural order on terms is antisymmetric, and the only term level with a term is
/// the term itself.
pub proof fn term_order_antisymmetric(a: STerm, b: STerm)
    ensures
        term_order(a, b) == -term_order(b, a),
        term_order(a, b) == 0 <==> a == b,
    decreases a,
{
    if tag(a) == tag(b) {
        match a {
            STerm::DeBrujin(_, t) => match b {
                STerm::DeBrujin(_, u) => term_order_antisymmetric(*t, *u),
                _ => {},
            },
            STerm::Lam(a1, a2) => match b {
                STerm::Lam(b1, b2) => {
                    term_order_antisymmetric(*a1, *b1);
                    term_order_antisymmetric(*a2, *b2);
                },
                _ => {},
            },
            STerm::Pi(a1, a2) => match b {
                STerm::Pi(b1, b2) => {
                    term_order_antisymmetric(*a1, *b1);
                    term_order_antisymmetric(*a2, *b2);
                },
                _ => {},
            },
            STerm::App(a1, a2) => match b {
                STerm::App(b1, b2) => {
                    term_order_antisymmetric(*a1, *b1);
                    term_order_antisymmetric(*a2, *b2);
                },
                _ => {},
            },
            STerm::Succ(a1) => match b {
                STerm::Succ(b1) => term_order_antisymmetric(*a1, *b1),
                _ => {},
            },
            STerm::NatInd(a1, _) => match b {
                STerm::NatInd(b1, _) => term_order_antisymmetric(*a1, *b1),
                _ => {},
            },
            STerm::Not(a1) => match b {
                STerm::Not(b1) => term_order_antisymmetric(*a1, *b1),
                _ => {},
            },
            STerm::And(a1, a2) => match b {
                STerm::And(b1, b2) => {
                    term_order_antisymmetric(*a1, *b1);
                    term_order_antisymmetric(*a2, *b2);
                },
                _ => {},
            },
            STerm::EqLam(a1) => match b {
                STerm::EqLam(b1) => term_order_antisymmetric(*a1, *b1),
                _ => {},
            },
            STerm::Eq(a1, a2, a3) => match b {
                STerm::Eq(b1, b2, b3) => {
                    term_order_antisymmetric(*a1, *b1);
                    term_order_antisymmetric(*a2, *b2);
                    term_order_antisymmetric(*a3, *b3);
                },
                _ => {},
            },
            STerm::EqUw(a1, a2) => match b {
                STerm::EqUw(b1, b2) => {
                    term_order_antisymmetric(*a1, *b1);
                    term_order_antisymmetric(*a2, *b2);
                },
                _ => {},
            },
            STerm::HComp { family: a1, base: a2, first: a3, second: a4 } => match b {
                STerm::HComp { family: b1, base: b2, first: b3, second: b4 } => {
                    term_order_antisymmetric(*a1, *b1);
                    term_order_antisymmetric(*a2, *b2);
                    term_order_antisymmetric(*a3, *b3);
                    term_order_antisymmetric(*a4, *b4);
                },
                _ => {},
            },
            STerm::Transp(a1, a2) => match b {
                STerm::Transp(b1, b2) => {
                    term_order_antisymmetric(*a1, *b1);
                    term_order_antisymmetric(*a2, *b2);
                },
                _ => {},
            },
            STerm::Sig(a1) => match b {
                STerm::Sig(b1) => term_order_antisymmetric(*a1, *b1),
                _ => {},
            },
            STerm::Pair(a1, a2, a3) => match b {
                STerm::Pair(b1, b2, b3) => {
                    term_order_antisymmetric(*a1, *b1);
                    term_order_antisymmetric(*a2, *b2);
                    term_order_antisymmetric(*a3, *b3);
                },
                _ => {},
            },
            STerm::SigInd(a1, _) => match b {
                STerm::SigInd(b1, _) => term_order_antisymmetric(*a1, *b1),
                _ => {},
            },
            _ => {},
        }
    }
}

/// Negation swaps the endpoints of the interval: `¬I₀ = I₁` and `¬I₁ = I₀`.
pub proof fn not_swaps_endpoints(f: nat)
    requires
        f > 0,
    ensures
        s_reduce(inot(STerm::IA), f) == Some(STerm::IB),
        s_reduce(inot(STerm::IB), f) == Some(STerm::IA),
{
}

/// Negation undoes itself: `¬¬i = i`.
pub proof fn not_involutive(i: STerm, f: nat)
    requires
        f > 0,
    ensures
        s_reduce(inot(inot(i)), f) == Some(i),
{
}

/// On a variable, an endpoint, or any other term that building leaves as it is, negating
/// twice, each time bringing the result to normal form, gives the term back.
pub proof fn not_twice_gives_back(i: STerm, f: nat)
    requires
        f > 0,
        is_inert(i),
    ensures
        s_reduce(inot(i), f) is Some,
        s_reduce(inot(s_reduce(inot(i), f)->0), f) == Some(i),
{
    let g = (f - 1) as nat;
    if i != STerm::IA && i != STerm::IB {
        assert(s_reduce(i, g) == Some(i));
        assert(red_not(i, g) == Some(inot(i)));
        assert(s_reduce(inot(i), f) == Some(inot(i)));
        assert(red_not(inot(i), g) == Some(i));
    }
}

/// A conjunction with `I₀`, on either side, is `I₀`.
pub proof fn and_with_first_point(i: STerm, f: nat)
    requires
        f > 0,
    ensures
        s_reduce(iand(STerm::IA, i), f) == Some(STerm::IA),
        s_reduce(iand(i, STerm::IA), f) == Some(STerm::IA),
{
}

/// A conjunction with `I₁`, on either side, is the other operand.
pub proof fn and_with_second_point(i: STerm, f: nat)
    ensures
        s_reduce(iand(STerm::IB, i), f + 1) == s_reduce(i, f),
        s_reduce(iand(i, STerm::IB), f + 1) == s_reduce(i, f),
{
    if i == STerm::IA {
        assert(s_reduce(i, f) == Some(STerm::IA));
    }
}

/// Conjunction does not depend on the order of its operands.
pub proof fn and_commutes(a: STerm, b: STerm, f: nat)
    ensures
        s_reduce(iand(a, b), f) == s_reduce(iand(b, a), f),
{
    term_order_antisymmetric(a, b);
    if !term_lt(a, b) && !term_lt(b, a) {
        assert(a == b);
    }
}

/// An equality applied to `I₀` gives its first end, and applied to `I₁` its second.
pub proof fn equality_endpoints(e: STerm, family: STerm, a: STerm, b: STerm, f: nat)
    requires
        s_typed(e, f) == Some(eqty(family, a, b)),
    ensures
        s_reduce(equw(e, STerm::IA), f + 1) == Some(a),
        s_reduce(equw(e, STerm::IB), f + 1) == Some(b),
{
}

/// A function on the interval wrapped as an equality, applied to a point other than the
/// endpoints, computes as the function applied to that point.
pub proof fn wrapped_function_applies(x: STerm, i: STerm, f: nat)
    requires
        i != STerm::IA,
        i != STerm::IB,
    ensures
        s_reduce(equw(eqlam(x), i), f + 1) == s_reduce(app(x, i), f),
{
}

/// Eta: `λ x, g x` is `g` when `g` does not mention `x`.
pub proof fn lambda_eta(ty: STerm, g: STerm, lowered: STerm, f: nat)
    requires
        s_cc(g, 0, f) == Some(lowered),
    ensures
        s_reduce(lam(ty, app(g, db(0, ty))), f + 1) == Some(lowered),
{
}

/// For the public operations: when `e.typed()` is `Ok(a ≡ b)`, over any family, building
/// `EqUw(e, I₀)` gives `a` and building `EqUw(e, I₁)` gives `b`.
pub proof fn typed_equality_endpoints(e: STerm, family: STerm, a: STerm, b: STerm)
    requires
        s_typed(e, STEP_FUEL as nat) == Some(eqty(family, a, b)),
    ensures
        s_reduce(equw(e, STerm::IA), FUEL as nat) == Some(a),
        s_reduce(equw(e, STerm::IB), FUEL as nat) == Some(b),
{
    equality_endpoints(e, family, a, b, STEP_FUEL as nat);
}

/// For the public operations, beta: a lambda `λ (x: A), body` that has a type, applied to
/// an argument whose type is `A`, builds to `body` with the argument put for `x` and the
/// higher indices lowered by one.
pub proof fn beta(ty: STerm, body: STerm, v: STerm)
    requires
        s_typed(lam(ty, body), STEP_FUEL as nat) is Some,
        s_typed(v, STEP_FUEL as nat) == Some(ty),
    ensures
        s_reduce(app(lam(ty, body), v), FUEL as nat) == s_subst(body, v, 0, STEP_FUEL as nat),
{
    assert(s_reduce(app(lam(ty, body), v), FUEL as nat) == red_app(lam(ty, body), v, STEP_FUEL as nat));
}

/// For the public operations: a function in normal form that is not a lambda, applied to an
/// argument of its parameter type, stays an application.
pub proof fn neutral_application_stays(fm: STerm, v: STerm, ty: STerm, out: STerm)
    requires
        !(fm is Lam),
        s_reduce(fm, STEP_FUEL as nat) == Some(fm),
        s_typed(fm, STEP_FUEL as nat) == Some(pi(ty, out)),
        s_typed(v, STEP_FUEL as nat) == Some(ty),
    ensures
        s_reduce(app(fm, v), FUEL as nat) == Some(app(fm, v)),
{
    assert(s_reduce(app(fm, v), FUEL as nat) == red_app(fm, v, STEP_FUEL as nat));
}

/// For the public operations: an application whose argument's type differs from the
/// function's parameter type fails to build, and so does one of a term that is not a
/// function.
pub proof fn ill_typed_application_fails(fm: STerm, v: STerm)
    requires
        s_typed(v, STEP_FUEL as nat) is Some,
        !(s_typed(fm, STEP_FUEL as nat) matches Some(STerm::Pi(arg, _)) && *arg == s_typed(
            v,
            STEP_FUEL as nat,
        )->0),
    ensures
        s_reduce(app(fm, v), FUEL as nat) is None,
{
    assert(s_reduce(app(fm, v), FUEL as nat) == red_app(fm, v, STEP_FUEL as nat));
}

/// For the public operations, eta: `λ x, g x` builds to `g` with its indices lowered, when
/// `g.check_const(0)` succeeds; and `EqLam(λ i, e @ i)` builds to `e` lowered in the same way.
pub proof fn eta(ty: STerm, g: STerm, lowered: STerm)
    requires
        s_cc(g, 0, STEP_FUEL as nat) == Some(lowered),
    ensures
        s_reduce(lam(ty, app(g, db(0, ty))), FUEL as nat) == Some(lowered),
        s_reduce(eqlam(lam(ty, equw(g, db(0, ty)))), FUEL as nat) == Some(lowered),
{
    lambda_eta(ty, g, lowered, STEP_FUEL as nat);
    eqlam_eta(ty, g, lowered, STEP_FUEL as nat);
}

/// For the public operations: transport along a line of types that `check_refl` finds
/// constant gives the transported term back, and along one it finds not constant stays a
/// transport.
pub proof fn transport_along_constant_line(g: STerm, x: STerm)
    requires
        s_refl(g, STerm::IA, STEP_FUEL as nat) is Some,
    ensures
        s_refl(g, STerm::IA, STEP_FUEL as nat)->0 is Some ==> s_reduce(transp(eqlam(g), x), FUEL as nat)
            == Some(x),
        s_refl(g, STerm::IA, STEP_FUEL as nat)->0 is None ==> s_reduce(transp(eqlam(g), x), FUEL as nat)
            == Some(transp(eqlam(g), x)),
{
    assert(s_reduce(transp(eqlam(g), x), FUEL as nat) == red_transp(eqlam(g), x, STEP_FUEL as nat));
}

/// Induction on naturals computes on zero and on successors, to a function of the family;
/// on any other natural it stays as it is.
pub proof fn natind_computes_on_numerals(t: STerm, u: nat, f: nat)
    ensures
        (t == STerm::Zero || t is Succ) && s_reduce(natind(t, u), f + 1) is Some ==> s_reduce(
            natind(t, u),
            f + 1,
        )->0 is Lam,
        t != STerm::Zero && !(t is Succ) && s_typed(t, f) == Some(STerm::Nat) ==> s_reduce(
            natind(t, u),
            f + 1,
        ) == Some(natind(t, u)),
{
    assert(s_reduce(natind(t, u), f + 1) == red_natind(t, u, f));
    if let STerm::Succ(v) = t {
        assert(red_natind(t, u, f) == red_natind_succ(*v, u, f));
    }
}

/// Induction on dependent sums stays as it is on anything but a pair.
pub proof fn sigind_waits_for_pairs(s: STerm, n: nat, f: nat)
    requires
        !(s is Pair),
    ensures
        s_reduce(sigind(s, n), f + 1) == Some(sigind(s, n)),
{
}

/// Pushing a binder shifts every entry of a typing context and keeps its length.
proof fn push_scope_shifts(tc: Seq<STerm>)
    requires
        ctx_push_scope(tc) is Some,
    ensures
        ctx_push_scope(tc)->0.len() == tc.len(),
        forall|k: int|
            0 <= k < tc.len() ==> s_push(tc[k], 0, FUEL as nat) == Some(
                #[trigger] ctx_push_scope(tc)->0[k],
            ),
    decreases tc.len(),
{
    if tc.len() > 0 {
        push_scope_shifts(tc.drop_last());
        let front = ctx_push_scope(tc.drop_last())->0;
        assert forall|k: int| 0 <= k < tc.len() implies s_push(tc[k], 0, FUEL as nat) == Some(
            #[trigger] ctx_push_scope(tc)->0[k],
        ) by {
            if k < tc.len() - 1 {
                assert(tc.drop_last()[k] == tc[k]);
            }
        }
    }
}

/// After a variable of type `v` is pushed on a typing context, index 0 has the type `v`
/// and index `k + 1` the type that index `k` had, each shifted under the new binder.
pub proof fn pushed_context_lookup(tc: Seq<STerm>, v: STerm, k: nat)
    requires
        ctx_push(tc, v) is Some,
    ensures
        Some(ctx_get(ctx_push(tc, v)->0, 0)->0) == s_push(v, 0, FUEL as nat),
        k < tc.len() ==> Some(ctx_get(ctx_push(tc, v)->0, k + 1)->0) == s_push(
            ctx_get(tc, k)->0,
            0,
            FUEL as nat,
        ),
        k >= tc.len() ==> ctx_get(ctx_push(tc, v)->0, k + 1) is None,
{
    push_scope_shifts(tc);
    let c = ctx_push(tc, v)->0;
    if k < tc.len() {
        assert(c[c.len() - 1 - (k + 1)] == ctx_push_scope(tc)->0[tc.len() - 1 - k]);
    }
}

/// An alias given to a term is what a look-up of that term gives back, and every other
/// term keeps what it had.
pub proof fn alias_read_after_write(before: AliasMap, after: AliasMap, t: ContainedTerm, name: String, other: ContainedTerm)
    requires
        after@ == before@.insert(t@, name@),
    ensures
        after@.contains_key(t@) && after@[t@] == name@,
        other@ != t@ ==> (after@.contains_key(other@) == before@.contains_key(other@) && after@[other@]
            == before@[other@]),
{
}

/// A term that has an alias is printed as its alias.
pub proof fn alias_is_printed(
    f: nat,
    t: ContainedTerm,
    d: DisplayView,
    tc: Seq<STerm>,
    al: Map<STerm, Seq<char>>,
    w: Picks,
)
    requires
        f > 0,
        al.contains_key(t@),
    ensures
        printed(f, t, d, tc, al, w) == Some((al[t@], Ending::Complete)),
{
}

/// Each binder named `base` is shown with one more in its subscript than the binder of that
/// name before it.
pub proof fn names_are_numbered(d: DisplayView, base: Seq<char>)
    ensures
        uses(with_name(d, base), base) == uses(d, base) + 1,
        with_name(d, base).names.last() == base + subscript(uses(d, base)),
        with_name(with_name(d, base), base).names.last() == base + subscript(uses(d, base) + 1),
{
}

/// Checking a term constant on layer `n` undoes pushing it over layer `n`, for a term built
/// from variables, lambdas, types and data constructors without applications.
pub proof fn check_const_undoes_push(t: STerm, n: nat, f: nat)
    requires
        is_rigid(t),
        s_push(t, n, f) is Some,
    ensures
        s_cc(s_push(t, n, f)->0, n, f) == Some(t),
    decreases t,
{
    let g = (f - 1) as nat;
    match t {
        STerm::DeBrujin(_, ty) => {
            check_const_undoes_push(*ty, n, g);
        },
        STerm::Lam(a, b) => {
            check_const_undoes_push(*a, n, g);
            check_const_undoes_push(*b, n + 1, g);
            rigid_push_rigid(*a, n, g);
            rigid_push_rigid(*b, n + 1, g);
            let a2 = s_push(*a, n, g)->0;
            let b2 = s_push(*b, n + 1, g)->0;
            assert(s_reduce(lam(a2, b2), g) == red_lam(a2, b2, (g - 1) as nat));
            assert(s_push(t, n, f) == Some(lam(a2, b2)));
            assert(s_reduce(lam(*a, *b), g) == red_lam(*a, *b, (g - 1) as nat));
        },
        STerm::Pi(a, b) => {
            check_const_undoes_push(*a, n, g);
            check_const_undoes_push(*b, n + 1, g);
        },
        STerm::Succ(a) => {
            check_const_undoes_push(*a, n, g);
        },
        STerm::Eq(a, b, c) => {
            check_const_undoes_push(*a, n, g);
            check_const_undoes_push(*b, n, g);
            check_const_undoes_push(*c, n, g);
        },
        STerm::Sig(a) => {
            check_const_undoes_push(*a, n, g);
        },
        STerm::Pair(a, b, c) => {
            check_const_undoes_push(*a, n, g);
            check_const_undoes_push(*b, n, g);
            check_const_undoes_push(*c, n, g);
        },
        _ => {},
    }
}

/// The index `¬(¬(I₁ ∧ i) ∧ ¬(I₀ ∧ ¬i))` that splitting from `I₀` to `I₁` builds is `i`.
proof fn split_index_is_identity()
    ensures
        sh(STerm::IA) == Some(STerm::IA),
        sh(STerm::IB) == Some(STerm::IB),
        var_of(STerm::II) == Some(db(0, STerm::II)),
        rd(iand(STerm::IB, db(0, STerm::II))) == Some(db(0, STerm::II)),
        rd(inot(db(0, STerm::II))) == Some(inot(db(0, STerm::II))),
        rd(iand(STerm::IA, inot(db(0, STerm::II)))) == Some(STerm::IA),
        rd(inot(STerm::IA)) == Some(STerm::IB),
        rd(iand(inot(db(0, STerm::II)), STerm::IB)) == Some(inot(db(0, STerm::II))),
        rd(inot(inot(db(0, STerm::II)))) == Some(db(0, STerm::II)),
{
    let f = FUEL as nat;
    let i = db(0, STerm::II);
    let ni = inot(i);
    assert(sh(STerm::II) == Some(STerm::II));
    assert(s_reduce(i, (f - 1) as nat) == Some(i));
    and_with_second_point(i, (f - 1) as nat);
    not_twice_gives_back(i, f);
    and_with_first_point(ni, f);
    not_swaps_endpoints(f);
    assert(s_reduce(ni, (f - 1) as nat) == Some(ni)) by {
        not_twice_gives_back(i, (f - 1) as nat);
    }
    and_with_second_point(ni, (f - 1) as nat);
    not_involutive(i, f);
}

/// A variable whose type is an equality stays such a variable when pushed, and keeps an
/// equality type.
proof fn pushed_path_variable(k: nat, ty: STerm)
    requires
        ty is Eq,
        is_rigid(ty),
        s_push(db(k, ty), 0, (FUEL - 4) as nat) is Some,
    ensures
        sh(db(k, ty)) is Some,
        sh(db(k, ty))->0 is DeBrujin,
        s_typed(sh(db(k, ty))->0, (FUEL - 1) as nat) is Some,
        s_typed(sh(db(k, ty))->0, (FUEL - 1) as nat)->0 is Eq,
        s_cc(sh(db(k, ty))->0, 0, (FUEL - 1) as nat) == Some(db(k, ty)),
{
    let eq = db(k, ty);
    let f = FUEL as nat;
    rigid_push_fuel(eq, 0, (FUEL - 4) as nat, f);
    rigid_push_fuel(eq, 0, (FUEL - 4) as nat, (FUEL - 1) as nat);
    check_const_undoes_push(eq, 0, (FUEL - 1) as nat);
    let ty2 = s_push(ty, 0, (f - 1) as nat);
    assert(ty2 is Some);
    assert(ty2->0 is Eq);
    assert(sh(eq)->0 == db(k + 1, ty2->0) || sh(eq)->0 == db(k, ty2->0));
}

/// An equality variable applied to an index that is not an endpoint stays an application.
proof fn applied_path_variable_stays(e: STerm, i: STerm, f: nat)
    requires
        e is DeBrujin,
        s_typed(e, f) is Some,
        s_typed(e, f)->0 is Eq,
        i != STerm::IA,
        i != STerm::IB,
    ensures
        s_reduce(equw(e, i), f + 1) == Some(equw(e, i)),
{
    assert(red_equw(e, i, f) == Some(equw(e, i)));
}

/// A lambda whose body is not an application stays a lambda.
proof fn lambda_over_non_application_stays(ty: STerm, body: STerm, f: nat)
    requires
        !(body is App),
    ensures
        s_reduce(lam(ty, body), f + 1) == Some(lam(ty, body)),
{
    assert(red_lam(ty, body, f) == Some(lam(ty, body)));
}

/// Eta for equalities: `λ i, e @ i` wrapped as an equality is `e` when `e` does not
/// mention `i`.
pub proof fn eqlam_eta(ty: STerm, e: STerm, lowered: STerm, f: nat)
    requires
        s_cc(e, 0, f) == Some(lowered),
    ensures
        s_reduce(eqlam(lam(ty, equw(e, db(0, ty)))), f + 1) == Some(lowered),
{
    assert(red_eqlam(lam(ty, equw(e, db(0, ty))), f) == Some(lowered));
}

/// Applying a variable path, pushed under the index's binder, to the index, abstracting the
/// index and wrapping the result as an equality gives the variable back.
proof fn wrapped_variable_path(k: nat, ty: STerm)
    requires
        ty is Eq,
        is_rigid(ty),
        s_push(db(k, ty), 0, (FUEL - 4) as nat) is Some,
    ensures
        sh(db(k, ty)) is Some,
        rd(equw(sh(db(k, ty))->0, db(0, STerm::II))) == Some(equw(sh(db(k, ty))->0, db(0, STerm::II))),
        rd(lam(STerm::II, equw(sh(db(k, ty))->0, db(0, STerm::II)))) == Some(
            lam(STerm::II, equw(sh(db(k, ty))->0, db(0, STerm::II))),
        ),
        rd(eqlam(lam(STerm::II, equw(sh(db(k, ty))->0, db(0, STerm::II))))) == Some(db(k, ty)),
{
    pushed_path_variable(k, ty);
    let eq1 = sh(db(k, ty))->0;
    let i = db(0, STerm::II);
    applied_path_variable_stays(eq1, i, (FUEL - 1) as nat);
    lambda_over_non_application_stays(STerm::II, equw(eq1, i), (FUEL - 1) as nat);
    eqlam_eta(STerm::II, eq1, db(k, ty), (FUEL - 1) as nat);
}

/// Splitting a path held in a variable from `I₀` to `I₁` gives the path back:
/// `split_path(p, I₀, I₁) = p`, for a variable `p` whose type is an equality built from
/// variables, lambdas, types and data constructors without applications, such as `a ≡ b`
/// between numerals.
pub proof fn split_path_whole_variable(k: nat, ty: STerm)
    requires
        ty is Eq,
        is_rigid(ty),
        s_push(db(k, ty), 0, (FUEL - 4) as nat) is Some,
    ensures
        split_path_term(db(k, ty), STerm::IA, STerm::IB) == Some(db(k, ty)),
{
    split_index_is_identity();
    wrapped_variable_path(k, ty);
}

/// The index `¬(¬(I₀ ∧ i) ∧ ¬(I₀ ∧ ¬i))` that splitting from `I₀` to `I₀` builds is `I₀`.
proof fn split_index_at_first_point()
    ensures
        rd(iand(STerm::IA, db(0, STerm::II))) == Some(STerm::IA),
        rd(inot(STerm::IA)) == Some(STerm::IB),
        rd(inot(db(0, STerm::II))) == Some(inot(db(0, STerm::II))),
        rd(iand(STerm::IA, inot(db(0, STerm::II)))) == Some(STerm::IA),
        rd(iand(STerm::IB, STerm::IB)) == Some(STerm::IB),
        rd(inot(STerm::IB)) == Some(STerm::IA),
{
    let f = FUEL as nat;
    let i = db(0, STerm::II);
    and_with_first_point(i, f);
    not_swaps_endpoints(f);
    not_twice_gives_back(i, f);
    and_with_first_point(inot(i), f);
    and_with_second_point(STerm::IB, (f - 1) as nat);
}

/// A path variable of type `a ≡ b`, pushed under a binder, applied to `I₀` gives `a` pushed.
proof fn pushed_path_start(k: nat, fam: STerm, a: STerm, b: STerm)
    requires
        is_rigid(eqty(fam, a, b)),
        s_push(db(k, eqty(fam, a, b)), 0, (FUEL - 4) as nat) is Some,
    ensures
        sh(db(k, eqty(fam, a, b))) is Some,
        sh(a) is Some,
        rd(equw(sh(db(k, eqty(fam, a, b)))->0, STerm::IA)) == sh(a),
        is_rigid(sh(a)->0),
{
    let ty = eqty(fam, a, b);
    let eq = db(k, ty);
    let f = FUEL as nat;
    rigid_push_fuel(eq, 0, (FUEL - 4) as nat, f);
    let t1 = s_push(ty, 0, (f - 1) as nat);
    assert(t1 is Some);
    let a1 = s_push(a, 0, (f - 2) as nat);
    assert(a1 is Some);
    assert(t1->0 == eqty(s_push(fam, 0, (f - 2) as nat)->0, a1->0, s_push(b, 0, (f - 2) as nat)->0));
    assert(sh(eq)->0 == db(k + 1, t1->0) || sh(eq)->0 == db(k, t1->0));
    assert(s_typed(sh(eq)->0, (f - 1) as nat) == t1);
    assert(red_equw(sh(eq)->0, STerm::IA, (f - 1) as nat) == a1);
    rigid_push_fuel(a, 0, (f - 2) as nat, f);
    rigid_push_rigid(a, 0, f);
}

/// Splitting a path held in a variable from `I₀` to `I₀` gives the constant path at its
/// start: `split_path(p, I₀, I₀) = refl (p I₀)`, for a variable `p : a ≡ b` whose type is
/// built from variables, lambdas, types and data constructors without applications.
pub proof fn split_path_constant_at_start(k: nat, fam: STerm, a: STerm, b: STerm)
    requires
        is_rigid(eqty(fam, a, b)),
        s_push(db(k, eqty(fam, a, b)), 0, (FUEL - 4) as nat) is Some,
    ensures
        split_path_term(db(k, eqty(fam, a, b)), STerm::IA, STerm::IA) == refl_term(a),
{
    split_index_is_identity();
    split_index_at_first_point();
    pushed_path_start(k, fam, a, b);
    let a1 = sh(a)->0;
    let f = FUEL as nat;
    lambda_over_non_application_stays(STerm::II, a1, (f - 1) as nat);
    assert(red_eqlam(lam(STerm::II, a1), (f - 1) as nat) == Some(eqlam(lam(STerm::II, a1))));
}

/// Reflexivity on a term built from variables, lambdas, types and data constructors
/// without applications is the constant path `EqLam(λ i, a)`, with `a` shifted under the
/// binder.
pub proof fn refl_shape(a: STerm)
    requires
        is_rigid(a),
        s_push(a, 0, (FUEL - 4) as nat) is Some,
    ensures
        sh(a) is Some,
        is_rigid(sh(a)->0),
        refl_term(a) == Some(eqlam(lam(STerm::II, sh(a)->0))),
{
    let f = FUEL as nat;
    rigid_push_fuel(a, 0, (FUEL - 4) as nat, f);
    rigid_push_rigid(a, 0, (FUEL - 4) as nat);
    let a1 = sh(a)->0;
    assert(sh(STerm::II) == Some(STerm::II));
    lambda_over_non_application_stays(STerm::II, a1, (f - 1) as nat);
    assert(red_eqlam(lam(STerm::II, a1), (f - 1) as nat) == Some(eqlam(lam(STerm::II, a1))));
}

/// The constant path's function applied to an endpoint gives the term back, at any fuel
/// `h` two above the fuel `k` at which the term pushes and has a type.
proof fn constant_family_at_point(a: STerm, x: STerm, k: nat, h: nat)
    requires
        is_rigid(a),
        s_push(a, 0, k) is Some,
        s_typed(a, k) is Some,
        k + 2 <= h,
        h <= FUEL,
        x == STerm::IA || x == STerm::IB,
    ensures
        sh(a) is Some,
        s_reduce(app(lam(STerm::II, sh(a)->0), x), h) == Some(a),
{
    let f = FUEL as nat;
    rigid_push_fuel(a, 0, k, f);
    rigid_push_fuel(a, 0, k, (h - 1) as nat);
    rigid_push_rigid(a, 0, k);
    let a1 = sh(a)->0;
    rigid_typed_push(a, 0, k);
    rigid_typed_fuel(a1, k, (h - 2) as nat);
    subst_point_undoes_push(a, 0, (h - 1) as nat, x);
    let l = lam(STerm::II, a1);
    assert(s_typed(l, (h - 1) as nat) == Some(pi(STerm::II, s_typed(a1, (h - 2) as nat)->0)));
    assert(s_typed(x, (h - 1) as nat) == Some(STerm::II));
    assert(red_app(l, x, (h - 1) as nat) == Some(a));
}

/// Reflexivity has the straight equality type: `(refl a).typed()` is `a ≡ a`, for a term
/// `a` built from variables, lambdas, types and data constructors without applications.
pub proof fn refl_has_type(a: STerm)
    requires
        is_rigid(a),
        s_push(a, 0, (FUEL - 4) as nat) is Some,
        s_typed(a, (FUEL - 4) as nat) is Some,
    ensures
        refl_term(a) is Some,
        straight_eq_term(a, a) is Some,
        s_typed(refl_term(a)->0, STEP_FUEL as nat) == straight_eq_term(a, a),
{
    let f = FUEL as nat;
    let k = (FUEL - 4) as nat;
    refl_shape(a);
    constant_family_at_point(a, STerm::IA, k, (f - 2) as nat);
    constant_family_at_point(a, STerm::IB, k, (f - 2) as nat);
    let a1 = sh(a)->0;
    let l = lam(STerm::II, a1);
    rigid_push_fuel(a, 0, k, f);
    rigid_typed_push(a, 0, k);
    rigid_typed_fuel(a1, k, (f - 3) as nat);
    rigid_typed_rigid(a1, (f - 3) as nat);
    let ta1 = s_typed(a1, (f - 3) as nat)->0;
    assert(s_typed(l, (f - 2) as nat) == Some(pi(STerm::II, ta1)));
    lambda_over_non_application_stays(STerm::II, ta1, (f - 3) as nat);
    lambda_over_non_application_stays(STerm::II, ta1, (f - 1) as nat);
    let t4 = s_typed(a, k)->0;
    rigid_typed_fuel(a, k, f);
    rigid_typed_rigid(a, k);
    rigid_push_fuel(t4, 0, k, f);
    assert(ta1 == sh(t4)->0);
    assert(var_of(STerm::II) is Some) by {
        assert(sh(STerm::II) == Some(STerm::II));
    }
    assert(s_typed(eqlam(l), (f - 1) as nat) == Some(eqty(lam(STerm::II, ta1), a, a)));
}

/// Rebuilding a term built from variables, lambdas, types and data constructors without
/// applications gives it back: `t.pop().ctn() == Ok(t)` for such a term.
pub proof fn rebuilding_rigid_terms_keeps_them(t: STerm)
    requires
        is_rigid(t),
    ensures
        s_reduce(t, FUEL as nat) == Some(t),
{
    if let STerm::Lam(a, b) = t {
        assert(is_rigid(*b));
        lambda_over_non_application_stays(*a, *b, (FUEL - 1) as nat);
    }
}


/// Whether `t` mentions the variable bound `n` binders out: an index equal to `n` at the
/// top level, `n + 1` under one binder, and so on, in a term or in a variable's type.
pub open spec fn mentions(t: STerm, n: nat) -> bool
    decreases t,
{
    match t {
        STerm::DeBrujin(m, ty) => m == n || mentions(*ty, n),
        STerm::Lam(a, b) => mentions(*a, n) || mentions(*b, n + 1),
        STerm::Pi(a, b) => mentions(*a, n) || mentions(*b, n + 1),
        STerm::App(a, b) => mentions(*a, n) || mentions(*b, n),
        STerm::Succ(a) => mentions(*a, n),
        STerm::NatInd(a, _) => mentions(*a, n),
        STerm::Not(a) => mentions(*a, n),
        STerm::And(a, b) => mentions(*a, n) || mentions(*b, n),
        STerm::EqLam(a) => mentions(*a, n),
        STerm::Eq(a, b, c) => mentions(*a, n) || mentions(*b, n) || mentions(*c, n),
        STerm::EqUw(a, b) => mentions(*a, n) || mentions(*b, n),
        STerm::HComp { family, base, first, second } => mentions(*family, n) || mentions(*base, n)
            || mentions(*first, n) || mentions(*second, n),
        STerm::Transp(a, b) => mentions(*a, n) || mentions(*b, n),
        STerm::Sig(a) => mentions(*a, n),
        STerm::Pair(a, b, c) => mentions(*a, n) || mentions(*b, n) || mentions(*c, n),
        STerm::SigInd(a, _) => mentions(*a, n),
        _ => false,
    }
}

/// `check_const(t, n)` succeeds only on a term that does not mention the variable at layer
/// `n` anywhere: not at the top, not under a binder, a negation, a conjunction or any other
/// former, and not in a variable's type.
pub proof fn check_const_fails_on_a_mention(t: STerm, n: nat, f: nat)
    requires
        s_cc(t, n, f) is Some,
    ensures
        !mentions(t, n),
    decreases f,
{
    let g = (f - 1) as nat;
    match t {
        STerm::DeBrujin(_, ty) => {
            check_const_fails_on_a_mention(*ty, n, g);
        },
        STerm::Lam(a, b) => {
            check_const_fails_on_a_mention(*a, n, g);
            check_const_fails_on_a_mention(*b, n + 1, g);
        },
        STerm::Pi(a, b) => {
            check_const_fails_on_a_mention(*a, n, g);
            check_const_fails_on_a_mention(*b, n + 1, g);
        },
        STerm::App(a, b) => {
            check_const_fails_on_a_mention(*a, n, g);
            check_const_fails_on_a_mention(*b, n, g);
        },
        STerm::Succ(a) => {
            check_const_fails_on_a_mention(*a, n, g);
        },
        STerm::NatInd(a, _) => {
            check_const_fails_on_a_mention(*a, n, g);
        },
        STerm::Not(a) => {
            check_const_fails_on_a_mention(*a, n, g);
        },
        STerm::And(a, b) => {
            check_const_fails_on_a_mention(*a, n, g);
            check_const_fails_on_a_mention(*b, n, g);
        },
        STerm::EqLam(a) => {
            check_const_fails_on_a_mention(*a, n, g);
        },
        STerm::Eq(a, b, c) => {
            check_const_fails_on_a_mention(*a, n, g);
            check_const_fails_on_a_mention(*b, n, g);
            check_const_fails_on_a_mention(*c, n, g);
        },
        STerm::EqUw(a, b) => {
            check_const_fails_on_a_mention(*a, n, g);
            check_const_fails_on_a_mention(*b, n, g);
        },
        STerm::HComp { family, base, first, second } => {
            check_const_fails_on_a_mention(*family, n, g);
            check_const_fails_on_a_mention(*base, n, g);
            check_const_fails_on_a_mention(*first, n, g);
            check_const_fails_on_a_mention(*second, n, g);
        },
        STerm::Transp(a, b) => {
            check_const_fails_on_a_mention(*a, n, g);
            check_const_fails_on_a_mention(*b, n, g);
        },
        STerm::Sig(a) => {
            check_const_fails_on_a_mention(*a, n, g);
        },
        STerm::Pair(a, b, c) => {
            check_const_fails_on_a_mention(*a, n, g);
            check_const_fails_on_a_mention(*b, n, g);
            check_const_fails_on_a_mention(*c, n, g);
        },
        STerm::SigInd(a, _) => {
            check_const_fails_on_a_mention(*a, n, g);
        },
        _ => {},
    }
}

/// The type of a dependent function type `Π (x: A), B`, with `A : Type{i}` and
/// `B : Type{j}`, is `Type{max(i, j)}`: never below the universe of its domain nor of its
/// codomain.
pub proof fn function_type_lives_in_the_larger_universe(a: STerm, b: STerm, i: nat, j: nat, f: nat)
    requires
        s_typed(a, f) == Some(STerm::Universe(i)),
        s_typed(b, f) == Some(STerm::Universe(j)),
    ensures
        s_typed(pi(a, b), f + 1) matches Some(STerm::Universe(k)) && k >= i && k >= j && (k == i
            || k == j),
{
}

/// A variable with index `n` and annotated type `ty` is well typed in a context exactly
/// when the context's `n`-th entry counted from the innermost binder is `ty`.
pub proof fn variable_well_typed_by_its_index(n: nat, ty: STerm, ctx: Seq<STerm>)
    ensures
        s_wt(db(n, ty), ctx) <==> (n < ctx.len() && ctx[ctx.len() - 1 - n] == ty),
{
}

/// A lambda is well typed in a context exactly when its parameter type is, and its body is
/// in the context extended by the parameter type (every entry shifted under the binder).
pub proof fn lambda_well_typed_under_its_binder(a: STerm, b: STerm, ctx: Seq<STerm>)
    ensures
        s_wt(lam(a, b), ctx) <==> (s_wt(a, ctx) && match ctx_push(ctx, a) {
            Some(c2) => s_wt(b, c2),
            None => false,
        }),
{
}


/// An application `App(f, x)` with no alias prints as `(`, the text of `f`, a space, the
/// text of `x` and `)`: the function first, then its argument.
pub proof fn application_prints_function_first(
    g: nat,
    t: ContainedTerm,
    fm: ContainedTerm,
    x: ContainedTerm,
    d: DisplayView,
    tc: Seq<STerm>,
    al: Map<STerm, Seq<char>>,
    w: Picks,
    of: Seq<char>,
    ox: Seq<char>,
)
    requires
        *t.0.data == Term::App(fm, x),
        !al.contains_key(t@),
        printed(g, fm, d, tc, al, part(w, 0)) == Some((of, Ending::Complete)),
        printed(g, x, d, tc, al, part(w, 1)) == Some((ox, Ending::Complete)),
    ensures
        printed(g + 1, t, d, tc, al, w) == Some(("("@ + of + " "@ + ox + ")"@, Ending::Complete)),
{
}


/// Symmetry reverses a path held in a variable: `sym p` is `EqLam(λ i, p @ ¬i)`, with `p`
/// shifted under the binder, for a variable `p` whose type is an equality built from
/// variables, lambdas, types and data constructors without applications, such as `1 ≡ 2`.
pub proof fn sym_reverses_a_variable_path(k: nat, ty: STerm)
    requires
        ty is Eq,
        is_rigid(ty),
        s_push(db(k, ty), 0, (FUEL - 4) as nat) is Some,
    ensures
        sh(db(k, ty)) is Some,
        split_path_term(db(k, ty), STerm::IB, STerm::IA) == Some(
            eqlam(lam(STerm::II, equw(sh(db(k, ty))->0, inot(db(0, STerm::II))))),
        ),
{
    split_index_is_identity();
    split_index_at_first_point();
    pushed_path_variable(k, ty);
    let f = FUEL as nat;
    let i = db(0, STerm::II);
    let ni = inot(i);
    and_with_second_point(ni, (f - 1) as nat);
    assert(s_reduce(ni, (f - 1) as nat) == Some(ni)) by {
        not_twice_gives_back(i, (f - 1) as nat);
    }
    let p1 = sh(db(k, ty))->0;
    applied_path_variable_stays(p1, ni, (f - 1) as nat);
    let body = equw(p1, ni);
    lambda_over_non_application_stays(STerm::II, body, (f - 1) as nat);
    assert(red_eqlam(lam(STerm::II, body), (f - 1) as nat) == Some(eqlam(lam(STerm::II, body))));
}


/// The typing rules of the formers whose type does not depend on computation:
/// `Type{n} : Type{n+1}`, `ℕ : Type{0}`, `0 : ℕ`, `S x : ℕ`, `I : Type{0}`, `I₀ I₁ : I`,
/// `¬x : I`, `x & y : I`, a variable has its annotated type, and `(F, a, b) : Σ F`.
pub proof fn typing_of_constructors(n: nat, x: STerm, y: STerm, ty: STerm, k: nat, fm: STerm, f: nat)
    ensures
        n < usize::MAX ==> s_typed(STerm::Universe(n), f + 1) == Some(STerm::Universe(n + 1)),
        s_typed(STerm::Nat, f + 1) == Some(STerm::Universe(0)),
        s_typed(STerm::Zero, f + 1) == Some(STerm::Nat),
        s_typed(succ(x), f + 1) == Some(STerm::Nat),
        s_typed(STerm::II, f + 1) == Some(STerm::Universe(0)),
        s_typed(STerm::IA, f + 1) == Some(STerm::II),
        s_typed(STerm::IB, f + 1) == Some(STerm::II),
        s_typed(inot(x), f + 1) == Some(STerm::II),
        s_typed(iand(x, y), f + 1) == Some(STerm::II),
        s_typed(db(k, ty), f + 1) == Some(ty),
        s_typed(pair(fm, x, y), f + 1) == Some(sig(fm)),
{
}

/// A lambda `λ (x: A), b` has the type `Π (x: A), B` where `B` is the type of `b`.
pub proof fn lambda_has_function_type(a: STerm, b: STerm, tb: STerm, f: nat)
    requires
        s_typed(b, f) == Some(tb),
    ensures
        s_typed(lam(a, b), f + 1) == Some(pi(a, tb)),
{
}

/// An application `g x` with `g : Π (y: A), B` and `x : A` has the type `B` with `x` put
/// for `y`; with `x` of another type, or `g` not a function, it has no type.
pub proof fn application_typing(g: STerm, x: STerm, a: STerm, b: STerm, f: nat)
    ensures
        s_typed(g, f) == Some(pi(a, b)) && s_typed(x, f) == Some(a) ==> s_typed(app(g, x), f + 1)
            == s_subst(b, x, 0, f),
        s_typed(x, f) is Some && !(s_typed(g, f) matches Some(STerm::Pi(p, _)) && *p == s_typed(
            x,
            f,
        )->0) ==> s_typed(app(g, x), f + 1) is None,
{
}

/// Transport `Transp(p, v)` has the type `p I₁`; a path `e : Eq(F, a, b)` applied to `i`
/// has the type `F i`.
pub proof fn transport_and_path_application_typing(p: STerm, v: STerm, e: STerm, fam: STerm, a: STerm, b: STerm, i: STerm, f: nat)
    ensures
        s_typed(transp(p, v), f + 1) == s_reduce(app(p, STerm::IB), f),
        s_typed(e, f) == Some(eqty(fam, a, b)) ==> s_typed(equw(e, i), f + 1) == s_reduce(app(fam, i), f),
{
}

/// The type of induction on naturals at level `u`, when it has one, is
/// `Π (fam: ℕ → Type{u}) (init: fam 0) (next: Π (n: ℕ) (x: fam n), fam (S n)), fam t`, and it
/// has one only on a natural.
pub proof fn natind_typing_shape(t: STerm, u: nat, f: nat)
    requires
        s_typed(natind(t, u), f + 1) is Some,
    ensures
        s_typed(t, f) == Some(STerm::Nat),
        match s_typed(natind(t, u), f + 1)->0 {
            STerm::Pi(fam, rest) => *fam == pi(STerm::Nat, STerm::Universe(u)) && match *rest {
                STerm::Pi(init, rest2) => *init == app(db(0, pi(STerm::Nat, STerm::Universe(u))), STerm::Zero)
                    && match *rest2 {
                    STerm::Pi(next, _) => *next == pi(
                        STerm::Nat,
                        pi(
                            app(db(2, pi(STerm::Nat, STerm::Universe(u))), db(0, STerm::Nat)),
                            app(db(3, pi(STerm::Nat, STerm::Universe(u))), succ(db(1, STerm::Nat))),
                        ),
                    ),
                    _ => false,
                },
                _ => false,
            },
            _ => false,
        },
{
    let g = f;
    let family = pi(STerm::Nat, STerm::Universe(u));
    assert(s_typed(natind(t, u), f + 1) == crate::semantics::typed_natind(t, u, g));
    let i0 = app(db(0, family), STerm::Zero);
    assert(s_reduce(i0, g) == crate::semantics::red_app(db(0, family), STerm::Zero, (g - 1) as nat));
    assert(s_reduce(db(0, family), (g - 1) as nat) == Some(db(0, family)));
    let c0 = app(db(2, family), db(0, STerm::Nat));
    assert(s_reduce(c0, g) == crate::semantics::red_app(db(2, family), db(0, STerm::Nat), (g - 1) as nat));
    assert(s_reduce(db(2, family), (g - 1) as nat) == Some(db(2, family)));
    let n0 = app(db(3, family), succ(db(1, STerm::Nat)));
    assert(s_reduce(n0, g) == crate::semantics::red_app(db(3, family), succ(db(1, STerm::Nat)), (g - 1) as nat));
    assert(s_reduce(db(3, family), (g - 1) as nat) == Some(db(3, family)));
}

/// A term that has an alias prints as its alias.
pub proof fn aliased_terms_print_as_their_alias(
    g: nat,
    t: ContainedTerm,
    d: DisplayView,
    tc: Seq<STerm>,
    al: Map<STerm, Seq<char>>,
    w: Picks,
)
    requires
        al.contains_key(t@),
    ensures
        printed(g + 1, t, d, tc, al, w) == Some((al[t@], Ending::Complete)),
{
}

/// Without an alias, the constants print as `Type{n}`, `ℕ`, `0`, `I`, `I₀` and `I₁`.
pub proof fn constants_print_by_their_symbols(
    g: nat,
    t: ContainedTerm,
    n: Natural,
    d: DisplayView,
    tc: Seq<STerm>,
    al: Map<STerm, Seq<char>>,
    w: Picks,
)
    requires
        !al.contains_key(t@),
    ensures
        *t.0.data == Term::Universe(n) ==> printed(g + 1, t, d, tc, al, w) == Some(
            ("Type{"@ + decimal(n@) + "}"@, Ending::Complete),
        ),
        *t.0.data == Term::Nat ==> printed(g + 1, t, d, tc, al, w) == Some(("\u{2115}"@, Ending::Complete)),
        *t.0.data == Term::Zero ==> printed(g + 1, t, d, tc, al, w) == Some(("0"@, Ending::Complete)),
        *t.0.data == Term::II ==> printed(g + 1, t, d, tc, al, w) == Some(("I"@, Ending::Complete)),
        *t.0.data == Term::IA ==> printed(g + 1, t, d, tc, al, w) == Some(("I\u{2080}"@, Ending::Complete)),
        *t.0.data == Term::IB ==> printed(g + 1, t, d, tc, al, w) == Some(("I\u{2081}"@, Ending::Complete)),
{
}

/// Without an alias, and when their parts print completely: `¬x` prints as `¬` and `x`;
/// `x & y` as `(x&y)`; `p @ i` as `p@i`; a pair `(F, a, b)` as `(a,b)`; a transport as
/// `Transp(p)(x)`; `Σ F` as `Σ` and `F`; `EqLam f` as `EqLam` and `f`.
pub proof fn formers_print_their_parts_in_order(
    g: nat,
    t: ContainedTerm,
    x: ContainedTerm,
    y: ContainedTerm,
    fm: ContainedTerm,
    d: DisplayView,
    tc: Seq<STerm>,
    al: Map<STerm, Seq<char>>,
    w: Picks,
    ox: Seq<char>,
    oy: Seq<char>,
)
    requires
        !al.contains_key(t@),
        printed(g, x, d, tc, al, part(w, 0)) == Some((ox, Ending::Complete)),
        printed(g, y, d, tc, al, part(w, 1)) == Some((oy, Ending::Complete)),
    ensures
        *t.0.data == Term::Not(x) ==> printed(g + 1, t, d, tc, al, w) == Some(("\u{AC}"@ + ox, Ending::Complete)),
        *t.0.data == Term::And(x, y) ==> printed(g + 1, t, d, tc, al, w) == Some(
            ("("@ + ox + "&"@ + oy + ")"@, Ending::Complete),
        ),
        *t.0.data == Term::EqUw(x, y) ==> printed(g + 1, t, d, tc, al, w) == Some(
            (ox + "@"@ + oy, Ending::Complete),
        ),
        *t.0.data == Term::Pair(fm, x, y) ==> printed(g + 1, t, d, tc, al, w) == Some(
            ("("@ + ox + ","@ + oy + ")"@, Ending::Complete),
        ),
        *t.0.data == Term::Transp(x, y) ==> printed(g + 1, t, d, tc, al, w) == Some(
            ("Transp("@ + ox + ")("@ + oy + ")"@, Ending::Complete),
        ),
        *t.0.data == Term::Sig(x) ==> printed(g + 1, t, d, tc, al, w) == Some(("\u{3A3}"@ + ox, Ending::Complete)),
        *t.0.data == Term::EqLam(x) ==> printed(g + 1, t, d, tc, al, w) == Some(("EqLam"@ + ox, Ending::Complete)),
{
    reveal_strlit("");
    assert(""@.len() == 0);
    assert("\u{AC}"@ + ox + ""@ =~= "\u{AC}"@ + ox);
    assert(Seq::<char>::empty() + ox + "@"@ + oy + ""@ =~= ox + "@"@ + oy);
    assert("\u{3A3}"@ + ox + ""@ =~= "\u{3A3}"@ + ox);
    assert("EqLam"@ + ox + ""@ =~= "EqLam"@ + ox);
}

/// A lambda or a function type over `ty` with binder name `base` prints as
/// `(name: ty → body)`, where `name` is `base` with the subscript of how often `base` is
/// already in use, and the body is printed with that name for its variable and `ty` pushed on
/// the typing context.
pub proof fn binders_print_name_type_and_body(
    g: nat,
    t: ContainedTerm,
    ty: ContainedTerm,
    body: ContainedTerm,
    nm: Naming,
    d: DisplayView,
    tc: Seq<STerm>,
    al: Map<STerm, Seq<char>>,
    w: Picks,
    oty: Seq<char>,
    ob: Seq<char>,
)
    requires
        !al.contains_key(t@),
        *t.0.data == Term::Lam(ty, body, nm) || *t.0.data == Term::Pi(ty, body, nm),
        uses(d, nm.0@) < usize::MAX,
        printed(g, ty, d, tc, al, part(w, 0)) == Some((oty, Ending::Complete)),
        printed(g, body, with_name(d, nm.0@), tc_after_push(tc, ty@), al, part(w, 1)) == Some(
            (ob, Ending::Complete),
        ),
    ensures
        printed(g + 1, t, d, tc, al, w) == Some(
            (
                "("@ + (nm.0@ + subscript(uses(d, nm.0@))) + ": "@ + oty + " \u{2192} "@ + ob + ")"@,
                Ending::Complete,
            ),
        ),
{
    let d2 = with_name(d, nm.0@);
    assert(printed(g + 1, t, d, tc, al, w) == crate::display::printed_binder(g, ty, body, nm.0@, d, tc, al, w));
    assert(d2.names.last() == nm.0@ + subscript(uses(d, nm.0@)));
    assert("("@ + d2.names.last() + ": "@ + oty + " \u{2192} "@ + ob + ")"@ =~= "("@ + (nm.0@ + subscript(
        uses(d, nm.0@),
    )) + ": "@ + oty + " \u{2192} "@ + ob + ")"@);
}

/// A variable whose annotated type is the type the typing context holds for its index prints
/// as the name the display context holds for that index.
pub proof fn variables_print_their_binder_name(
    g: nat,
    t: ContainedTerm,
    n: Natural,
    ty: ContainedTerm,
    d: DisplayView,
    tc: Seq<STerm>,
    al: Map<STerm, Seq<char>>,
    w: Picks,
)
    requires
        !al.contains_key(t@),
        *t.0.data == Term::DeBrujin(n, ty),
        n@ < tc.len(),
        tc[tc.len() - 1 - n@] == ty@,
        n@ < d.names.len(),
    ensures
        printed(g + 1, t, d, tc, al, w) == Some((d.names[d.names.len() - 1 - n@], Ending::Complete)),
{
    assert(crate::semantics::ctx_get(tc, n@) == Some(ty@));
    assert(printed(g + 1, t, d, tc, al, w) == crate::display::printed_var(g, n@, ty, d, tc, al, w));
}

/// Without an alias: a successor of a numeral `k` prints as the decimal digits of `k + 1`;
/// induction on `v` at level `u` as `(Ind{u} v)`; and an equality over a reflexive line
/// between `x` and `y` as `(x≡y)`.
pub proof fn numbers_induction_and_equalities_print(
    g: nat,
    t: ContainedTerm,
    x: ContainedTerm,
    y: ContainedTerm,
    p: ContainedTerm,
    u: Natural,
    k: nat,
    d: DisplayView,
    tc: Seq<STerm>,
    al: Map<STerm, Seq<char>>,
    w: Picks,
    ox: Seq<char>,
    oy: Seq<char>,
)
    requires
        !al.contains_key(t@),
        printed(g, x, d, tc, al, part(w, 0)) == Some((ox, Ending::Complete)),
        printed(g, y, d, tc, al, part(w, 1)) == Some((oy, Ending::Complete)),
    ensures
        *t.0.data == Term::Succ(x) && number_of(x@) == Some(k) && k <= usize::MAX ==> printed(g + 1, t, d, tc, al, w)
            == Some((decimal(k + 1), Ending::Complete)),
        *t.0.data == Term::NatInd(x, u) ==> printed(g + 1, t, d, tc, al, w) == Some(
            ("(Ind{"@ + decimal(u@) + "} "@ + ox + ")"@, Ending::Complete),
        ),
        *t.0.data == Term::Eq(p, x, y) && (s_refl(p@, STerm::IA, STEP_FUEL as nat) matches Some(Some(_)))
            ==> printed(g + 1, t, d, tc, al, w) == Some(("("@ + ox + "\u{2261}"@ + oy + ")"@, Ending::Complete)),
{
    assert("("@ + "Ind{"@ + decimal(u@) + "} "@ + ox + ")"@ =~= "(Ind{"@ + decimal(u@) + "} "@ + ox + ")"@) by {
        reveal_strlit("(");
        reveal_strlit("Ind{");
        reveal_strlit("(Ind{");
    }
    assert(*t.0.data == Term::Eq(p, x, y) ==> printed(g + 1, t, d, tc, al, w) == crate::display::printed_eq(
        g,
        p,
        x,
        y,
        d,
        tc,
        al,
        w,
    ));
}

/// What well-typedness asks of each former: `¬x` and `x & y` of interval values, `S x` and
/// induction of naturals, an application's argument of the function's parameter type, a
/// transport's term of the type its line starts at, a pair's second part of the family
/// applied to its first, and an equality wrapping a function on the interval.
pub proof fn well_typedness_asks_matching_types(x: STerm, y: STerm, fm: STerm, u: nat, ctx: Seq<STerm>)
    ensures
        s_wt(inot(x), ctx) ==> s_typed(x, STEP_FUEL as nat) == Some(STerm::II),
        s_wt(iand(x, y), ctx) ==> s_typed(x, STEP_FUEL as nat) == Some(STerm::II) && s_typed(y, STEP_FUEL as nat) == Some(STerm::II),
        s_wt(succ(x), ctx) ==> s_typed(x, STEP_FUEL as nat) == Some(STerm::Nat),
        s_wt(natind(x, u), ctx) ==> s_typed(x, STEP_FUEL as nat) == Some(STerm::Nat),
        s_wt(app(fm, x), ctx) ==> (s_typed(fm, STEP_FUEL as nat) matches Some(STerm::Pi(a, _)) && Some(*a)
            == s_typed(x, STEP_FUEL as nat)),
        s_wt(transp(fm, x), ctx) ==> (s_reduce(app(fm, STerm::IA), FUEL as nat) is Some && s_typed(x, STEP_FUEL as nat)
            == s_reduce(app(fm, STerm::IA), FUEL as nat)),
        s_wt(pair(fm, x, y), ctx) ==> (s_reduce(app(fm, x), FUEL as nat) is Some && s_typed(y, STEP_FUEL as nat)
            == s_reduce(app(fm, x), FUEL as nat)),
        s_wt(eqlam(x), ctx) ==> (s_typed(x, STEP_FUEL as nat) matches Some(STerm::Pi(a, _)) && *a == STerm::II),
        s_wt(app(fm, x), ctx) || s_wt(iand(fm, x), ctx) || s_wt(transp(fm, x), ctx) ==> s_wt(fm, ctx) && s_wt(x, ctx),
{
}

/// How the index operations act on a variable `m` with type `ty`: shifting at `n` raises
/// `m` by one when `m >= n` and keeps it below; substituting `x` at `layer` gives `x` for
/// `m == layer`, keeps smaller indices and lowers larger ones by one; checking constancy at
/// `layer` fails for `m == layer`, keeps smaller indices and lowers larger ones by one. In each
/// case the variable's type is acted on in the same way.
pub proof fn index_operations_on_a_variable(m: nat, ty: STerm, n: nat, x: STerm, f: nat)
    ensures
        m >= n && m < usize::MAX && s_push(ty, n, f) is Some ==> s_push(db(m, ty), n, f + 1) == Some(
            db(m + 1, s_push(ty, n, f)->0),
        ),
        m < n && s_push(ty, n, f) is Some ==> s_push(db(m, ty), n, f + 1) == Some(db(m, s_push(ty, n, f)->0)),
        s_subst(db(n, ty), x, n, f + 1) == Some(x),
        m < n && s_subst(ty, x, n, f) is Some ==> s_subst(db(m, ty), x, n, f + 1) == Some(
            db(m, s_subst(ty, x, n, f)->0),
        ),
        m > n && s_subst(ty, x, n, f) is Some ==> s_subst(db(m, ty), x, n, f + 1) == Some(
            db((m - 1) as nat, s_subst(ty, x, n, f)->0),
        ),
        s_cc(db(n, ty), n, f + 1) is None,
        m < n && s_cc(ty, n, f) is Some ==> s_cc(db(m, ty), n, f + 1) == Some(db(m, s_cc(ty, n, f)->0)),
        m > n && s_cc(ty, n, f) is Some ==> s_cc(db(m, ty), n, f + 1) == Some(
            db((m - 1) as nat, s_cc(ty, n, f)->0),
        ),
{
}

/// Every index in a term fits in a machine word, as in every term the library builds.
pub open spec fn indices_fit(t: STerm) -> bool
    decreases t,
{
    match t {
        STerm::DeBrujin(m, ty) => m <= usize::MAX && indices_fit(*ty),
        STerm::Lam(a, b) => indices_fit(*a) && indices_fit(*b),
        STerm::Pi(a, b) => indices_fit(*a) && indices_fit(*b),
        STerm::Succ(a) => indices_fit(*a),
        STerm::Eq(a, b, c) => indices_fit(*a) && indices_fit(*b) && indices_fit(*c),
        STerm::Sig(a) => indices_fit(*a),
        STerm::Pair(a, b, c) => indices_fit(*a) && indices_fit(*b) && indices_fit(*c),
        _ => true,
    }
}

/// Checking constancy, then shifting back, gives the term back: when `check_const(t, n)`
/// succeeds on a term built from variables, lambdas, types and data constructors without
/// applications and whose indices fit in a machine word, pushing its result at `n` gives `t`.
#[verifier::rlimit(80)]
pub proof fn push_undoes_check_const(t: STerm, n: nat, f: nat)
    requires
        is_rigid(t),
        indices_fit(t),
        s_cc(t, n, f) is Some,
    ensures
        is_rigid(s_cc(t, n, f)->0),
        s_cc(t, n, f)->0 is Lam ==> t is Lam,
        s_push(s_cc(t, n, f)->0, n, f) == Some(t),
    decreases t,
{
    let g = (f - 1) as nat;
    match t {
        STerm::DeBrujin(m, ty) => {
            push_undoes_check_const(*ty, n, g);
        },
        STerm::Lam(a, b) => {
            push_undoes_check_const(*a, n, g);
            push_undoes_check_const(*b, n + 1, g);
            let a2 = s_cc(*a, n, g)->0;
            let b2 = s_cc(*b, n + 1, g)->0;
            assert(s_reduce(lam(a2, b2), g) == red_lam(a2, b2, (g - 1) as nat));
            assert(s_cc(t, n, f) == Some(lam(a2, b2)));
            assert(s_reduce(lam(*a, *b), g) == red_lam(*a, *b, (g - 1) as nat));
        },
        STerm::Pi(a, b) => {
            push_undoes_check_const(*a, n, g);
            push_undoes_check_const(*b, n + 1, g);
        },
        STerm::Succ(a) => {
            push_undoes_check_const(*a, n, g);
        },
        STerm::Eq(a, b, c) => {
            push_undoes_check_const(*a, n, g);
            push_undoes_check_const(*b, n, g);
            push_undoes_check_const(*c, n, g);
        },
        STerm::Sig(a) => {
            push_undoes_check_const(*a, n, g);
        },
        STerm::Pair(a, b, c) => {
            push_undoes_check_const(*a, n, g);
            push_undoes_check_const(*b, n, g);
            push_undoes_check_const(*c, n, g);
        },
        _ => {},
    }
}

/// Transport along a path of types held in a variable `p`, of a type built without
/// applications, is `Transp(λ i, p @ i, v)`, with `p` shifted under the binder: it waits for
/// the path to become concrete.
pub proof fn transport_along_a_variable_path(k: nat, ty: STerm, v: STerm)
    requires
        ty is Eq,
        is_rigid(ty),
        s_push(db(k, ty), 0, (FUEL - 4) as nat) is Some,
    ensures
        sh(db(k, ty)) is Some,
        transport_eq_term(db(k, ty), v) == Some(transp(lam(STerm::II, equw(sh(db(k, ty))->0, db(0, STerm::II))), v)),
{
    split_index_is_identity();
    wrapped_variable_path(k, ty);
    let p1 = sh(db(k, ty))->0;
    let l = lam(STerm::II, equw(p1, db(0, STerm::II)));
    assert(s_reduce(transp(l, v), FUEL as nat) == red_transp(l, v, (FUEL - 1) as nat));
}


/// A dependent sum `Σ F` over a family `F : Π (x: A), Type{n}` with `A : Type{i}` lives in
/// `Type{max(i, n + 1)}`, the universe of the family's type; an equality type over a line
/// `λ i, T` with `T : Type{j}` lives in `Type{j}`; and a path `EqLam g`, when it has a type,
/// has an equality type whose ends are what `g I₀` and `g I₁` build to.
pub proof fn sums_equalities_and_paths_typing(
    fm: STerm,
    a: STerm,
    n: nat,
    i: nat,
    ii: STerm,
    t: STerm,
    j: nat,
    x: STerm,
    y: STerm,
    g: STerm,
    f: nat,
)
    ensures
        f >= 2 && n < usize::MAX && s_typed(fm, f) == Some(pi(a, STerm::Universe(n))) && s_typed(a, (f - 1) as nat)
            == Some(STerm::Universe(i)) ==> s_typed(sig(fm), f + 1) == Some(
            STerm::Universe(if i >= n + 1 { i } else { (n + 1) as nat }),
        ),
        f >= 2 && s_typed(t, (f - 1) as nat) == Some(STerm::Universe(j)) ==> s_typed(eqty(lam(ii, t), x, y), f + 1)
            == Some(STerm::Universe(j)),
        s_typed(eqlam(g), f + 1) is Some ==> (s_typed(eqlam(g), f + 1)->0 matches STerm::Eq(_, l, r) && Some(*l)
            == s_reduce(app(g, STerm::IA), f) && Some(*r) == s_reduce(app(g, STerm::IB), f)),
{
    if f >= 2 && n < usize::MAX && s_typed(fm, f) == Some(pi(a, STerm::Universe(n))) && s_typed(a, (f - 1) as nat)
        == Some(STerm::Universe(i)) {
        assert(s_typed(STerm::Universe(n), (f - 1) as nat) == Some(STerm::Universe(n + 1)));
        assert(s_typed(pi(a, STerm::Universe(n)), f) == Some(
            STerm::Universe(if i >= n + 1 { i } else { (n + 1) as nat }),
        ));
    }
    if f >= 2 && s_typed(t, (f - 1) as nat) == Some(STerm::Universe(j)) {
        assert(s_typed(STerm::II, (f - 1) as nat) == Some(STerm::Universe(0)));
        assert(s_typed(pi(STerm::II, t), f) == Some(STerm::Universe(j)));
    }
}

/// `check_refl(t, e)` finds `t` constant, with value `r`, only when `t` is a lambda whose body
/// is `r` shifted under its binder and `t e` builds to `r`; on anything but a lambda it finds
/// it not constant.
pub proof fn check_refl_finds_constant_lambdas(t: STerm, e: STerm, r: STerm, g: nat)
    ensures
        s_refl(t, e, g) == Some(Some(r)) ==> (t matches STerm::Lam(_, body) && s_push(r, 0, g) == Some(*body)
            && s_reduce(app(t, e), g) == Some(r)),
        !(t is Lam) && s_reduce(app(t, e), g) is Some ==> s_refl(t, e, g) == Some(None::<STerm>),
{
}

/// Pushing at `n` a term built from variables, lambdas, types and data constructors without
/// applications leaves no mention of the variable at layer `n`: that layer is the new, empty
/// one.
pub proof fn push_frees_the_layer(t: STerm, n: nat, f: nat)
    requires
        is_rigid(t),
        s_push(t, n, f) is Some,
    ensures
        !mentions(s_push(t, n, f)->0, n),
    decreases t,
{
    let g = (f - 1) as nat;
    match t {
        STerm::DeBrujin(_, ty) => {
            push_frees_the_layer(*ty, n, g);
        },
        STerm::Lam(a, b) => {
            push_frees_the_layer(*a, n, g);
            push_frees_the_layer(*b, n + 1, g);
            rigid_push_rigid(*a, n, g);
            rigid_push_rigid(*b, n + 1, g);
            let a2 = s_push(*a, n, g)->0;
            let b2 = s_push(*b, n + 1, g)->0;
            assert(s_reduce(lam(a2, b2), g) == red_lam(a2, b2, (g - 1) as nat));
        },
        STerm::Pi(a, b) => {
            push_frees_the_layer(*a, n, g);
            push_frees_the_layer(*b, n + 1, g);
        },
        STerm::Succ(a) => {
            push_frees_the_layer(*a, n, g);
        },
        STerm::Eq(a, b, c) => {
            push_frees_the_layer(*a, n, g);
            push_frees_the_layer(*b, n, g);
            push_frees_the_layer(*c, n, g);
        },
        STerm::Sig(a) => {
            push_frees_the_layer(*a, n, g);
        },
        STerm::Pair(a, b, c) => {
            push_frees_the_layer(*a, n, g);
            push_frees_the_layer(*b, n, g);
            push_frees_the_layer(*c, n, g);
        },
        _ => {},
    }
}

/// A function type is well typed in a context exactly when its domain is, and its codomain
/// is in the context extended by the domain.
pub proof fn function_type_well_typed_under_its_binder(a: STerm, b: STerm, ctx: Seq<STerm>)
    ensures
        s_wt(pi(a, b), ctx) <==> (s_wt(a, ctx) && match ctx_push(ctx, a) {
            Some(c2) => s_wt(b, c2),
            None => false,
        }),
{
}


/// Congruence of a function variable `h : ℕ → ℕ` along a path variable `p : a ≡ b` between
/// naturals (`a` and `b` built without applications) is the path `EqLam(λ i, h (p @ i))`,
/// with `h` and `p` shifted under the binder: its value at `i` is `h` applied to `p`'s.
pub proof fn congruence_applies_the_function_along_the_path(m: nat, k: nat, a: STerm, b: STerm)
    requires
        m < usize::MAX,
        is_rigid(a),
        is_rigid(b),
        s_push(db(k, eqty(lam(STerm::II, STerm::Nat), a, b)), 0, (FUEL - 4) as nat) is Some,
    ensures
        sh(db(k, eqty(lam(STerm::II, STerm::Nat), a, b))) is Some,
        crate::equals::cong_term(db(m, pi(STerm::Nat, STerm::Nat)), db(k, eqty(lam(STerm::II, STerm::Nat), a, b)))
            == Some(
            eqlam(
                lam(
                    STerm::II,
                    app(
                        db(m + 1, pi(STerm::Nat, STerm::Nat)),
                        equw(sh(db(k, eqty(lam(STerm::II, STerm::Nat), a, b)))->0, db(0, STerm::II)),
                    ),
                ),
            ),
        ),
{
    let f = FUEL as nat;
    let fam = lam(STerm::II, STerm::Nat);
    let ty = eqty(fam, a, b);
    let eq = db(k, ty);
    let h = db(m, pi(STerm::Nat, STerm::Nat));
    let h1 = db(m + 1, pi(STerm::Nat, STerm::Nat));
    let i = db(0, STerm::II);
    assert(is_rigid(STerm::Nat));
    assert(is_rigid(STerm::II));
    assert(is_rigid(fam));
    assert(is_rigid(ty));
    assert(is_rigid(eq));
    split_index_is_identity();
    pushed_path_variable(k, ty);
    rigid_push_fuel(eq, 0, (FUEL - 4) as nat, f);
    let eq1 = sh(eq)->0;
    // The function variable moves up by one and keeps its type.
    assert(s_push(STerm::Nat, 0, (f - 2) as nat) == Some(STerm::Nat));
    assert(s_push(STerm::Nat, 1, (f - 2) as nat) == Some(STerm::Nat));
    assert(s_push(pi(STerm::Nat, STerm::Nat), 0, (f - 1) as nat) == Some(pi(STerm::Nat, STerm::Nat)));
    assert(sh(h) == Some(h1));
    // The pushed path variable's type keeps the constant family `λ i, ℕ`.
    let t1 = s_push(ty, 0, (f - 1) as nat);
    assert(t1 is Some);
    assert(s_push(STerm::II, 0, (f - 3) as nat) == Some(STerm::II));
    assert(s_push(STerm::Nat, 1, (f - 3) as nat) == Some(STerm::Nat));
    lambda_over_non_application_stays(STerm::II, STerm::Nat, (f - 4) as nat);
    assert(s_push(fam, 0, (f - 2) as nat) == Some(fam));
    assert(t1->0 == eqty(fam, s_push(a, 0, (f - 2) as nat)->0, s_push(b, 0, (f - 2) as nat)->0));
    assert(eq1 == db(k + 1, t1->0) || eq1 == db(k, t1->0));
    assert(s_typed(eq1, (f - 2) as nat) == t1);
    // `p @ i` stays, and has type `ℕ`.
    applied_path_variable_stays(eq1, i, (f - 1) as nat);
    let ei = equw(eq1, i);
    assert(s_typed(STerm::Nat, (f - 4) as nat) == Some(STerm::Universe(0)));
    assert(s_typed(fam, (f - 3) as nat) == Some(pi(STerm::II, STerm::Universe(0))));
    assert(s_subst(STerm::Nat, i, 0, (f - 3) as nat) == Some(STerm::Nat));
    assert(red_app(fam, i, (f - 3) as nat) == Some(STerm::Nat));
    assert(s_reduce(app(fam, i), (f - 2) as nat) == Some(STerm::Nat));
    assert(s_typed(ei, (f - 1) as nat) == Some(STerm::Nat));
    // `h (p @ i)` stays an application.
    assert(s_typed(h1, (f - 1) as nat) == Some(pi(STerm::Nat, STerm::Nat)));
    assert(s_reduce(h1, (f - 1) as nat) == Some(h1));
    assert(red_app(h1, ei, (f - 1) as nat) == Some(app(h1, ei)));
    assert(rd(app(h1, ei)) == Some(app(h1, ei)));
    // Abstracting `i` and wrapping as an equality leave it as it is.
    let body = app(h1, ei);
    assert(red_lam(STerm::II, body, (f - 1) as nat) == Some(lam(STerm::II, body)));
    assert(rd(lam(STerm::II, body)) == Some(lam(STerm::II, body)));
    assert(red_eqlam(lam(STerm::II, body), (f - 1) as nat) == Some(eqlam(lam(STerm::II, body))));
}

} // verus!
