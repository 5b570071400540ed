//! The mathematical model of terms: de Bruijn terms without binder names,
//! with natural numbers for indices and universe levels.
use vstd::prelude::*;

verus! {

/// A term as the type checker sees it: binder names play no part in it.
pub enum STerm {
    DeBrujin(nat, Box<STerm>),
    Lam(Box<STerm>, Box<STerm>),
    Pi(Box<STerm>, Box<STerm>),
    App(Box<STerm>, Box<STerm>),
    Universe(nat),
    Nat,
    Zero,
    Succ(Box<STerm>),
    NatInd(Box<STerm>, nat),
    II,
    IA,
    IB,
    Not(Box<STerm>),
    And(Box<STerm>, Box<STerm>),
    EqLam(Box<STerm>),
    Eq(Box<STerm>, Box<STerm>, Box<STerm>),
    EqUw(Box<STerm>, Box<STerm>),
    HComp { family: Box<STerm>, base: Box<STerm>, first: Box<STerm>, second: Box<STerm> },
    Transp(Box<STerm>, Box<STerm>),
    Sig(Box<STerm>),
    Pair(Box<STerm>, Box<STerm>, Box<STerm>),
    SigInd(Box<STerm>, nat),
}

pub open spec fn db(n: nat, ty: STerm) -> STerm {
    STerm::DeBrujin(n, Box::new(ty))
}

pub open spec fn lam(a: STerm, b: STerm) -> STerm {
    STerm::Lam(Box::new(a), Box::new(b))
}

pub open spec fn pi(a: STerm, b: STerm) -> STerm {
    STerm::Pi(Box::new(a), Box::new(b))
}

pub open spec fn app(a: STerm, b: STerm) -> STerm {
    STerm::App(Box::new(a), Box::new(b))
}

pub open spec fn succ(a: STerm) -> STerm {
    STerm::Succ(Box::new(a))
}

pub open spec fn natind(a: STerm, n: nat) -> STerm {
    STerm::NatInd(Box::new(a), n)
}

pub open spec fn inot(a: STerm) -> STerm {
    STerm::Not(Box::new(a))
}

pub open spec fn iand(a: STerm, b: STerm) -> STerm {
    STerm::And(Box::new(a), Box::new(b))
}

pub open spec fn eqlam(a: STerm) -> STerm {
    STerm::EqLam(Box::new(a))
}

pub open spec fn eqty(f: STerm, a: STerm, b: STerm) -> STerm {
    STerm::Eq(Box::new(f), Box::new(a), Box::new(b))
}

pub open spec fn equw(e: STerm, i: STerm) -> STerm {
    STerm::EqUw(Box::new(e), Box::new(i))
}

pub open spec fn hcomp(family: STerm, base: STerm, first: STerm, second: STerm) -> STerm {
    STerm::HComp {
        family: Box::new(family),
        base: Box::new(base),
        first: Box::new(first),
        second: Box::new(second),
    }
}

pub open spec fn transp(f: STerm, x: STerm) -> STerm {
    STerm::Transp(Box::new(f), Box::new(x))
}

pub open spec fn sig(f: STerm) -> STerm {
    STerm::Sig(Box::new(f))
}

pub open spec fn pair(f: STerm, a: STerm, b: STerm) -> STerm {
    STerm::Pair(Box::new(f), Box::new(a), Box::new(b))
}

pub open spec fn sigind(s: STerm, n: nat) -> STerm {
    STerm::SigInd(Box::new(s), n)
}

/// The numeral `n` as a term: `n` successors of zero.
pub open spec fn numeral(n: nat) -> STerm
    decreases n,
{
    if n == 0 {
        STerm::Zero
    } else {
        succ(numeral((n - 1) as nat))
    }
}

/// The number a term denotes, when it is a numeral.
pub open spec fn number_of(t: STerm) -> Option<nat>
    decreases t,
{
    match t {
        STerm::Zero => Some(0),
        STerm::Succ(v) => match number_of(*v) {
            Some(k) => Some(k + 1),
            None => None,
        },
        _ => None,
    }
}

/// Terms whose construction never rewrites them: building one of these
/// yields the node itself.
pub open spec fn is_inert(t: STerm) -> bool {
    match t {
        STerm::App(..) | STerm::NatInd(..) | STerm::SigInd(..) | STerm::Not(..) | STerm::And(..)
        | STerm::EqUw(..) | STerm::EqLam(..) | STerm::Transp(..) | STerm::Lam(..) => false,
        _ => true,
    }
}

pub open spec fn tag(t: STerm) -> int {
    match t {
        STerm::DeBrujin(..) => 0,
        STerm::Lam(..) => 1,
        STerm::Pi(..) => 2,
        STerm::App(..) => 3,
        STerm::Universe(..) => 4,
        STerm::Nat => 5,
        STerm::Zero => 6,
        STerm::Succ(..) => 7,
        STerm::NatInd(..) => 8,
        STerm::II => 9,
        STerm::IA => 10,
        STerm::IB => 11,
        STerm::Not(..) => 12,
        STerm::And(..) => 13,
        STerm::EqLam(..) => 14,
        STerm::Eq(..) => 15,
        STerm::EqUw(..) => 16,
        STerm::HComp { .. } => 17,
        STerm::Transp(..) => 18,
        STerm::Sig(..) => 19,
        STerm::Pair(..) => 20,
        STerm::SigInd(..) => 21,
    }
}

pub open spec fn order_int(a: int, b: int) -> int {
    if a < b {
        -1
    } else if a == b {
        0
    } else {
        1
    }
}

pub open spec fn lex(first: int, then: int) -> int {
    if first != 0 {
        first
    } else {
        then
    }
}

/// A structural total order on terms: constructors first, then fields from left to right.
pub open spec fn term_order(a: STerm, b: STerm) -> int
    decreases a,
{
    if tag(a) != tag(b) {
        order_int(tag(a), tag(b))
    } else {
        match a {
            STerm::DeBrujin(n, t) => match b {
                STerm::DeBrujin(m, u) => lex(order_int(n as int, m as int), term_order(*t, *u)),
                _ => 0,
            },
            STerm::Lam(a1, a2) => match b {
                STerm::Lam(b1, b2) => lex(term_order(*a1, *b1), term_order(*a2, *b2)),
                _ => 0,
            },
            STerm::Pi(a1, a2) => match b {
                STerm::Pi(b1, b2) => lex(term_order(*a1, *b1), term_order(*a2, *b2)),
                _ => 0,
            },
            STerm::App(a1, a2) => match b {
                STerm::App(b1, b2) => lex(term_order(*a1, *b1), term_order(*a2, *b2)),
                _ => 0,
            },
            STerm::Universe(n) => match b {
                STerm::Universe(m) => order_int(n as int, m as int),
                _ => 0,
            },
            STerm::Succ(a1) => match b {
                STerm::Succ(b1) => term_order(*a1, *b1),
                _ => 0,
            },
            STerm::NatInd(a1, n) => match b {
                STerm::NatInd(b1, m) => lex(term_order(*a1, *b1), order_int(n as int, m as int)),
                _ => 0,
            },
            STerm::Not(a1) => match b {
                STerm::Not(b1) => term_order(*a1, *b1),
                _ => 0,
            },
            STerm::And(a1, a2) => match b {
                STerm::And(b1, b2) => lex(term_order(*a1, *b1), term_order(*a2, *b2)),
                _ => 0,
            },
            STerm::EqLam(a1) => match b {
                STerm::EqLam(b1) => term_order(*a1, *b1),
                _ => 0,
            },
            STerm::Eq(a1, a2, a3) => match b {
                STerm::Eq(b1, b2, b3) => lex(
                    term_order(*a1, *b1),
                    lex(term_order(*a2, *b2), term_order(*a3, *b3)),
                ),
                _ => 0,
            },
            STerm::EqUw(a1, a2) => match b {
                STerm::EqUw(b1, b2) => lex(term_order(*a1, *b1), term_order(*a2, *b2)),
                _ => 0,
            },
            STerm::HComp { family: a1, base: a2, first: a3, second: a4 } => match b {
                STerm::HComp { family: b1, base: b2, first: b3, second: b4 } => lex(
                    term_order(*a1, *b1),
                    lex(term_order(*a2, *b2), lex(term_order(*a3, *b3), term_order(*a4, *b4))),
                ),
                _ => 0,
            },
            STerm::Transp(a1, a2) => match b {
                STerm::Transp(b1, b2) => lex(term_order(*a1, *b1), term_order(*a2, *b2)),
                _ => 0,
            },
            STerm::Sig(a1) => match b {
                STerm::Sig(b1) => term_order(*a1, *b1),
                _ => 0,
            },
            STerm::Pair(a1, a2, a3) => match b {
                STerm::Pair(b1, b2, b3) => lex(
                    term_order(*a1, *b1),
                    lex(term_order(*a2, *b2), term_order(*a3, *b3)),
                ),
                _ => 0,
            },
            STerm::SigInd(a1, n) => match b {
                STerm::SigInd(b1, m) => lex(term_order(*a1, *b1), order_int(n as int, m as int)),
                _ => 0,
            },
            _ => 0,
        }
    }
}

/// `a` comes strictly before `b` in the structural order.
pub open spec fn term_lt(a: STerm, b: STerm) -> bool {
    term_order(a, b) < 0
}

} // verus!
