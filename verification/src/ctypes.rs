//! The internals of the prover: terms, their normal forms, their types.
use std::rc::Rc;
use vstd::prelude::*;
use crate::model::{STerm, db, lam, number_of, numeral, pi};
use crate::unique::{GlobalMap, Unique};
use crate::semantics::{
    FUEL, STEP_FUEL, s_cc, s_push, s_reduce, s_refl, s_sig_ex0, s_sig_ex1, s_subst, s_typed, s_wt,
};
use crate::kernel::{
    const_node, ctn_unchecked, ps0, reduce_node, refl_of, opt_view, push_node, sig_ex0_of,
    sig_ex1_of, subst_node, term_eq, term_of, typed_node, well_typed_node,
};

verus! {

/// A natural number held in a `usize`; operations that would leave the range are refused.
#[derive(PartialEq, Eq, Structural, Clone, Copy, Debug, Hash)]
pub struct Natural(usize);

impl View for Natural {
    type V = nat;

    closed spec fn view(&self) -> nat {
        self.0 as nat
    }
}

impl Natural {
    /// The number before this one.
    pub fn pred(self) -> (r: Self)
        requires
            self@ > 0,
        ensures
            r@ == self@ - 1,
    {
        Self(self.0 - 1)
    }

    /// The number after this one.
    pub fn suc(self) -> (r: Self)
        requires
            self@ < usize::MAX,
        ensures
            r@ == self@ + 1,
    {
        Self(self.0 + 1)
    }

    /// The sum of two numbers.
    pub fn add(self, other: Self) -> (r: Self)
        requires
            self@ + other@ <= usize::MAX,
        ensures
            r@ == self@ + other@,
    {
        Self(self.0 + other.0)
    }

    /// The difference: `Ok(self - other)` when `other <= self`, else `Err(other - self)`.
    pub fn sub(self, other: Self) -> (r: Result<Self, Self>)
        ensures
            r is Ok <==> self@ >= other@,
            r matches Ok(d) ==> d@ == self@ - other@,
            r matches Err(d) ==> d@ == other@ - self@,
    {
        if self.0 >= other.0 {
            Ok(Self(self.0 - other.0))
        } else {
            Err(Self(other.0 - self.0))
        }
    }

    /// The number after this one, or an error when there is none in range.
    pub fn checked_suc(self) -> (r: Res<Self>)
        ensures
            r matches Ok(m) ==> m@ == self@ + 1,
            r is Ok <==> self@ < usize::MAX,
    {
        if self.0 == usize::MAX {
            err_str("natural number overflow")
        } else {
            Ok(Self(self.0 + 1))
        }
    }

    /// The larger of two numbers.
    pub fn max(self, other: Self) -> (r: Self)
        ensures
            r@ == if self@ >= other@ {
                self@
            } else {
                other@
            },
    {
        if self.0 >= other.0 {
            self
        } else {
            other
        }
    }

    /// The number held in a `usize`.
    pub fn from_usize(n: usize) -> (r: Self)
        ensures
            r@ == n,
    {
        Self(n)
    }

    /// Whether the two numbers are equal.
    pub fn equals(self, other: Self) -> (r: bool)
        ensures
            r == (self@ == other@),
    {
        self.0 == other.0
    }

    /// Whether this number is below the other.
    pub fn less(self, other: Self) -> (r: bool)
        ensures
            r == (self@ < other@),
    {
        self.0 < other.0
    }

    /// Two naturals are equal exactly when their numbers are.
    pub proof fn lemma_view_injective_all()
        ensures
            forall|a: Self, b: Self| #[trigger] a@ == #[trigger] b@ <==> a == b,
    {
    }
}

impl From<u8> for Natural {
    fn from(value: u8) -> (r: Self)
        ensures
            r@ == value as nat,
    {
        Self(value as usize)
    }
}

impl Natural {
    /// The natural made from a byte holds that byte's value.
    pub proof fn from_byte_holds(v: u8)
        ensures
            <Natural as vstd::std_specs::convert::FromSpec<u8>>::from_spec(v)@ == v as nat,
    {
    }
}

impl vstd::std_specs::convert::FromSpecImpl<u8> for Natural {
    open spec fn obeys_from_spec() -> bool {
        true
    }

    closed spec fn from_spec(v: u8) -> Self {
        Natural(v as usize)
    }
}

/// Unwraps a natural into its `usize`.
pub fn unwrap_natural(n: Natural) -> (r: usize)
    ensures
        r == n@,
{
    n.0
}

/// An error with a message.
#[derive(Clone, Debug)]
pub struct ErrorType {
    pub message: String,
}

impl ErrorType {
    /// Creates a new error with a message.
    pub fn new(msg: String) -> (r: Self)
        ensures
            r.message@ == msg@,
    {
        ErrorType { message: msg }
    }

    /// The error as text: `Error: ` and the message, on a line of its own.
    pub fn describe(&self) -> (r: String)
        ensures
            r@ == "Error: "@ + self.message@ + "\n"@,
    {
        let mut s = String::from_str("Error: ");
        s.append(self.message.as_str());
        s.append("\n");
        proof {
            reveal_strlit("Error: ");
            reveal_strlit("\n");
        }
        s
    }
}

/// A result whose error is an [`ErrorType`].
pub type Res<T> = Result<T, ErrorType>;

/// Adding context to an error as it passes by.
pub trait Blame: Sized {
    /// The same outcome; an error keeps its message.
    fn blame(self) -> (r: Self);
}

impl<T> Blame for Res<T> {
    fn blame(self) -> (r: Self)
        ensures
            r matches Ok(v) ==> self == Ok::<T, ErrorType>(v),
            r matches Err(e) ==> (self matches Err(e0) && e.message@ == e0.message@),
            r is Ok <==> self is Ok,
    {
        match self {
            Ok(v) => Ok(v),
            Err(e) => Err(e),
        }
    }
}

/// Converts an option into a result, with `msg` as the error.
pub fn opt_err<T>(x: Option<T>, msg: String) -> (r: Res<T>)
    ensures
        x matches Some(v) ==> r == Ok::<T, ErrorType>(v),
        x is None ==> (r matches Err(e) && e.message@ == msg@),
{
    match x {
        Some(v) => Ok(v),
        None => Err(ErrorType { message: msg }),
    }
}

/// An error with the text as its message.
pub fn err_str<T>(s: &str) -> (r: Res<T>)
    ensures
        r matches Err(e) && e.message@ == s@,
{
    Err(ErrorType { message: s.to_owned() })
}

/// An error with the string as its message.
pub fn err_string<T>(s: String) -> (r: Res<T>)
    ensures
        r matches Err(e) && e.message@ == s@,
{
    Err(ErrorType { message: s })
}

/// The name of a bound variable. Names take no part in comparisons: all namings are equal.
#[derive(Clone, Debug)]
pub struct Naming(pub String);

impl Naming {
    /// A naming from a text.
    pub fn new(s: &str) -> (r: Self)
        ensures
            r.0@ == s@,
    {
        Naming(s.to_owned())
    }
}

impl From<String> for Naming {
    fn from(value: String) -> (r: Self) {
        Naming(value)
    }
}

impl vstd::std_specs::convert::FromSpecImpl<String> for Naming {
    open spec fn obeys_from_spec() -> bool {
        true
    }

    open spec fn from_spec(v: String) -> Self {
        Naming(v)
    }
}

impl PartialEq for Naming {
    fn eq(&self, other: &Self) -> (r: bool) {
        true
    }
}

impl vstd::std_specs::cmp::PartialEqSpecImpl for Naming {
    open spec fn obeys_eq_spec() -> bool {
        true
    }

    open spec fn eq_spec(&self, other: &Self) -> bool {
        true
    }
}

/// A cache of facts about a term: how far it reaches upward, i.e. how many of its
/// variables are unquantified.
#[derive(Clone, Debug)]
pub struct TermCache {
    pub peak: Natural,
}

/// The global map of terms. Terms are compared by structure, so the map hands each
/// term back as it came.
#[derive(Clone, Copy, Debug)]
pub struct GM;

impl GlobalMap<Term> for GM {
    fn insert(&self, v: Rc<Term>) -> (r: Rc<Term>) {
        v
    }
}

/// A term together with everything below it, held behind a shared handle.
/// Every contained term made by [`Term::ctn`] is in normal form.
#[derive(Debug)]
pub struct ContainedTerm(pub Unique<GM, Term>);

/// A term of the calculus; every term is a type.
#[derive(Debug)]
pub enum Term {
    /// A variable: the number of binders between it and its own, and its type.
    DeBrujin(Natural, ContainedTerm),
    /// A lambda abstraction: the parameter type, the body, the parameter's name.
    Lam(ContainedTerm, ContainedTerm, Naming),
    /// A dependent function type: the parameter type, the result type, the parameter's name.
    Pi(ContainedTerm, ContainedTerm, Naming),
    /// A function application.
    App(ContainedTerm, ContainedTerm),
    /// A type universe.
    Universe(Natural),
    /// The type of natural numbers.
    Nat,
    /// The natural number zero.
    Zero,
    /// The successor of a natural number.
    Succ(ContainedTerm),
    /// The induction principle on naturals, at a number and a universe level.
    NatInd(ContainedTerm, Natural),
    /// The interval type.
    II,
    /// The first point of the interval.
    IA,
    /// The second point of the interval.
    IB,
    /// Negation on the interval.
    Not(ContainedTerm),
    /// Conjunction on the interval.
    And(ContainedTerm, ContainedTerm),
    /// A function on the interval seen as an equality between its endpoints.
    EqLam(ContainedTerm),
    /// The dependent equality type: the family, the first and the second value.
    Eq(ContainedTerm, ContainedTerm, ContainedTerm),
    /// An equality applied to a point of the interval.
    EqUw(ContainedTerm, ContainedTerm),
    /// Homogeneous composition of three paths along a family over two interval values.
    HComp { family: ContainedTerm, base: ContainedTerm, first: ContainedTerm, second: ContainedTerm },
    /// Transport of a value along a line of types.
    Transp(ContainedTerm, ContainedTerm),
    /// The dependent sum type of a family.
    Sig(ContainedTerm),
    /// A pair in a dependent sum: the family, the first and the second value.
    Pair(ContainedTerm, ContainedTerm, ContainedTerm),
    /// The induction principle on dependent sums, at a value and a universe level.
    SigInd(ContainedTerm, Natural),
}

/// The model of a term: its structure, without binder names.
pub open spec fn term_view(t: Term) -> STerm
    decreases t,
{
    match t {
        Term::DeBrujin(n, ty) => STerm::DeBrujin(n@, Box::new(term_view(*ty.0.data))),
        Term::Lam(a, b, _) => STerm::Lam(
            Box::new(term_view(*a.0.data)),
            Box::new(term_view(*b.0.data)),
        ),
        Term::Pi(a, b, _) => STerm::Pi(
            Box::new(term_view(*a.0.data)),
            Box::new(term_view(*b.0.data)),
        ),
        Term::App(a, b) => STerm::App(
            Box::new(term_view(*a.0.data)),
            Box::new(term_view(*b.0.data)),
        ),
        Term::Universe(n) => STerm::Universe(n@),
        Term::Nat => STerm::Nat,
        Term::Zero => STerm::Zero,
        Term::Succ(a) => STerm::Succ(Box::new(term_view(*a.0.data))),
        Term::NatInd(a, n) => STerm::NatInd(Box::new(term_view(*a.0.data)), n@),
        Term::II => STerm::II,
        Term::IA => STerm::IA,
        Term::IB => STerm::IB,
        Term::Not(a) => STerm::Not(Box::new(term_view(*a.0.data))),
        Term::And(a, b) => STerm::And(
            Box::new(term_view(*a.0.data)),
            Box::new(term_view(*b.0.data)),
        ),
        Term::EqLam(a) => STerm::EqLam(Box::new(term_view(*a.0.data))),
        Term::Eq(a, b, c) => STerm::Eq(
            Box::new(term_view(*a.0.data)),
            Box::new(term_view(*b.0.data)),
            Box::new(term_view(*c.0.data)),
        ),
        Term::EqUw(a, b) => STerm::EqUw(
            Box::new(term_view(*a.0.data)),
            Box::new(term_view(*b.0.data)),
        ),
        Term::HComp { family, base, first, second } => STerm::HComp {
            family: Box::new(term_view(*family.0.data)),
            base: Box::new(term_view(*base.0.data)),
            first: Box::new(term_view(*first.0.data)),
            second: Box::new(term_view(*second.0.data)),
        },
        Term::Transp(a, b) => STerm::Transp(
            Box::new(term_view(*a.0.data)),
            Box::new(term_view(*b.0.data)),
        ),
        Term::Sig(a) => STerm::Sig(Box::new(term_view(*a.0.data))),
        Term::Pair(a, b, c) => STerm::Pair(
            Box::new(term_view(*a.0.data)),
            Box::new(term_view(*b.0.data)),
            Box::new(term_view(*c.0.data)),
        ),
        Term::SigInd(a, n) => STerm::SigInd(Box::new(term_view(*a.0.data)), n@),
    }
}

impl View for Term {
    type V = STerm;

    open spec fn view(&self) -> STerm {
        term_view(*self)
    }
}

impl View for ContainedTerm {
    type V = STerm;

    open spec fn view(&self) -> STerm {
        term_view(*self.0.data)
    }
}

/// `r` is the outcome that `o` describes: a term with model `o`'s value, or an error when
/// `o` is `None`.
pub open spec fn res_is(r: Res<ContainedTerm>, o: Option<STerm>) -> bool {
    match r {
        Ok(v) => o == Some(v@),
        Err(_) => o is None,
    }
}


/// The types of the variables in scope; the last entry is the type of index zero.
pub struct Context {
    pub data: Vec<ContainedTerm>,
}

impl View for Context {
    type V = Seq<STerm>;

    open spec fn view(&self) -> Seq<STerm> {
        self.data@.map_values(|c: ContainedTerm| c@)
    }
}

/// Two contained terms are equal when they have the same structure; binder names do not count.
impl PartialEq for ContainedTerm {
    fn eq(&self, other: &Self) -> (r: bool) {
        term_eq(self, other)
    }
}

impl vstd::std_specs::cmp::PartialEqSpecImpl for ContainedTerm {
    open spec fn obeys_eq_spec() -> bool {
        true
    }

    open spec fn eq_spec(&self, other: &Self) -> bool {
        self@ == other@
    }
}

impl Eq for ContainedTerm {}

/// Two terms are equal when they have the same structure; binder names do not count.
impl PartialEq for Term {
    fn eq(&self, other: &Self) -> (r: bool) {
        term_eq(&ctn_unchecked(self.clone()), &ctn_unchecked(other.clone()))
    }
}

impl vstd::std_specs::cmp::PartialEqSpecImpl for Term {
    open spec fn obeys_eq_spec() -> bool {
        true
    }

    open spec fn eq_spec(&self, other: &Self) -> bool {
        self@ == other@
    }
}

impl Eq for Term {}

impl Clone for ContainedTerm {
    fn clone(&self) -> (r: Self)
        ensures
            r == *self,
    {
        ContainedTerm(self.0.clone())
    }
}

impl Clone for Term {
    fn clone(&self) -> (r: Self)
        ensures
            r@ == self@,
    {
        match self {
            Term::DeBrujin(n, t) => Term::DeBrujin(*n, t.clone()),
            Term::Lam(a, b, s) => Term::Lam(a.clone(), b.clone(), s.clone()),
            Term::Pi(a, b, s) => Term::Pi(a.clone(), b.clone(), s.clone()),
            Term::App(a, b) => Term::App(a.clone(), b.clone()),
            Term::Universe(n) => Term::Universe(*n),
            Term::Nat => Term::Nat,
            Term::Zero => Term::Zero,
            Term::Succ(a) => Term::Succ(a.clone()),
            Term::NatInd(a, n) => Term::NatInd(a.clone(), *n),
            Term::II => Term::II,
            Term::IA => Term::IA,
            Term::IB => Term::IB,
            Term::Not(a) => Term::Not(a.clone()),
            Term::And(a, b) => Term::And(a.clone(), b.clone()),
            Term::EqLam(a) => Term::EqLam(a.clone()),
            Term::Eq(a, b, c) => Term::Eq(a.clone(), b.clone(), c.clone()),
            Term::EqUw(a, b) => Term::EqUw(a.clone(), b.clone()),
            Term::HComp { family, base, first, second } => Term::HComp {
                family: family.clone(),
                base: base.clone(),
                first: first.clone(),
                second: second.clone(),
            },
            Term::Transp(a, b) => Term::Transp(a.clone(), b.clone()),
            Term::Sig(a) => Term::Sig(a.clone()),
            Term::Pair(a, b, c) => Term::Pair(a.clone(), b.clone(), c.clone()),
            Term::SigInd(a, n) => Term::SigInd(a.clone(), *n),
        }
    }
}

impl Term {
    /// Converts a term into a [`ContainedTerm`], bringing it to normal form;
    /// fails when the term does not reduce (an ill-typed application, for one).
    pub fn ctn(self) -> (r: Res<ContainedTerm>)
        ensures
            res_is(r, s_reduce(self@, FUEL as nat)),
    {
        reduce_node(self, FUEL)
    }

    fn ctn_unchecked(self) -> (r: ContainedTerm)
        ensures
            r@ == self@,
    {
        ctn_unchecked(self)
    }

    /// The largest of two universes; fails unless both terms are universes.
    fn type_max(self, other: Self) -> (r: Res<Self>)
        ensures
            match (self@, other@) {
                (STerm::Universe(a), STerm::Universe(b)) => r matches Ok(u) && u@ == STerm::Universe(
                    if a >= b {
                        a
                    } else {
                        b
                    },
                ),
                _ => r is Err,
            },
    {
        match (self, other) {
            (Term::Universe(a), Term::Universe(b)) => Ok(Term::Universe(a.max(b))),
            _ => err_str("type max called on non-type"),
        }
    }
}

impl ContainedTerm {
    /// The term inside.
    pub fn pop(self) -> (r: Term)
        ensures
            r@ == self@,
    {
        self.0.clone_inner()
    }

    fn new(v: Term) -> (r: Res<Self>)
        ensures
            res_is(r, s_reduce(v@, FUEL as nat)),
    {
        reduce_node(v, FUEL)
    }

    fn new_unchecked(v: Term) -> (r: Self)
        ensures
            r@ == v@,
    {
        ctn_unchecked(v)
    }

    /// The type of the term.
    pub fn typed(self) -> (r: Res<Self>)
        ensures
            res_is(r, s_typed(self@, STEP_FUEL as nat)),
    {
        typed_node(term_of(&self), STEP_FUEL)
    }

    /// The largest of two universes, contained.
    pub(crate) fn type_max(self, other: Self) -> (r: Res<Self>)
        ensures
            match (self@, other@) {
                (STerm::Universe(a), STerm::Universe(b)) => r matches Ok(u) && u@ == STerm::Universe(
                    if a >= b {
                        a
                    } else {
                        b
                    },
                ),
                _ => r is Err,
            },
    {
        let t = self.pop().type_max(other.pop())?;
        Ok(Self::new_unchecked(t))
    }

    /// `other` put in place of variable `layer`.
    fn subst(self, other: Self, layer: Natural) -> (r: Res<Self>)
        ensures
            res_is(r, s_subst(self@, other@, layer@, STEP_FUEL as nat)),
    {
        subst_node(term_of(&self), &other, layer, STEP_FUEL)
    }

    /// Adds a layer of scoping: every free variable at or above `n` is raised by one,
    /// as when the term moves under one more lambda.
    pub fn push_scope(self, n: Natural) -> (r: Res<Self>)
        ensures
            res_is(r, s_push(self@, n@, FUEL as nat)),
    {
        push_node(term_of(&self), n, FUEL)
    }

    fn check_equal(self, other: Self) -> (r: bool)
        ensures
            r == (self@ == other@),
    {
        term_eq(&self, &other)
    }

    /// Checks whether the term is constant, using `example` as an argument:
    /// `Some` of the result for `λ x, 0`, `None` for `λ x, x`.
    pub fn check_refl(self, example: Self) -> (r: Res<Option<Self>>)
        ensures
            match r {
                Ok(o) => s_refl(self@, example@, STEP_FUEL as nat) == Some(opt_view(o)),
                Err(_) => s_refl(self@, example@, STEP_FUEL as nat) is None,
            },
    {
        refl_of(&self, &example, STEP_FUEL)
    }

    /// The term with the variables above `layer` lowered by one; fails when it mentions `layer`.
    pub fn check_const(self, layer: Natural) -> (r: Res<Self>)
        ensures
            res_is(r, s_cc(self@, layer@, STEP_FUEL as nat)),
    {
        const_node(term_of(&self), layer, STEP_FUEL)
    }

    /// The number the term denotes, if it is a numeral that fits in a `usize`.
    pub fn get_number(self) -> (r: Option<usize>)
        ensures
            match number_of(self@) {
                Some(k) => if k <= usize::MAX {
                    r == Some(k as usize)
                } else {
                    r is None
                },
                None => r is None,
            },
        decreases self,
    {
        match self.0.get_ref() {
            Term::Zero => Some(0),
            Term::Succ(v) => match v.clone().get_number() {
                Some(k) => if k == usize::MAX {
                    None
                } else {
                    Some(k + 1)
                },
                None => None,
            },
            _ => None,
        }
    }

    fn well_typed(self, context: Context) -> (r: Res<()>)
        ensures
            r is Ok <==> s_wt(self@, context@),
    {
        well_typed_node(&self, &context)
    }
}

/// `s` holds the values of `sp` under one more binder, and `x` is the new variable of type `ty`.
pub open spec fn opened<const N: usize>(
    sp: [ContainedTerm; N],
    ty: ContainedTerm,
    s: [ContainedTerm; N],
    x: ContainedTerm,
) -> bool {
    &&& forall|i: int| 0 <= i < N ==> s_push(#[trigger] sp@[i]@, 0, FUEL as nat) == Some(s@[i]@)
    &&& s_push(ty@, 0, FUEL as nat) matches Some(t1) && x@ == db(0, t1)
}

/// Some value of `sp` cannot be moved under one more binder, or the type cannot.
pub open spec fn cannot_open<const N: usize>(sp: [ContainedTerm; N], ty: ContainedTerm) -> bool {
    ||| exists|i: int| 0 <= i < N && s_push(#[trigger] sp@[i]@, 0, FUEL as nat) is None
    ||| s_push(ty@, 0, FUEL as nat) is None
}

/// Moves each value of `sp` under one more binder.
fn shift_all<const N: usize>(values: [ContainedTerm; N]) -> (r: Res<[ContainedTerm; N]>)
    ensures
        match r {
            Ok(s) => forall|i: int|
                0 <= i < N ==> s_push(#[trigger] values@[i]@, 0, FUEL as nat) == Some(s@[i]@),
            Err(_) => exists|i: int|
                0 <= i < N && s_push(#[trigger] values@[i]@, 0, FUEL as nat) is None,
        },
{
    let mut sp = values;
    let mut i: usize = 0;
    while i < N
        invariant
            0 <= i <= N,
            forall|k: int|
                0 <= k < i ==> s_push(#[trigger] values@[k]@, 0, FUEL as nat) == Some(sp@[k]@),
            forall|k: int| i <= k < N ==> #[trigger] sp@[k] == values@[k],
        decreases N - i,
    {
        let v = ps0(&sp[i], FUEL);
        match v {
            Ok(v) => {
                sp[i] = v;
            },
            Err(e) => {
                assert(s_push(values@[i as int]@, 0, FUEL as nat) is None);
                return Err(e);
            },
        }
        i = i + 1;
    }
    Ok(sp)
}

/// Builds a lambda: `f` receives the values of `sp` moved under the new binder, and the
/// bound variable of type `ty`, and returns the body; the lambda is then brought to normal form.
pub fn lam_helper<const N: usize>(
    sp: [ContainedTerm; N],
    ty: ContainedTerm,
    name: impl Into<Naming>,
    f: impl Fn([ContainedTerm; N], ContainedTerm) -> Res<ContainedTerm>,
) -> (r: Res<ContainedTerm>)
    requires
        forall|s: [ContainedTerm; N], x: ContainedTerm| f.requires((s, x)),
    ensures
        r matches Ok(v) ==> exists|s: [ContainedTerm; N], x: ContainedTerm, body: ContainedTerm|
            {
                &&& opened(sp, ty, s, x)
                &&& f.ensures((s, x), Ok::<ContainedTerm, ErrorType>(body))
                &&& s_reduce(lam(ty@, body@), FUEL as nat) == Some(v@)
            },
        r matches Err(e) ==> cannot_open(sp, ty) || exists|
            s: [ContainedTerm; N],
            x: ContainedTerm,
            res: Res<ContainedTerm>,
        |
            {
                &&& opened(sp, ty, s, x)
                &&& f.ensures((s, x), res)
                &&& (res == Err::<ContainedTerm, ErrorType>(e) || (res matches Ok(body) && s_reduce(lam(ty@, body@), FUEL as nat) is None))
            },
{
    let sp2 = shift_all(sp)?;
    let t1 = ps0(&ty, FUEL)?;
    let arg = ctn_unchecked(Term::DeBrujin(Natural(0), t1));
    let ghost gs = sp2;
    let ghost gx = arg;
    assert(opened(sp, ty, gs, gx));
    let res = f(sp2, arg);
    match res {
        Ok(body) => {
            let ghost gb = body;
            let r = reduce_node(Term::Lam(ty, body, name.into()), FUEL);
            assert(f.ensures((gs, gx), Ok::<ContainedTerm, ErrorType>(gb)));
            r
        },
        Err(e) => {
            assert(f.ensures((gs, gx), Err::<ContainedTerm, ErrorType>(e)));
            Err(e)
        },
    }
}

/// The same as [`lam_helper`], with universe levels carried into the body.
pub fn lam_helper_poly<const N: usize, const M: usize>(
    sp: [ContainedTerm; N],
    ty: ContainedTerm,
    name: impl Into<Naming>,
    nums: [Natural; M],
    f: impl Fn([ContainedTerm; N], ContainedTerm, [Natural; M]) -> Res<ContainedTerm>,
) -> (r: Res<ContainedTerm>)
    requires
        forall|s: [ContainedTerm; N], x: ContainedTerm| f.requires((s, x, nums)),
    ensures
        r matches Ok(v) ==> exists|s: [ContainedTerm; N], x: ContainedTerm, body: ContainedTerm|
            {
                &&& opened(sp, ty, s, x)
                &&& f.ensures((s, x, nums), Ok::<ContainedTerm, ErrorType>(body))
                &&& s_reduce(lam(ty@, body@), FUEL as nat) == Some(v@)
            },
        r matches Err(e) ==> cannot_open(sp, ty) || exists|
            s: [ContainedTerm; N],
            x: ContainedTerm,
            res: Res<ContainedTerm>,
        |
            {
                &&& opened(sp, ty, s, x)
                &&& f.ensures((s, x, nums), res)
                &&& (res == Err::<ContainedTerm, ErrorType>(e) || (res matches Ok(body) && s_reduce(lam(ty@, body@), FUEL as nat) is None))
            },
{
    let sp2 = shift_all(sp)?;
    let t1 = ps0(&ty, FUEL)?;
    let arg = ctn_unchecked(Term::DeBrujin(Natural(0), t1));
    let ghost gs = sp2;
    let ghost gx = arg;
    assert(opened(sp, ty, gs, gx));
    let res = f(sp2, arg, nums);
    match res {
        Ok(body) => {
            let ghost gb = body;
            let r = reduce_node(Term::Lam(ty, body, name.into()), FUEL);
            assert(f.ensures((gs, gx, nums), Ok::<ContainedTerm, ErrorType>(gb)));
            r
        },
        Err(e) => {
            assert(f.ensures((gs, gx, nums), Err::<ContainedTerm, ErrorType>(e)));
            Err(e)
        },
    }
}

/// The same as [`lam_helper`], building the dependent function type instead of the lambda.
pub fn pi_helper<const N: usize>(
    sp: [ContainedTerm; N],
    ty: ContainedTerm,
    name: impl Into<Naming>,
    f: impl Fn([ContainedTerm; N], ContainedTerm) -> Res<ContainedTerm>,
) -> (r: Res<ContainedTerm>)
    requires
        forall|s: [ContainedTerm; N], x: ContainedTerm| f.requires((s, x)),
    ensures
        r matches Ok(v) ==> exists|s: [ContainedTerm; N], x: ContainedTerm, body: ContainedTerm|
            {
                &&& opened(sp, ty, s, x)
                &&& f.ensures((s, x), Ok::<ContainedTerm, ErrorType>(body))
                &&& v@ == pi(ty@, body@)
            },
        r matches Err(e) ==> cannot_open(sp, ty) || exists|s: [ContainedTerm; N], x: ContainedTerm|
            {
                &&& opened(sp, ty, s, x)
                &&& f.ensures((s, x), Err::<ContainedTerm, ErrorType>(e))
            },
{
    let sp2 = shift_all(sp)?;
    let t1 = ps0(&ty, FUEL)?;
    let arg = ctn_unchecked(Term::DeBrujin(Natural(0), t1));
    let ghost gs = sp2;
    let ghost gx = arg;
    assert(opened(sp, ty, gs, gx));
    let res = f(sp2, arg);
    match res {
        Ok(body) => {
            let ghost gb = body;
            let r = reduce_node(Term::Pi(ty, body, name.into()), FUEL);
            assert(f.ensures((gs, gx), Ok::<ContainedTerm, ErrorType>(gb)));
            r
        },
        Err(e) => {
            assert(f.ensures((gs, gx), Err::<ContainedTerm, ErrorType>(e)));
            Err(e)
        },
    }
}

/// The same as [`lam_helper_poly`], building the dependent function type instead of the lambda.
pub fn pi_helper_poly<const N: usize, const M: usize>(
    sp: [ContainedTerm; N],
    ty: ContainedTerm,
    name: impl Into<Naming>,
    nums: [Natural; M],
    f: impl Fn([ContainedTerm; N], ContainedTerm, [Natural; M]) -> Res<ContainedTerm>,
) -> (r: Res<ContainedTerm>)
    requires
        forall|s: [ContainedTerm; N], x: ContainedTerm| f.requires((s, x, nums)),
    ensures
        r matches Ok(v) ==> exists|s: [ContainedTerm; N], x: ContainedTerm, body: ContainedTerm|
            {
                &&& opened(sp, ty, s, x)
                &&& f.ensures((s, x, nums), Ok::<ContainedTerm, ErrorType>(body))
                &&& v@ == pi(ty@, body@)
            },
        r matches Err(e) ==> cannot_open(sp, ty) || exists|s: [ContainedTerm; N], x: ContainedTerm|
            {
                &&& opened(sp, ty, s, x)
                &&& f.ensures((s, x, nums), Err::<ContainedTerm, ErrorType>(e))
            },
{
    let sp2 = shift_all(sp)?;
    let t1 = ps0(&ty, FUEL)?;
    let arg = ctn_unchecked(Term::DeBrujin(Natural(0), t1));
    let ghost gs = sp2;
    let ghost gx = arg;
    assert(opened(sp, ty, gs, gx));
    let res = f(sp2, arg, nums);
    match res {
        Ok(body) => {
            let ghost gb = body;
            let r = reduce_node(Term::Pi(ty, body, name.into()), FUEL);
            assert(f.ensures((gs, gx, nums), Ok::<ContainedTerm, ErrorType>(gb)));
            r
        },
        Err(e) => {
            assert(f.ensures((gs, gx, nums), Err::<ContainedTerm, ErrorType>(e)));
            Err(e)
        },
    }
}

/// A function that extracts the first value of a `Σ family` when applied to it.
pub fn sig_ex0(family: ContainedTerm) -> (r: Res<ContainedTerm>)
    ensures
        res_is(r, s_sig_ex0(family@, FUEL as nat)),
{
    sig_ex0_of(&family, FUEL)
}

/// A function that extracts the dependent second value of a `Σ family` when applied to it.
pub fn sig_ex1(family: ContainedTerm) -> (r: Res<ContainedTerm>)
    ensures
        res_is(r, s_sig_ex1(family@, FUEL as nat)),
{
    sig_ex1_of(&family, FUEL)
}

/// Checks whether a term is well typed in the empty context, and gives its type.
pub fn check(t: ContainedTerm) -> (r: (Res<()>, Res<ContainedTerm>))
    ensures
        r.0 is Ok <==> s_wt(t@, Seq::empty()),
        res_is(r.1, s_typed(t@, STEP_FUEL as nat)),
{
    let w = t.clone().well_typed(Context::new());
    let ty = t.typed();
    (w, ty)
}

/// The numeral `x`: a [`ContainedTerm`] of type ℕ. Takes time linear in `x`.
pub fn num(x: usize) -> (r: ContainedTerm)
    ensures
        r@ == numeral(x as nat),
{
    let mut base = Term::Zero.ctn_unchecked();
    let mut i: usize = 0;
    while i < x
        invariant
            0 <= i <= x,
            base@ == numeral(i as nat),
        decreases x - i,
    {
        let next = Term::Succ(base).ctn();
        base = next.unwrap();
        i = i + 1;
    }
    base
}

} // verus!
