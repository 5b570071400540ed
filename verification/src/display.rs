//! Showing terms as text: binders get readable names, numerals are written in decimal,
//! and terms given an alias are shown by it.
use vstd::prelude::*;
use crate::model::{STerm, number_of};
use crate::ctypes::{ContainedTerm, Context, Naming, Res, Term, err_str, unwrap_natural};
use crate::kernel::{ctn_unchecked, ps0};
use crate::semantics::{FUEL, STEP_FUEL, ctx_get, ctx_push, ctx_push_scope, s_refl};

verus! {

// ----- Decimal and subscript digits -----

/// The text of a decimal digit.
pub open spec fn digit_text(d: nat) -> Seq<char> {
    if d == 0 {
        "0"@
    } else if d == 1 {
        "1"@
    } else if d == 2 {
        "2"@
    } else if d == 3 {
        "3"@
    } else if d == 4 {
        "4"@
    } else if d == 5 {
        "5"@
    } else if d == 6 {
        "6"@
    } else if d == 7 {
        "7"@
    } else if d == 8 {
        "8"@
    } else {
        "9"@
    }
}

/// `n` written in decimal, most significant digit first.
pub open spec fn decimal(n: nat) -> Seq<char>
    decreases n,
{
    if n < 10 {
        digit_text(n)
    } else {
        decimal(n / 10) + digit_text(n % 10)
    }
}

/// The text of a subscript digit.
pub open spec fn subscript_digit_text(d: nat) -> Seq<char> {
    if d == 0 {
        "\u{2080}"@
    } else if d == 1 {
        "\u{2081}"@
    } else if d == 2 {
        "\u{2082}"@
    } else if d == 3 {
        "\u{2083}"@
    } else if d == 4 {
        "\u{2084}"@
    } else if d == 5 {
        "\u{2085}"@
    } else if d == 6 {
        "\u{2086}"@
    } else if d == 7 {
        "\u{2087}"@
    } else if d == 8 {
        "\u{2088}"@
    } else {
        "\u{2089}"@
    }
}

/// `n` in subscript digits, most significant first; zero is shown as nothing at all.
pub open spec fn subscript(n: nat) -> Seq<char>
    decreases n,
{
    if n == 0 {
        Seq::empty()
    } else {
        subscript(n / 10) + subscript_digit_text(n % 10)
    }
}

fn digit_str(d: u8) -> (r: &'static str)
    requires
        d < 10,
    ensures
        r@ == digit_text(d as nat),
{
    match d {
        0 => "0",
        1 => "1",
        2 => "2",
        3 => "3",
        4 => "4",
        5 => "5",
        6 => "6",
        7 => "7",
        8 => "8",
        _ => "9",
    }
}

fn subscript_digit_str(d: u8) -> (r: &'static str)
    requires
        d < 10,
    ensures
        r@ == subscript_digit_text(d as nat),
{
    match d {
        0 => "\u{2080}",
        1 => "\u{2081}",
        2 => "\u{2082}",
        3 => "\u{2083}",
        4 => "\u{2084}",
        5 => "\u{2085}",
        6 => "\u{2086}",
        7 => "\u{2087}",
        8 => "\u{2088}",
        _ => "\u{2089}",
    }
}

/// Appends `n` in decimal.
fn push_decimal(out: &mut String, n: u128)
    ensures
        final(out)@ == old(out)@ + decimal(n as nat),
    decreases n,
{
    if n >= 10 {
        push_decimal(out, n / 10);
        let d = (n % 10) as u8;
        out.append(digit_str(d));
        assert(final(out)@ =~= old(out)@ + decimal(n as nat));
    } else {
        out.append(digit_str(n as u8));
    }
}

/// Appends `n` in subscript digits.
fn push_subscript(out: &mut String, n: usize)
    ensures
        final(out)@ == old(out)@ + subscript(n as nat),
    decreases n,
{
    if n > 0 {
        push_subscript(out, n / 10);
        let d = (n % 10) as u8;
        out.append(subscript_digit_str(d));
        assert(final(out)@ =~= old(out)@ + subscript(n as nat));
    } else {
        assert(final(out)@ =~= old(out)@ + subscript(n as nat));
    }
}

/// `s` in subscript digits; zero gives the empty string.
pub fn subscriptify(s: usize) -> (r: String)
    ensures
        r@ == subscript(s as nat),
{
    let mut out = String::new();
    push_subscript(&mut out, s);
    assert(out@ =~= subscript(s as nat));
    out
}

// ----- Finite maps held as lists of pairs -----

/// No key occurs twice.
pub open spec fn keys_distinct<K, V>(s: Seq<(K, V)>) -> bool {
    forall|i: int, j: int| 0 <= i < j < s.len() ==> s[i].0 != s[j].0
}

/// The map a list of pairs stands for; a later pair wins over an earlier one.
pub open spec fn pairs_map<K, V>(s: Seq<(K, V)>) -> Map<K, V>
    decreases s.len(),
{
    if s.len() == 0 {
        Map::empty()
    } else {
        pairs_map(s.drop_last()).insert(s.last().0, s.last().1)
    }
}

proof fn lemma_pairs_map_found<K, V>(s: Seq<(K, V)>, i: int)
    requires
        keys_distinct(s),
        0 <= i < s.len(),
    ensures
        pairs_map(s).contains_key(s[i].0),
        pairs_map(s)[s[i].0] == s[i].1,
    decreases s.len(),
{
    if i < s.len() - 1 {
        let d = s.drop_last();
        assert(d[i] == s[i]);
        assert(keys_distinct(d)) by {
            assert forall|a: int, b: int| 0 <= a < b < d.len() implies d[a].0 != d[b].0 by {
                assert(d[a] == s[a] && d[b] == s[b]);
            }
        }
        lemma_pairs_map_found(d, i);
        assert(s.last() == s[s.len() - 1]);
    }
}

proof fn lemma_pairs_map_absent<K, V>(s: Seq<(K, V)>, k: K)
    requires
        forall|i: int| 0 <= i < s.len() ==> s[i].0 != k,
    ensures
        !pairs_map(s).contains_key(k),
    decreases s.len(),
{
    if s.len() > 0 {
        let d = s.drop_last();
        assert forall|i: int| 0 <= i < d.len() implies d[i].0 != k by {
            assert(d[i] == s[i]);
        }
        lemma_pairs_map_absent(d, k);
        assert(s.last() == s[s.len() - 1]);
    }
}

proof fn lemma_pairs_map_update<K, V>(s: Seq<(K, V)>, i: int, v: V)
    requires
        keys_distinct(s),
        0 <= i < s.len(),
    ensures
        pairs_map(s.update(i, (s[i].0, v))) == pairs_map(s).insert(s[i].0, v),
    decreases s.len(),
{
    let u = s.update(i, (s[i].0, v));
    let d = s.drop_last();
    assert(u.drop_last() =~= if i == s.len() - 1 {
        d
    } else {
        d.update(i, (s[i].0, v))
    });
    if i == s.len() - 1 {
        assert(pairs_map(u) =~= pairs_map(s).insert(s[i].0, v));
    } else {
        assert(d[i] == s[i]);
        assert(keys_distinct(d)) by {
            assert forall|a: int, b: int| 0 <= a < b < d.len() implies d[a].0 != d[b].0 by {
                assert(d[a] == s[a] && d[b] == s[b]);
            }
        }
        lemma_pairs_map_update(d, i, v);
        assert(s.last() == s[s.len() - 1]);
        assert(u.last() == s.last());
        assert(s.last().0 != s[i].0);
        assert(pairs_map(u) =~= pairs_map(s).insert(s[i].0, v));
    }
}

proof fn lemma_pairs_map_push<K, V>(s: Seq<(K, V)>, p: (K, V))
    ensures
        pairs_map(s.push(p)) == pairs_map(s).insert(p.0, p.1),
{
    assert(s.push(p).drop_last() =~= s);
}

// ----- Naming binders for display -----

/// What a display context stands for: how often each name has been given out, and the
/// names shown for the binders in scope (the last one is the innermost).
pub struct DisplayView {
    pub used: Map<Seq<char>, nat>,
    pub names: Seq<Seq<char>>,
}

/// How often `base` has been given out.
pub open spec fn uses(d: DisplayView, base: Seq<char>) -> nat {
    if d.used.contains_key(base) {
        d.used[base]
    } else {
        0
    }
}

/// The context after one more binder named `base`: it is shown as `base` followed by
/// how often `base` was given out before, in subscript digits.
pub open spec fn with_name(d: DisplayView, base: Seq<char>) -> DisplayView {
    let k = uses(d, base);
    DisplayView { used: d.used.insert(base, k + 1), names: d.names.push(base + subscript(k)) }
}

/// The empty display context.
pub open spec fn no_names() -> DisplayView {
    DisplayView { used: Map::empty(), names: Seq::empty() }
}

/// The names shown for the binders in scope.
pub struct DisplayContext {
    used: Vec<(String, usize)>,
    names: Vec<String>,
}

impl Clone for DisplayContext {
    fn clone(&self) -> (r: Self)
        ensures
            r@ == self@,
    {
        proof {
            use_type_invariant(self);
        }
        let mut used: Vec<(String, usize)> = Vec::new();
        let mut i: usize = 0;
        while i < self.used.len()
            invariant
                0 <= i <= self.used.len(),
                used@.len() == i,
                forall|j: int| 0 <= j < i ==> #[trigger] used@[j].0@ == self.used@[j].0@ && used@[j].1
                    == self.used@[j].1,
            decreases self.used.len() - i,
        {
            used.push((self.used[i].0.clone(), self.used[i].1));
            i = i + 1;
        }
        let mut names: Vec<String> = Vec::new();
        let mut k: usize = 0;
        while k < self.names.len()
            invariant
                0 <= k <= self.names.len(),
                names@.len() == k,
                forall|j: int| 0 <= j < k ==> #[trigger] names@[j]@ == self.names@[j]@,
            decreases self.names.len() - k,
        {
            names.push(self.names[k].clone());
            k = k + 1;
        }
        let ghost pairs = used@.map_values(|p: (String, usize)| (p.0@, p.1 as nat));
        assert(pairs =~= self.used_pairs());
        let r = DisplayContext { used, names };
        assert(r@.names =~= self@.names);
        r
    }
}

impl DisplayContext {
    /// The counts as pairs of plain values.
    pub closed spec fn used_pairs(&self) -> Seq<(Seq<char>, nat)> {
        self.used@.map_values(|p: (String, usize)| (p.0@, p.1 as nat))
    }

    #[verifier::type_invariant]
    closed spec fn wf(&self) -> bool {
        keys_distinct(self.used_pairs())
    }
}

impl View for DisplayContext {
    type V = DisplayView;

    closed spec fn view(&self) -> DisplayView {
        DisplayView {
            used: pairs_map(self.used_pairs()),
            names: self.names@.map_values(|s: String| s@),
        }
    }
}

impl DisplayContext {
    /// The context with no binders.
    pub fn new() -> (r: Self)
        ensures
            r@ == no_names(),
    {
        let r = DisplayContext { used: Vec::new(), names: Vec::new() };
        assert(r.used_pairs() =~= Seq::<(Seq<char>, nat)>::empty());
        assert(r@.names =~= Seq::<Seq<char>>::empty());
        assert(r@.used =~= Map::<Seq<char>, nat>::empty());
        r
    }

    /// How often `base` has been given out.
    fn count_of(&self, base: &String) -> (r: (Option<usize>, usize))
        ensures
            match r.0 {
                Some(i) => i < self.used@.len() && self.used_pairs()[i as int].0 == base@ && r.1
                    == self.used@[i as int].1,
                None => r.1 == 0 && forall|j: int|
                    0 <= j < self.used@.len() ==> self.used_pairs()[j].0 != base@,
            },
            r.1 == uses(self@, base@),
    {
        proof {
            use_type_invariant(self);
        }
        let mut i: usize = 0;
        while i < self.used.len()
            invariant
                0 <= i <= self.used.len(),
                keys_distinct(self.used_pairs()),
                forall|j: int| 0 <= j < i ==> self.used_pairs()[j].0 != base@,
            decreases self.used.len() - i,
        {
            if self.used[i].0 == *base {
                proof {
                    lemma_pairs_map_found(self.used_pairs(), i as int);
                }
                return (Some(i), self.used[i].1);
            }
            i = i + 1;
        }
        proof {
            lemma_pairs_map_absent(self.used_pairs(), base@);
        }
        (None, 0)
    }

    /// The context with one more binder named `name`, shown with a subscript that counts
    /// the earlier binders of that name.
    pub fn add_name(self, name: Naming) -> (r: Self)
        requires
            uses(self@, name.0@) < usize::MAX,
        ensures
            r@ == with_name(self@, name.0@),
    {
        proof {
            use_type_invariant(&self);
        }
        let ghost before = self@;
        let ghost bv = name.0@;
        let base = name.0;
        let (found, k) = self.count_of(&base);
        let mut shown = base.clone();
        push_subscript(&mut shown, k);
        let DisplayContext { used, names } = self;
        let ghost old_pairs = used@.map_values(|p: (String, usize)| (p.0@, p.1 as nat));
        let ghost old_names = names@.map_values(|s: String| s@);
        let mut used = used;
        let mut names = names;
        match found {
            Some(i) => {
                used.set(i, (base, k + 1));
                proof {
                    lemma_pairs_map_update(old_pairs, i as int, (k + 1) as nat);
                    assert(used@.map_values(|p: (String, usize)| (p.0@, p.1 as nat)) =~= old_pairs.update(
                        i as int,
                        (old_pairs[i as int].0, (k + 1) as nat),
                    ));
                }
            },
            None => {
                used.push((base, 1));
                proof {
                    lemma_pairs_map_push(old_pairs, (bv, 1));
                    assert(used@.map_values(|p: (String, usize)| (p.0@, p.1 as nat)) =~= old_pairs.push(
                        (bv, 1nat),
                    ));
                }
            },
        }
        names.push(shown);
        assert(names@.map_values(|s: String| s@) =~= old_names.push(bv + subscript(k as nat)));
        let r = DisplayContext { used, names };
        assert(r@.used =~= with_name(before, bv).used);
        r
    }

    fn len(&self) -> (r: usize)
        ensures
            r == self@.names.len(),
    {
        self.names.len()
    }

    /// The name shown for the innermost binder.
    pub fn last(&self) -> (r: Option<&String>)
        ensures
            match r {
                Some(s) => self@.names.len() > 0 && s@ == self@.names.last(),
                None => self@.names.len() == 0,
            },
    {
        if self.names.len() == 0 {
            None
        } else {
            Some(&self.names[self.names.len() - 1])
        }
    }

    /// The name shown for variable `n`: the `n`-th binder counted from the innermost.
    pub fn get(&self, n: usize) -> (r: Res<&String>)
        ensures
            n < self@.names.len() ==> (r matches Ok(s) && s@ == self@.names[self@.names.len() - 1
                - n]),
            n >= self@.names.len() ==> (r matches Err(e) && e.message@ == "Index out of bounds!"@),
    {
        if n >= self.names.len() {
            return err_str("Index out of bounds!");
        }
        Ok(&self.names[self.names.len() - 1 - n])
    }
}

// ----- The types of the variables in scope -----

/// The types of the variables in scope while printing; the last entry is the type of index zero.
pub struct TypingContext {
    data: Vec<ContainedTerm>,
}

impl View for TypingContext {
    type V = Seq<STerm>;

    closed spec fn view(&self) -> Seq<STerm> {
        self.data@.map_values(|c: ContainedTerm| c@)
    }
}

/// The typing context after a push of `v`, whether or not the push succeeded: a failed shift
/// of the entries leaves the context empty, a failed shift of `v` leaves the shifted entries.
pub open spec fn tc_after_push(tc: Seq<STerm>, v: STerm) -> Seq<STerm> {
    match ctx_push(tc, v) {
        Some(c) => c,
        None => match ctx_push_scope(tc) {
            Some(c) => c,
            None => Seq::empty(),
        },
    }
}

impl Clone for TypingContext {
    fn clone(&self) -> (r: Self)
        ensures
            r@ == self@,
    {
        let mut data: Vec<ContainedTerm> = Vec::new();
        let mut i: usize = 0;
        while i < self.data.len()
            invariant
                0 <= i <= self.data.len(),
                data@.len() == i,
                forall|j: int| 0 <= j < i ==> #[trigger] data@[j] == self.data@[j],
            decreases self.data.len() - i,
        {
            data.push(self.data[i].clone());
            i = i + 1;
        }
        let r = TypingContext { data };
        assert(r@ =~= self@);
        r
    }
}

impl TypingContext {
    /// The empty context.
    pub fn new() -> (r: Self)
        ensures
            r@ == Seq::<STerm>::empty(),
    {
        let r = TypingContext { data: Vec::new() };
        assert(r@ =~= Seq::<STerm>::empty());
        r
    }

    /// Every entry shifted under one more binder; when a shift fails the context is left empty.
    pub fn push_scope(&mut self) -> (r: Res<()>)
        ensures
            match r {
                Ok(_) => ctx_push_scope(old(self)@) == Some(final(self)@),
                Err(_) => ctx_push_scope(old(self)@) is None && final(self)@ == Seq::<STerm>::empty(),
            },
    {
        let mut data: Vec<ContainedTerm> = Vec::new();
        std::mem::swap(&mut data, &mut self.data);
        let whole = Context { data };
        assert(whole@ =~= old(self)@);
        assert(self@ =~= Seq::<STerm>::empty());
        match whole.push_scope() {
            Ok(c) => {
                self.data = c.data;
                assert(self@ =~= c@);
                Ok(())
            },
            Err(e) => Err(e),
        }
    }

    /// The context extended by a variable of type `v`, under one more binder.
    pub fn push(&mut self, v: ContainedTerm) -> (r: Res<()>)
        ensures
            r is Ok <==> ctx_push(old(self)@, v@) is Some,
            final(self)@ == tc_after_push(old(self)@, v@),
    {
        self.push_scope()?;
        let v2 = ps0(&v, FUEL)?;
        let ghost before = self@;
        self.data.push(v2);
        assert(self@ =~= before.push(v2@));
        Ok(())
    }

    /// The type of variable `n`: the `n`-th entry from the end.
    pub fn get(&self, n: usize) -> (r: Res<&ContainedTerm>)
        ensures
            match r {
                Ok(c) => ctx_get(self@, n as nat) == Some(c@),
                Err(_) => ctx_get(self@, n as nat) is None,
            },
    {
        if n >= self.data.len() {
            return err_str("Index out of bounds [positive]");
        }
        Ok(&self.data[self.data.len() - 1 - n])
    }
}

// ----- Aliases -----

/// Names given to whole terms; a term with an alias is shown by it.
pub struct AliasMap(Vec<(ContainedTerm, String)>);

impl AliasMap {
    /// The aliases as pairs of plain values.
    pub closed spec fn pairs(&self) -> Seq<(STerm, Seq<char>)> {
        self.0@.map_values(|p: (ContainedTerm, String)| (p.0@, p.1@))
    }

    #[verifier::type_invariant]
    closed spec fn wf(&self) -> bool {
        keys_distinct(self.pairs())
    }
}

impl View for AliasMap {
    type V = Map<STerm, Seq<char>>;

    closed spec fn view(&self) -> Map<STerm, Seq<char>> {
        pairs_map(self.pairs())
    }
}

impl AliasMap {
    /// No aliases.
    pub fn new() -> (r: Self)
        ensures
            r@ == Map::<STerm, Seq<char>>::empty(),
    {
        let r = AliasMap(Vec::new());
        assert(r.pairs() =~= Seq::<(STerm, Seq<char>)>::empty());
        r
    }

    /// Gives `term` the alias `name`, in place of any alias it had.
    pub fn add_alias(&mut self, term: ContainedTerm, name: String)
        ensures
            final(self)@ == old(self)@.insert(term@, name@),
    {
        proof {
            use_type_invariant(&*self);
        }
        let ghost before = self.pairs();
        let mut v: Vec<(ContainedTerm, String)> = Vec::new();
        std::mem::swap(&mut v, &mut self.0);
        assert(v@.map_values(|p: (ContainedTerm, String)| (p.0@, p.1@)) =~= before);
        let mut i: usize = 0;
        while i < v.len()
            invariant
                0 <= i <= v.len(),
                v@.map_values(|p: (ContainedTerm, String)| (p.0@, p.1@)) == before,
                keys_distinct(before),
                pairs_map(before) == old(self)@,
                forall|j: int| 0 <= j < i ==> before[j].0 != term@,
            decreases v.len() - i,
        {
            if v[i].0 == term {
                let ghost t = term@;
                let ghost nv = name@;
                assert(before[i as int] == (v@[i as int].0@, v@[i as int].1@));
                assert(before[i as int].0 == t);
                v.set(i, (term, name));
                proof {
                    lemma_pairs_map_update(before, i as int, nv);
                    assert(v@.map_values(|p: (ContainedTerm, String)| (p.0@, p.1@)) =~= before.update(
                        i as int,
                        (before[i as int].0, nv),
                    ));
                }
                self.0 = v;
                assert(self.pairs() == before.update(i as int, (before[i as int].0, nv)));
                return;
            }
            i = i + 1;
        }
        let ghost t = term@;
        let ghost nv = name@;
        v.push((term, name));
        proof {
            lemma_pairs_map_push(before, (t, nv));
            assert(v@.map_values(|p: (ContainedTerm, String)| (p.0@, p.1@)) =~= before.push((t, nv)));
            assert(keys_distinct(before.push((t, nv)))) by {
                let s = before.push((t, nv));
                assert forall|a: int, b: int| 0 <= a < b < s.len() implies s[a].0 != s[b].0 by {
                    if b == before.len() {
                        assert(s[a] == before[a]);
                    } else {
                        assert(s[a] == before[a] && s[b] == before[b]);
                    }
                }
            }
        }
        self.0 = v;
    }

    /// The alias of `term`, if it has one.
    pub fn get(&self, term: &ContainedTerm) -> (r: Option<&String>)
        ensures
            match r {
                Some(s) => self@.contains_key(term@) && self@[term@] == s@,
                None => !self@.contains_key(term@),
            },
    {
        proof {
            use_type_invariant(self);
        }
        let mut i: usize = 0;
        while i < self.0.len()
            invariant
                0 <= i <= self.0.len(),
                keys_distinct(self.pairs()),
                forall|j: int| 0 <= j < i ==> self.pairs()[j].0 != term@,
            decreases self.0.len() - i,
        {
            if self.0[i].0 == *term {
                proof {
                    lemma_pairs_map_found(self.pairs(), i as int);
                }
                return Some(&self.0[i].1);
            }
            i = i + 1;
        }
        proof {
            lemma_pairs_map_absent(self.pairs(), term@);
        }
        None
    }
}

// ----- Printing -----

/// How printing a term ends.
#[derive(PartialEq, Eq, Structural, Clone, Copy, Debug)]
pub enum Ending {
    /// The whole term was shown.
    Complete,
    /// An error stopped the printing; the text shown so far stands.
    Failed,
    /// The printing reached what it cannot show: a composition node, a variable beyond the
    /// named binders, or a name given out too often to count.
    Unprintable,
}

/// The terms through which a printing shows the types it takes from the typing context,
/// arranged as the printing's own nested calls are: the picks of up to three parts, and the
/// term picked at this node. Such a term has the structure of the context's type; its binder
/// names are whatever the term holds.
pub enum Picks {
    Leaf,
    Node(Box<Picks>, Box<Picks>, Box<Picks>, Option<ContainedTerm>),
}

/// The picks of part `i` of a node.
pub open spec fn part(w: Picks, i: int) -> Picks {
    match w {
        Picks::Leaf => Picks::Leaf,
        Picks::Node(a, b, c, _) => if i == 0 {
            *a
        } else if i == 1 {
            *b
        } else {
            *c
        },
    }
}

/// The term picked at a node.
pub open spec fn pick(w: Picks) -> Option<ContainedTerm> {
    match w {
        Picks::Leaf => None,
        Picks::Node(_, _, _, u) => u,
    }
}

/// A printing's text and ending, or `None` when the picks do not fit it.
pub type Shown = Option<(Seq<char>, Ending)>;

/// `pre`, then what a part printed, then `post` when that part completed; a part that did
/// not complete stops the text after what it printed, and ends it the same way.
pub open spec fn after(pre: Seq<char>, r: Shown, post: Seq<char>) -> Shown {
    match r {
        None => None,
        Some((o, e)) => if e == Ending::Complete {
            Some((pre + o + post, Ending::Complete))
        } else {
            Some((pre + o, e))
        },
    }
}

/// `pre`, a first part, `mid`, a second part, `post`; the first part that does not complete
/// stops the text.
pub open spec fn after_two(pre: Seq<char>, r1: Shown, mid: Seq<char>, r2: Shown, post: Seq<char>) -> Shown {
    match r1 {
        None => None,
        Some((o, e)) => if e == Ending::Complete {
            after(pre + o + mid, r2, post)
        } else {
            Some((pre + o, e))
        },
    }
}

/// What printing `t` appends and how it ends, with display context `d`, typing context `tc`,
/// aliases `al`, picks `w`, within `f` nested steps.
pub open spec fn printed(
    f: nat,
    t: ContainedTerm,
    d: DisplayView,
    tc: Seq<STerm>,
    al: Map<STerm, Seq<char>>,
    w: Picks,
) -> Shown
    decreases f, 1nat,
{
    if f == 0 {
        Some((Seq::empty(), Ending::Failed))
    } else if al.contains_key(t@) {
        Some((al[t@], Ending::Complete))
    } else {
        let g = (f - 1) as nat;
        let w0 = part(w, 0);
        let w1 = part(w, 1);
        match *t.0.data {
            Term::DeBrujin(n, ty) => printed_var(g, n@, ty, d, tc, al, w),
            Term::Lam(ty, body, nm) => printed_binder(g, ty, body, nm.0@, d, tc, al, w),
            Term::Pi(ty, body, nm) => printed_binder(g, ty, body, nm.0@, d, tc, al, w),
            Term::App(a, b) => after_two(
                "("@,
                printed(g, a, d, tc, al, w0),
                " "@,
                printed(g, b, d, tc, al, w1),
                ")"@,
            ),
            Term::Universe(n) => Some(("Type{"@ + decimal(n@) + "}"@, Ending::Complete)),
            Term::Nat => Some(("\u{2115}"@, Ending::Complete)),
            Term::Zero => Some(("0"@, Ending::Complete)),
            Term::Succ(x) => match number_of(x@) {
                Some(k) => if k <= usize::MAX {
                    Some((decimal(k + 1), Ending::Complete))
                } else {
                    after("S "@, printed(g, x, d, tc, al, w0), ""@)
                },
                None => after("S "@, printed(g, x, d, tc, al, w0), ""@),
            },
            Term::NatInd(v, u) => after(
                "("@ + "Ind{"@ + decimal(u@) + "} "@,
                printed(g, v, d, tc, al, w0),
                ")"@,
            ),
            Term::II => Some(("I"@, Ending::Complete)),
            Term::IA => Some(("I\u{2080}"@, Ending::Complete)),
            Term::IB => Some(("I\u{2081}"@, Ending::Complete)),
            Term::Not(x) => after("\u{AC}"@, printed(g, x, d, tc, al, w0), ""@),
            Term::And(x, y) => after_two(
                "("@,
                printed(g, x, d, tc, al, w0),
                "&"@,
                printed(g, y, d, tc, al, w1),
                ")"@,
            ),
            Term::EqLam(x) => after("EqLam"@, printed(g, x, d, tc, al, w0), ""@),
            Term::Eq(p, x, y) => printed_eq(g, p, x, y, d, tc, al, w),
            Term::EqUw(p, i) => after_two(
                Seq::empty(),
                printed(g, p, d, tc, al, w0),
                "@"@,
                printed(g, i, d, tc, al, w1),
                ""@,
            ),
            Term::HComp { .. } => Some((Seq::empty(), Ending::Unprintable)),
            Term::Transp(p, x) => after_two(
                "Transp("@,
                printed(g, p, d, tc, al, w0),
                ")("@,
                printed(g, x, d, tc, al, w1),
                ")"@,
            ),
            Term::Sig(x) => after("\u{3A3}"@, printed(g, x, d, tc, al, w0), ""@),
            Term::Pair(_, a, b) => after_two(
                "("@,
                printed(g, a, d, tc, al, w0),
                ","@,
                printed(g, b, d, tc, al, w1),
                ")"@,
            ),
            Term::SigInd(x, n) => after(
                "Ind\u{3A3}{"@ + decimal(n@) + "} "@,
                printed(g, x, d, tc, al, w0),
                ""@,
            ),
        }
    }
}

/// A variable with index `n` and annotated type `ty`: its binder's name, preceded, when the
/// annotation is not the type in the typing context, by `!(annotation/context type)`, the
/// context type shown through the term picked at this node.
pub open spec fn printed_var(
    g: nat,
    n: nat,
    ty: ContainedTerm,
    d: DisplayView,
    tc: Seq<STerm>,
    al: Map<STerm, Seq<char>>,
    w: Picks,
) -> Shown
    decreases g, 2nat,
{
    match ctx_get(tc, n) {
        None => Some((Seq::empty(), Ending::Failed)),
        Some(c) => {
            let named = n < d.names.len();
            let shown = d.names[d.names.len() - 1 - n];
            if c == ty@ {
                if named {
                    Some((shown, Ending::Complete))
                } else {
                    Some((Seq::empty(), Ending::Unprintable))
                }
            } else {
                match printed(g, ty, d, tc, al, part(w, 0)) {
                    None => None,
                    Some((o1, e1)) => if e1 != Ending::Complete {
                        Some(("!("@ + o1, e1))
                    } else {
                        match pick(w) {
                            None => None,
                            Some(u) => if u@ != c {
                                None
                            } else {
                                match printed(g, u, d, tc, al, part(w, 1)) {
                                    None => None,
                                    Some((o2, e2)) => {
                                        let text = "!("@ + o1 + "/"@ + o2;
                                        if e2 != Ending::Complete {
                                            Some((text, e2))
                                        } else if named {
                                            Some((text + ")"@ + shown, Ending::Complete))
                                        } else {
                                            Some((text + ")"@, Ending::Unprintable))
                                        }
                                    },
                                }
                            },
                        }
                    },
                }
            }
        },
    }
}

/// A binder named `base` over `ty`: `(name: ty → body)`, where the name is `base` with its
/// subscript, and the body is printed under the new name and with `ty` pushed on the typing
/// context.
pub open spec fn printed_binder(
    g: nat,
    ty: ContainedTerm,
    body: ContainedTerm,
    base: Seq<char>,
    d: DisplayView,
    tc: Seq<STerm>,
    al: Map<STerm, Seq<char>>,
    w: Picks,
) -> Shown
    decreases g, 2nat,
{
    if uses(d, base) >= usize::MAX {
        Some((Seq::empty(), Ending::Unprintable))
    } else {
        let d2 = with_name(d, base);
        after_two(
            "("@ + d2.names.last() + ": "@,
            printed(g, ty, d, tc, al, part(w, 0)),
            " \u{2192} "@,
            printed(g, body, d2, tc_after_push(tc, ty@), al, part(w, 1)),
            ")"@,
        )
    }
}

/// An equality `p` between `x` and `y`: `(x≡y)`, with `?p` before the closing bracket
/// unless `p` is a reflexivity.
pub open spec fn printed_eq(
    g: nat,
    p: ContainedTerm,
    x: ContainedTerm,
    y: ContainedTerm,
    d: DisplayView,
    tc: Seq<STerm>,
    al: Map<STerm, Seq<char>>,
    w: Picks,
) -> Shown
    decreases g, 2nat,
{
    match printed(g, x, d, tc, al, part(w, 0)) {
        None => None,
        Some((o1, e1)) => if e1 != Ending::Complete {
            Some(("("@ + o1, e1))
        } else {
            match printed(g, y, d, tc, al, part(w, 1)) {
                None => None,
                Some((o2, e2)) => {
                    let text = "("@ + o1 + "\u{2261}"@ + o2;
                    if e2 != Ending::Complete {
                        Some((text, e2))
                    } else {
                        match s_refl(p@, STerm::IA, STEP_FUEL as nat) {
                            None => Some((text, Ending::Failed)),
                            Some(Some(_)) => Some((text + ")"@, Ending::Complete)),
                            Some(None) => after(text + "?"@, printed(g, p, d, tc, al, part(w, 2)), ")"@),
                        }
                    }
                },
            }
        },
    }
}

/// Printing `t` from empty contexts with aliases `al` can, for some picks that fit, come to a
/// point where it cannot go on.
pub open spec fn printing_panics(t: ContainedTerm, al: Map<STerm, Seq<char>>) -> bool {
    exists|w: Picks|
        match #[trigger] printed(FUEL as nat, t, no_names(), Seq::empty(), al, w) {
            Some((_, e)) => e == Ending::Unprintable,
            None => false,
        }
}

/// The printing gave `text` and did not come to a point where it cannot go on.
pub open spec fn shows_fully(r: Shown, text: Seq<char>) -> bool {
    match r {
        Some((o, e)) => o == text && e != Ending::Unprintable,
        None => false,
    }
}

fn print_one(
    t: &ContainedTerm,
    d: &DisplayContext,
    tc: &TypingContext,
    al: &AliasMap,
    g: u64,
    pre: String,
    post: &str,
) -> (r: (String, Ending, Ghost<Picks>))
    ensures
        after(pre@, printed(g as nat, *t, d@, tc@, al@, r.2@), post@) == Some((r.0@, r.1)),
    decreases g, 2nat,
{
    let (o, e, w) = pretty_print(t, d, tc, al, g);
    let mut out = pre;
    out.append(o.as_str());
    if e == Ending::Complete {
        out.append(post);
    }
    (out, e, w)
}

fn print_two(
    a: &ContainedTerm,
    da: &DisplayContext,
    tca: &TypingContext,
    b: &ContainedTerm,
    db: &DisplayContext,
    tcb: &TypingContext,
    al: &AliasMap,
    g: u64,
    pre: String,
    mid: &str,
    post: &str,
) -> (r: (String, Ending, Ghost<Picks>))
    ensures
        after_two(
            pre@,
            printed(g as nat, *a, da@, tca@, al@, part(r.2@, 0)),
            mid@,
            printed(g as nat, *b, db@, tcb@, al@, part(r.2@, 1)),
            post@,
        ) == Some((r.0@, r.1)),
    decreases g, 3nat,
{
    let (o, e, w) = pretty_print(a, da, tca, al, g);
    let mut out = pre;
    out.append(o.as_str());
    if e != Ending::Complete {
        return (out, e, Ghost(Picks::Node(Box::new(w@), Box::new(Picks::Leaf), Box::new(Picks::Leaf), None)));
    }
    out.append(mid);
    let (out2, e2, w2) = print_one(b, db, tcb, al, g, out, post);
    (out2, e2, Ghost(Picks::Node(Box::new(w@), Box::new(w2@), Box::new(Picks::Leaf), None)))
}

fn text(s: &str) -> (r: String)
    ensures
        r@ == s@,
{
    String::from_str(s)
}

/// Prints `t`, within `fuel` nested steps: the text, how the printing ended, and the terms it
/// picked to show types from the typing context.
fn pretty_print(
    t: &ContainedTerm,
    context: &DisplayContext,
    tc: &TypingContext,
    aliases: &AliasMap,
    fuel: u64,
) -> (r: (String, Ending, Ghost<Picks>))
    ensures
        printed(fuel as nat, *t, context@, tc@, aliases@, r.2@) == Some((r.0@, r.1)),
    decreases fuel, 1nat,
{
    if fuel == 0 {
        return (String::new(), Ending::Failed, Ghost(Picks::Leaf));
    }
    let g = fuel - 1;
    match aliases.get(t) {
        Some(v) => {
            return (v.clone(), Ending::Complete, Ghost(Picks::Leaf));
        },
        None => {},
    }
    let leaf = Ghost(Picks::Leaf);
    let term = t.0.get_ref();
    match term {
        Term::DeBrujin(n, ty) => print_var(*n, ty, context, tc, aliases, g),
        Term::Lam(ty, body, nm) => print_binder(ty, body, nm, context, tc, aliases, g),
        Term::Pi(ty, body, nm) => print_binder(ty, body, nm, context, tc, aliases, g),
        Term::App(a, b) => print_two(a, context, tc, b, context, tc, aliases, g, text("("), " ", ")"),
        Term::Universe(n) => {
            let mut out = text("Type{");
            push_decimal(&mut out, unwrap_natural(*n) as u128);
            out.append("}");
            (out, Ending::Complete, leaf)
        },
        Term::Nat => (text("\u{2115}"), Ending::Complete, leaf),
        Term::Zero => (text("0"), Ending::Complete, leaf),
        Term::Succ(x) => match x.clone().get_number() {
            Some(v) => {
                let mut out = String::new();
                push_decimal(&mut out, v as u128 + 1);
                assert(out@ =~= decimal(v as nat + 1));
                (out, Ending::Complete, leaf)
            },
            None => {
                let (out, e, w) = print_one(x, context, tc, aliases, g, text("S "), "");
                (out, e, Ghost(Picks::Node(Box::new(w@), Box::new(Picks::Leaf), Box::new(Picks::Leaf), None)))
            },
        },
        Term::NatInd(v, u) => {
            let mut out = text("(");
            out.append("Ind{");
            push_decimal(&mut out, unwrap_natural(*u) as u128);
            out.append("} ");
            let (out, e, w) = print_one(v, context, tc, aliases, g, out, ")");
            (out, e, Ghost(Picks::Node(Box::new(w@), Box::new(Picks::Leaf), Box::new(Picks::Leaf), None)))
        },
        Term::II => (text("I"), Ending::Complete, leaf),
        Term::IA => (text("I\u{2080}"), Ending::Complete, leaf),
        Term::IB => (text("I\u{2081}"), Ending::Complete, leaf),
        Term::Not(x) => {
            let (out, e, w) = print_one(x, context, tc, aliases, g, text("\u{AC}"), "");
            (out, e, Ghost(Picks::Node(Box::new(w@), Box::new(Picks::Leaf), Box::new(Picks::Leaf), None)))
        },
        Term::And(x, y) => print_two(x, context, tc, y, context, tc, aliases, g, text("("), "&", ")"),
        Term::EqLam(x) => {
            let (out, e, w) = print_one(x, context, tc, aliases, g, text("EqLam"), "");
            (out, e, Ghost(Picks::Node(Box::new(w@), Box::new(Picks::Leaf), Box::new(Picks::Leaf), None)))
        },
        Term::Eq(p, x, y) => print_eq(p, x, y, context, tc, aliases, g),
        Term::EqUw(p, i) => print_two(p, context, tc, i, context, tc, aliases, g, String::new(), "@", ""),
        Term::HComp { .. } => (String::new(), Ending::Unprintable, leaf),
        Term::Transp(p, x) => print_two(
            p,
            context,
            tc,
            x,
            context,
            tc,
            aliases,
            g,
            text("Transp("),
            ")(",
            ")",
        ),
        Term::Sig(x) => {
            let (out, e, w) = print_one(x, context, tc, aliases, g, text("\u{3A3}"), "");
            (out, e, Ghost(Picks::Node(Box::new(w@), Box::new(Picks::Leaf), Box::new(Picks::Leaf), None)))
        },
        Term::Pair(_, a, b) => print_two(a, context, tc, b, context, tc, aliases, g, text("("), ",", ")"),
        Term::SigInd(x, n) => {
            let mut out = text("Ind\u{3A3}{");
            push_decimal(&mut out, unwrap_natural(*n) as u128);
            out.append("} ");
            let (out, e, w) = print_one(x, context, tc, aliases, g, out, "");
            (out, e, Ghost(Picks::Node(Box::new(w@), Box::new(Picks::Leaf), Box::new(Picks::Leaf), None)))
        },
    }
}

fn print_var(
    n: crate::ctypes::Natural,
    ty: &ContainedTerm,
    context: &DisplayContext,
    tc: &TypingContext,
    aliases: &AliasMap,
    g: u64,
) -> (r: (String, Ending, Ghost<Picks>))
    ensures
        printed_var(g as nat, n@, *ty, context@, tc@, aliases@, r.2@) == Some((r.0@, r.1)),
    decreases g, 4nat,
{
    let x = unwrap_natural(n);
    let c = match tc.get(x) {
        Ok(c) => c,
        Err(_) => {
            return (String::new(), Ending::Failed, Ghost(Picks::Leaf));
        },
    };
    if *c == *ty {
        if x >= context.len() {
            return (String::new(), Ending::Unprintable, Ghost(Picks::Leaf));
        }
        let shown = context.get(x).unwrap();
        return (shown.clone(), Ending::Complete, Ghost(Picks::Leaf));
    }
    let mut out = text("!(");
    let (o1, e1, w1) = pretty_print(ty, context, tc, aliases, g);
    out.append(o1.as_str());
    if e1 != Ending::Complete {
        return (out, e1, Ghost(Picks::Node(Box::new(w1@), Box::new(Picks::Leaf), Box::new(Picks::Leaf), None)));
    }
    out.append("/");
    let (o2, e2, w2) = pretty_print(c, context, tc, aliases, g);
    out.append(o2.as_str());
    let w = Ghost(Picks::Node(Box::new(w1@), Box::new(w2@), Box::new(Picks::Leaf), Some(*c)));
    if e2 != Ending::Complete {
        return (out, e2, w);
    }
    out.append(")");
    if x >= context.len() {
        return (out, Ending::Unprintable, w);
    }
    let shown = context.get(x).unwrap();
    out.append(shown.as_str());
    (out, Ending::Complete, w)
}

fn print_binder(
    ty: &ContainedTerm,
    body: &ContainedTerm,
    nm: &Naming,
    context: &DisplayContext,
    tc: &TypingContext,
    aliases: &AliasMap,
    g: u64,
) -> (r: (String, Ending, Ghost<Picks>))
    ensures
        printed_binder(g as nat, *ty, *body, nm.0@, context@, tc@, aliases@, r.2@) == Some((r.0@, r.1)),
    decreases g, 4nat,
{
    let (_, k) = context.count_of(&nm.0);
    if k == usize::MAX {
        return (String::new(), Ending::Unprintable, Ghost(Picks::Leaf));
    }
    let inner = context.clone().add_name(Naming(nm.0.clone()));
    let mut out = text("(");
    match inner.last() {
        Some(shown) => out.append(shown.as_str()),
        None => {},
    }
    out.append(": ");
    let mut tc2 = tc.clone();
    let _ = tc2.push(ty.clone());
    print_two(ty, context, tc, body, &inner, &tc2, aliases, g, out, " \u{2192} ", ")")
}

#[verifier::rlimit(40)]
fn print_eq(
    p: &ContainedTerm,
    x: &ContainedTerm,
    y: &ContainedTerm,
    context: &DisplayContext,
    tc: &TypingContext,
    aliases: &AliasMap,
    g: u64,
) -> (r: (String, Ending, Ghost<Picks>))
    ensures
        printed_eq(g as nat, *p, *x, *y, context@, tc@, aliases@, r.2@) == Some((r.0@, r.1)),
    decreases g, 4nat,
{
    let mut out = text("(");
    let (o1, e1, w1) = pretty_print(x, context, tc, aliases, g);
    out.append(o1.as_str());
    if e1 != Ending::Complete {
        return (out, e1, Ghost(Picks::Node(Box::new(w1@), Box::new(Picks::Leaf), Box::new(Picks::Leaf), None)));
    }
    out.append("\u{2261}");
    let (o2, e2, w2) = pretty_print(y, context, tc, aliases, g);
    out.append(o2.as_str());
    if e2 != Ending::Complete {
        return (out, e2, Ghost(Picks::Node(Box::new(w1@), Box::new(w2@), Box::new(Picks::Leaf), None)));
    }
    let ia = ctn_unchecked(Term::IA);
    match p.clone().check_refl(ia) {
        Err(_) => (out, Ending::Failed, Ghost(Picks::Node(Box::new(w1@), Box::new(w2@), Box::new(Picks::Leaf), None))),
        Ok(Some(_)) => {
            out.append(")");
            (out, Ending::Complete, Ghost(Picks::Node(Box::new(w1@), Box::new(w2@), Box::new(Picks::Leaf), None)))
        },
        Ok(None) => {
            out.append("?");
            let (out, e3, w3) = print_one(p, context, tc, aliases, g, out, ")");
            (out, e3, Ghost(Picks::Node(Box::new(w1@), Box::new(w2@), Box::new(w3@), None)))
        },
    }
}

/// The text of `t`, with the terms that have an alias in `aliases` shown by it. An error
/// on the way leaves the text shown so far.
pub fn pretty_print_base(t: ContainedTerm, aliases: &AliasMap) -> (r: String)
    requires
        !printing_panics(t, aliases@),
    ensures
        exists|w: Picks|
            shows_fully(#[trigger] printed(FUEL as nat, t, no_names(), Seq::empty(), aliases@, w), r@),
{
    let context = DisplayContext::new();
    let tc = TypingContext::new();
    let (s, e, w) = pretty_print(&t, &context, &tc, aliases, FUEL);
    assert(printed(FUEL as nat, t, no_names(), Seq::empty(), aliases@, w@) == Some((s@, e)));
    s
}

/// The text of `t` as [`pretty_print_base`] gives it, or `None` where the printing comes to a
/// point where it cannot go on.
pub fn try_pretty_print(t: ContainedTerm, aliases: &AliasMap) -> (r: Option<String>)
    ensures
        match r {
            Some(s) => exists|w: Picks|
                shows_fully(#[trigger] printed(FUEL as nat, t, no_names(), Seq::empty(), aliases@, w), s@),
            None => printing_panics(t, aliases@),
        },
{
    let context = DisplayContext::new();
    let tc = TypingContext::new();
    let (s, e, w) = pretty_print(&t, &context, &tc, aliases, FUEL);
    assert(printed(FUEL as nat, t, no_names(), Seq::empty(), aliases@, w@) == Some((s@, e)));
    if e == Ending::Unprintable {
        None
    } else {
        Some(s)
    }
}

} // verus!
