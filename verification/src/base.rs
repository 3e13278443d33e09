//! The base authority lattice: file, command, network and generation scopes,
//! a tool-call bound, and the caveats that combine them axis by axis.
//!
//! A scope is either unrestricted (`All`, the top of its axis) or exactly a
//! set of items; `Only(a) ⊑ Only(b)` when `a ⊆ b`, and the meet is the
//! intersection with `All` as its identity. A call bound is `Unlimited` (the
//! top) or `AtMost(n)`, ordered by `n` and met by taking the smaller bound.

use vstd::prelude::*;
use vstd::std_specs::cmp::{PartialEqSpec, PartialEqSpecImpl};

verus! {

/// The mathematical value of a scope: unrestricted, or exactly a set of items.
#[verifier::ext_equal]
#[verifier::reject_recursive_types(T)]
pub enum ScopeView<T> {
    All,
    Only(Set<T>),
}

impl<T> ScopeView<T> {
    /// `self ⊑ other`: `self` authorizes no more than `other`.
    pub open spec fn le(self, other: Self) -> bool {
        match (self, other) {
            (_, ScopeView::All) => true,
            (ScopeView::All, ScopeView::Only(_)) => false,
            (ScopeView::Only(a), ScopeView::Only(b)) => a.subset_of(b),
        }
    }

    /// `self ⊓ other`: intersection, with `All` as the identity.
    pub open spec fn meet(self, other: Self) -> Self {
        match (self, other) {
            (ScopeView::All, x) => x,
            (x, ScopeView::All) => x,
            (ScopeView::Only(a), ScopeView::Only(b)) => ScopeView::Only(a.intersect(b)),
        }
    }

    /// Does the scope authorize the single item `x`?
    pub open spec fn allows(self, x: T) -> bool {
        match self {
            ScopeView::All => true,
            ScopeView::Only(a) => a.contains(x),
        }
    }
}

/// The set of texts held by a sequence of strings.
pub open spec fn name_set(v: Seq<String>) -> Set<Seq<char>> {
    Set::new(|s: Seq<char>| exists|i: int| 0 <= i < v.len() && v[i]@ == s)
}

/// The set of generations held by a sequence.
pub open spec fn generation_set(v: Seq<u64>) -> Set<u64> {
    Set::new(|g: u64| exists|i: int| 0 <= i < v.len() && v[i] == g)
}

proof fn lemma_name_set_push(v: Seq<String>, x: String)
    ensures
        name_set(v.push(x)) == name_set(v).insert(x@),
{
    let w = v.push(x);
    assert forall|s: Seq<char>| name_set(w).contains(s) <==> name_set(v).insert(x@).contains(s) by {
        if name_set(w).contains(s) {
            let i = choose|i: int| 0 <= i < w.len() && w[i]@ == s;
            if i < v.len() {
                assert(v[i] == w[i]);
            }
        }
        if name_set(v).contains(s) {
            let i = choose|i: int| 0 <= i < v.len() && v[i]@ == s;
            assert(w[i] == v[i]);
        }
        if s == x@ {
            assert(w[v.len() as int] == x);
        }
    }
    assert(name_set(w) =~= name_set(v).insert(x@));
}

proof fn lemma_generation_set_push(v: Seq<u64>, x: u64)
    ensures
        generation_set(v.push(x)) == generation_set(v).insert(x),
{
    let w = v.push(x);
    assert forall|g: u64| generation_set(w).contains(g) <==> generation_set(v).insert(x).contains(g) by {
        if generation_set(w).contains(g) {
            let i = choose|i: int| 0 <= i < w.len() && w[i] == g;
            if i < v.len() {
                assert(v[i] == w[i]);
            }
        }
        if generation_set(v).contains(g) {
            let i = choose|i: int| 0 <= i < v.len() && v[i] == g;
            assert(w[i] == v[i]);
        }
        if g == x {
            assert(w[v.len() as int] == x);
        }
    }
    assert(generation_set(w) =~= generation_set(v).insert(x));
}

proof fn lemma_name_set_empty(v: Seq<String>)
    requires
        v.len() == 0,
    ensures
        name_set(v) == Set::<Seq<char>>::empty(),
{
    assert(name_set(v) =~= Set::<Seq<char>>::empty());
}

proof fn lemma_generation_set_empty(v: Seq<u64>)
    requires
        v.len() == 0,
    ensures
        generation_set(v) == Set::<u64>::empty(),
{
    assert(generation_set(v) =~= Set::<u64>::empty());
}

/// Is `x` one of the `items`?
fn contains_name(items: &Vec<String>, x: &String) -> (r: bool)
    ensures
        r == name_set(items@).contains(x@),
{
    let mut i: usize = 0;
    while i < items.len()
        invariant
            i <= items.len(),
            forall|j: int| 0 <= j < i ==> items@[j]@ != x@,
        decreases items.len() - i,
    {
        if items[i] == *x {
            return true;
        }
        i = i + 1;
    }
    false
}

/// Is `g` one of the `items`?
fn contains_generation(items: &Vec<u64>, g: u64) -> (r: bool)
    ensures
        r == generation_set(items@).contains(g),
{
    let mut i: usize = 0;
    while i < items.len()
        invariant
            i <= items.len(),
            forall|j: int| 0 <= j < i ==> items@[j] != g,
        decreases items.len() - i,
    {
        if items[i] == g {
            return true;
        }
        i = i + 1;
    }
    false
}

/// A copy of a list of strings.
fn copy_names(items: &Vec<String>) -> (r: Vec<String>)
    ensures
        r@ == items@,
{
    let mut out: Vec<String> = Vec::new();
    let mut i: usize = 0;
    while i < items.len()
        invariant
            i <= items.len(),
            out@ == items@.subrange(0, i as int),
        decreases items.len() - i,
    {
        out.push(items[i].clone());
        assert(items@.subrange(0, i + 1) =~= items@.subrange(0, i as int).push(items@[i as int]));
        i = i + 1;
    }
    assert(items@.subrange(0, items.len() as int) =~= items@);
    out
}

/// A copy of a list of generations.
fn copy_generations(items: &Vec<u64>) -> (r: Vec<u64>)
    ensures
        r@ == items@,
{
    let mut out: Vec<u64> = Vec::new();
    let mut i: usize = 0;
    while i < items.len()
        invariant
            i <= items.len(),
            out@ == items@.subrange(0, i as int),
        decreases items.len() - i,
    {
        out.push(items[i]);
        assert(items@.subrange(0, i + 1) =~= items@.subrange(0, i as int).push(items@[i as int]));
        i = i + 1;
    }
    assert(items@.subrange(0, items.len() as int) =~= items@);
    out
}

/// Is every one of `a` also one of `b`?
fn names_subset(a: &Vec<String>, b: &Vec<String>) -> (r: bool)
    ensures
        r == name_set(a@).subset_of(name_set(b@)),
{
    let mut i: usize = 0;
    while i < a.len()
        invariant
            i <= a.len(),
            forall|j: int| 0 <= j < i ==> name_set(b@).contains(#[trigger] a@[j]@),
        decreases a.len() - i,
    {
        if !contains_name(b, &a[i]) {
            assert(name_set(a@).contains(a@[i as int]@));
            return false;
        }
        i = i + 1;
    }
    assert forall|s: Seq<char>| name_set(a@).contains(s) implies name_set(b@).contains(s) by {
        let j = choose|j: int| 0 <= j < a@.len() && a@[j]@ == s;
        assert(name_set(b@).contains(a@[j]@));
    }
    true
}

/// Is every one of `a` also one of `b`?
fn generations_subset(a: &Vec<u64>, b: &Vec<u64>) -> (r: bool)
    ensures
        r == generation_set(a@).subset_of(generation_set(b@)),
{
    let mut i: usize = 0;
    while i < a.len()
        invariant
            i <= a.len(),
            forall|j: int| 0 <= j < i ==> generation_set(b@).contains(#[trigger] a@[j]),
        decreases a.len() - i,
    {
        if !contains_generation(b, a[i]) {
            assert(generation_set(a@).contains(a@[i as int]));
            return false;
        }
        i = i + 1;
    }
    assert forall|g: u64| generation_set(a@).contains(g) implies generation_set(b@).contains(g) by {
        let j = choose|j: int| 0 <= j < a@.len() && a@[j] == g;
        assert(generation_set(b@).contains(a@[j]));
    }
    true
}

/// The items of `a` that are also in `b`, in the order of `a`.
fn names_intersection(a: &Vec<String>, b: &Vec<String>) -> (r: Vec<String>)
    ensures
        name_set(r@) == name_set(a@).intersect(name_set(b@)),
{
    let mut out: Vec<String> = Vec::new();
    let mut i: usize = 0;
    proof {
        lemma_name_set_empty(out@);
        lemma_name_set_empty(a@.subrange(0, 0));
        assert(name_set(out@) =~= name_set(a@.subrange(0, 0)).intersect(name_set(b@)));
    }
    while i < a.len()
        invariant
            i <= a.len(),
            name_set(out@) == name_set(a@.subrange(0, i as int)).intersect(name_set(b@)),
        decreases a.len() - i,
    {
        let ghost before = out@;
        proof {
            assert(a@.subrange(0, i + 1) =~= a@.subrange(0, i as int).push(a@[i as int]));
            lemma_name_set_push(a@.subrange(0, i as int), a@[i as int]);
        }
        if contains_name(b, &a[i]) {
            out.push(a[i].clone());
            proof {
                lemma_name_set_push(before, a@[i as int]);
                assert(name_set(out@) =~= name_set(a@.subrange(0, i + 1)).intersect(name_set(b@)));
            }
        } else {
            assert(name_set(out@) =~= name_set(a@.subrange(0, i + 1)).intersect(name_set(b@)));
        }
        i = i + 1;
    }
    assert(a@.subrange(0, a.len() as int) =~= a@);
    out
}

/// The items of `a` that are also in `b`, in the order of `a`.
fn generations_intersection(a: &Vec<u64>, b: &Vec<u64>) -> (r: Vec<u64>)
    ensures
        generation_set(r@) == generation_set(a@).intersect(generation_set(b@)),
{
    let mut out: Vec<u64> = Vec::new();
    let mut i: usize = 0;
    proof {
        lemma_generation_set_empty(out@);
        lemma_generation_set_empty(a@.subrange(0, 0));
        assert(generation_set(out@) =~= generation_set(a@.subrange(0, 0)).intersect(
            generation_set(b@),
        ));
    }
    while i < a.len()
        invariant
            i <= a.len(),
            generation_set(out@) == generation_set(a@.subrange(0, i as int)).intersect(
                generation_set(b@),
            ),
        decreases a.len() - i,
    {
        let ghost before = out@;
        proof {
            assert(a@.subrange(0, i + 1) =~= a@.subrange(0, i as int).push(a@[i as int]));
            lemma_generation_set_push(a@.subrange(0, i as int), a@[i as int]);
        }
        if contains_generation(b, a[i]) {
            out.push(a[i]);
            proof {
                lemma_generation_set_push(before, a@[i as int]);
                assert(generation_set(out@) =~= generation_set(a@.subrange(0, i + 1)).intersect(
                    generation_set(b@),
                ));
            }
        } else {
            assert(generation_set(out@) =~= generation_set(a@.subrange(0, i + 1)).intersect(
                generation_set(b@),
            ));
        }
        i = i + 1;
    }
    assert(a@.subrange(0, a.len() as int) =~= a@);
    out
}

/// A scope over names (paths, commands, hosts): unrestricted, or exactly the
/// listed names.
#[derive(Debug, Clone)]
pub enum NameScope {
    /// Unrestricted: authorizes every name. The top of this axis.
    All,
    /// Authorizes exactly the listed names.
    Only(Vec<String>),
}

impl View for NameScope {
    type V = ScopeView<Seq<char>>;

    open spec fn view(&self) -> ScopeView<Seq<char>> {
        match self {
            NameScope::All => ScopeView::All,
            NameScope::Only(v) => ScopeView::Only(name_set(v@)),
        }
    }
}

impl NameScope {
    /// The top of this axis (`All`, unrestricted).
    pub fn top() -> (r: Self)
        ensures
            r@ == ScopeView::<Seq<char>>::All,
    {
        NameScope::All
    }

    /// The empty authority on this axis: authorizes nothing.
    pub fn none() -> (r: Self)
        ensures
            r@ == ScopeView::Only(Set::<Seq<char>>::empty()),
    {
        let r = NameScope::Only(Vec::new());
        proof {
            lemma_name_set_empty(Seq::<String>::empty());
        }
        r
    }

    /// A bounded scope holding exactly the given names.
    pub fn only(items: Vec<String>) -> (r: Self)
        ensures
            r@ == ScopeView::Only(name_set(items@)),
    {
        NameScope::Only(items)
    }

    /// `self ⊑ other`: does `self` authorize no more than `other`?
    pub fn leq(&self, other: &Self) -> (r: bool)
        ensures
            r == self@.le(other@),
    {
        match (self, other) {
            (_, NameScope::All) => true,
            (NameScope::All, NameScope::Only(_)) => false,
            (NameScope::Only(a), NameScope::Only(b)) => names_subset(a, b),
        }
    }

    /// `self ⊓ other`: the intersection, with `All` as the identity.
    pub fn meet(&self, other: &Self) -> (r: Self)
        ensures
            r@ == self@.meet(other@),
    {
        match (self, other) {
            (NameScope::All, NameScope::All) => NameScope::All,
            (NameScope::All, NameScope::Only(b)) => NameScope::Only(copy_names(b)),
            (NameScope::Only(a), NameScope::All) => NameScope::Only(copy_names(a)),
            (NameScope::Only(a), NameScope::Only(b)) => NameScope::Only(names_intersection(a, b)),
        }
    }
}

/// Two name scopes are equal when they authorize the same names: the order
/// and repetition of the listed names do not matter.
impl PartialEq for NameScope {
    fn eq(&self, other: &Self) -> (r: bool)
        ensures
            r == ((self is All && other is All) || (self is Only && other is Only && forall|
                s: Seq<char>,
            | #[trigger] name_set(self->Only_0@).contains(s) == name_set(
                other->Only_0@,
            ).contains(s))),
    {
        match (self, other) {
            (NameScope::All, NameScope::All) => true,
            (NameScope::Only(a), NameScope::Only(b)) => {
                let r = names_subset(a, b) && names_subset(b, a);
                proof {
                    if r {
                        assert(name_set(a@) =~= name_set(b@));
                    }
                }
                r
            },
            _ => false,
        }
    }
}

impl PartialEqSpecImpl for NameScope {
    open spec fn obeys_eq_spec() -> bool {
        true
    }

    open spec fn eq_spec(&self, other: &Self) -> bool {
        self@ == other@
    }
}

impl Eq for NameScope {
}

/// A scope over causal generations: unrestricted, or exactly the listed
/// generations.
#[derive(Debug, Clone)]
pub enum GenerationScope {
    /// Unrestricted: valid for every generation. The top of this axis.
    All,
    /// Valid for exactly the listed generations.
    Only(Vec<u64>),
}

impl View for GenerationScope {
    type V = ScopeView<u64>;

    open spec fn view(&self) -> ScopeView<u64> {
        match self {
            GenerationScope::All => ScopeView::All,
            GenerationScope::Only(v) => ScopeView::Only(generation_set(v@)),
        }
    }
}

impl GenerationScope {
    /// The top of this axis (`All`, unrestricted).
    pub fn top() -> (r: Self)
        ensures
            r@ == ScopeView::<u64>::All,
    {
        GenerationScope::All
    }

    /// The empty authority on this axis: valid for no generation.
    pub fn none() -> (r: Self)
        ensures
            r@ == ScopeView::Only(Set::<u64>::empty()),
    {
        let r = GenerationScope::Only(Vec::new());
        proof {
            lemma_generation_set_empty(Seq::<u64>::empty());
        }
        r
    }

    /// A bounded scope holding exactly the given generations.
    pub fn only(items: Vec<u64>) -> (r: Self)
        ensures
            r@ == ScopeView::Only(generation_set(items@)),
    {
        GenerationScope::Only(items)
    }

    /// `self ⊑ other`: is `self` valid for no more generations than `other`?
    pub fn leq(&self, other: &Self) -> (r: bool)
        ensures
            r == self@.le(other@),
    {
        match (self, other) {
            (_, GenerationScope::All) => true,
            (GenerationScope::All, GenerationScope::Only(_)) => false,
            (GenerationScope::Only(a), GenerationScope::Only(b)) => generations_subset(a, b),
        }
    }

    /// `self ⊓ other`: the intersection, with `All` as the identity.
    pub fn meet(&self, other: &Self) -> (r: Self)
        ensures
            r@ == self@.meet(other@),
    {
        match (self, other) {
            (GenerationScope::All, GenerationScope::All) => GenerationScope::All,
            (GenerationScope::All, GenerationScope::Only(b)) => GenerationScope::Only(
                copy_generations(b),
            ),
            (GenerationScope::Only(a), GenerationScope::All) => GenerationScope::Only(
                copy_generations(a),
            ),
            (GenerationScope::Only(a), GenerationScope::Only(b)) => GenerationScope::Only(
                generations_intersection(a, b),
            ),
        }
    }
}

/// Two generation scopes are equal when they are valid for the same
/// generations: the order and repetition of the listed generations do not
/// matter.
impl PartialEq for GenerationScope {
    fn eq(&self, other: &Self) -> (r: bool)
        ensures
            r == ((self is All && other is All) || (self is Only && other is Only && forall|
                g: u64,
            | #[trigger] generation_set(self->Only_0@).contains(g) == generation_set(
                other->Only_0@,
            ).contains(g))),
    {
        match (self, other) {
            (GenerationScope::All, GenerationScope::All) => true,
            (GenerationScope::Only(a), GenerationScope::Only(b)) => {
                let r = generations_subset(a, b) && generations_subset(b, a);
                proof {
                    if r {
                        assert(generation_set(a@) =~= generation_set(b@));
                    }
                }
                r
            },
            _ => false,
        }
    }
}

impl PartialEqSpecImpl for GenerationScope {
    open spec fn obeys_eq_spec() -> bool {
        true
    }

    open spec fn eq_spec(&self, other: &Self) -> bool {
        self@ == other@
    }
}

impl Eq for GenerationScope {
}

/// An upper bound on tool calls: `Unlimited` is the top, `AtMost(n) ⊑ AtMost(m)`
/// when `n ≤ m`, and the meet is the tighter bound.
#[derive(Debug, Clone, Copy, PartialEq, Eq, Structural)]
pub enum CallBound {
    /// No bound: the top of this axis.
    Unlimited,
    /// At most this many calls.
    AtMost(u64),
}

/// `a ⊑ b` on call bounds.
pub open spec fn calls_le(a: CallBound, b: CallBound) -> bool {
    match (a, b) {
        (_, CallBound::Unlimited) => true,
        (CallBound::Unlimited, CallBound::AtMost(_)) => false,
        (CallBound::AtMost(x), CallBound::AtMost(y)) => x <= y,
    }
}

/// `a ⊓ b` on call bounds: the tighter bound.
pub open spec fn calls_meet(a: CallBound, b: CallBound) -> CallBound {
    match (a, b) {
        (CallBound::Unlimited, x) => x,
        (x, CallBound::Unlimited) => x,
        (CallBound::AtMost(x), CallBound::AtMost(y)) => CallBound::AtMost(
            if x <= y { x } else { y },
        ),
    }
}

impl CallBound {
    /// The top of this axis (`Unlimited`).
    pub fn top() -> (r: Self)
        ensures
            r == CallBound::Unlimited,
    {
        CallBound::Unlimited
    }

    /// `self ⊑ other`: is `self` at least as tight a bound as `other`?
    pub fn leq(&self, other: &Self) -> (r: bool)
        ensures
            r == calls_le(*self, *other),
    {
        match (self, other) {
            (_, CallBound::Unlimited) => true,
            (CallBound::Unlimited, CallBound::AtMost(_)) => false,
            (CallBound::AtMost(a), CallBound::AtMost(b)) => *a <= *b,
        }
    }

    /// `self ⊓ other`: the tighter bound.
    pub fn meet(&self, other: &Self) -> (r: Self)
        ensures
            r == calls_meet(*self, *other),
    {
        match (self, other) {
            (CallBound::Unlimited, x) => *x,
            (x, CallBound::Unlimited) => *x,
            (CallBound::AtMost(a), CallBound::AtMost(b)) => {
                if *a <= *b {
                    CallBound::AtMost(*a)
                } else {
                    CallBound::AtMost(*b)
                }
            },
        }
    }
}

/// The mathematical value of a set of base caveats, one entry per axis.
#[verifier::ext_equal]
pub struct CaveatsView {
    pub fs_read: ScopeView<Seq<char>>,
    pub fs_write: ScopeView<Seq<char>>,
    pub commands: ScopeView<Seq<char>>,
    pub net: ScopeView<Seq<char>>,
    pub max_calls: CallBound,
    pub valid_for_generation: ScopeView<u64>,
}

impl CaveatsView {
    /// Unrestricted on every axis.
    pub open spec fn top() -> Self {
        CaveatsView {
            fs_read: ScopeView::All,
            fs_write: ScopeView::All,
            commands: ScopeView::All,
            net: ScopeView::All,
            max_calls: CallBound::Unlimited,
            valid_for_generation: ScopeView::All,
        }
    }

    /// `self ⊑ other` on every axis.
    pub open spec fn le(self, other: Self) -> bool {
        &&& self.fs_read.le(other.fs_read)
        &&& self.fs_write.le(other.fs_write)
        &&& self.commands.le(other.commands)
        &&& self.net.le(other.net)
        &&& calls_le(self.max_calls, other.max_calls)
        &&& self.valid_for_generation.le(other.valid_for_generation)
    }

    /// `self ⊓ other`, axis by axis.
    pub open spec fn meet(self, other: Self) -> Self {
        CaveatsView {
            fs_read: self.fs_read.meet(other.fs_read),
            fs_write: self.fs_write.meet(other.fs_write),
            commands: self.commands.meet(other.commands),
            net: self.net.meet(other.net),
            max_calls: calls_meet(self.max_calls, other.max_calls),
            valid_for_generation: self.valid_for_generation.meet(other.valid_for_generation),
        }
    }
}

/// The capability set an agent holds: one element of the base authority
/// lattice (file read and write scopes, commands, network hosts, a tool-call
/// bound and the generations it is valid for).
#[derive(Debug, Clone)]
pub struct BaseCaveats {
    /// Filesystem paths the agent may read.
    pub fs_read: NameScope,
    /// Filesystem paths the agent may write.
    pub fs_write: NameScope,
    /// Commands the agent may execute.
    pub commands: NameScope,
    /// Network hosts the agent may reach.
    pub net: NameScope,
    /// Upper bound on tool calls.
    pub max_calls: CallBound,
    /// Generation counters this authority is valid for.
    pub valid_for_generation: GenerationScope,
}

impl View for BaseCaveats {
    type V = CaveatsView;

    open spec fn view(&self) -> CaveatsView {
        CaveatsView {
            fs_read: self.fs_read@,
            fs_write: self.fs_write@,
            commands: self.commands@,
            net: self.net@,
            max_calls: self.max_calls,
            valid_for_generation: self.valid_for_generation@,
        }
    }
}

impl BaseCaveats {
    /// Unrestricted authority on every axis.
    pub fn top() -> (r: Self)
        ensures
            r@ == CaveatsView::top(),
    {
        BaseCaveats {
            fs_read: NameScope::top(),
            fs_write: NameScope::top(),
            commands: NameScope::top(),
            net: NameScope::top(),
            max_calls: CallBound::top(),
            valid_for_generation: GenerationScope::top(),
        }
    }

    /// `self ⊑ other`: no more authority than `other` on every axis.
    pub fn leq(&self, other: &Self) -> (r: bool)
        ensures
            r == self@.le(other@),
    {
        self.fs_read.leq(&other.fs_read) && self.fs_write.leq(&other.fs_write) && self.commands.leq(
            &other.commands,
        ) && self.net.leq(&other.net) && self.max_calls.leq(&other.max_calls)
            && self.valid_for_generation.leq(&other.valid_for_generation)
    }

    /// `self ⊓ other`: the greatest lower bound, axis by axis.
    pub fn meet(&self, other: &Self) -> (r: Self)
        ensures
            r@ == self@.meet(other@),
    {
        BaseCaveats {
            fs_read: self.fs_read.meet(&other.fs_read),
            fs_write: self.fs_write.meet(&other.fs_write),
            commands: self.commands.meet(&other.commands),
            net: self.net.meet(&other.net),
            max_calls: self.max_calls.meet(&other.max_calls),
            valid_for_generation: self.valid_for_generation.meet(&other.valid_for_generation),
        }
    }
}

/// On every scope axis `⊑` is a partial order: reflexive, antisymmetric and
/// transitive.
pub proof fn scope_le_is_partial_order<T>(a: ScopeView<T>, b: ScopeView<T>, c: ScopeView<T>)
    ensures
        a.le(a),
        a.le(b) && b.le(a) ==> a == b,
        a.le(b) && b.le(c) ==> a.le(c),
{
    if a.le(b) && b.le(a) {
        if let (ScopeView::Only(x), ScopeView::Only(y)) = (a, b) {
            assert(x =~= y);
        }
    }
}

/// On every scope axis the meet is the greatest lower bound, `All` is its
/// identity and the top, and the meet is commutative, associative and
/// idempotent.
pub proof fn scope_meet_laws<T>(a: ScopeView<T>, b: ScopeView<T>, c: ScopeView<T>)
    ensures
        a.meet(b).le(a),
        a.meet(b).le(b),
        c.le(a) && c.le(b) ==> c.le(a.meet(b)),
        a.meet(b) == b.meet(a),
        a.meet(b).meet(c) == a.meet(b.meet(c)),
        a.meet(a) == a,
        a.meet(ScopeView::All) == a,
        a.le(ScopeView::All),
        a.le(b) <==> a.meet(b) == a,
{
    match (a, b, c) {
        (ScopeView::Only(x), ScopeView::Only(y), ScopeView::Only(z)) => {
            assert(x.intersect(y) =~= y.intersect(x));
            assert(x.intersect(y).intersect(z) =~= x.intersect(y.intersect(z)));
            assert(x.intersect(x) =~= x);
            if x.subset_of(y) {
                assert(x.intersect(y) =~= x);
            }
            if x.intersect(y) == x {
                assert forall|e: T| x.contains(e) implies y.contains(e) by {
                    assert(x.intersect(y).contains(e));
                }
            }
        },
        (ScopeView::Only(x), ScopeView::Only(y), _) => {
            assert(x.intersect(y) =~= y.intersect(x));
            assert(x.intersect(x) =~= x);
            if x.subset_of(y) {
                assert(x.intersect(y) =~= x);
            }
            if x.intersect(y) == x {
                assert forall|e: T| x.contains(e) implies y.contains(e) by {
                    assert(x.intersect(y).contains(e));
                }
            }
        },
        (ScopeView::Only(x), _, _) => {
            assert(x.intersect(x) =~= x);
        },
        _ => {},
    }
}

/// On call bounds `⊑` is a partial order and the meet is the greatest lower
/// bound, commutative, associative and idempotent, with `Unlimited` as top
/// and identity.
pub proof fn calls_lattice_laws(a: CallBound, b: CallBound, c: CallBound)
    ensures
        calls_le(a, a),
        calls_le(a, b) && calls_le(b, a) ==> a == b,
        calls_le(a, b) && calls_le(b, c) ==> calls_le(a, c),
        calls_le(calls_meet(a, b), a),
        calls_le(calls_meet(a, b), b),
        calls_le(c, a) && calls_le(c, b) ==> calls_le(c, calls_meet(a, b)),
        calls_meet(a, b) == calls_meet(b, a),
        calls_meet(calls_meet(a, b), c) == calls_meet(a, calls_meet(b, c)),
        calls_meet(a, a) == a,
        calls_meet(a, CallBound::Unlimited) == a,
        calls_le(a, CallBound::Unlimited),
{
}

/// Two sets of base caveats are equal when they are equal on every axis.
impl PartialEq for BaseCaveats {
    fn eq(&self, other: &Self) -> (r: bool)
        ensures
            r == (self.fs_read@ == other.fs_read@ && self.fs_write@ == other.fs_write@
                && self.commands@ == other.commands@ && self.net@ == other.net@ && self.max_calls
                == other.max_calls && self.valid_for_generation@ == other.valid_for_generation@),
    {
        let r = self.fs_read == other.fs_read && self.fs_write == other.fs_write && self.commands
            == other.commands && self.net == other.net && self.max_calls == other.max_calls
            && self.valid_for_generation == other.valid_for_generation;
        proof {
            if r {
                assert(self@ =~= other@);
            }
        }
        r
    }
}

impl PartialEqSpecImpl for BaseCaveats {
    open spec fn obeys_eq_spec() -> bool {
        true
    }

    open spec fn eq_spec(&self, other: &Self) -> bool {
        self@ == other@
    }
}

impl Eq for BaseCaveats {
}

/// Two name scopes are equal exactly when both are unrestricted or both
/// list the same names, whatever their order and repetition.
pub proof fn name_scope_equality_is_by_names(a: NameScope, b: NameScope)
    ensures
        PartialEqSpec::eq_spec(&a, &b) <==> ((a is All && b is All) || (a is Only && b is Only
            && forall|s: Seq<char>|
            #[trigger] name_set(a->Only_0@).contains(s) == name_set(b->Only_0@).contains(s))),
        a is Only && b is Only && a->Only_0@.to_multiset() == b->Only_0@.to_multiset()
            ==> PartialEqSpec::eq_spec(&a, &b),
{
    if let (NameScope::Only(x), NameScope::Only(y)) = (a, b) {
        if forall|s: Seq<char>| #[trigger] name_set(x@).contains(s) == name_set(y@).contains(s) {
            assert(name_set(x@) =~= name_set(y@));
        }
        if x@.to_multiset() == y@.to_multiset() {
            assert forall|s: Seq<char>| name_set(x@).contains(s) implies name_set(y@).contains(
                s,
            ) by {
                let i = choose|i: int| 0 <= i < x@.len() && x@[i]@ == s;
                x@.to_multiset_ensures();
                y@.to_multiset_ensures();
                assert(x@.contains(x@[i]));
                assert(x@.to_multiset().count(x@[i]) > 0);
                assert(y@.contains(x@[i]));
                let j = choose|j: int| 0 <= j < y@.len() && y@[j] == x@[i];
                assert(y@[j]@ == s);
            }
            assert forall|s: Seq<char>| name_set(y@).contains(s) implies name_set(x@).contains(
                s,
            ) by {
                let i = choose|i: int| 0 <= i < y@.len() && y@[i]@ == s;
                x@.to_multiset_ensures();
                y@.to_multiset_ensures();
                assert(y@.contains(y@[i]));
                assert(y@.to_multiset().count(y@[i]) > 0);
                assert(x@.contains(y@[i]));
                let j = choose|j: int| 0 <= j < x@.len() && x@[j] == y@[i];
                assert(x@[j]@ == s);
            }
            assert(name_set(x@) =~= name_set(y@));
        }
    }
}

/// Two sets of base caveats are equal exactly when they are equal on every
/// axis.
pub proof fn base_caveats_equality_is_axiswise(a: BaseCaveats, b: BaseCaveats)
    ensures
        PartialEqSpec::eq_spec(&a, &b) <==> (a.fs_read@ == b.fs_read@ && a.fs_write@
            == b.fs_write@ && a.commands@ == b.commands@ && a.net@ == b.net@ && a.max_calls
            == b.max_calls && a.valid_for_generation@ == b.valid_for_generation@),
{
    if a.fs_read@ == b.fs_read@ && a.fs_write@ == b.fs_write@ && a.commands@ == b.commands@
        && a.net@ == b.net@ && a.max_calls == b.max_calls && a.valid_for_generation@
        == b.valid_for_generation@ {
        assert(a@ =~= b@);
    }
}

/// Base caveats form a partial order: `⊑` is reflexive, antisymmetric and
/// transitive.
pub proof fn caveats_le_is_partial_order(a: CaveatsView, b: CaveatsView, c: CaveatsView)
    ensures
        a.le(a),
        a.le(b) && b.le(a) ==> a == b,
        a.le(b) && b.le(c) ==> a.le(c),
{
    scope_le_is_partial_order(a.fs_read, b.fs_read, c.fs_read);
    scope_le_is_partial_order(a.fs_write, b.fs_write, c.fs_write);
    scope_le_is_partial_order(a.commands, b.commands, c.commands);
    scope_le_is_partial_order(a.net, b.net, c.net);
    scope_le_is_partial_order(
        a.valid_for_generation,
        b.valid_for_generation,
        c.valid_for_generation,
    );
    calls_lattice_laws(a.max_calls, b.max_calls, c.max_calls);
}

/// Base caveats form a bounded meet-semilattice: the meet is the greatest
/// lower bound (so it never amplifies either operand), it is commutative,
/// associative and idempotent, and the top is its identity and above every
/// element.
pub proof fn caveats_meet_laws(a: CaveatsView, b: CaveatsView, c: CaveatsView)
    ensures
        a.meet(b).le(a),
        a.meet(b).le(b),
        c.le(a) && c.le(b) ==> c.le(a.meet(b)),
        a.meet(b) == b.meet(a),
        a.meet(b).meet(c) == a.meet(b.meet(c)),
        a.meet(a) == a,
        a.meet(CaveatsView::top()) == a,
        a.le(CaveatsView::top()),
        a.le(b) <==> a.meet(b) == a,
{
    scope_meet_laws(a.fs_read, b.fs_read, c.fs_read);
    scope_meet_laws(a.fs_write, b.fs_write, c.fs_write);
    scope_meet_laws(a.commands, b.commands, c.commands);
    scope_meet_laws(a.net, b.net, c.net);
    scope_meet_laws(a.valid_for_generation, b.valid_for_generation, c.valid_for_generation);
    calls_lattice_laws(a.max_calls, b.max_calls, c.max_calls);
    if a.meet(b) == a {
        assert(a.fs_read.meet(b.fs_read) == a.fs_read);
    }
}

} // verus!
