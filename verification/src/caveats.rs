//! `RoleCaveats` and the projection of a role tier onto authority.
//!
//! [`RoleCaveats`] is one element of the homelab authority lattice: the base
//! caveats (file read and write, commands, network, tool calls, generations)
//! plus the added [`DollarBudget`] axis. Every operation reduces to the
//! per-axis lattice operation, so it is attenuation-only.
//!
//! The projection turns a [`RoleTier`] into the authority an agent run as
//! that person may hold. It honors *separation, not subtraction*: a kid's
//! storage scope is a separate volume, never a subset of the family tree. So
//! `Admin` is the top (every tier is `⊑` it), but a kid's caveats are not
//! `⊑` an adult's on the filesystem axis.

use vstd::prelude::*;
use vstd::std_specs::cmp::{PartialEqSpec, PartialEqSpecImpl};
use vstd::string::*;

use crate::base::{
    caveats_le_is_partial_order, caveats_meet_laws, name_set, BaseCaveats, CallBound, CaveatsView, GenerationScope, NameScope, ScopeView,
};
use crate::budget::{
    budget_le, budget_le_antisymmetric, budget_le_iff_meet, budget_le_transitive,
    budget_meet, budget_meet_algebra, budget_meet_is_greatest, DollarBudget,
};
use crate::principal::{local_part, HomelabPrincipal, RoleTier};

verus! {

/// Default spend ceiling for adults, in cents (tunable policy, not a protocol
/// constant).
pub const DEFAULT_ADULT_BUDGET_CENTS: u64 = 5_000;

/// Default spend ceiling for kids, in cents: deliberately small.
pub const DEFAULT_KID_BUDGET_CENTS: u64 = 200;

/// Default spend ceiling for adults (tunable policy, not a protocol constant).
pub fn default_adult_budget() -> (r: DollarBudget)
    ensures
        r == DollarBudget::Cents(DEFAULT_ADULT_BUDGET_CENTS),
{
    DollarBudget::Cents(DEFAULT_ADULT_BUDGET_CENTS)
}

/// Default spend ceiling for kids: deliberately small.
pub fn default_kid_budget() -> (r: DollarBudget)
    ensures
        r == DollarBudget::Cents(DEFAULT_KID_BUDGET_CENTS),
{
    DollarBudget::Cents(DEFAULT_KID_BUDGET_CENTS)
}

/// Default tool-call cap for a kid's agent run.
pub const DEFAULT_KID_MAX_CALLS: u64 = 200;

/// The mathematical value of a [`RoleCaveats`]: base caveats and a budget.
#[verifier::ext_equal]
pub struct RoleCaveatsView {
    pub base: CaveatsView,
    pub budget: DollarBudget,
}

impl RoleCaveatsView {
    /// Unrestricted on every axis, the budget included.
    pub open spec fn top() -> Self {
        RoleCaveatsView { base: CaveatsView::top(), budget: DollarBudget::Unlimited }
    }

    /// `self ⊑ other` on every axis, the budget included.
    pub open spec fn le(self, other: Self) -> bool {
        self.base.le(other.base) && budget_le(self.budget, other.budget)
    }

    /// `self ⊓ other` on every axis.
    pub open spec fn meet(self, other: Self) -> Self {
        RoleCaveatsView {
            base: self.base.meet(other.base),
            budget: budget_meet(self.budget, other.budget),
        }
    }
}

/// A homelab authority element: base caveats plus the dollar-budget axis,
/// composed as one meet-semilattice.
#[derive(Debug, Clone)]
pub struct RoleCaveats {
    /// The signed and enforced base caveats.
    pub base: BaseCaveats,
    /// The added spend ceiling.
    pub budget: DollarBudget,
}

impl View for RoleCaveats {
    type V = RoleCaveatsView;

    open spec fn view(&self) -> RoleCaveatsView {
        RoleCaveatsView { base: self.base@, budget: self.budget }
    }
}

impl RoleCaveats {
    /// The top: unrestricted on every axis (admin authority).
    pub fn top() -> (r: Self)
        ensures
            r@ == RoleCaveatsView::top(),
    {
        RoleCaveats { base: BaseCaveats::top(), budget: DollarBudget::top() }
    }

    /// `self ⊑ other`: no more authority than `other` on every axis,
    /// including the budget. This is the attenuation check that decides
    /// whether a requested run is within a role's grant.
    pub fn leq(&self, other: &Self) -> (r: bool)
        ensures
            r == self@.le(other@),
    {
        self.base.leq(&other.base) && self.budget.leq(&other.budget)
    }

    /// `self ⊓ other`: the greatest lower bound on every axis. Composing
    /// along a delegation chain can only narrow; it never amplifies.
    pub fn meet(&self, other: &Self) -> (r: Self)
        ensures
            r@ == self@.meet(other@),
    {
        RoleCaveats { base: self.base.meet(&other.base), budget: self.budget.meet(&other.budget) }
    }

    /// Does this authority permit writing `path` (is `{path}` within the
    /// write scope)?
    pub fn authorizes_write(&self, path: &str) -> (r: bool)
        ensures
            r == self.base.fs_write@.allows(path@),
    {
        let single = single_path(path);
        single.leq(&self.base.fs_write)
    }

    /// Does this authority permit reading `path` (is `{path}` within the read
    /// scope)?
    pub fn authorizes_read(&self, path: &str) -> (r: bool)
        ensures
            r == self.base.fs_read@.allows(path@),
    {
        let single = single_path(path);
        single.leq(&self.base.fs_read)
    }
}

/// Two role caveats are equal when they are equal on every axis, the budget
/// included.
impl PartialEq for RoleCaveats {
    fn eq(&self, other: &Self) -> (r: bool)
        ensures
            r == (self.base@ == other.base@ && self.budget == other.budget),
    {
        let r = self.base == other.base && self.budget == other.budget;
        proof {
            if r {
                assert(self@ =~= other@);
            }
        }
        r
    }
}

impl PartialEqSpecImpl for RoleCaveats {
    open spec fn obeys_eq_spec() -> bool {
        true
    }

    open spec fn eq_spec(&self, other: &Self) -> bool {
        self@ == other@
    }
}

impl Eq for RoleCaveats {
}

/// The bounded scope holding exactly `path`; it is `⊑` a scope exactly when
/// that scope allows `path`.
fn single_path(path: &str) -> (r: NameScope)
    ensures
        r@ == ScopeView::Only(set![path@]),
        forall|s: ScopeView<Seq<char>>| #[trigger] r@.le(s) <==> s.allows(path@),
{
    let mut items: Vec<String> = Vec::new();
    items.push(path.to_owned());
    proof {
        lemma_names_one(items@);
    }
    NameScope::only(items)
}

/// Where the storage plane mounts each tier's storage. These are
/// export-relative roots, generic defaults a deployment overrides.
#[derive(Debug, Clone, PartialEq, Eq)]
pub struct StorageLayout {
    /// Shared family tree.
    pub family_root: String,
    /// Per-user home parent (`{home_root}/{username}`).
    pub home_root: String,
    /// Per-kid volume parent (`{kids_root}/{username}`): a separate volume.
    pub kids_root: String,
}

/// The path `{root}/{username}` for a principal name.
pub open spec fn user_path(root: Seq<char>, upn: Seq<char>) -> Seq<char> {
    root + "/"@ + local_part(upn)
}

impl Default for StorageLayout {
    /// `/srv/family`, `/srv/home` and `/srv/kids`.
    fn default() -> (r: Self)
        ensures
            r.family_root@ == "/srv/family"@,
            r.home_root@ == "/srv/home"@,
            r.kids_root@ == "/srv/kids"@,
    {
        StorageLayout {
            family_root: "/srv/family".to_owned(),
            home_root: "/srv/home".to_owned(),
            kids_root: "/srv/kids".to_owned(),
        }
    }
}

impl StorageLayout {
    /// The home directory of `p`: `{home_root}/{username}`.
    pub fn home_of(&self, p: &HomelabPrincipal) -> (r: String)
        ensures
            r@ == user_path(self.home_root@, p.upn@),
    {
        join_path(&self.home_root, p.username())
    }

    /// The kid volume of `p`: `{kids_root}/{username}`.
    pub fn kid_volume_of(&self, p: &HomelabPrincipal) -> (r: String)
        ensures
            r@ == user_path(self.kids_root@, p.upn@),
    {
        join_path(&self.kids_root, p.username())
    }
}

/// `{root}/{name}`.
fn join_path(root: &String, name: &str) -> (r: String)
    ensures
        r@ == root@ + "/"@ + name@,
{
    let mut s = root.clone();
    s.append("/");
    s.append(name);
    s
}

proof fn lemma_names_one(v: Seq<String>)
    requires
        v.len() == 1,
    ensures
        name_set(v) == set![v[0]@],
{
    assert(name_set(v) =~= set![v[0]@]);
}

proof fn lemma_names_two(v: Seq<String>)
    requires
        v.len() == 2,
    ensures
        name_set(v) == set![v[0]@, v[1]@],
{
    assert forall|s: Seq<char>| name_set(v).contains(s) <==> set![v[0]@, v[1]@].contains(s) by {
        if s == v[1]@ {
            assert(v[1]@ == s);
        }
    }
    assert(name_set(v) =~= set![v[0]@, v[1]@]);
}

/// The authority a tier grants a principal under a storage layout.
///
/// - `Admin` is the top: full authority.
/// - `Adult` reads and writes the family tree and their own home, with
///   unrestricted commands, network, calls and generations and the adult
///   budget.
/// - `Kid` reads and writes only their own kid volume, with no commands, no
///   network, the kid call cap, unrestricted generations and the kid budget.
pub open spec fn projected(
    tier: RoleTier,
    p: HomelabPrincipal,
    layout: StorageLayout,
) -> RoleCaveatsView {
    match tier {
        RoleTier::Admin => RoleCaveatsView::top(),
        RoleTier::Adult => {
            let files = ScopeView::Only(
                set![layout.family_root@, user_path(layout.home_root@, p.upn@)],
            );
            RoleCaveatsView {
                base: CaveatsView {
                    fs_read: files,
                    fs_write: files,
                    commands: ScopeView::All,
                    net: ScopeView::All,
                    max_calls: CallBound::Unlimited,
                    valid_for_generation: ScopeView::All,
                },
                budget: DollarBudget::Cents(DEFAULT_ADULT_BUDGET_CENTS),
            }
        },
        RoleTier::Kid => {
            let files = ScopeView::Only(set![user_path(layout.kids_root@, p.upn@)]);
            RoleCaveatsView {
                base: CaveatsView {
                    fs_read: files,
                    fs_write: files,
                    commands: ScopeView::Only(Set::empty()),
                    net: ScopeView::Only(Set::empty()),
                    max_calls: CallBound::AtMost(DEFAULT_KID_MAX_CALLS),
                    valid_for_generation: ScopeView::All,
                },
                budget: DollarBudget::Cents(DEFAULT_KID_BUDGET_CENTS),
            }
        },
    }
}

impl RoleTier {
    /// Project this tier onto the homelab authority an agent run as
    /// `principal` may hold, scoped by `layout` (see [`projected`]).
    pub fn project(&self, principal: &HomelabPrincipal, layout: &StorageLayout) -> (r: RoleCaveats)
        ensures
            r@ == projected(*self, *principal, *layout),
    {
        match self {
            RoleTier::Admin => RoleCaveats::top(),
            RoleTier::Adult => {
                let read = NameScope::only(
                    two_paths(layout.family_root.clone(), layout.home_of(principal)),
                );
                let write = NameScope::only(
                    two_paths(layout.family_root.clone(), layout.home_of(principal)),
                );
                RoleCaveats {
                    base: BaseCaveats {
                        fs_read: read,
                        fs_write: write,
                        commands: NameScope::top(),
                        net: NameScope::top(),
                        max_calls: CallBound::Unlimited,
                        valid_for_generation: GenerationScope::top(),
                    },
                    budget: default_adult_budget(),
                }
            },
            RoleTier::Kid => {
                let read = NameScope::only(one_path(layout.kid_volume_of(principal)));
                let write = NameScope::only(one_path(layout.kid_volume_of(principal)));
                RoleCaveats {
                    base: BaseCaveats {
                        fs_read: read,
                        fs_write: write,
                        commands: NameScope::none(),
                        net: NameScope::none(),
                        max_calls: CallBound::AtMost(DEFAULT_KID_MAX_CALLS),
                        valid_for_generation: GenerationScope::top(),
                    },
                    budget: default_kid_budget(),
                }
            },
        }
    }
}

fn one_path(a: String) -> (r: Vec<String>)
    ensures
        name_set(r@) == set![a@],
{
    let mut v: Vec<String> = Vec::new();
    v.push(a);
    proof {
        lemma_names_one(v@);
    }
    v
}

fn two_paths(a: String, b: String) -> (r: Vec<String>)
    ensures
        name_set(r@) == set![a@, b@],
{
    let mut v: Vec<String> = Vec::new();
    v.push(a);
    v.push(b);
    proof {
        lemma_names_two(v@);
    }
    v
}

/// Role caveats form a bounded meet-semilattice: `⊑` is a partial order, the
/// meet is the greatest lower bound (it never amplifies either operand), it
/// is commutative, associative and idempotent, and the top is its identity
/// and above every element.
pub proof fn role_caveats_lattice_laws(a: RoleCaveatsView, b: RoleCaveatsView, c: RoleCaveatsView)
    ensures
        a.le(a),
        a.le(b) && b.le(a) ==> a == b,
        a.le(b) && b.le(c) ==> a.le(c),
        a.meet(b).le(a),
        a.meet(b).le(b),
        c.le(a) && c.le(b) ==> c.le(a.meet(b)),
        a.meet(b) == b.meet(a),
        a.meet(b).meet(c) == a.meet(b.meet(c)),
        a.meet(a) == a,
        a.meet(RoleCaveatsView::top()) == a,
        a.le(RoleCaveatsView::top()),
        a.le(b) <==> a.meet(b) == a,
{
    caveats_le_is_partial_order(a.base, b.base, c.base);
    caveats_meet_laws(a.base, b.base, c.base);
    budget_meet_algebra(a.budget, b.budget, c.budget);
    budget_le_iff_meet(a.budget, b.budget);
    if a.le(b) && b.le(a) {
        budget_le_antisymmetric(a.budget, b.budget);
    }
    if a.le(b) && b.le(c) {
        budget_le_transitive(a.budget, b.budget, c.budget);
    }
    if c.le(a) && c.le(b) {
        budget_meet_is_greatest(a.budget, b.budget, c.budget);
    }
}

/// Two role grants are equal exactly when their base caveats are equal on
/// every axis and their budgets are the same; grants with different budgets
/// are never equal.
pub proof fn role_caveats_equality_is_axiswise(a: RoleCaveats, b: RoleCaveats)
    ensures
        PartialEqSpec::eq_spec(&a, &b) <==> (a.base.fs_read@ == b.base.fs_read@ && a.base.fs_write@
            == b.base.fs_write@ && a.base.commands@ == b.base.commands@ && a.base.net@
            == b.base.net@ && a.base.max_calls == b.base.max_calls
            && a.base.valid_for_generation@ == b.base.valid_for_generation@ && a.budget
            == b.budget),
        a.budget != b.budget ==> !PartialEqSpec::eq_spec(&a, &b),
{
    if a.base.fs_read@ == b.base.fs_read@ && a.base.fs_write@ == b.base.fs_write@
        && a.base.commands@ == b.base.commands@ && a.base.net@ == b.base.net@
        && a.base.max_calls == b.base.max_calls && a.base.valid_for_generation@
        == b.base.valid_for_generation@ && a.budget == b.budget {
        assert(a@ =~= b@);
    }
}

/// An adult reads and writes exactly the family tree and their own home,
/// `{home_root}/{username}`: the read scope is the write scope, and a path is
/// allowed exactly when it is one of those two. A kid likewise reads exactly
/// what it writes: its own volume, `{kids_root}/{username}`.
pub proof fn adult_reads_and_writes_family_and_home(
    p: HomelabPrincipal,
    layout: StorageLayout,
)
    ensures
        projected(RoleTier::Adult, p, layout).base.fs_read == projected(
            RoleTier::Adult,
            p,
            layout,
        ).base.fs_write,
        forall|x: Seq<char>|
            #[trigger] projected(RoleTier::Adult, p, layout).base.fs_read.allows(x) <==> (x
                == layout.family_root@ || x == layout.home_root@ + seq!['/'] + local_part(
                p.upn@,
            )),
        projected(RoleTier::Adult, p, layout).base.fs_read.allows(
            layout.home_root@ + seq!['/'] + local_part(p.upn@),
        ),
        projected(RoleTier::Adult, p, layout).base.fs_read.allows(layout.family_root@),
        projected(RoleTier::Kid, p, layout).base.fs_read == projected(
            RoleTier::Kid,
            p,
            layout,
        ).base.fs_write,
        forall|x: Seq<char>|
            #[trigger] projected(RoleTier::Kid, p, layout).base.fs_read.allows(x) <==> x
                == layout.kids_root@ + seq!['/'] + local_part(p.upn@),
{
    reveal_strlit("/");
    assert("/"@ =~= seq!['/']);
}

/// Admin projects to the top, so every tier's grant, for any principal, is
/// within an admin's grant.
pub proof fn every_grant_is_within_admin(
    tier: RoleTier,
    p: HomelabPrincipal,
    admin: HomelabPrincipal,
    layout: StorageLayout,
)
    ensures
        projected(RoleTier::Admin, admin, layout) == RoleCaveatsView::top(),
        projected(tier, p, layout).le(projected(RoleTier::Admin, admin, layout)),
{
    let g = projected(tier, p, layout);
    role_caveats_lattice_laws(g, g, g);
}

/// Separation, not subtraction: a kid's grant reads and writes exactly the
/// kid's own volume. So it cannot reach the family tree unless the layout
/// puts that tree at the kid's volume, and it is not within an adult's grant
/// unless the kid's volume is the family tree or that adult's home.
pub proof fn kid_is_separated_from_the_family_tree(
    kid: HomelabPrincipal,
    adult: HomelabPrincipal,
    layout: StorageLayout,
)
    ensures
        forall|x: Seq<char>|
            #[trigger] projected(RoleTier::Kid, kid, layout).base.fs_write.allows(x) <==> x
                == user_path(layout.kids_root@, kid.upn@),
        forall|x: Seq<char>|
            #[trigger] projected(RoleTier::Kid, kid, layout).base.fs_read.allows(x) <==> x
                == user_path(layout.kids_root@, kid.upn@),
        user_path(layout.kids_root@, kid.upn@) != layout.family_root@ ==> !projected(
            RoleTier::Kid,
            kid,
            layout,
        ).base.fs_write.allows(layout.family_root@),
        projected(RoleTier::Adult, adult, layout).base.fs_write.allows(layout.family_root@),
        projected(RoleTier::Kid, kid, layout).le(projected(RoleTier::Adult, adult, layout))
            <==> (user_path(layout.kids_root@, kid.upn@) == layout.family_root@ || user_path(
            layout.kids_root@,
            kid.upn@,
        ) == user_path(layout.home_root@, adult.upn@)),
{
    let k = projected(RoleTier::Kid, kid, layout);
    let a = projected(RoleTier::Adult, adult, layout);
    let v = user_path(layout.kids_root@, kid.upn@);
    if k.le(a) {
        if let ScopeView::Only(ks) = k.base.fs_write {
            assert(ks.contains(v));
        }
    }
    if v == layout.family_root@ || v == user_path(layout.home_root@, adult.upn@) {
        if let (ScopeView::Only(ks), ScopeView::Only(as_)) = (k.base.fs_write, a.base.fs_write) {
            assert(ks.subset_of(as_));
        }
        assert(Set::<Seq<char>>::empty().subset_of(Set::<Seq<char>>::empty()));
    }
}

/// A kid is tightly bounded: a finite budget within an adult's, no commands,
/// no network, and a call cap within an adult's.
pub proof fn kid_is_tightly_bounded(
    kid: HomelabPrincipal,
    adult: HomelabPrincipal,
    layout: StorageLayout,
)
    ensures
        budget_le(
            projected(RoleTier::Kid, kid, layout).budget,
            projected(RoleTier::Adult, adult, layout).budget,
        ),
        projected(RoleTier::Kid, kid, layout).budget != DollarBudget::Unlimited,
        projected(RoleTier::Kid, kid, layout).base.commands == ScopeView::Only(
            Set::<Seq<char>>::empty(),
        ),
        projected(RoleTier::Kid, kid, layout).base.net == ScopeView::Only(
            Set::<Seq<char>>::empty(),
        ),
        crate::base::calls_le(
            projected(RoleTier::Kid, kid, layout).base.max_calls,
            projected(RoleTier::Adult, adult, layout).base.max_calls,
        ),
{
}

/// Under the default layout (`/srv/family`, `/srv/home`, `/srv/kids`) a kid's
/// volume is never the family tree nor any adult's home: the kid cannot
/// write the family tree, and the kid's grant is not within any adult's.
pub proof fn default_layout_separates_kids(
    kid: HomelabPrincipal,
    adult: HomelabPrincipal,
    layout: StorageLayout,
)
    requires
        layout.family_root@ == "/srv/family"@,
        layout.home_root@ == "/srv/home"@,
        layout.kids_root@ == "/srv/kids"@,
    ensures
        !projected(RoleTier::Kid, kid, layout).base.fs_write.allows(layout.family_root@),
        !projected(RoleTier::Kid, kid, layout).le(projected(RoleTier::Adult, adult, layout)),
{
    reveal_strlit("/srv/family");
    reveal_strlit("/srv/home");
    reveal_strlit("/srv/kids");
    reveal_strlit("/");
    let v = user_path(layout.kids_root@, kid.upn@);
    let h = user_path(layout.home_root@, adult.upn@);
    assert(v[5] == 'k');
    assert(layout.family_root@[5] == 'f');
    assert(h[5] == 'h');
    kid_is_separated_from_the_family_tree(kid, adult, layout);
}

} // verus!
