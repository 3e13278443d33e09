//! The homelab principal and its role tier.
//!
//! Exactly one principal per person (the directory object). [`RoleTier`] is
//! the single axis the rest of the system projects into web group claims,
//! file-share access and the agent capability token.

use vstd::prelude::*;

verus! {

/// The three homelab role tiers, sourced from the three directory groups.
///
/// Variants are ordered low to high authority (`Kid < Adult < Admin`), so
/// the derived `Ord` ranks authority; [`tier_rank`] states the same order.
/// A higher tier is more authoritative, but a kid's storage scope is a
/// separate volume, not a subset of an adult's.
#[derive(Debug, Clone, Copy, PartialEq, Eq, Structural, PartialOrd, Ord, Hash)]
pub enum RoleTier {
    /// Kids: curated apps, their own storage volume, capped budget, no admin.
    Kid,
    /// Adults: family storage and their home, generous budget.
    Adult,
    /// Admins: full authority across the homelab.
    Admin,
}

/// The authority rank of a tier: `Kid` 0, `Adult` 1, `Admin` 2.
pub open spec fn tier_rank(t: RoleTier) -> nat {
    match t {
        RoleTier::Kid => 0,
        RoleTier::Adult => 1,
        RoleTier::Admin => 2,
    }
}

/// The directory group that carries a tier.
pub open spec fn group_of_tier(t: RoleTier) -> Seq<char> {
    match t {
        RoleTier::Admin => "homelab-admins"@,
        RoleTier::Adult => "homelab-users"@,
        RoleTier::Kid => "homelab-kids"@,
    }
}

/// The tier a directory group carries, if it is one of the three tier groups.
pub open spec fn tier_of_group(g: Seq<char>) -> Option<RoleTier> {
    if g == "homelab-admins"@ {
        Some(RoleTier::Admin)
    } else if g == "homelab-users"@ {
        Some(RoleTier::Adult)
    } else if g == "homelab-kids"@ {
        Some(RoleTier::Kid)
    } else {
        None
    }
}

/// The local part of a user principal name: everything before the first
/// `'@'`, or the whole name when it holds none.
pub open spec fn local_part(upn: Seq<char>) -> Seq<char> {
    match upn.index_of_first('@') {
        Some(k) => upn.take(k),
        None => upn,
    }
}

/// Do two texts hold the same characters?
fn same_text(a: &str, b: &str) -> (r: bool)
    ensures
        r == (a@ == b@),
{
    a.to_owned() == b.to_owned()
}

impl RoleTier {
    /// The directory group that carries this tier.
    pub fn ad_group(&self) -> (r: &'static str)
        ensures
            r@ == group_of_tier(*self),
    {
        match self {
            RoleTier::Admin => "homelab-admins",
            RoleTier::Adult => "homelab-users",
            RoleTier::Kid => "homelab-kids",
        }
    }

    /// Resolve a tier from a directory group name (the inverse of
    /// [`Self::ad_group`]). Unknown groups yield `None`; callers decide the
    /// default (typically deny).
    pub fn from_ad_group(group: &str) -> (r: Option<Self>)
        ensures
            r == tier_of_group(group@),
    {
        if same_text(group, "homelab-admins") {
            Some(RoleTier::Admin)
        } else if same_text(group, "homelab-users") {
            Some(RoleTier::Adult)
        } else if same_text(group, "homelab-kids") {
            Some(RoleTier::Kid)
        } else {
            None
        }
    }

    /// Resolve a tier from a list of directory group memberships, taking the
    /// highest tier present (a user in both the users and the admins group is
    /// an admin). `None` if no tier group is present.
    pub fn highest_of(groups: &[&str]) -> (r: Option<Self>)
        ensures
            r is None <==> forall|i: int|
                0 <= i < groups@.len() ==> tier_of_group(#[trigger] groups@[i]@) is None,
            r matches Some(t) ==> exists|i: int|
                0 <= i < groups@.len() && tier_of_group(#[trigger] groups@[i]@) == Some(t),
            r matches Some(t) ==> forall|i: int|
                0 <= i < groups@.len() && #[trigger] tier_of_group(groups@[i]@) is Some
                    ==> tier_rank(tier_of_group(groups@[i]@)->0) <= tier_rank(t),
            (exists|i: int| #![trigger groups@[i]] 0 <= i < groups@.len() && groups@[i]@
                == "homelab-admins"@) ==> r == Some(RoleTier::Admin),
            !(exists|i: int| #![trigger groups@[i]] 0 <= i < groups@.len() && groups@[i]@
                == "homelab-admins"@) && (exists|i: int| #![trigger groups@[i]] 0 <= i
                < groups@.len() && groups@[i]@ == "homelab-users"@) ==> r == Some(RoleTier::Adult),
            !(exists|i: int| #![trigger groups@[i]] 0 <= i < groups@.len() && (groups@[i]@
                == "homelab-admins"@ || groups@[i]@ == "homelab-users"@)) && (exists|i: int|
                #![trigger groups@[i]] 0 <= i < groups@.len() && groups@[i]@ == "homelab-kids"@)
                ==> r == Some(RoleTier::Kid),
    {
        let mut best: Option<RoleTier> = None;
        let mut i: usize = 0;
        while i < groups.len()
            invariant
                i <= groups@.len(),
                best is None <==> forall|j: int|
                    0 <= j < i ==> tier_of_group(#[trigger] groups@[j]@) is None,
                best matches Some(t) ==> exists|j: int|
                    0 <= j < i && tier_of_group(#[trigger] groups@[j]@) == Some(t),
                best matches Some(t) ==> forall|j: int|
                    0 <= j < i && #[trigger] tier_of_group(groups@[j]@) is Some
                        ==> tier_rank(tier_of_group(groups@[j]@)->0) <= tier_rank(t),
            decreases groups@.len() - i,
        {
            let found = RoleTier::from_ad_group(groups[i]);
            match found {
                Some(t) => {
                    match best {
                        Some(b) => {
                            if t.rank() > b.rank() {
                                best = Some(t);
                            }
                        },
                        None => {
                            best = Some(t);
                        },
                    }
                },
                None => {},
            }
            i = i + 1;
        }
        proof {
            ad_group_round_trips(RoleTier::Admin, "homelab-admins"@);
            ad_group_round_trips(RoleTier::Adult, "homelab-users"@);
            ad_group_round_trips(RoleTier::Kid, "homelab-kids"@);
            assert forall|j: int| 0 <= j < groups@.len() && tier_of_group(groups@[j]@) == Some(
                RoleTier::Admin,
            ) implies groups@[j]@ == "homelab-admins"@ by {
                ad_group_round_trips(RoleTier::Admin, groups@[j]@);
            }
            assert forall|j: int| 0 <= j < groups@.len() && tier_of_group(groups@[j]@) == Some(
                RoleTier::Adult,
            ) implies groups@[j]@ == "homelab-users"@ by {
                ad_group_round_trips(RoleTier::Adult, groups@[j]@);
            }
            if exists|j: int| #![trigger groups@[j]] 0 <= j < groups@.len() && groups@[j]@
                == "homelab-admins"@ {
                let j = choose|j: int| #![trigger groups@[j]] 0 <= j < groups@.len() && groups@[j]@
                    == "homelab-admins"@;
                assert(tier_of_group(groups@[j]@) is Some);
            } else if exists|j: int| #![trigger groups@[j]] 0 <= j < groups@.len() && groups@[j]@
                == "homelab-users"@ {
                let j = choose|j: int| #![trigger groups@[j]] 0 <= j < groups@.len() && groups@[j]@
                    == "homelab-users"@;
                assert(tier_of_group(groups@[j]@) is Some);
                let k = choose|k: int|
                    0 <= k < groups@.len() && tier_of_group(#[trigger] groups@[k]@) == best;
                assert(groups@[k] == groups@[k]);
            } else if exists|j: int| #![trigger groups@[j]] 0 <= j < groups@.len() && groups@[j]@
                == "homelab-kids"@ {
                let j = choose|j: int| #![trigger groups@[j]] 0 <= j < groups@.len() && groups@[j]@
                    == "homelab-kids"@;
                assert(tier_of_group(groups@[j]@) is Some);
                let k = choose|k: int|
                    0 <= k < groups@.len() && tier_of_group(#[trigger] groups@[k]@) == best;
                assert(groups@[k] == groups@[k]);
            }
        }
        best
    }

    /// The authority rank of this tier (see [`tier_rank`]).
    fn rank(&self) -> (r: u8)
        ensures
            r == tier_rank(*self),
    {
        match self {
            RoleTier::Kid => 0,
            RoleTier::Adult => 1,
            RoleTier::Admin => 2,
        }
    }
}

/// One person, resolved from the directory: the single principal every
/// protocol face describes.
#[derive(Debug, Clone, PartialEq, Eq)]
pub struct HomelabPrincipal {
    /// Directory `objectSid`: the stable identity anchor.
    pub ad_sid: String,
    /// User principal name, e.g. `ada@EXAMPLE.LAN`.
    pub upn: String,
    /// The role tier (from directory group membership).
    pub role: RoleTier,
    /// POSIX uid: what file-share ownership keys on.
    pub uid: u32,
    /// POSIX primary gid.
    pub gid: u32,
}

impl HomelabPrincipal {
    /// The local part of the principal name (`ada` from `ada@EXAMPLE.LAN`),
    /// used to scope per-user storage roots without leaking the realm into a
    /// path.
    pub fn username(&self) -> (r: &str)
        ensures
            r@ == local_part(self.upn@),
    {
        let s = self.upn.as_str();
        let n = s.unicode_len();
        let mut i: usize = 0;
        while i < n
            invariant
                n == s@.len(),
                s@ == self.upn@,
                i <= n,
                forall|j: int| 0 <= j < i ==> s@[j] != '@',
            decreases n - i,
        {
            if s.get_char(i) == '@' {
                proof {
                    s@.index_of_first_ensures('@');
                    assert(s@.contains('@'));
                    let k = s@.index_of_first('@')->0;
                    assert(k == i);
                }
                return s.substring_char(0, i);
            }
            i = i + 1;
        }
        proof {
            s@.index_of_first_ensures('@');
            assert(!s@.contains('@'));
        }
        s
    }
}

/// The rank orders the tiers by authority: `Kid` below `Adult` below
/// `Admin`, so distinct tiers have distinct ranks.
pub proof fn tier_rank_orders_authority(t: RoleTier, u: RoleTier)
    ensures
        tier_rank(RoleTier::Kid) < tier_rank(RoleTier::Adult),
        tier_rank(RoleTier::Adult) < tier_rank(RoleTier::Admin),
        tier_rank(t) == tier_rank(u) ==> t == u,
{
}

/// The local part of a principal name is exactly the text before its first
/// `'@'`: a prefix of the name that holds no `'@'` and is either the whole
/// name or followed in it by `'@'`. Every other character, `'.'` included,
/// is kept.
pub proof fn local_part_is_text_before_first_at(upn: Seq<char>)
    ensures
        local_part(upn).len() <= upn.len(),
        local_part(upn) == upn.take(local_part(upn).len() as int),
        forall|j: int| 0 <= j < local_part(upn).len() ==> local_part(upn)[j] != '@',
        local_part(upn).len() == upn.len() || upn[local_part(upn).len() as int] == '@',
        !upn.contains('@') ==> local_part(upn) == upn,
{
    upn.index_of_first_ensures('@');
    match upn.index_of_first('@') {
        Some(k) => {
            assert(upn.take(k).len() == k);
        },
        None => {
            assert(upn.take(upn.len() as int) =~= upn);
            assert forall|j: int| 0 <= j < upn.len() implies upn[j] != '@' by {
                if upn[j] == '@' {
                    assert(upn.contains('@'));
                }
            }
        },
    }
}

/// Group names and tiers are inverse to each other: the group of a tier
/// resolves back to that tier, and a group that resolves to a tier is that
/// tier's group.
pub proof fn ad_group_round_trips(t: RoleTier, g: Seq<char>)
    ensures
        tier_of_group(group_of_tier(t)) == Some(t),
        tier_of_group(g) == Some(t) ==> g == group_of_tier(t),
{
    reveal_strlit("homelab-admins");
    reveal_strlit("homelab-users");
    reveal_strlit("homelab-kids");
    assert("homelab-admins"@.len() != "homelab-users"@.len());
    assert("homelab-admins"@.len() != "homelab-kids"@.len());
    assert("homelab-users"@.len() != "homelab-kids"@.len());
}

} // verus!
