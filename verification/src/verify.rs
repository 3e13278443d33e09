//! Verification: is this run `⊑` the human's role?
//!
//! The storage and agent daemons call these to decide whether an agent run,
//! carrying a capability token, stays within the authority its launching
//! human's [`RoleTier`] grants.

use vstd::prelude::*;

use agent_mesh_protocol::AgentKey;

use crate::base::BaseCaveats;
use crate::budget::DollarBudget;
use crate::caveats::{
    projected, role_caveats_lattice_laws, RoleCaveats, RoleCaveatsView, StorageLayout,
};
use crate::mesh::{
    certified_call_bound, certified_caveats, certified_generations, certified_name_scopes,
    chain_verifies, verification_error_text, verify_certificate,
};
use crate::principal::{HomelabPrincipal, RoleTier};

verus! {

/// Why a run was refused.
#[derive(Debug, Clone, PartialEq, Eq)]
pub enum DenyReason {
    /// The requested authority is not `⊑` the role grant on some axis.
    ExceedsRole(RoleTier),
    /// The capability token's certificate chain failed verification.
    BadToken(String),
}

/// Pure decision: is `requested ⊑ principal.role.project(principal, layout)`
/// on every axis, the dollar budget included?
pub fn run_within_role(
    requested: &RoleCaveats,
    principal: &HomelabPrincipal,
    layout: &StorageLayout,
) -> (r: bool)
    ensures
        r == requested@.le(projected(principal.role, *principal, *layout)),
{
    requested.leq(&principal.role.project(principal, layout))
}

/// The decision `enforce` makes once the token's certificate chain has been
/// checked: a failed check refuses the token with its error text; otherwise
/// the requested authority (the certified base caveats with the requested
/// budget) is granted when it is within the principal's role, and refused as
/// exceeding that role when it is not.
pub fn decide_enforcement(
    verification: Result<(), String>,
    certified: BaseCaveats,
    requested_budget: DollarBudget,
    principal: &HomelabPrincipal,
    layout: &StorageLayout,
) -> (r: Result<RoleCaveats, DenyReason>)
    ensures
        match verification {
            Err(msg) => r == Err::<RoleCaveats, DenyReason>(DenyReason::BadToken(msg)),
            Ok(_) => if (RoleCaveatsView { base: certified@, budget: requested_budget }).le(
                projected(principal.role, *principal, *layout),
            ) {
                r == Ok::<RoleCaveats, DenyReason>(
                    RoleCaveats { base: certified, budget: requested_budget },
                )
            } else {
                r == Err::<RoleCaveats, DenyReason>(DenyReason::ExceedsRole(principal.role))
            },
        },
{
    match verification {
        Err(msg) => Err(DenyReason::BadToken(msg)),
        Ok(()) => {
            let requested = RoleCaveats { base: certified, budget: requested_budget };
            if run_within_role(&requested, principal, layout) {
                Ok(requested)
            } else {
                Err(DenyReason::ExceedsRole(principal.role))
            }
        },
    }
}

/// Enforce a verified capability token against a principal's role.
///
/// The base caveats come from the token's certificate chain after it has
/// been verified, so attenuation is re-checked cryptographically at every
/// link. On success the effective [`RoleCaveats`] (the verified base with the
/// requested budget) is returned for the caller to apply.
///
/// The requested budget is enforced here but not signed: the certificate
/// does not carry a dollar budget, so a holder of the operating key could
/// under-report it, and a spend broker must treat it as advisory until it is
/// signed.
pub fn enforce(
    key: &AgentKey,
    requested_budget: DollarBudget,
    principal: &HomelabPrincipal,
    layout: &StorageLayout,
) -> (r: Result<RoleCaveats, DenyReason>)
    ensures
        !chain_verifies(*key) ==> (r matches Err(DenyReason::BadToken(m)) && m@
            == verification_error_text(*key)),
        chain_verifies(*key) ==> if (RoleCaveatsView {
            base: certified_caveats(*key),
            budget: requested_budget,
        }).le(projected(principal.role, *principal, *layout)) {
            r is Ok && r->Ok_0@ == (RoleCaveatsView {
                base: certified_caveats(*key),
                budget: requested_budget,
            })
        } else {
            r == Err::<RoleCaveats, DenyReason>(DenyReason::ExceedsRole(principal.role))
        },
        r matches Ok(g) ==> g.budget == requested_budget && g@.le(
            projected(principal.role, *principal, *layout),
        ),
        r matches Err(DenyReason::ExceedsRole(t)) ==> t == principal.role,
{
    let verification = verify_certificate(key);
    let (fs_read, fs_write, commands, net) = certified_name_scopes(key);
    let certified = BaseCaveats {
        fs_read,
        fs_write,
        commands,
        net,
        max_calls: certified_call_bound(key),
        valid_for_generation: certified_generations(key),
    };
    assert(certified@ =~= certified_caveats(*key));
    decide_enforcement(verification, certified, requested_budget, principal, layout)
}

/// A principal's own grant is within its role, and narrowing a run that fits
/// a role (meeting it with any other authority) keeps it within that role:
/// composing along a delegation chain never leaves the role.
pub proof fn narrowing_keeps_a_run_within_role(
    requested: RoleCaveatsView,
    other: RoleCaveatsView,
    principal: HomelabPrincipal,
    layout: StorageLayout,
)
    ensures
        projected(principal.role, principal, layout).le(
            projected(principal.role, principal, layout),
        ),
        requested.le(projected(principal.role, principal, layout)) ==> requested.meet(other).le(
            projected(principal.role, principal, layout),
        ),
{
    let g = projected(principal.role, principal, layout);
    role_caveats_lattice_laws(g, g, g);
    role_caveats_lattice_laws(requested, other, g);
    role_caveats_lattice_laws(requested.meet(other), requested, g);
}

} // verus!
