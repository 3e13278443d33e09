//! The shared homelab identity crate: role tiers, a dollar-budget axis, the
//! attenuation-only authority lattice built from them, and the checks that
//! decide whether an agent run stays within its human's role.

pub mod base;
pub mod budget;
pub mod caveats;
pub mod mesh;
pub mod principal;
pub mod verify;

pub use base::{BaseCaveats, CallBound, GenerationScope, NameScope};
pub use budget::DollarBudget;
pub use caveats::{
    default_adult_budget, default_kid_budget, RoleCaveats, StorageLayout,
    DEFAULT_ADULT_BUDGET_CENTS, DEFAULT_KID_BUDGET_CENTS, DEFAULT_KID_MAX_CALLS,
};
pub use principal::{HomelabPrincipal, RoleTier};
pub use verify::{decide_enforcement, enforce, run_within_role, DenyReason};

pub use agent_mesh_protocol::{AgentKey, Caveats, CertChain, MeshError, UserKey};
