# nessie-identity

The shared identity crate of a self-hosted homelab: it turns a person's role
tier into a capability that the storage daemon and the agent fleet can both
check, with the authority lattice and its laws proved by Verus.

- `src/budget.rs`: the dollar-budget axis (`DollarBudget`) and its laws.
- `src/base.rs`: the base lattice (name and generation scopes, the call bound,
  `BaseCaveats`), its mathematical views and its laws.
- `src/principal.rs`: `RoleTier`, directory groups, `HomelabPrincipal`.
- `src/caveats.rs`: `RoleCaveats`, `StorageLayout`, the projection of a tier
  onto authority, and the separation laws.
- `src/verify.rs`: `run_within_role`, `decide_enforcement` and `enforce`.
- `src/mesh.rs`: the trusted calls into `agent-mesh-protocol` (certificate
  verification and reading certified caveats).
- `app/lib.rs`: serde and error-trait copies of the library's types.
