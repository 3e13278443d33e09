//! The calls into the agent-mesh protocol crate: verifying a capability
//! token's certificate chain and reading the caveats it certifies. An agent
//! key is opaque here, so each item is trusted, not proved. The results depend on the key alone (no time, randomness or environment
//! enters `CertChain::verify`, and the caveats are a field of the signed
//! certificate), so each is given a name over the key.

use vstd::prelude::*;

use agent_mesh_protocol::{AgentKey, CountBound, Scope};

use crate::base::{CallBound, CaveatsView, GenerationScope, NameScope};

verus! {

/// An agent key: a keypair with the certificate chain that proves its
/// authority. Opaque here.
#[verifier::external_type_specification]
#[verifier::external_body]
pub struct ExAgentKey(AgentKey);

/// Whether `CertChain::verify` accepts the key's certificate chain.
pub uninterp spec fn chain_verifies(key: AgentKey) -> bool;

/// The caveats certified by the key's certificate
/// (`key.cert().metadata.caveats`), as a mathematical value.
pub uninterp spec fn certified_caveats(key: AgentKey) -> CaveatsView;

/// The text (`Display`) of the error `CertChain::verify` returns for the
/// key's certificate chain, when it refuses it.
pub uninterp spec fn verification_error_text(key: AgentKey) -> Seq<char>;

/// Calls `CertChain::verify` on the key's certificate chain: signatures and
/// attenuation at every link, refusing a link with a bounded generation
/// scope. A refusal is handed back as the error's text (`to_string`). The
/// contract claims that it succeeds exactly when the chain verifies (see
/// [`chain_verifies`]) and that a refusal carries the text named by
/// [`verification_error_text`].
#[verifier::external_body]
pub(crate) fn verify_certificate(key: &AgentKey) -> (r: Result<(), String>)
    ensures
        r is Ok <==> chain_verifies(*key),
        r matches Err(m) ==> m@ == verification_error_text(*key),
{
    key.cert().verify().map_err(|e| e.to_string())
}

/// The file-read, file-write, command and network scopes of the caveats in
/// the key's certificate (`key.cert().metadata.caveats`), each `All` kept as
/// `All` and each bounded set listed item by item. The contract claims that
/// the four scopes hold the same names as those of [`certified_caveats`].
#[verifier::external_body]
pub(crate) fn certified_name_scopes(key: &AgentKey) -> (r: (
    NameScope,
    NameScope,
    NameScope,
    NameScope,
))
    ensures
        r.0@ == certified_caveats(*key).fs_read,
        r.1@ == certified_caveats(*key).fs_write,
        r.2@ == certified_caveats(*key).commands,
        r.3@ == certified_caveats(*key).net,
{
    let c = &key.cert().metadata.caveats;
    let names = |s: &Scope<String>| match s {
        Scope::All => NameScope::All,
        Scope::Only(set) => NameScope::Only(set.iter().cloned().collect()),
    };
    (names(&c.fs_read), names(&c.fs_write), names(&c.exec), names(&c.net))
}

/// The tool-call bound of the caveats in the key's certificate; the contract
/// claims it is that of [`certified_caveats`].
#[verifier::external_body]
pub(crate) fn certified_call_bound(key: &AgentKey) -> (r: CallBound)
    ensures
        r == certified_caveats(*key).max_calls,
{
    match key.cert().metadata.caveats.max_calls {
        CountBound::Unlimited => CallBound::Unlimited,
        CountBound::AtMost(n) => CallBound::AtMost(n),
    }
}

/// The generation scope of the caveats in the key's certificate; the
/// contract claims it holds the same generations as that of
/// [`certified_caveats`].
#[verifier::external_body]
pub(crate) fn certified_generations(key: &AgentKey) -> (r: GenerationScope)
    ensures
        r@ == certified_caveats(*key).valid_for_generation,
{
    match &key.cert().metadata.caveats.valid_for_generation {
        Scope::All => GenerationScope::All,
        Scope::Only(set) => GenerationScope::Only(set.iter().cloned().collect()),
    }
}

} // verus!
