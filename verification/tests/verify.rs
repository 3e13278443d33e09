use nessie_identity::{
    decide_enforcement, enforce, run_within_role, BaseCaveats, CallBound, DenyReason,
    DollarBudget, GenerationScope, HomelabPrincipal, NameScope, RoleCaveats, RoleTier,
    StorageLayout,
};

use agent_mesh_protocol::{AgentKey, AgentMetadata, Caveats, CountBound, Scope, UserKey};

fn principal(role: RoleTier, uid: u32) -> HomelabPrincipal {
    HomelabPrincipal {
        ad_sid: format!("S-1-5-21-0-0-0-{uid}"),
        upn: format!("user{uid}@EXAMPLE.LAN"),
        role,
        uid,
        gid: 100,
    }
}

fn names(s: &NameScope) -> Scope<String> {
    match s {
        NameScope::All => Scope::All,
        NameScope::Only(v) => Scope::only(v.iter().cloned()),
    }
}

fn mesh_caveats(base: &BaseCaveats) -> Caveats {
    Caveats {
        fs_read: names(&base.fs_read),
        fs_write: names(&base.fs_write),
        exec: names(&base.commands),
        net: names(&base.net),
        max_calls: match base.max_calls {
            CallBound::Unlimited => CountBound::Unlimited,
            CallBound::AtMost(n) => CountBound::AtMost(n),
        },
        valid_for_generation: match &base.valid_for_generation {
            GenerationScope::All => Scope::All,
            GenerationScope::Only(v) => Scope::only(v.iter().cloned()),
        },
    }
}

fn meta(caveats: Caveats) -> AgentMetadata {
    AgentMetadata {
        role: "nessie-session".to_string(),
        host: "local".to_string(),
        capabilities: Vec::new(),
        // A claim in a signed cert, never a coordination primitive.
        issued_at: "1970-01-01T00:00:00Z".to_string(),
        expires_at: None,
        caveats,
    }
}

/// Mint a session root (⊤) then attenuate to `caveats`.
fn signed_key(user: &UserKey, caveats: &BaseCaveats) -> AgentKey {
    let root = AgentKey::issue(user, meta(Caveats::top()));
    root.delegate(meta(mesh_caveats(caveats)))
        .expect("attenuation ⊑ ⊤ always succeeds")
}

#[test]
fn run_within_role_accepts_a_grant_and_rejects_an_overreach() {
    let layout = StorageLayout::default();
    let kid_p = principal(RoleTier::Kid, 3);
    let kid_grant = RoleTier::Kid.project(&kid_p, &layout);
    assert!(
        run_within_role(&kid_grant, &kid_p, &layout),
        "the grant itself fits"
    );

    // An adult-shaped request does not fit a kid's role.
    let adult_grant = RoleTier::Adult.project(&principal(RoleTier::Adult, 2), &layout);
    assert!(
        !run_within_role(&adult_grant, &kid_p, &layout),
        "an adult-scoped request must not pass as a kid"
    );
}

#[test]
fn enforce_accepts_a_verified_token_within_role() {
    let layout = StorageLayout::default();
    let p = principal(RoleTier::Kid, 3);
    let grant = RoleTier::Kid.project(&p, &layout);
    let user = UserKey::generate();
    let key = signed_key(&user, &grant.base);

    let effective = enforce(&key, grant.budget, &p, &layout).expect("kid token within role");
    assert_eq!(effective, grant);
}

#[test]
fn enforce_rejects_a_token_that_exceeds_role() {
    let layout = StorageLayout::default();
    let kid_p = principal(RoleTier::Kid, 3);
    // Sign an adult-scoped base (an over-broad token) and present it as the
    // kid: the cert verifies, but it exceeds the kid role grant.
    let adult_base = RoleTier::Adult
        .project(&principal(RoleTier::Adult, 2), &layout)
        .base;
    let user = UserKey::generate();
    let key = signed_key(&user, &adult_base);

    let err = enforce(&key, DollarBudget::dollars(1), &kid_p, &layout)
        .expect_err("an over-broad token must be refused");
    assert_eq!(err, DenyReason::ExceedsRole(RoleTier::Kid));
}

#[test]
fn enforce_rejects_an_over_budget_request() {
    let layout = StorageLayout::default();
    let p = principal(RoleTier::Kid, 3);
    let grant = RoleTier::Kid.project(&p, &layout);
    let key = signed_key(&UserKey::generate(), &grant.base);
    let err = enforce(&key, DollarBudget::dollars(3), &p, &layout)
        .expect_err("a budget above the kid ceiling must be refused");
    assert_eq!(err, DenyReason::ExceedsRole(RoleTier::Kid));
    let ok = enforce(&key, DollarBudget::Cents(150), &p, &layout).expect("within budget");
    assert_eq!(ok.budget, DollarBudget::Cents(150));
    assert_eq!(ok.base, grant.base);
}

#[test]
fn enforce_reads_the_certified_caveats() {
    let layout = StorageLayout::default();
    let p = principal(RoleTier::Adult, 2);
    let narrower = BaseCaveats {
        fs_read: NameScope::only(vec!["/srv/family".to_string()]),
        fs_write: NameScope::none(),
        commands: NameScope::only(vec!["git".to_string()]),
        net: NameScope::none(),
        max_calls: CallBound::AtMost(9),
        valid_for_generation: GenerationScope::All,
    };
    let key = signed_key(&UserKey::generate(), &narrower);
    let effective = enforce(&key, DollarBudget::Cents(10), &p, &layout).expect("narrower fits");
    assert_eq!(effective.base, narrower);
    assert_eq!(effective.budget, DollarBudget::Cents(10));
}

#[test]
fn enforce_refuses_a_token_that_fails_verification() {
    // A generation-scoped cert cannot be verified without a current
    // generation, so the chain check refuses it.
    let layout = StorageLayout::default();
    let p = principal(RoleTier::Admin, 1);
    let scoped = BaseCaveats {
        valid_for_generation: GenerationScope::only(vec![7]),
        ..BaseCaveats::top()
    };
    let key = signed_key(&UserKey::generate(), &scoped);
    match enforce(&key, DollarBudget::Unlimited, &p, &layout) {
        Err(DenyReason::BadToken(msg)) => assert!(msg.starts_with("generation:"), "{msg}"),
        other => panic!("expected a bad token, got {other:?}"),
    }
}

#[test]
fn decide_enforcement_outcomes() {
    let layout = StorageLayout::default();
    let kid = principal(RoleTier::Kid, 3);
    let grant = RoleTier::Kid.project(&kid, &layout);
    assert_eq!(
        decide_enforcement(Err("broken".to_string()), grant.base.clone(), grant.budget, &kid, &layout),
        Err(DenyReason::BadToken("broken".to_string()))
    );
    assert_eq!(
        decide_enforcement(Ok(()), grant.base.clone(), grant.budget, &kid, &layout),
        Ok(RoleCaveats { base: grant.base.clone(), budget: grant.budget })
    );
    assert_eq!(
        decide_enforcement(Ok(()), BaseCaveats::top(), grant.budget, &kid, &layout),
        Err(DenyReason::ExceedsRole(RoleTier::Kid))
    );
}
