use nessie_identity::{
    DollarBudget, GenerationScope, HomelabPrincipal, NameScope, RoleCaveats, RoleTier,
    StorageLayout,
};

fn budgets() -> Vec<DollarBudget> {
    vec![
        DollarBudget::Unlimited,
        DollarBudget::Cents(0),
        DollarBudget::Cents(1),
        DollarBudget::Cents(200),
        DollarBudget::Cents(u64::MAX),
    ]
}

#[test]
fn budget_meet_is_a_lower_bound() {
    for a in budgets() {
        for b in budgets() {
            let m = a.meet(&b);
            assert!(m.leq(&a));
            assert!(m.leq(&b));
        }
    }
}

#[test]
fn budget_meet_commutes_and_leq_is_reflexive() {
    for a in budgets() {
        assert!(a.leq(&a));
        for b in budgets() {
            assert_eq!(a.meet(&b), b.meet(&a));
        }
    }
}

fn grants() -> Vec<RoleCaveats> {
    let mut out = Vec::new();
    for tier in [RoleTier::Admin, RoleTier::Adult, RoleTier::Kid] {
        for uid in [0u16, 1, 7, u16::MAX] {
            let p = HomelabPrincipal {
                ad_sid: format!("S-1-5-21-0-0-0-{uid}"),
                upn: format!("user{uid}@EXAMPLE.LAN"),
                role: tier,
                uid: uid.into(),
                gid: 100,
            };
            out.push(tier.project(&p, &StorageLayout::default()));
        }
    }
    out
}

#[test]
fn role_caveats_meet_never_amplifies() {
    for a in grants() {
        for b in grants() {
            let m = a.meet(&b);
            assert!(m.leq(&a));
            assert!(m.leq(&b));
            assert_eq!(m, b.meet(&a));
        }
    }
}

#[test]
fn every_grant_is_within_itself_and_admin() {
    for g in grants() {
        assert!(g.leq(&g));
        assert!(g.leq(&RoleCaveats::top()));
        assert_eq!(g.meet(&RoleCaveats::top()), g);
        assert_eq!(g.meet(&g), g);
    }
}

#[test]
fn scope_equality_ignores_order_and_repetition() {
    let a = NameScope::only(vec!["/b".to_string(), "/a".to_string()]);
    let b = NameScope::only(vec!["/a".to_string(), "/b".to_string(), "/a".to_string()]);
    assert_eq!(a, b);
    assert_ne!(a, NameScope::only(vec!["/a".to_string()]));
    assert_ne!(a, NameScope::All);
    assert_eq!(GenerationScope::only(vec![2, 1, 2]), GenerationScope::only(vec![1, 2]));
    assert_ne!(GenerationScope::only(vec![]), GenerationScope::All);
    assert_eq!(NameScope::only(vec![]), NameScope::none());
}
