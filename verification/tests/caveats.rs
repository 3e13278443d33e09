use nessie_identity::{
    default_adult_budget, default_kid_budget,
    BaseCaveats, CallBound, DollarBudget, GenerationScope, HomelabPrincipal, NameScope,
    RoleCaveats, RoleTier, StorageLayout,
};

fn principal(role: RoleTier, uid: u32) -> HomelabPrincipal {
    HomelabPrincipal {
        ad_sid: format!("S-1-5-21-0-0-0-{uid}"),
        upn: format!("user{uid}@EXAMPLE.LAN"),
        role,
        uid,
        gid: 100,
    }
}

#[test]
fn admin_projects_to_top() {
    let p = principal(RoleTier::Admin, 1000);
    assert_eq!(
        RoleTier::Admin.project(&p, &StorageLayout::default()),
        RoleCaveats::top()
    );
}

#[test]
fn every_tier_is_within_admin() {
    // Admin is ⊤, so adult and kid grants are both ⊑ it.
    let layout = StorageLayout::default();
    let admin = RoleTier::Admin.project(&principal(RoleTier::Admin, 1), &layout);
    let adult = RoleTier::Adult.project(&principal(RoleTier::Adult, 2), &layout);
    let kid = RoleTier::Kid.project(&principal(RoleTier::Kid, 3), &layout);
    assert!(adult.leq(&admin), "adult ⊑ admin");
    assert!(kid.leq(&admin), "kid ⊑ admin");
}

#[test]
fn kid_is_separated_from_the_family_tree() {
    // Separation, not subtraction: a kid can write its own volume but not
    // the family tree; an adult can write the family tree.
    let layout = StorageLayout::default();
    let kid = RoleTier::Kid.project(&principal(RoleTier::Kid, 3), &layout);
    let adult = RoleTier::Adult.project(&principal(RoleTier::Adult, 2), &layout);

    assert!(
        kid.authorizes_write("/srv/kids/user3"),
        "kid owns its volume"
    );
    assert!(
        !kid.authorizes_write(&layout.family_root),
        "kid must NOT reach the family tree"
    );
    assert!(
        adult.authorizes_write(&layout.family_root),
        "adult owns family"
    );
    // And the kid grant is not ⊑ the adult grant: disjoint volumes, not a
    // narrowing of the same surface.
    assert!(
        !kid.leq(&adult),
        "kid scope is separate, not a subset of adult"
    );
}

#[test]
fn kid_is_tightly_bounded() {
    let layout = StorageLayout::default();
    let kid = RoleTier::Kid.project(&principal(RoleTier::Kid, 3), &layout);
    let adult = RoleTier::Adult.project(&principal(RoleTier::Adult, 2), &layout);
    assert!(kid.budget.leq(&adult.budget), "kid budget ⊑ adult budget");
    assert_ne!(kid.budget, DollarBudget::Unlimited, "kid budget is finite");
    assert_eq!(kid.base.commands, NameScope::none(), "kid has no exec authority");
    assert_eq!(kid.base.net, NameScope::none(), "kid has no net by default");
    assert!(
        kid.base.max_calls.leq(&adult.base.max_calls),
        "kid calls ⊑ adult calls"
    );
}

#[test]
fn meet_never_amplifies() {
    // At the RoleCaveats level: meet(a, b) ⊑ a.
    let layout = StorageLayout::default();
    let adult = RoleTier::Adult.project(&principal(RoleTier::Adult, 2), &layout);
    let kid = RoleTier::Kid.project(&principal(RoleTier::Kid, 3), &layout);
    let m = adult.meet(&kid);
    assert!(m.leq(&adult) && m.leq(&kid), "meet is ⊑ both operands");
    assert_eq!(adult.meet(&adult), adult, "meet is idempotent");
}

#[test]
fn default_layout_and_paths() {
    let layout = StorageLayout::default();
    assert_eq!(layout.family_root, "/srv/family");
    assert_eq!(layout.home_root, "/srv/home");
    assert_eq!(layout.kids_root, "/srv/kids");
    let p = principal(RoleTier::Adult, 2);
    assert_eq!(layout.home_of(&p), "/srv/home/user2");
    assert_eq!(layout.kid_volume_of(&p), "/srv/kids/user2");
}

#[test]
fn adult_grant_is_family_and_home() {
    let layout = StorageLayout::default();
    let adult = RoleTier::Adult.project(&principal(RoleTier::Adult, 2), &layout);
    assert!(adult.authorizes_read("/srv/family"));
    assert!(adult.authorizes_write("/srv/home/user2"));
    assert!(!adult.authorizes_write("/srv/home/user3"));
    assert!(!adult.authorizes_read("/srv/kids/user2"));
    assert_eq!(adult.budget, DollarBudget::Cents(5_000));
    assert_eq!(adult.base.commands, NameScope::All);
    assert_eq!(adult.base.net, NameScope::All);
    assert_eq!(adult.base.max_calls, CallBound::Unlimited);
    assert_eq!(adult.base.valid_for_generation, GenerationScope::All);
}

#[test]
fn kid_grant_values() {
    let layout = StorageLayout::default();
    let kid = RoleTier::Kid.project(&principal(RoleTier::Kid, 3), &layout);
    assert_eq!(kid.budget, DollarBudget::Cents(200));
    assert_eq!(kid.base.max_calls, CallBound::AtMost(200));
    assert!(kid.authorizes_read("/srv/kids/user3"));
    assert!(!kid.authorizes_read("/srv/kids/user4"));
    assert_eq!(kid.base.valid_for_generation, GenerationScope::All);
}

#[test]
fn admin_authorizes_everything() {
    let layout = StorageLayout::default();
    let admin = RoleTier::Admin.project(&principal(RoleTier::Admin, 1), &layout);
    assert!(admin.authorizes_write("/anything/at/all"));
    assert!(admin.authorizes_read(""));
    assert_eq!(admin.budget, DollarBudget::Unlimited);
}

#[test]
fn meet_intersects_scopes() {
    let a = NameScope::only(vec!["/a".to_string(), "/b".to_string()]);
    let b = NameScope::only(vec!["/b".to_string(), "/c".to_string()]);
    assert_eq!(a.meet(&b), NameScope::Only(vec!["/b".to_string()]));
    assert_eq!(NameScope::All.meet(&b), b);
    assert!(NameScope::none().leq(&a));
    assert!(!NameScope::All.leq(&a));
    assert!(a.leq(&NameScope::All));
    let g = GenerationScope::only(vec![1, 2, 3]);
    let h = GenerationScope::only(vec![3, 4]);
    assert_eq!(g.meet(&h), GenerationScope::Only(vec![3]));
    assert!(!g.leq(&h));
    assert!(GenerationScope::only(vec![3]).leq(&g));
    assert_eq!(CallBound::AtMost(5).meet(&CallBound::AtMost(3)), CallBound::AtMost(3));
    assert!(!CallBound::Unlimited.leq(&CallBound::AtMost(1)));
}

#[test]
fn role_caveats_meet_takes_each_axis() {
    let a = RoleCaveats {
        base: BaseCaveats {
            fs_read: NameScope::only(vec!["/repo".to_string(), "/tmp".to_string()]),
            max_calls: CallBound::AtMost(10),
            ..BaseCaveats::top()
        },
        budget: DollarBudget::Cents(300),
    };
    let b = RoleCaveats {
        base: BaseCaveats {
            fs_read: NameScope::only(vec!["/repo".to_string()]),
            max_calls: CallBound::AtMost(4),
            ..BaseCaveats::top()
        },
        budget: DollarBudget::Unlimited,
    };
    let m = a.meet(&b);
    assert_eq!(m.base.fs_read, NameScope::Only(vec!["/repo".to_string()]));
    assert_eq!(m.base.max_calls, CallBound::AtMost(4));
    assert_eq!(m.budget, DollarBudget::Cents(300));
    assert!(m.leq(&a) && m.leq(&b));
    assert!(!a.leq(&b));
    assert!(a.leq(&RoleCaveats::top()));
}

#[test]
fn default_budgets() {
    assert_eq!(default_adult_budget(), DollarBudget::Cents(5_000));
    assert_eq!(default_kid_budget(), DollarBudget::Cents(200));
    assert!(default_kid_budget().leq(&default_adult_budget()));
}
