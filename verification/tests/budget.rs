use nessie_identity::DollarBudget;

#[test]
fn dollars_converts_to_cents() {
    assert_eq!(DollarBudget::dollars(5), DollarBudget::Cents(500));
    // Saturates rather than overflowing.
    assert_eq!(
        DollarBudget::dollars(u64::MAX),
        DollarBudget::Cents(u64::MAX)
    );
}

#[test]
fn leq_orders_by_tightness() {
    let five = DollarBudget::dollars(5);
    let ten = DollarBudget::dollars(10);
    assert!(five.leq(&ten), "a smaller ceiling is ⊑ a larger one");
    assert!(!ten.leq(&five), "a larger ceiling is not ⊑ a smaller one");
    assert!(
        five.leq(&DollarBudget::Unlimited),
        "any ceiling is ⊑ unlimited"
    );
    assert!(
        !DollarBudget::Unlimited.leq(&five),
        "unlimited is not ⊑ a finite ceiling"
    );
    assert!(five.leq(&five), "reflexive");
}

#[test]
fn meet_takes_the_tighter_bound_and_never_amplifies() {
    let five = DollarBudget::dollars(5);
    let ten = DollarBudget::dollars(10);
    assert_eq!(five.meet(&ten), five);
    assert_eq!(ten.meet(&five), five, "commutative");
    assert_eq!(
        DollarBudget::Unlimited.meet(&ten),
        ten,
        "unlimited is the identity"
    );
    // The meet is always ⊑ both operands — the attenuation guarantee.
    let m = five.meet(&ten);
    assert!(m.leq(&five) && m.leq(&ten));
}

#[test]
fn dollars_saturates_just_past_the_limit() {
    let limit = u64::MAX / 100;
    assert_eq!(DollarBudget::dollars(limit), DollarBudget::Cents(limit * 100));
    assert_eq!(DollarBudget::dollars(limit + 1), DollarBudget::Cents(u64::MAX));
    assert_eq!(DollarBudget::dollars(0), DollarBudget::Cents(0));
}

#[test]
fn top_and_default_are_unlimited() {
    assert_eq!(DollarBudget::top(), DollarBudget::Unlimited);
    assert_eq!(DollarBudget::default(), DollarBudget::Unlimited);
    assert_eq!(
        DollarBudget::Cents(7).meet(&DollarBudget::top()),
        DollarBudget::Cents(7)
    );
}

#[test]
fn budget_lattice_laws_on_values() {
    let values = [
        DollarBudget::Unlimited,
        DollarBudget::Cents(0),
        DollarBudget::Cents(200),
        DollarBudget::Cents(5_000),
        DollarBudget::Cents(u64::MAX),
    ];
    for a in values {
        assert!(a.leq(&a));
        assert_eq!(a.meet(&a), a);
        assert!(a.leq(&DollarBudget::top()));
        for b in values {
            let m = a.meet(&b);
            assert!(m.leq(&a) && m.leq(&b));
            assert_eq!(m, b.meet(&a));
            assert_eq!(a.leq(&b), m == a);
            if a.leq(&b) && b.leq(&a) {
                assert_eq!(a, b);
            }
            for c in values {
                assert_eq!(m.meet(&c), a.meet(&b.meet(&c)));
                if c.leq(&a) && c.leq(&b) {
                    assert!(c.leq(&m));
                }
                if a.leq(&b) && b.leq(&c) {
                    assert!(a.leq(&c));
                }
            }
        }
    }
}
