//! The dollar-budget authority axis: a spend ceiling that attenuates like
//! every other axis of the authority lattice.

use vstd::prelude::*;

verus! {

/// A spend ceiling, in whole US cents.
///
/// `Unlimited` is the top of this axis, `Cents(a) ⊑ Cents(b)` exactly when
/// `a ≤ b`, and the meet is the tighter (smaller) ceiling.
#[derive(Debug, Clone, Copy, PartialEq, Eq, Structural)]
pub enum DollarBudget {
    /// No spend ceiling (admin authority).
    Unlimited,
    /// At most this many cents.
    Cents(u64),
}

/// `a ⊑ b`: the ceiling `a` is at least as tight as `b`.
pub open spec fn budget_le(a: DollarBudget, b: DollarBudget) -> bool {
    match (a, b) {
        (_, DollarBudget::Unlimited) => true,
        (DollarBudget::Unlimited, DollarBudget::Cents(_)) => false,
        (DollarBudget::Cents(x), DollarBudget::Cents(y)) => x <= y,
    }
}

/// `a ⊓ b`: the tighter of the two ceilings.
pub open spec fn budget_meet(a: DollarBudget, b: DollarBudget) -> DollarBudget {
    match (a, b) {
        (DollarBudget::Unlimited, x) => x,
        (x, DollarBudget::Unlimited) => x,
        (DollarBudget::Cents(x), DollarBudget::Cents(y)) => DollarBudget::Cents(
            if x <= y { x } else { y },
        ),
    }
}

/// The number of cents in `dollars` whole dollars, saturating at the largest
/// `u64`.
pub open spec fn cents_of_dollars(dollars: u64) -> u64 {
    if dollars * 100 <= u64::MAX { (dollars * 100) as u64 } else { u64::MAX }
}

impl DollarBudget {
    /// The top of this axis (`Unlimited`).
    pub fn top() -> (r: Self)
        ensures
            r == DollarBudget::Unlimited,
    {
        DollarBudget::Unlimited
    }

    /// A ceiling expressed in whole dollars (saturating at `u64::MAX` cents).
    pub fn dollars(dollars: u64) -> (r: Self)
        ensures
            r == DollarBudget::Cents(cents_of_dollars(dollars)),
    {
        match dollars.checked_mul(100) {
            Some(c) => DollarBudget::Cents(c),
            None => DollarBudget::Cents(u64::MAX),
        }
    }

    /// `self ⊑ other`: is `self` at least as tight a ceiling as `other`?
    pub fn leq(&self, other: &Self) -> (r: bool)
        ensures
            r == budget_le(*self, *other),
    {
        match (self, other) {
            (_, DollarBudget::Unlimited) => true,
            (DollarBudget::Unlimited, DollarBudget::Cents(_)) => false,
            (DollarBudget::Cents(a), DollarBudget::Cents(b)) => *a <= *b,
        }
    }

    /// `self ⊓ other`: the tighter (smaller) ceiling.
    pub fn meet(&self, other: &Self) -> (r: Self)
        ensures
            r == budget_meet(*self, *other),
    {
        match (self, other) {
            (DollarBudget::Unlimited, x) => *x,
            (x, DollarBudget::Unlimited) => *x,
            (DollarBudget::Cents(a), DollarBudget::Cents(b)) => {
                if *a <= *b {
                    DollarBudget::Cents(*a)
                } else {
                    DollarBudget::Cents(*b)
                }
            },
        }
    }
}

impl Default for DollarBudget {
    /// Absence of a declared budget is the top of the axis (unlimited).
    fn default() -> (r: Self)
        ensures
            r == DollarBudget::Unlimited,
    {
        DollarBudget::Unlimited
    }
}

/// `⊑` is reflexive on budgets.
pub proof fn budget_le_reflexive(a: DollarBudget)
    ensures
        budget_le(a, a),
{
}

/// `⊑` is antisymmetric on budgets.
pub proof fn budget_le_antisymmetric(a: DollarBudget, b: DollarBudget)
    requires
        budget_le(a, b),
        budget_le(b, a),
    ensures
        a == b,
{
}

/// `⊑` is transitive on budgets.
pub proof fn budget_le_transitive(a: DollarBudget, b: DollarBudget, c: DollarBudget)
    requires
        budget_le(a, b),
        budget_le(b, c),
    ensures
        budget_le(a, c),
{
}

/// `Unlimited` is the top: every budget is `⊑` it, and it is the identity of
/// the meet.
pub proof fn budget_unlimited_is_top(a: DollarBudget)
    ensures
        budget_le(a, DollarBudget::Unlimited),
        budget_meet(a, DollarBudget::Unlimited) == a,
        budget_meet(DollarBudget::Unlimited, a) == a,
{
}

/// The meet never amplifies: `a ⊓ b ⊑ a` and `a ⊓ b ⊑ b`.
pub proof fn budget_meet_is_lower_bound(a: DollarBudget, b: DollarBudget)
    ensures
        budget_le(budget_meet(a, b), a),
        budget_le(budget_meet(a, b), b),
{
}

/// The meet is the greatest lower bound: any common lower bound of `a` and
/// `b` is `⊑ a ⊓ b`.
pub proof fn budget_meet_is_greatest(a: DollarBudget, b: DollarBudget, c: DollarBudget)
    requires
        budget_le(c, a),
        budget_le(c, b),
    ensures
        budget_le(c, budget_meet(a, b)),
{
}

/// The meet is commutative, associative and idempotent.
pub proof fn budget_meet_algebra(a: DollarBudget, b: DollarBudget, c: DollarBudget)
    ensures
        budget_meet(a, b) == budget_meet(b, a),
        budget_meet(budget_meet(a, b), c) == budget_meet(a, budget_meet(b, c)),
        budget_meet(a, a) == a,
{
}

/// The order agrees with the meet: `a ⊑ b` exactly when `a ⊓ b == a`.
pub proof fn budget_le_iff_meet(a: DollarBudget, b: DollarBudget)
    ensures
        budget_le(a, b) <==> budget_meet(a, b) == a,
{
}

/// A larger number of dollars never gives a tighter ceiling.
pub proof fn dollars_monotone(x: u64, y: u64)
    requires
        x <= y,
    ensures
        budget_le(
            DollarBudget::Cents(cents_of_dollars(x)),
            DollarBudget::Cents(cents_of_dollars(y)),
        ),
{
}

} // verus!
