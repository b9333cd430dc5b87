//! The pricing model: what the next unit of something costs, given how many
//! are owned already.
use crate::rational::Rational;
use vstd::prelude::*;

verus! {

/// `base` multiplied by itself `n` times; one where `n` is zero.
pub open spec fn power(base: real, n: nat) -> real
    decreases n,
{
    if n == 0 {
        1real
    } else {
        power(base, (n - 1) as nat) * base
    }
}

/// The price of the next unit: the base cost times the growth factor to the
/// power of the number owned.
pub open spec fn price_of(base_cost: real, growth_factor: real, owned_count: nat) -> real {
    base_cost * power(growth_factor, owned_count)
}

/// With nothing owned the price is the base cost.
pub proof fn lemma_price_first(base_cost: real, growth_factor: real)
    ensures
        price_of(base_cost, growth_factor, 0) == base_cost,
{
}

/// Each unit owned multiplies the price by the growth factor, exactly.
pub proof fn lemma_price_step(base_cost: real, growth_factor: real, owned_count: nat)
    ensures
        price_of(base_cost, growth_factor, owned_count + 1) == price_of(
            base_cost,
            growth_factor,
            owned_count,
        ) * growth_factor,
{
    let p = power(growth_factor, owned_count);
    assert(power(growth_factor, owned_count + 1) == p * growth_factor);
    assert(base_cost * (p * growth_factor) == (base_cost * p) * growth_factor)
        by (nonlinear_arith);
}

/// The price of the next unit of something of which `owned_count` are owned.
pub fn price(base_cost: &Rational, growth_factor: &Rational, owned_count: usize) -> (cost:
    Rational)
    ensures
        cost@ == price_of(base_cost@, growth_factor@, owned_count as nat),
{
    let mut cost = base_cost.clone();
    let mut bought: usize = 0;
    while bought < owned_count
        invariant
            bought <= owned_count,
            cost@ == price_of(base_cost@, growth_factor@, bought as nat),
        decreases owned_count - bought,
    {
        proof {
            lemma_price_step(base_cost@, growth_factor@, bought as nat);
        }
        cost = cost.times(growth_factor);
        bought += 1;
    }
    cost
}

} // verus!
