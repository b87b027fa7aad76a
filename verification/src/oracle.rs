//! What it means for an executable function to be the oracle of a sum-check.
//!
//! The oracle is any closure or function from a slice of field elements to a
//! field element. Its contract is read as a mathematical function: every
//! statement about sums is made of each function that the oracle computes.
use crate::field::{modulus, Fe};
use crate::hypercube::{lemma_base_case, lemma_recurrence, partial_sum};
use vstd::arithmetic::div_mod::lemma_small_mod;
use vstd::arithmetic::power::pow;
use vstd::prelude::*;

verus! {

/// The representatives of a sequence of field elements.
pub open spec fn values(xs: Seq<Fe>) -> Seq<nat> {
    Seq::new(xs.len(), |i: int| xs[i]@)
}

/// `g` computes `f` on the points of `v` coordinates: whatever `g` returns on
/// such a point is the value of `f` there.
pub open spec fn computes<F: Fn(&[Fe]) -> Fe>(g: F, v: nat, f: spec_fn(Seq<nat>) -> nat) -> bool {
    forall|xs: &[Fe], y: Fe|
        xs@.len() == v && #[trigger] call_ensures(g, (xs,), y) ==> y@ == f(values(xs@))
}

/// `g` is pure on the points of `v` coordinates: it computes some function there.
pub open spec fn is_pure<F: Fn(&[Fe]) -> Fe>(g: F, v: nat) -> bool {
    exists|f: spec_fn(Seq<nat>) -> nat| computes(g, v, f)
}

/// `g` is an oracle of `v` variables: it may be called on every point of `v`
/// coordinates, and it is pure there.
pub open spec fn is_oracle<F: Fn(&[Fe]) -> Fe>(g: F, v: nat) -> bool {
    &&& is_pure(g, v)
    &&& forall|xs: &[Fe]| xs@.len() == v ==> call_requires(g, (xs,))
}

/// `y` is the value at `xs` of the function that `g` computes.
pub open spec fn is_value<F: Fn(&[Fe]) -> Fe>(g: F, xs: Seq<nat>, y: nat) -> bool {
    &&& is_pure(g, xs.len())
    &&& forall|f: spec_fn(Seq<nat>) -> nat| #[trigger] computes(g, xs.len(), f) ==> y == f(xs)
}

/// `y` is the partial sum at `xs` of the function of `v` variables that `g`
/// computes.
pub open spec fn is_partial_sum<F: Fn(&[Fe]) -> Fe>(g: F, v: nat, xs: Seq<nat>, y: nat) -> bool {
    &&& is_pure(g, v)
    &&& forall|f: spec_fn(Seq<nat>) -> nat| #[trigger]
        computes(g, v, f) ==> y == partial_sum(f, v, xs)
}

/// The sum over the integers of `i * xs[i]^i` for `i` below `n`, counting
/// from zero.
pub open spec fn weighted_powers(xs: Seq<nat>, n: nat) -> int
    decreases n,
{
    if n == 0 {
        0
    } else {
        weighted_powers(xs, (n - 1) as nat) + (n - 1) * pow(xs[n - 1] as int, (n - 1) as nat)
    }
}

/// The function that the sample oracle computes: `weighted_powers` of all
/// coordinates of the point, as a field element.
pub open spec fn sample_fn() -> spec_fn(Seq<nat>) -> nat {
    |p: Seq<nat>| (weighted_powers(p, p.len()) % (modulus() as int)) as nat
}

/// The recurrence, of what the partial sums of an oracle return: with fewer
/// than `v` variables fixed, the partial sum at `xs` is the sum in the field
/// of the partial sums at `xs` followed by zero and at `xs` followed by one.
/// With `xs` empty this is the identity of round one, and with `xs` the
/// challenges of a run that of the round after them.
pub proof fn lemma_partial_sums_add_up<F: Fn(&[Fe]) -> Fe>(
    g: F,
    v: nat,
    xs: Seq<nat>,
    y: nat,
    at_zero: nat,
    at_one: nat,
)
    requires
        xs.len() < v,
        is_partial_sum(g, v, xs, y),
        is_partial_sum(g, v, xs.push(0), at_zero),
        is_partial_sum(g, v, xs.push(1), at_one),
    ensures
        y == (at_zero + at_one) % modulus(),
{
    let f = choose|f: spec_fn(Seq<nat>) -> nat| computes(g, v, f);
    assert(computes(g, v, f));
    lemma_recurrence(f, v, xs);
}

/// The base of the recurrence, of what the partial sums of an oracle
/// return: with all `v` variables fixed, the partial sum is the field
/// element that the oracle itself returns.
pub proof fn lemma_top_partial_sum_is_value<F: Fn(&[Fe]) -> Fe>(
    g: F,
    v: nat,
    xs: Seq<nat>,
    y: nat,
    z: nat,
)
    requires
        xs.len() == v,
        z < modulus(),
        is_partial_sum(g, v, xs, y),
        is_value(g, xs, z),
    ensures
        y == z,
{
    let f = choose|f: spec_fn(Seq<nat>) -> nat| computes(g, v, f);
    assert(computes(g, v, f));
    lemma_base_case(f, v, xs);
    lemma_small_mod(z, modulus());
}

/// Appending an element appends its representative.
pub proof fn lemma_values_push(xs: Seq<Fe>, x: Fe)
    ensures
        values(xs.push(x)) == values(xs).push(x@),
{
    assert(values(xs.push(x)) =~= values(xs).push(x@));
}

} // verus!
