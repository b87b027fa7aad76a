//! Sums of a function over the corners of the boolean hypercube.
//!
//! A function of `v` field elements is summed over every way of setting its
//! last variables to zero or one. The sums are defined by listing the
//! corners; that each is the sum of two with one more variable fixed is
//! proved from that.
use crate::field::modulus;
use vstd::arithmetic::div_mod::{
    lemma_add_mod_noop, lemma_mod_add_multiples_vanish, lemma_mod_bound, lemma_small_mod,
};
use vstd::arithmetic::power2::{lemma2_to64, lemma_pow2_pos, lemma_pow2_unfold, pow2};
use vstd::prelude::*;

verus! {

/// The `k`-th corner of the `n`-dimensional boolean hypercube: the `n` lowest
/// binary digits of `k`, lowest first.
pub open spec fn corner(k: nat, n: nat) -> Seq<nat>
    decreases n,
{
    if n == 0 {
        Seq::empty()
    } else {
        seq![k % 2] + corner(k / 2, (n - 1) as nat)
    }
}

/// The sum, over the integers, of `f` at `prefix` followed by each of the
/// first `count` corners of dimension `n`.
pub open spec fn cube_sum(
    f: spec_fn(Seq<nat>) -> nat,
    prefix: Seq<nat>,
    n: nat,
    count: nat,
) -> nat
    decreases count,
{
    if count == 0 {
        0
    } else {
        cube_sum(f, prefix, n, (count - 1) as nat) + f(prefix + corner((count - 1) as nat, n))
    }
}

/// The partial sum of a function `f` of `v` variables at `xs`: the sum in the
/// field of `f(xs, b)` over all `2^(v - |xs|)` boolean settings `b` of the
/// variables that `xs` leaves open.
pub open spec fn partial_sum(f: spec_fn(Seq<nat>) -> nat, v: nat, xs: Seq<nat>) -> nat {
    if xs.len() <= v {
        cube_sum(f, xs, (v - xs.len()) as nat, pow2((v - xs.len()) as nat)) % modulus()
    } else {
        0
    }
}

/// The sum in the field of `f` over all `2^v` boolean points.
pub open spec fn hypercube_sum(f: spec_fn(Seq<nat>) -> nat, v: nat) -> nat {
    partial_sum(f, v, Seq::empty())
}

/// The value at `x` of the round function that `f` and the challenges `rs`
/// give: the partial sum with the next variable set to `x`.
pub open spec fn round_value(f: spec_fn(Seq<nat>) -> nat, v: nat, rs: Seq<nat>, x: nat) -> nat {
    partial_sum(f, v, rs.push(x))
}

/// A sequence of zeros and ones.
pub open spec fn is_boolean(b: Seq<nat>) -> bool {
    forall|i: int| 0 <= i < b.len() ==> b[i] == 0 || b[i] == 1
}

/// A corner of dimension `n` has `n` coordinates, each zero or one.
pub proof fn lemma_corner_is_boolean(k: nat, n: nat)
    ensures
        corner(k, n).len() == n,
        is_boolean(corner(k, n)),
    decreases n,
{
    if n > 0 {
        lemma_corner_is_boolean(k / 2, (n - 1) as nat);
    }
}

/// Different indices below `2^n` give different corners.
pub proof fn lemma_corners_distinct(j: nat, k: nat, n: nat)
    requires
        j < pow2(n),
        k < pow2(n),
        corner(j, n) == corner(k, n),
    ensures
        j == k,
    decreases n,
{
    if n == 0 {
        lemma2_to64();
    } else {
        let m = (n - 1) as nat;
        lemma_pow2_unfold(n);
        lemma_corner_is_boolean(j / 2, m);
        lemma_corner_is_boolean(k / 2, m);
        let cj = corner(j, n);
        let ck = corner(k, n);
        assert(cj[0] == j % 2);
        assert(ck[0] == k % 2);
        assert(corner(j / 2, m) =~= cj.subrange(1, n as int));
        assert(corner(k / 2, m) =~= ck.subrange(1, n as int));
        lemma_corners_distinct(j / 2, k / 2, m);
    }
}

/// Every boolean point of dimension `n` is the corner of some index below `2^n`.
pub proof fn lemma_corners_cover(b: Seq<nat>) -> (k: nat)
    requires
        is_boolean(b),
    ensures
        k < pow2(b.len()),
        corner(k, b.len()) == b,
    decreases b.len(),
{
    if b.len() == 0 {
        lemma_pow2_pos(0);
        assert(corner(0, 0) =~= b);
        0
    } else {
        let n = b.len();
        let rest = b.subrange(1, n as int);
        let j = lemma_corners_cover(rest);
        let k = 2 * j + b[0];
        lemma_pow2_unfold(n);
        assert(k % 2 == b[0]);
        assert(k / 2 == j);
        assert(corner(k, n) =~= b);
        k
    }
}

/// Fixing the next variable to zero and to one splits the first `2 * m`
/// corners of dimension `n + 1` into the first `m` corners of dimension `n`,
/// taken once behind each.
pub proof fn lemma_cube_sum_split(
    f: spec_fn(Seq<nat>) -> nat,
    prefix: Seq<nat>,
    n: nat,
    m: nat,
)
    ensures
        cube_sum(f, prefix, n + 1, 2 * m) == cube_sum(f, prefix.push(0), n, m) + cube_sum(
            f,
            prefix.push(1),
            n,
            m,
        ),
    decreases m,
{
    if m > 0 {
        let j = (m - 1) as nat;
        lemma_cube_sum_split(f, prefix, n, j);
        assert((2 * j) % 2 == 0 && (2 * j) / 2 == j);
        assert((2 * j + 1) % 2 == 1 && (2 * j + 1) / 2 == j);
        assert(prefix + corner(2 * j, n + 1) =~= prefix.push(0) + corner(j, n));
        assert(prefix + corner(2 * j + 1, n + 1) =~= prefix.push(1) + corner(j, n));
        assert(cube_sum(f, prefix, n + 1, 2 * m) == cube_sum(f, prefix, n + 1, (2 * j + 1) as nat)
            + f(prefix + corner(2 * j + 1, n + 1)));
        assert(cube_sum(f, prefix, n + 1, (2 * j + 1) as nat) == cube_sum(
            f,
            prefix,
            n + 1,
            2 * j,
        ) + f(prefix + corner(2 * j, n + 1)));
    }
}

/// The recurrence of the partial sums: with fewer than `v` variables fixed,
/// the partial sum at `xs` is the sum in the field of the partial sums at
/// `xs` followed by zero and at `xs` followed by one.
pub proof fn lemma_recurrence(f: spec_fn(Seq<nat>) -> nat, v: nat, xs: Seq<nat>)
    requires
        xs.len() < v,
    ensures
        partial_sum(f, v, xs) == (partial_sum(f, v, xs.push(0)) + partial_sum(f, v, xs.push(1)))
            % modulus(),
{
    let n = (v - xs.len() - 1) as nat;
    let m = pow2(n);
    lemma_pow2_unfold(n + 1);
    lemma_cube_sum_split(f, xs, n, m);
    lemma_add_mod_noop(
        cube_sum(f, xs.push(0), n, m) as int,
        cube_sum(f, xs.push(1), n, m) as int,
        modulus() as int,
    );
}

/// The base of the partial sums: with all `v` variables fixed, the partial
/// sum is the value of the function itself, as a field element.
pub proof fn lemma_base_case(f: spec_fn(Seq<nat>) -> nat, v: nat, xs: Seq<nat>)
    requires
        xs.len() == v,
    ensures
        partial_sum(f, v, xs) == f(xs) % modulus(),
{
    lemma2_to64();
    assert(xs + corner(0, 0) =~= xs);
    assert(cube_sum(f, xs, 0, 1) == cube_sum(f, xs, 0, 0) + f(xs + corner(0, 0)));
}

/// A partial sum is a field element.
pub proof fn lemma_partial_sum_reduced(f: spec_fn(Seq<nat>) -> nat, v: nat, xs: Seq<nat>)
    ensures
        partial_sum(f, v, xs) < modulus(),
{
    if xs.len() <= v {
        lemma_mod_bound(
            cube_sum(f, xs, (v - xs.len()) as nat, pow2((v - xs.len()) as nat)) as int,
            modulus() as int,
        );
    }
}

/// The identity of the first round: the sum over the whole hypercube is what
/// the first round function takes at zero and at one, added in the field.
pub proof fn lemma_round_one_identity(f: spec_fn(Seq<nat>) -> nat, v: nat)
    requires
        v >= 1,
    ensures
        hypercube_sum(f, v) == (round_value(f, v, Seq::empty(), 0) + round_value(
            f,
            v,
            Seq::empty(),
            1,
        )) % modulus(),
{
    lemma_recurrence(f, v, Seq::empty());
}

/// The identity of every later round: whatever the challenges `rs` of the
/// rounds before and the challenge `r` of the last round were, the last
/// round function at `r` is what the next round function takes at zero and
/// at one, added in the field.
pub proof fn lemma_round_identity(f: spec_fn(Seq<nat>) -> nat, v: nat, rs: Seq<nat>, r: nat)
    requires
        rs.len() + 2 <= v,
    ensures
        round_value(f, v, rs, r) == (round_value(f, v, rs.push(r), 0) + round_value(
            f,
            v,
            rs.push(r),
            1,
        )) % modulus(),
{
    lemma_recurrence(f, v, rs.push(r));
}

/// A claim that is off by a nonzero field element fails the identity of the
/// first round.
pub proof fn lemma_tampered_claim_fails(f: spec_fn(Seq<nat>) -> nat, v: nat, d: nat)
    requires
        v >= 1,
        0 < d < modulus(),
    ensures
        (hypercube_sum(f, v) + d) % modulus() != (round_value(f, v, Seq::empty(), 0) + round_value(
            f,
            v,
            Seq::empty(),
            1,
        )) % modulus(),
{
    lemma_round_one_identity(f, v);
    lemma_partial_sum_reduced(f, v, Seq::empty());
    let h = hypercube_sum(f, v);
    let q = modulus();
    if h + d < q {
        lemma_small_mod(h + d, q);
    } else {
        assert((h + d) % q == h + d - q) by {
            lemma_mod_add_multiples_vanish((h + d - q) as int, q as int);
            lemma_small_mod((h + d - q) as nat, q);
        }
    }
}

} // verus!
