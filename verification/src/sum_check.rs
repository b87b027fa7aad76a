//! The family of partial sums of an oracle, and the round functions that the
//! protocol projects out of it.
use crate::field::{modulus, Fe};
use crate::hypercube::{lemma_base_case, lemma_recurrence, partial_sum};
use crate::oracle::{
    computes, is_oracle, is_partial_sum, is_value, lemma_values_push, values, weighted_powers,
};
use vstd::arithmetic::div_mod::{lemma_add_mod_noop, lemma_mul_mod_noop_right, lemma_small_mod};
use vstd::arithmetic::power::pow;
use vstd::prelude::*;
use vstd::slice::slice_to_vec;

verus! {

/// Why a call was refused, or a run of the protocol ended without acceptance.
#[derive(Clone, Copy, Debug, PartialEq, Eq, Structural)]
pub enum SumCheckError {
    /// A partial sum or a round projector was given a number of arguments
    /// other than the one its level asks for.
    ArityMismatch,
    /// A round's identity does not hold: the claimed sum is false.
    ConsistencyFailure,
    /// There is no family: none was built yet, or zero variables were asked for.
    ConfigurationError,
}

/// The partial sum `gp_i` of an oracle `g` of `v` variables, as a function of
/// its first `i`:
/// `gp_i(x_1, .., x_i)` is the sum of `g(x_1, .., x_i, b_{i+1}, .., b_v)` over
/// all boolean `b`.
pub struct PartialSum<'a, F: Fn(&[Fe]) -> Fe> {
    oracle: &'a F,
    arity: usize,
    level: usize,
}

impl<'a, F: Fn(&[Fe]) -> Fe> PartialSum<'a, F> {
    #[verifier::type_invariant]
    spec fn wf(&self) -> bool {
        &&& 1 <= self.arity
        &&& self.level <= self.arity
        &&& is_oracle(*self.oracle, self.arity as nat)
    }

    /// The oracle that is summed.
    pub closed spec fn oracle(&self) -> F {
        *self.oracle
    }

    /// The number `v` of variables of the oracle.
    pub closed spec fn arity(&self) -> nat {
        self.arity as nat
    }

    /// The number `i` of variables that this partial sum leaves open.
    pub closed spec fn level(&self) -> nat {
        self.level as nat
    }

    /// The partial sum at the point in `buf`, which has at most `v`
    /// coordinates: the oracle itself where it has all `v`, else the sum of
    /// the partial sums at the point followed by zero and by one.
    fn sum_from(&self, buf: &mut Vec<Fe>) -> (r: Fe)
        requires
            old(buf)@.len() <= self.arity(),
        ensures
            final(buf)@ == old(buf)@,
            is_partial_sum(self.oracle(), self.arity(), values(old(buf)@), r@),
            old(buf)@.len() == self.arity() ==> is_value(self.oracle(), values(old(buf)@), r@),
        decreases self.arity() - old(buf)@.len(),
    {
        proof {
            use_type_invariant(self);
        }
        let ghost point = values(buf@);
        if buf.len() == self.arity {
            let y = (self.oracle)(buf.as_slice());
            proof {
                use_type_invariant(&y);
                assert forall|f: spec_fn(Seq<nat>) -> nat| #[trigger]
                    computes(*self.oracle, self.arity as nat, f) implies y@ == partial_sum(
                    f,
                    self.arity as nat,
                    point,
                ) by {
                    lemma_base_case(f, self.arity as nat, point);
                    lemma_small_mod(y@, modulus());
                }
            }
            y
        } else {
            let ghost before = buf@;
            let zero = Fe::zero();
            let one = Fe::one();
            buf.push(zero);
            let a = self.sum_from(buf);
            buf.pop();
            assert(buf@ =~= before);
            buf.push(one);
            let b = self.sum_from(buf);
            buf.pop();
            assert(buf@ =~= before);
            let r = a.add(&b);
            proof {
                lemma_values_push(before, zero);
                lemma_values_push(before, one);
                assert(is_partial_sum(*self.oracle, self.arity as nat, point.push(0), a@));
                assert(is_partial_sum(*self.oracle, self.arity as nat, point.push(1), b@));
                assert forall|f: spec_fn(Seq<nat>) -> nat| #[trigger]
                    computes(*self.oracle, self.arity as nat, f) implies r@ == partial_sum(
                    f,
                    self.arity as nat,
                    point,
                ) by {
                    lemma_recurrence(f, self.arity as nat, point);
                }
            }
            r
        }
    }

    /// Evaluates `gp_i` at `x`, which must have exactly `i` coordinates; any
    /// field elements will do, not only zero and one. At the top level,
    /// `i == v`, the partial sum is the value of the oracle itself.
    pub fn eval(&self, x: &[Fe]) -> (res: Result<Fe, SumCheckError>)
        ensures
            x@.len() != self.level() ==> res == Err::<Fe, _>(SumCheckError::ArityMismatch),
            x@.len() == self.level() ==> (res matches Ok(y) && is_partial_sum(
                self.oracle(),
                self.arity(),
                values(x@),
                y@,
            ) && (self.level() == self.arity() ==> is_value(self.oracle(), values(x@), y@))),
    {
        proof {
            use_type_invariant(self);
        }
        if x.len() != self.level {
            return Err(SumCheckError::ArityMismatch);
        }
        let mut buf = slice_to_vec(x);
        let y = self.sum_from(&mut buf);
        Ok(y)
    }
}

/// The round function `g_i` of a run of the protocol: the partial sum `gp_i`
/// with its first `i - 1` variables set to the challenges of the rounds
/// before, as a function of the one that is left. It holds its own copy of
/// the challenges.
pub struct RoundFn<'a, F: Fn(&[Fe]) -> Fe> {
    gp: PartialSum<'a, F>,
    rs: Vec<Fe>,
}

impl<'a, F: Fn(&[Fe]) -> Fe> RoundFn<'a, F> {
    #[verifier::type_invariant]
    spec fn wf(&self) -> bool {
        self.rs@.len() + 1 == self.gp.level()
    }

    /// The oracle that is summed.
    pub closed spec fn oracle(&self) -> F {
        self.gp.oracle()
    }

    /// The number `v` of variables of the oracle.
    pub closed spec fn arity(&self) -> nat {
        self.gp.arity()
    }

    /// The challenges that the function was made with.
    pub closed spec fn challenges(&self) -> Seq<nat> {
        values(self.rs@)
    }

    /// Evaluates `g_i` at `x`: the partial sum at the challenges followed by `x`.
    pub fn eval(&self, x: Fe) -> (y: Fe)
        ensures
            is_partial_sum(self.oracle(), self.arity(), self.challenges().push(x@), y@),
    {
        proof {
            use_type_invariant(self);
            use_type_invariant(&self.gp);
            lemma_values_push(self.rs@, x);
        }
        let mut extended = slice_to_vec(self.rs.as_slice());
        extended.push(x);
        self.gp.sum_from(&mut extended)
    }
}

/// The family `gp_0, .., gp_v` of partial sums of an oracle of `v >= 1`
/// variables. It is made of the oracle and of `v` alone: each `gp_i` is
/// computed from the oracle when it is called.
pub struct Family<F: Fn(&[Fe]) -> Fe> {
    oracle: F,
    arity: usize,
}

impl<F: Fn(&[Fe]) -> Fe> Family<F> {
    #[verifier::type_invariant]
    spec fn wf(&self) -> bool {
        &&& 1 <= self.arity
        &&& is_oracle(self.oracle, self.arity as nat)
    }

    /// The oracle of the family.
    pub closed spec fn oracle(&self) -> F {
        self.oracle
    }

    /// The number `v` of variables of the oracle.
    pub closed spec fn arity(&self) -> nat {
        self.arity as nat
    }
}

/// The prover's side of a sum-check: the family of partial sums of an oracle,
/// and the claimed sum `h` of the oracle over the boolean hypercube.
pub struct SumCheck<F: Fn(&[Fe]) -> Fe> {
    /// The family, once `cal_h` has built it.
    pub gp_is: Option<Family<F>>,
    /// The claimed sum. `cal_h` sets it to the true sum; whoever changes it
    /// afterwards makes a false claim.
    pub h: Fe,
}

impl<F: Fn(&[Fe]) -> Fe> SumCheck<F> {
    /// Whether the family was built.
    pub open spec fn built(&self) -> bool {
        self.gp_is is Some
    }

    /// The oracle of the family.
    pub open spec fn oracle(&self) -> F {
        self.gp_is->0.oracle()
    }

    /// The number `v` of variables of the oracle.
    pub open spec fn arity(&self) -> nat {
        self.gp_is->0.arity()
    }

    /// Whether the claimed sum is the sum over the hypercube of the function
    /// that the oracle computes.
    pub open spec fn claim_holds(&self) -> bool {
        is_partial_sum(self.oracle(), self.arity(), Seq::empty(), self.h@)
    }

    /// A sum-check without a family, claiming zero.
    pub fn new() -> (r: Self)
        ensures
            !r.built(),
            r.h@ == 0,
    {
        SumCheck { gp_is: None, h: Fe::zero() }
    }

    /// Builds the family of `g`, an oracle of `v` variables, and sets the
    /// claimed sum to `gp_0()`, which takes `2^v` calls of `g`. With `v == 0`
    /// nothing is computed or changed.
    pub fn cal_h(&mut self, g: F, v: usize) -> (res: Result<(), SumCheckError>)
        requires
            v > 0 ==> is_oracle(g, v as nat),
        ensures
            v == 0 ==> res == Err::<(), _>(SumCheckError::ConfigurationError) && *final(self)
                == *old(self),
            v > 0 ==> res == Ok::<_, SumCheckError>(()) && final(self).built()
                && final(self).oracle() == g && final(self).arity() == v
                && final(self).claim_holds(),
    {
        if v == 0 {
            return Err(SumCheckError::ConfigurationError);
        }
        let family = Family { oracle: g, arity: v };
        let gp_0 = PartialSum { oracle: &family.oracle, arity: v, level: 0 };
        let mut buf: Vec<Fe> = Vec::new();
        let h = gp_0.sum_from(&mut buf);
        proof {
            assert(values(Seq::<Fe>::empty()) =~= Seq::<nat>::empty());
        }
        self.gp_is = Some(family);
        self.h = h;
        Ok(())
    }

    /// The number `v` of variables of the oracle, which is the number of
    /// rounds of the protocol; zero while there is no family.
    pub fn num_vars(&self) -> (v: usize)
        ensures
            self.built() ==> v == self.arity() && v >= 1 && is_oracle(self.oracle(), self.arity()),
            !self.built() ==> v == 0,
    {
        match &self.gp_is {
            Some(family) => {
                proof {
                    use_type_invariant(family);
                }
                family.arity
            },
            None => 0,
        }
    }

    /// The partial sum `gp_i` of the family, for `i` from `0` to `v`.
    pub fn cal_gp_i(&self, i: usize) -> (res: Option<PartialSum<'_, F>>)
        ensures
            res is Some <==> self.built() && i <= self.arity(),
            res matches Some(gp_i) ==> gp_i.oracle() == self.oracle() && gp_i.arity()
                == self.arity() && gp_i.level() == i,
    {
        match &self.gp_is {
            Some(family) => {
                proof {
                    use_type_invariant(family);
                }
                if i <= family.arity {
                    Some(PartialSum { oracle: &family.oracle, arity: family.arity, level: i })
                } else {
                    None
                }
            },
            None => None,
        }
    }

    /// Projects the round function `x -> gp_i(rs, x)` out of `gp_i`. The
    /// challenges `rs` are copied: what the caller does to them afterwards
    /// does not reach the function.
    pub fn gi_xi<'a>(&self, gp_i: PartialSum<'a, F>, rs: &[Fe]) -> (res: Result<
        RoundFn<'a, F>,
        SumCheckError,
    >)
        ensures
            rs@.len() + 1 != gp_i.level() ==> (res matches Err(e) && e
                == SumCheckError::ArityMismatch),
            rs@.len() + 1 == gp_i.level() ==> (res matches Ok(g_i) && g_i.oracle() == gp_i.oracle()
                && g_i.arity() == gp_i.arity() && g_i.challenges() == values(rs@)),
    {
        proof {
            use_type_invariant(&gp_i);
        }
        if rs.len() >= gp_i.level || rs.len() + 1 != gp_i.level {
            return Err(SumCheckError::ArityMismatch);
        }
        let fixed_rs = slice_to_vec(rs);
        Ok(RoundFn { gp: gp_i, rs: fixed_rs })
    }

    /// Asks the oracle itself for its value at `x`.
    pub fn query(&self, x: &[Fe]) -> (res: Result<Fe, SumCheckError>)
        ensures
            !self.built() ==> res == Err::<Fe, _>(SumCheckError::ConfigurationError),
            self.built() && x@.len() != self.arity() ==> res == Err::<Fe, _>(
                SumCheckError::ArityMismatch,
            ),
            self.built() && x@.len() == self.arity() ==> (res matches Ok(y) && is_value(
                self.oracle(),
                values(x@),
                y@,
            )),
    {
        match &self.gp_is {
            Some(family) => {
                proof {
                    use_type_invariant(family);
                }
                if x.len() != family.arity {
                    Err(SumCheckError::ArityMismatch)
                } else {
                    Ok((family.oracle)(x))
                }
            },
            None => Err(SumCheckError::ConfigurationError),
        }
    }
}

/// The sample oracle stands with the sum-checks of plain functions, so that
/// `SumCheck::g` names it without a type argument.
impl SumCheck<fn(&[Fe]) -> Fe> {
    /// A sample oracle of any number of variables: the sum in the field of
    /// `i * b[i]^i` over the positions `i` of `b`, counted from zero.
    pub fn g(b: &[Fe]) -> (r: Fe)
        ensures
            r@ == weighted_powers(values(b@), b@.len()) % (modulus() as int),
    {
        let mut acc = Fe::zero();
        let mut i: usize = 0;
        proof {
            lemma_small_mod(0, modulus());
        }
        while i < b.len()
            invariant
                i <= b@.len(),
                acc@ == weighted_powers(values(b@), i as nat) % (modulus() as int),
            decreases b@.len() - i,
        {
            let power = b[i].pow(i as u64);
            let term = Fe::from_u64(i as u64).mul(&power);
            let next = acc.add(&term);
            proof {
                let q = modulus() as int;
                let w = weighted_powers(values(b@), i as nat);
                let p = pow(b@[i as int]@ as int, i as nat);
                lemma_mul_mod_noop_right(i as int, p, q);
                lemma_add_mod_noop(w, i * p, q);
                assert(values(b@)[i as int] == b@[i as int]@);
                assert(weighted_powers(values(b@), (i + 1) as nat) == w + i * p);
            }
            acc = next;
            i += 1;
        }
        acc
    }
}

} // verus!
