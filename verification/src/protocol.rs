//! The rounds of the protocol, as a machine that is fed one challenge at a time.
use crate::field::{modulus, Fe};
use crate::hypercube::{
    hypercube_sum, lemma_recurrence, lemma_round_one_identity, lemma_tampered_claim_fails,
    partial_sum,
};
use crate::oracle::{
    computes, lemma_partial_sums_add_up, lemma_top_partial_sum_is_value, lemma_values_push,
    sample_fn, values,
};
use crate::sum_check::{RoundFn, SumCheck, SumCheckError};
use vstd::prelude::*;

verus! {

/// Where a run of the protocol stands.
#[derive(Clone, Copy, Debug, PartialEq, Eq, Structural)]
pub enum Phase {
    /// The identity of this round, counted from one, held; the challenge for
    /// its round function has not been drawn yet.
    Round(usize),
    /// All rounds and the final query of the oracle passed.
    Accepted,
    /// A check failed.
    Rejected,
}

/// What a run of the protocol looks like from outside.
pub ghost struct Transcript {
    /// Where the run stands.
    pub phase: Phase,
    /// The challenges so far, oldest first.
    pub challenges: Seq<nat>,
}

/// A run of the protocol on a sum-check whose family was built.
pub struct Driver<'a, F: Fn(&[Fe]) -> Fe> {
    sum_check: &'a SumCheck<F>,
    rs: Vec<Fe>,
    last_g: RoundFn<'a, F>,
    phase: Phase,
}

impl<'a, F: Fn(&[Fe]) -> Fe> View for Driver<'a, F> {
    type V = Transcript;

    closed spec fn view(&self) -> Transcript {
        Transcript { phase: self.phase, challenges: values(self.rs@) }
    }
}

impl<'a, F: Fn(&[Fe]) -> Fe> Driver<'a, F> {
    #[verifier::type_invariant]
    spec fn wf(&self) -> bool {
        &&& self.sum_check.built()
        &&& self.last_g.oracle() == self.sum_check.oracle()
        &&& self.last_g.arity() == self.sum_check.arity()
        &&& self.phase matches Phase::Round(i) ==> {
            &&& 1 <= i <= self.sum_check.arity()
            &&& self.rs@.len() + 1 == i
            &&& self.last_g.challenges() == values(self.rs@)
        }
    }

    /// The sum-check that is run.
    pub closed spec fn sum_check(&self) -> SumCheck<F> {
        *self.sum_check
    }

    /// Round one: projects `g_1` out of `gp_1` and holds the claimed sum `h`
    /// against `g_1(0) + g_1(1)`.
    pub fn start(sum_check: &'a SumCheck<F>) -> (res: Result<Driver<'a, F>, SumCheckError>)
        ensures
            !sum_check.built() ==> (res matches Err(e) && e == SumCheckError::ConfigurationError),
            sum_check.built() ==> (res matches Ok(d) && d.sum_check() == *sum_check
                && d@.challenges == Seq::<nat>::empty() && d@.phase == if sum_check.claim_holds() {
                Phase::Round(1)
            } else {
                Phase::Rejected
            }),
    {
        if sum_check.num_vars() == 0 {
            return Err(SumCheckError::ConfigurationError);
        }
        // A family has at least one variable, so there is a level one, and it
        // takes no challenge: neither of the two calls fails.
        let gp_1 = match sum_check.cal_gp_i(1) {
            Some(gp_1) => gp_1,
            None => { return Err(SumCheckError::ConfigurationError); },
        };
        let rs: Vec<Fe> = Vec::new();
        let g_1 = match sum_check.gi_xi(gp_1, rs.as_slice()) {
            Ok(g_1) => g_1,
            Err(e) => { return Err(e); },
        };
        let at_zero = g_1.eval(Fe::zero());
        let at_one = g_1.eval(Fe::one());
        let sum = at_zero.add(&at_one);
        let holds = sum_check.h == sum;
        proof {
            let g = sum_check.oracle();
            let v = sum_check.arity();
            let none = Seq::<nat>::empty();
            assert(values(rs@) =~= none);
            Fe::lemma_view_injective(sum_check.h, sum);
            assert forall|f: spec_fn(Seq<nat>) -> nat| #[trigger] computes(g, v, f) implies sum@
                == partial_sum(f, v, none) by {
                lemma_recurrence(f, v, none);
            }
            if sum_check.claim_holds() {
                let f = choose|f: spec_fn(Seq<nat>) -> nat| computes(g, v, f);
                assert(computes(g, v, f));
            }
        }
        let phase = if holds {
            Phase::Round(1)
        } else {
            Phase::Rejected
        };
        Ok(Driver { sum_check, rs, last_g: g_1, phase })
    }

    /// Where the run stands.
    pub fn phase(&self) -> (p: Phase)
        ensures
            p == self@.phase,
    {
        self.phase
    }

    /// The challenges so far, oldest first.
    pub fn challenges(&self) -> (rs: &[Fe])
        ensures
            values(rs@) == self@.challenges,
    {
        self.rs.as_slice()
    }

    /// Feeds the run its next challenge `r`.
    ///
    /// After round `i < v` this is round `i + 1`: `r` is appended to the
    /// challenges, `g_{i+1}` is projected out of `gp_{i+1}`, and `g_i(r)` is
    /// held against `g_{i+1}(0) + g_{i+1}(1)`. After round `v` it is the
    /// final check: `g_v(r)` is held against the oracle's own value at the
    /// `v` challenges. Both always pass, since the round functions are those
    /// of the family itself. A run that has ended stays as it is.
    pub fn advance(self, r: Fe) -> (d: Driver<'a, F>)
        ensures
            d.sum_check() == self.sum_check(),
            match self@.phase {
                Phase::Round(i) => d@.challenges == self@.challenges.push(r@) && if i
                    < self.sum_check().arity() {
                    d@.phase matches Phase::Round(j) && j == i + 1
                } else {
                    d@.phase == Phase::Accepted
                },
                _ => d@ == self@,
            },
    {
        proof {
            use_type_invariant(&self);
        }
        let Driver { sum_check, rs, last_g, phase } = self;
        let i = match phase {
            Phase::Round(i) => i,
            _ => { return Driver { sum_check, rs, last_g, phase }; },
        };
        let ghost g = sum_check.oracle();
        let ghost v = sum_check.arity();
        let ghost before = rs@;
        let rounds = sum_check.num_vars();
        let claim = last_g.eval(r);
        let mut rs = rs;
        rs.push(r);
        proof {
            lemma_values_push(before, r);
        }
        if i < rounds {
            // The family has a level `i + 1`, and `rs` now holds `i` challenges:
            // neither of the two calls fails.
            let gp = match sum_check.cal_gp_i(i + 1) {
                Some(gp) => gp,
                None => { return Driver { sum_check, rs, last_g, phase: Phase::Rejected }; },
            };
            let g_next = match sum_check.gi_xi(gp, rs.as_slice()) {
                Ok(g_next) => g_next,
                Err(_) => { return Driver { sum_check, rs, last_g, phase: Phase::Rejected }; },
            };
            let at_zero = g_next.eval(Fe::zero());
            let at_one = g_next.eval(Fe::one());
            let sum = at_zero.add(&at_one);
            proof {
                lemma_partial_sums_add_up(g, v, values(rs@), claim@, at_zero@, at_one@);
                Fe::lemma_view_injective(claim, sum);
            }
            if claim == sum {
                Driver { sum_check, rs, last_g: g_next, phase: Phase::Round(i + 1) }
            } else {
                Driver { sum_check, rs, last_g: g_next, phase: Phase::Rejected }
            }
        } else {
            // `rs` now holds all `v` challenges: the query does not fail.
            let direct = match sum_check.query(rs.as_slice()) {
                Ok(direct) => direct,
                Err(_) => { return Driver { sum_check, rs, last_g, phase: Phase::Rejected }; },
            };
            proof {
                use_type_invariant(&direct);
                lemma_top_partial_sum_is_value(g, v, values(rs@), claim@, direct@);
                Fe::lemma_view_injective(claim, direct);
            }
            if claim == direct {
                Driver { sum_check, rs, last_g, phase: Phase::Accepted }
            } else {
                Driver { sum_check, rs, last_g, phase: Phase::Rejected }
            }
        }
    }
}

/// The rounds that a run in the given phase may still take.
pub open spec fn rounds_left(phase: Phase, v: nat) -> int {
    match phase {
        Phase::Round(i) => v + 1 - i,
        _ => 0,
    }
}

impl<F: Fn(&[Fe]) -> Fe> SumCheck<F> {
    /// Runs the protocol to its end, drawing each challenge at random from
    /// the whole field: round one on the claimed sum `h`, then one round for
    /// each further variable, then the final query of the oracle.
    ///
    /// The run is accepted exactly when `h` is the true sum, whichever
    /// challenges are drawn.
    pub fn run_protocol(&self) -> (res: Result<(), SumCheckError>)
        ensures
            !self.built() ==> res == Err::<(), _>(SumCheckError::ConfigurationError),
            self.built() ==> res == if self.claim_holds() {
                Ok::<_, SumCheckError>(())
            } else {
                Err::<(), _>(SumCheckError::ConsistencyFailure)
            },
    {
        let mut d = match Driver::start(self) {
            Ok(d) => d,
            Err(e) => { return Err(e); },
        };
        loop
            invariant
                self.built(),
                d.sum_check() == *self,
                d@.phase is Rejected <==> !self.claim_holds(),
            decreases rounds_left(d@.phase, self.arity()),
        {
            proof {
                use_type_invariant(&d);
            }
            match d.phase() {
                Phase::Round(i) => {
                    assert(1 <= i <= self.arity());
                    let r = Fe::random();
                    d = d.advance(r);
                },
                Phase::Accepted => { return Ok(()); },
                Phase::Rejected => { return Err(SumCheckError::ConsistencyFailure); },
            }
        }
    }
}

/// A claim that is off by a nonzero field element does not hold: of two
/// sum-checks on one family whose claims differ by `d`, at most one claims the
/// true sum, so that round one rejects the other.
pub proof fn lemma_tampered_claim_does_not_hold<F: Fn(&[Fe]) -> Fe>(
    honest: SumCheck<F>,
    tampered: SumCheck<F>,
    d: nat,
)
    requires
        honest.built(),
        1 <= honest.arity(),
        honest.claim_holds(),
        tampered.gp_is == honest.gp_is,
        0 < d < modulus(),
        tampered.h@ == (honest.h@ + d) % modulus(),
    ensures
        !tampered.claim_holds(),
{
    let g = honest.oracle();
    let v = honest.arity();
    let f = choose|f: spec_fn(Seq<nat>) -> nat| computes(g, v, f);
    assert(computes(g, v, f));
    lemma_tampered_claim_fails(f, v, d);
    lemma_round_one_identity(f, v);
}

/// Builds the family of the sample oracle `SumCheck::g` in `v` variables,
/// runs the protocol on its claimed sum, and returns that sum.
pub fn run_sample(v: usize) -> (res: Result<Fe, SumCheckError>)
    ensures
        v == 0 ==> res == Err::<Fe, _>(SumCheckError::ConfigurationError),
        v > 0 ==> (res matches Ok(h) && h@ == hypercube_sum(sample_fn(), v as nat)),
{
    let g = |x: &[Fe]| -> (y: Fe)
        ensures
            y@ == sample_fn()(values(x@)),
        { SumCheck::g(x) };
    proof {
        assert(computes(g, v as nat, sample_fn()));
    }
    let mut sum_check = SumCheck::new();
    match sum_check.cal_h(g, v) {
        Ok(()) => {},
        Err(e) => { return Err(e); },
    }
    proof {
        assert(computes(sum_check.oracle(), v as nat, sample_fn()));
    }
    match sum_check.run_protocol() {
        Ok(()) => Ok(sum_check.h),
        Err(e) => Err(e),
    }
}

} // verus!
