//! Rejection-sampling search for "byzantine" inputs: candidates are drawn at
//! random and scored by an external oracle until one clears the caller's
//! threshold. The search is bounded: exhausting the attempt budget is a
//! reportable outcome, never an endless loop.

use vstd::prelude::*;

use crate::input::BenchmarkInput;
use crate::input::message_view;

verus! {

/// The outcome of one bounded search: either an accepted input together with
/// the score the oracle reported for it, or exhaustion of the attempt budget.
pub enum SearchOutcome {
    Found { input: BenchmarkInput, score: u64 },
    Exhausted,
}

/// An oracle contract pins at most one score per input.
pub open spec fn oracle_deterministic<O: Fn(&BenchmarkInput) -> u64>(oracle: O) -> bool {
    forall|inp: &BenchmarkInput, s1: u64, s2: u64|
        call_ensures(oracle, (inp,), s1) && call_ensures(oracle, (inp,), s2) ==> s1 == s2
}

/// Two scores a deterministic oracle reports for one input agree, so
/// successive calls on the same triple return the same score.
pub proof fn lemma_oracle_scores_agree<O: Fn(&BenchmarkInput) -> u64>(
    oracle: O,
    inp: &BenchmarkInput,
    s1: u64,
    s2: u64,
)
    requires
        oracle_deterministic(oracle),
        call_ensures(oracle, (inp,), s1),
        call_ensures(oracle, (inp,), s2),
    ensures
        s1 == s2,
{
}

/// Tries freshly drawn random inputs until the scoring oracle reports at
/// least `min_score`, giving up after `max_attempts` candidates. An accepted
/// input is returned together with its score, so the caller can log the pair
/// exactly once, at acceptance.
pub fn find_byz_input<O: Fn(&BenchmarkInput) -> u64>(
    csprng: &mut rand::rngs::OsRng,
    oracle: &O,
    min_score: u64,
    max_attempts: usize,
) -> (r: SearchOutcome)
    requires
        forall|inp: &BenchmarkInput| inp.wf() ==> call_requires(oracle, (inp,)),
    ensures
        match r {
            SearchOutcome::Found { input, score } => input.wf() && input.msg@ == message_view()
                && score >= min_score && call_ensures(oracle, (&input,), score),
            SearchOutcome::Exhausted => true,
        },
        (max_attempts >= 1 && (forall|inp: &BenchmarkInput, s: u64|
            call_ensures(oracle, (inp,), s) ==> s >= min_score)) ==> r is Found,
{
    let mut attempts: usize = 0;
    while attempts < max_attempts
        invariant
            forall|inp: &BenchmarkInput| inp.wf() ==> call_requires(oracle, (inp,)),
            (forall|inp: &BenchmarkInput, s: u64|
                call_ensures(oracle, (inp,), s) ==> s >= min_score) ==> attempts == 0,
        decreases max_attempts - attempts,
    {
        let input = BenchmarkInput::random(csprng);
        let score = oracle(&input);
        if score >= min_score {
            return SearchOutcome::Found { input, score };
        }
        attempts = attempts + 1;
    }
    SearchOutcome::Exhausted
}

/// Invokes the bounded search `count` times on one shared randomness stream
/// and returns the accepted samples, each with its score, in the order they
/// were found. The first exhausted search aborts the batch.
pub fn generate_byzantine_samples<O: Fn(&BenchmarkInput) -> u64>(
    csprng: &mut rand::rngs::OsRng,
    oracle: &O,
    min_score: u64,
    max_attempts: usize,
    count: usize,
) -> (r: Result<Vec<(BenchmarkInput, u64)>, SearchExhausted>)
    requires
        forall|inp: &BenchmarkInput| inp.wf() ==> call_requires(oracle, (inp,)),
    ensures
        r is Ok ==> {
            let samples = r.unwrap()@;
            samples.len() == count && forall|i: int|
                0 <= i < count ==> (#[trigger] samples[i]).1 >= min_score && samples[i].0.wf()
                    && samples[i].0.msg@ == message_view() && call_ensures(
                    oracle,
                    (&samples[i].0,),
                    samples[i].1,
                )
        },
        (max_attempts >= 1 && (forall|inp: &BenchmarkInput, s: u64|
            call_ensures(oracle, (inp,), s) ==> s >= min_score)) ==> r is Ok,
{
    let mut samples: Vec<(BenchmarkInput, u64)> = Vec::new();
    let mut i: usize = 0;
    while i < count
        invariant
            0 <= i <= count,
            samples@.len() == i,
            forall|inp: &BenchmarkInput| inp.wf() ==> call_requires(oracle, (inp,)),
            forall|t: int|
                0 <= t < i ==> (#[trigger] samples@[t]).1 >= min_score && samples@[t].0.wf()
                    && samples@[t].0.msg@ == message_view() && call_ensures(
                    oracle,
                    (&samples@[t].0,),
                    samples@[t].1,
                ),
        decreases count - i,
    {
        match find_byz_input(csprng, oracle, min_score, max_attempts) {
            SearchOutcome::Found { input, score } => {
                samples.push((input, score));
            },
            SearchOutcome::Exhausted => {
                return Err(SearchExhausted);
            },
        }
        i = i + 1;
    }
    Ok(samples)
}

/// The attempt budget ran out before any candidate met the score threshold.
#[derive(Clone, Copy, Debug, PartialEq, Eq)]
pub struct SearchExhausted;

} // verus!
