use ed25519_hacking::input::BenchmarkInput;
use ed25519_hacking::search::find_byz_input;
use ed25519_hacking::search::generate_byzantine_samples;
use ed25519_hacking::search::SearchOutcome;

/// A stand-in for the external scoring oracle: the number of `0xFF` bytes in
/// the candidate's signature. Deterministic in the input, like the contract
/// the real collaborator promises.
fn stub_score(input: &BenchmarkInput) -> u64 {
    input.signature.iter().filter(|b| **b == 0xFF).count() as u64
}

#[test]
fn oracle_stub_is_deterministic_across_calls() {
    let mut csprng = rand::rngs::OsRng;
    let input = BenchmarkInput::random(&mut csprng);
    let first = stub_score(&input);
    let second = stub_score(&input);
    assert_eq!(first, second);
    let forged = BenchmarkInput::forged(0);
    assert_eq!(stub_score(&forged), stub_score(&forged));
    assert_eq!(stub_score(&forged), 32);
}

#[test]
fn found_input_always_clears_the_threshold() {
    let mut csprng = rand::rngs::OsRng;
    // Every candidate scores at least its threshold here, so the very first
    // attempt must already succeed.
    let oracle = |_input: &BenchmarkInput| 100u64;
    match find_byz_input(&mut csprng, &oracle, 100, 1) {
        SearchOutcome::Found { input, score } => {
            assert!(score >= 100);
            assert_eq!(input.signature.len(), 64);
        },
        SearchOutcome::Exhausted => panic!("a reachable threshold was not reached"),
    }
}

#[test]
fn unreachable_threshold_reports_exhaustion() {
    let mut csprng = rand::rngs::OsRng;
    let oracle = |_input: &BenchmarkInput| 0u64;
    match find_byz_input(&mut csprng, &oracle, 1, 50) {
        SearchOutcome::Found { .. } => panic!("an unreachable threshold was reached"),
        SearchOutcome::Exhausted => {},
    }
}

#[test]
fn zero_attempts_always_exhaust() {
    let mut csprng = rand::rngs::OsRng;
    let oracle = |_input: &BenchmarkInput| 100u64;
    assert!(matches!(
        find_byz_input(&mut csprng, &oracle, 0, 0),
        SearchOutcome::Exhausted
    ));
}

#[test]
fn search_returns_a_candidate_with_enough_ff_bytes() {
    // End to end: with the 0xFF-counting stub oracle and a threshold of 2,
    // the bounded search terminates and the accepted candidate's signature
    // holds at least two 0xFF bytes.
    let mut csprng = rand::rngs::OsRng;
    let oracle = |input: &BenchmarkInput| {
        input.signature.iter().filter(|b| **b == 0xFF).count() as u64
    };
    match find_byz_input(&mut csprng, &oracle, 2, 100_000) {
        SearchOutcome::Found { input, score } => {
            let ff_bytes = input.signature.iter().filter(|b| **b == 0xFF).count();
            assert!(ff_bytes >= 2);
            assert_eq!(score, ff_bytes as u64);
        },
        SearchOutcome::Exhausted => {
            panic!("the search budget should be ample for a two-byte threshold")
        },
    }
}

#[test]
fn batch_returns_all_samples_in_order_with_scores() {
    let mut csprng = rand::rngs::OsRng;
    let oracle = |input: &BenchmarkInput| 7 + input.signature[0] as u64;
    let samples = generate_byzantine_samples(&mut csprng, &oracle, 7, 5, 10).unwrap();
    assert_eq!(samples.len(), 10);
    for (input, score) in &samples {
        assert!(*score >= 7);
        assert_eq!(*score, 7 + input.signature[0] as u64);
    }
}

#[test]
fn batch_surfaces_exhaustion() {
    let mut csprng = rand::rngs::OsRng;
    let oracle = |_input: &BenchmarkInput| 0u64;
    let outcome = generate_byzantine_samples(&mut csprng, &oracle, 1, 3, 2);
    assert!(outcome.is_err());
}
