use std::cell::Cell;

use ed25519_hacking::input::message;
use ed25519_hacking::input::random_signature;
use ed25519_hacking::timing::byzantine_bench;
use ed25519_hacking::timing::measure_n_verifications;
use ed25519_hacking::timing::measure_n_verifications_timed;
use ed25519_hacking::timing::CacheFlushMode;
use ed25519_hacking::timing::TimingHarness;

fn no_invalidate() {}

#[test]
fn measure_returns_one_sample_per_repetition_and_calls_once_each() {
    let calls = Cell::new(0usize);
    let closure = || calls.set(calls.get() + 1);
    let mut harness = TimingHarness::new(64);
    let samples = harness.measure(&closure, CacheFlushMode::NoFlush, &no_invalidate, 100);
    assert_eq!(samples.len(), 100);
    assert_eq!(calls.get(), 100);
}

#[test]
fn byzantine_bench_runs_one_hundred_trials() {
    let calls = Cell::new(0usize);
    let closure = || calls.set(calls.get() + 1);
    let mut harness = TimingHarness::new(64);
    let samples = byzantine_bench(&mut harness, &closure, CacheFlushMode::NoFlush, &no_invalidate);
    assert_eq!(samples.len(), 100);
    assert_eq!(calls.get(), 100);
}

#[test]
fn no_flush_never_creates_the_eviction_buffer() {
    let closure = || ();
    let mut harness = TimingHarness::new(64);
    harness.measure(&closure, CacheFlushMode::NoFlush, &no_invalidate, 5);
    assert!(harness.eviction_buffer.is_none());
}

#[test]
fn overwrite_scan_creates_the_buffer_once_and_never_rewrites_it() {
    let closure = || ();
    let mut harness = TimingHarness::new(1024);
    harness.measure(&closure, CacheFlushMode::OverwriteScan, &no_invalidate, 3);
    let first = harness.eviction_buffer.clone().unwrap();
    assert_eq!(first.len(), 1024);
    harness.measure(&closure, CacheFlushMode::OverwriteScan, &no_invalidate, 3);
    let second = harness.eviction_buffer.clone().unwrap();
    assert_eq!(first, second);
}

#[test]
fn privileged_invalidate_runs_the_facility_before_every_trial() {
    let closure = || ();
    let invalidations = Cell::new(0usize);
    let invalidate = || invalidations.set(invalidations.get() + 1);
    let mut harness = TimingHarness::new(64);
    let samples = harness.measure(&closure, CacheFlushMode::PrivilegedInvalidate, &invalidate, 7);
    assert_eq!(samples.len(), 7);
    assert_eq!(invalidations.get(), 7);
}

#[test]
fn default_capacity_is_twice_the_assumed_cache_size() {
    let harness = TimingHarness::with_default_capacity();
    assert_eq!(harness.buffer_capacity, 2 * 64 * 1024 * 1024);
    assert!(harness.eviction_buffer.is_none());
}

#[test]
fn measures_real_verifications() {
    let mut csprng = rand::rngs::OsRng;
    let (keypair, signature) = random_signature(&mut csprng);
    let samples = measure_n_verifications(20, &keypair.public, message().as_bytes(), &signature);
    assert_eq!(samples.len(), 20);
}

#[test]
fn timed_measurement_keeps_each_trials_phases() {
    let phases = || (1u32, 2u32, 3u32, 4u32);
    let samples = measure_n_verifications_timed(6, &phases);
    assert_eq!(samples.len(), 6);
    for sample in &samples {
        assert_eq!(
            (sample.table, sample.phase_a, sample.phase_b, sample.compress),
            (1, 2, 3, 4)
        );
    }
}
