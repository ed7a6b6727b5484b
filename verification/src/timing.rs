//! The timing harness: runs a verification closure repeatedly under a chosen
//! cache-priming policy, one trial strictly after another on a single
//! thread, and records the elapsed wall-clock time of each trial.

use vstd::prelude::*;

use crate::crypto;

verus! {

/// How the processor cache state is conditioned immediately before each
/// timed trial.
#[derive(Clone, Copy, Debug)]
pub enum CacheFlushMode {
    /// Don't touch the caches before measuring.
    NoFlush,
    /// Read a buffer larger than the last-level cache so that data caches
    /// are almost certainly free of useful data. Does nothing to
    /// instruction caches.
    OverwriteScan,
    /// Invoke a privileged, externally supplied cache-invalidation facility
    /// that clears all caches; the facility must abort the run itself if it
    /// is unavailable — there is no silent fallback to a weaker mode.
    PrivilegedInvalidate,
}

/// The assumed last-level cache capacity, in bytes.
pub const ASSUMED_L3_SIZE: usize = 67108864;

/// The eviction buffer exceeds the assumed cache capacity by this factor.
pub const EVICTION_FACTOR: usize = 2;

/// Owns the eviction buffer used by `OverwriteScan`: an expensive,
/// random-filled byte buffer created lazily on first use, read-only ever
/// after, and shared by all trials of this harness. The capacity is
/// injectable so tests can substitute a small buffer.
pub struct TimingHarness {
    /// How many bytes the eviction buffer holds once created.
    pub buffer_capacity: usize,
    /// The buffer itself; `None` until the first `OverwriteScan` trial.
    pub eviction_buffer: Option<Vec<u8>>,
}

impl TimingHarness {
    /// The harness invariant: once created, the eviction buffer has exactly
    /// the configured capacity.
    pub open spec fn wf(self) -> bool {
        self.eviction_buffer is Some ==> self.eviction_buffer.unwrap()@.len()
            == self.buffer_capacity
    }

    /// A harness whose eviction buffer, once needed, will hold
    /// `buffer_capacity` bytes. No buffer is allocated yet.
    pub fn new(buffer_capacity: usize) -> (r: TimingHarness)
        ensures
            r.wf(),
            r.buffer_capacity == buffer_capacity,
            r.eviction_buffer is None,
    {
        TimingHarness { buffer_capacity, eviction_buffer: None }
    }

    /// A harness with the default eviction buffer of twice the assumed
    /// last-level cache capacity.
    pub fn with_default_capacity() -> (r: TimingHarness)
        ensures
            r.wf(),
            r.buffer_capacity == ASSUMED_L3_SIZE * EVICTION_FACTOR,
            r.eviction_buffer is None,
    {
        TimingHarness::new(ASSUMED_L3_SIZE * EVICTION_FACTOR)
    }

    /// Creates the eviction buffer on first use, filling it once with
    /// non-cryptographic random bytes; an existing buffer is left untouched.
    fn ensure_buffer(&mut self)
        requires
            old(self).wf(),
        ensures
            final(self).wf(),
            final(self).buffer_capacity == old(self).buffer_capacity,
            final(self).eviction_buffer is Some,
            old(self).eviction_buffer is Some ==> *final(self) == *old(self),
    {
        match &self.eviction_buffer {
            Some(_) => {},
            None => {
                let n = self.buffer_capacity;
                let mut buf: Vec<u8> = Vec::new();
                let mut i: usize = 0;
                while i < n
                    invariant
                        0 <= i <= n,
                        buf@.len() == i,
                    decreases n - i,
                {
                    buf.push(crypto::random_byte());
                    i = i + 1;
                }
                self.eviction_buffer = Some(buf);
            },
        }
    }

    /// Reads every byte of the eviction buffer through an
    /// optimizer-defeating sink, pushing prior working-set data out of the
    /// data caches.
    fn scan_buffer(&self)
        requires
            self.eviction_buffer is Some,
    {
        match &self.eviction_buffer {
            Some(buf) => {
                let mut i: usize = 0;
                while i < buf.len()
                    invariant
                        0 <= i <= buf@.len(),
                    decreases buf@.len() - i,
                {
                    crypto::sink_byte(buf[i]);
                    i = i + 1;
                }
            },
            None => {},
        }
    }

    /// Applies the environment-priming step for one trial: nothing, an
    /// eviction-buffer scan, or the externally supplied privileged
    /// invalidation. A buffer that exists already is never touched again.
    pub fn freeze<P: Fn()>(&mut self, flush_config: CacheFlushMode, invalidate: &P)
        requires
            old(self).wf(),
            flush_config is PrivilegedInvalidate ==> call_requires(invalidate, ()),
        ensures
            final(self).wf(),
            final(self).buffer_capacity == old(self).buffer_capacity,
            old(self).eviction_buffer is Some ==> *final(self) == *old(self),
            flush_config is OverwriteScan ==> final(self).eviction_buffer is Some,
            flush_config is OverwriteScan || *final(self) == *old(self),
            flush_config is PrivilegedInvalidate ==> call_ensures(invalidate, (), ()),
    {
        match flush_config {
            CacheFlushMode::NoFlush => {},
            CacheFlushMode::OverwriteScan => {
                self.ensure_buffer();
                self.scan_buffer();
            },
            CacheFlushMode::PrivilegedInvalidate => {
                invalidate();
            },
        }
    }

    /// Measures `repetitions` trials of the zero-argument closure `f`:
    /// each trial primes the environment for `flush_config`, reads the
    /// monotonic clock, invokes `f` exactly once — whatever `f` computes is
    /// discarded and never branched on — and records the elapsed nanoseconds.
    /// Returns the full per-trial sequence; nothing is aggregated here.
    pub fn measure<F: Fn(), P: Fn()>(
        &mut self,
        f: &F,
        flush_config: CacheFlushMode,
        invalidate: &P,
        repetitions: usize,
    ) -> (samples: Vec<u32>)
        requires
            old(self).wf(),
            call_requires(f, ()),
            flush_config is PrivilegedInvalidate ==> call_requires(invalidate, ()),
        ensures
            final(self).wf(),
            final(self).buffer_capacity == old(self).buffer_capacity,
            old(self).eviction_buffer is Some ==> final(self).eviction_buffer == old(
                self,
            ).eviction_buffer,
            !(flush_config is OverwriteScan) ==> *final(self) == *old(self),
            flush_config is OverwriteScan && repetitions > 0 ==> final(self).eviction_buffer is Some,
            repetitions > 0 ==> call_ensures(f, (), ()),
            flush_config is PrivilegedInvalidate && repetitions > 0 ==> call_ensures(
                invalidate,
                (),
                (),
            ),
            samples@.len() == repetitions,
    {
        let mut samples: Vec<u32> = Vec::new();
        let mut i: usize = 0;
        while i < repetitions
            invariant
                0 <= i <= repetitions,
                samples@.len() == i,
                self.wf(),
                self.buffer_capacity == old(self).buffer_capacity,
                old(self).eviction_buffer is Some ==> self.eviction_buffer == old(
                    self,
                ).eviction_buffer,
                !(flush_config is OverwriteScan) ==> *self == *old(self),
                flush_config is OverwriteScan && i > 0 ==> self.eviction_buffer is Some,
                i > 0 ==> call_ensures(f, (), ()),
                flush_config is PrivilegedInvalidate && i > 0 ==> call_ensures(invalidate, (), ()),
                call_requires(f, ()),
                flush_config is PrivilegedInvalidate ==> call_requires(invalidate, ()),
            decreases repetitions - i,
        {
            self.freeze(flush_config, invalidate);
            let ts = crypto::monotonic_now();
            f();
            samples.push(crypto::elapsed_nanos(&ts));
            i = i + 1;
        }
        samples
    }
}

/// Runs the benchmark closure for 100 timed trials under the given
/// cache-flush mode and returns the per-trial nanosecond samples.
pub fn byzantine_bench<F: Fn(), P: Fn()>(
    harness: &mut TimingHarness,
    function: &F,
    flush_config: CacheFlushMode,
    invalidate: &P,
) -> (samples: Vec<u32>)
    requires
        old(harness).wf(),
        call_requires(function, ()),
        flush_config is PrivilegedInvalidate ==> call_requires(invalidate, ()),
    ensures
        final(harness).wf(),
        final(harness).buffer_capacity == old(harness).buffer_capacity,
        old(harness).eviction_buffer is Some ==> final(harness).eviction_buffer == old(
            harness,
        ).eviction_buffer,
        !(flush_config is OverwriteScan) ==> *final(harness) == *old(harness),
        flush_config is OverwriteScan ==> final(harness).eviction_buffer is Some,
        call_ensures(function, (), ()),
        flush_config is PrivilegedInvalidate ==> call_ensures(invalidate, (), ()),
        samples@.len() == 100,
{
    harness.measure(function, flush_config, invalidate, 100)
}

/// Measures `n` verifications of one signature/message pair under one public
/// key, with no cache priming, and returns the elapsed microseconds of each
/// trial. The verification outcome is discarded inside the timed region, by
/// design: success or failure must not perturb the measurement.
pub fn measure_n_verifications(
    n: usize,
    pk: &ed25519_dalek::PublicKey,
    message: &[u8],
    signature: &ed25519_dalek::Signature,
) -> (samples: Vec<u32>)
    ensures
        samples@.len() == n,
{
    let mut samples: Vec<u32> = Vec::new();
    let mut i: usize = 0;
    while i < n
        invariant
            0 <= i <= n,
            samples@.len() == i,
        decreases n - i,
    {
        let ts = crypto::monotonic_now();
        let _ = crypto::verify_once(pk, message, signature);
        samples.push(crypto::elapsed_micros(&ts));
        i = i + 1;
    }
    samples
}

/// One trial of the phase-instrumented measurement: the overall elapsed
/// microseconds, and the sub-phase durations the instrumented verifier
/// reported for that trial.
pub struct TimedSample {
    pub overall: u32,
    pub table: u32,
    pub phase_a: u32,
    pub phase_b: u32,
    pub compress: u32,
}

/// Measures `n` trials of an externally instrumented verification routine
/// `timed_verify`, which reports its sub-phase durations (table lookup,
/// first and second scalar multiplication, point compression). Each trial
/// records the overall elapsed time around exactly one invocation, paired
/// with the sub-phase durations that invocation returned.
pub fn measure_n_verifications_timed<F: Fn() -> (u32, u32, u32, u32)>(n: usize, timed_verify: &F) -> (samples:
    Vec<TimedSample>)
    requires
        call_requires(timed_verify, ()),
    ensures
        samples@.len() == n,
        forall|i: int|
            0 <= i < n ==> call_ensures(
                timed_verify,
                (),
                (
                    (#[trigger] samples@[i]).table,
                    samples@[i].phase_a,
                    samples@[i].phase_b,
                    samples@[i].compress,
                ),
            ),
{
    let mut samples: Vec<TimedSample> = Vec::new();
    let mut i: usize = 0;
    while i < n
        invariant
            0 <= i <= n,
            samples@.len() == i,
            call_requires(timed_verify, ()),
            forall|t: int|
                0 <= t < i ==> call_ensures(
                    timed_verify,
                    (),
                    (
                        (#[trigger] samples@[t]).table,
                        samples@[t].phase_a,
                        samples@[t].phase_b,
                        samples@[t].compress,
                    ),
                ),
        decreases n - i,
    {
        let ts = crypto::monotonic_now();
        let (table, phase_a, phase_b, compress) = timed_verify();
        let overall = crypto::elapsed_micros(&ts);
        samples.push(TimedSample { overall, table, phase_a, phase_b, compress });
        i = i + 1;
    }
    samples
}

} // verus!
