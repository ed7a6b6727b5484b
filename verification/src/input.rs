//! Benchmark inputs: signature/message/key triples, either genuinely random
//! and correctly signed, or assembled byte by byte as adversarial forgeries.

use vstd::prelude::*;
use vstd::string::StringSliceAdditionalSpecFns;

use crate::crypto;

verus! {

/// The view of the fixed constant message every benchmark input carries.
pub open spec fn message_view() -> Seq<char> {
    "This is a test of the tsunami alert system."@
}

/// The UTF-8 bytes of the fixed constant message.
pub open spec fn message_bytes() -> Seq<u8> {
    "This is a test of the tsunami alert system.".spec_bytes()
}

/// The fixed constant message; all comparisons hold the message constant.
pub fn message() -> (r: &'static str)
    ensures
        r@ == message_view(),
{
    "This is a test of the tsunami alert system."
}

/// A signature-verification input: a public key (32 bytes), the fixed
/// message, and a signature (64 bytes). Construction never validates
/// cryptographic correctness: `forged` deliberately produces structurally
/// well-formed but cryptographically invalid data.
#[derive(Clone, Debug)]
pub struct BenchmarkInput {
    pub public_key: Vec<u8>,
    pub msg: String,
    pub signature: Vec<u8>,
}

impl BenchmarkInput {
    /// The structural invariant: the key and signature have the fixed widths
    /// of the Ed25519 scheme.
    pub open spec fn wf(self) -> bool {
        self.public_key@.len() == 32 && self.signature@.len() == 64
    }

    /// Draws a fresh keypair from the operating-system randomness source and
    /// signs the fixed message with it: the result is an internally
    /// consistent triple that the scheme accepts.
    pub fn random(csprng: &mut rand::rngs::OsRng) -> (r: BenchmarkInput)
        ensures
            r.wf(),
            r.msg@ == message_view(),
            r.signature@[63] < 32,
            crypto::verifies(r.public_key@, message_bytes(), r.signature@),
    {
        let msg = message();
        let (public_key, signature) = crypto::generate_signed_bytes(csprng, msg.as_bytes());
        BenchmarkInput { public_key, msg: msg.to_owned(), signature }
    }

    /// Whether the scheme accepts this input's key/signature pair for the
    /// fixed constant message: true of every `random` input, false of a
    /// forgery a correct verifier rejects.
    pub fn verifies_fixed_message(&self) -> (r: bool)
        requires
            self.wf(),
        ensures
            r == crypto::verifies(self.public_key@, message_bytes(), self.signature@),
    {
        crypto::verify_bytes(&self.public_key, message().as_bytes(), &self.signature)
    }

    /// Builds a forged input by direct byte assembly, bypassing key
    /// generation and signing entirely: the public key is the all-`0xFF`
    /// pattern and the signature's first half is the selected pattern, with
    /// the rest zero-filled. The index is taken modulo the pattern-set size,
    /// so the constructor is total and deterministic. The result is
    /// deliberately not validated and may be rejected by a correct verifier.
    pub fn forged(index: usize) -> (r: BenchmarkInput)
        ensures
            r.wf(),
            r.msg@ == message_view(),
            r.public_key@ == forged_pattern(0),
            r.signature@ == forged_pattern((index % 4) as int) + Seq::new(32, |i: int| 0u8),
    {
        let pattern = pattern_bytes(index % 4);
        let mut signature = pattern;
        let mut i: usize = 0;
        let ghost half = signature@;
        while i < 32
            invariant
                0 <= i <= 32,
                signature@ == half + Seq::new(i as nat, |j: int| 0u8),
            decreases 32 - i,
        {
            signature.push(0u8);
            proof {
                assert(half + Seq::new((i + 1) as nat, |j: int| 0u8) =~= (half + Seq::new(
                    i as nat,
                    |j: int| 0u8,
                )).push(0u8));
            }
            i = i + 1;
        }
        proof {
            assert(forged_pattern((index % 4) as int) + Seq::new(32, |j: int| 0u8) =~= half
                + Seq::new(32nat, |j: int| 0u8));
        }
        BenchmarkInput {
            public_key: pattern_bytes(0),
            msg: message().to_owned(),
            signature,
        }
    }
}

/// The closed set of forged first-half patterns: all-`0xFF`, all-zero, and
/// two irregular patterns.
pub open spec fn forged_pattern(k: int) -> Seq<u8>
    recommends
        0 <= k < 4,
{
    Seq::new(32, |i: int| forged_pattern_byte(k, i))
}

/// Byte `i` of forged pattern `k`.
pub open spec fn forged_pattern_byte(k: int, i: int) -> u8 {
    if k == 0 {
        255u8
    } else if k == 1 {
        0u8
    } else if k == 2 {
        if i == 0 || i == 22 {
            255u8
        } else if i == 5 {
            10u8
        } else if i % 2 == 0 {
            127u8
        } else {
            42u8
        }
    } else {
        if i == 0 || i == 23 {
            255u8
        } else if i == 5 {
            11u8
        } else if i % 2 == 0 {
            42u8
        } else {
            127u8
        }
    }
}

/// Builds forged pattern `k` as a byte vector.
pub fn pattern_bytes(k: usize) -> (r: Vec<u8>)
    requires
        k < 4,
    ensures
        r@ == forged_pattern(k as int),
{
    let mut r: Vec<u8> = Vec::new();
    let mut i: usize = 0;
    while i < 32
        invariant
            0 <= i <= 32,
            k < 4,
            r@.len() == i,
            forall|j: int| 0 <= j < i ==> r@[j] == forged_pattern_byte(k as int, j),
        decreases 32 - i,
    {
        let b: u8 = if k == 0 {
            255
        } else if k == 1 {
            0
        } else if k == 2 {
            if i == 0 || i == 22 {
                255
            } else if i == 5 {
                10
            } else if i % 2 == 0 {
                127
            } else {
                42
            }
        } else {
            if i == 0 || i == 23 {
                255
            } else if i == 5 {
                11
            } else if i % 2 == 0 {
                42
            } else {
                127
            }
        };
        r.push(b);
        i = i + 1;
    }
    proof {
        assert(r@ =~= forged_pattern(k as int));
    }
    r
}

/// The four forged patterns are pairwise distinct byte strings, so the four
/// forged inputs differ; indexes beyond the set wrap around through the
/// modulus in `forged`'s contract.
pub proof fn lemma_forged_patterns_distinct()
    ensures
        forall|k1: int, k2: int|
            0 <= k1 < k2 < 4 ==> #[trigger] forged_pattern(k1) != #[trigger] forged_pattern(k2),
{
    assert forall|k1: int, k2: int| 0 <= k1 < k2 < 4 implies #[trigger] forged_pattern(k1)
        != #[trigger] forged_pattern(k2) by {
        if k1 == 0 {
            assert(forged_pattern(k1)[1] != forged_pattern(k2)[1]);
        } else if k1 == 1 {
            assert(forged_pattern(k1)[1] != forged_pattern(k2)[1]);
        } else {
            assert(forged_pattern(2)[1] == 42u8 && forged_pattern(3)[1] == 127u8);
            assert(forged_pattern(k1)[1] != forged_pattern(k2)[1]);
        }
    }
}

/// Draws a random keypair and signs the fixed message, returning both.
pub fn random_signature(csprng: &mut rand::rngs::OsRng) -> (ed25519_dalek::Keypair, ed25519_dalek::Signature) {
    let keypair = crypto::generate_keypair(csprng);
    let signature = crypto::sign_message(&keypair, message().as_bytes());
    (keypair, signature)
}

/// Builds the forged public key and half-forged signature as scheme values:
/// the signature's first half is `s`, the rest zero; the public key is the
/// all-`0xFF` pattern. The signature always decodes (its scalar half is
/// zero); the result is `None` exactly when the all-`0xFF` key bytes do not
/// decompress to a curve point.
pub fn half_forged_signature(s: &Vec<u8>) -> (r: Option<
    (ed25519_dalek::PublicKey, ed25519_dalek::Signature),
>)
    requires
        s@.len() == 32,
    ensures
        (r is Some) <==> crypto::key_decodes(forged_pattern(0)),
{
    let mut sig_bytes: Vec<u8> = Vec::new();
    let mut i: usize = 0;
    while i < 32
        invariant
            0 <= i <= 32,
            s@.len() == 32,
            sig_bytes@ =~= s@.take(i as int),
        decreases 32 - i,
    {
        sig_bytes.push(s[i]);
        i = i + 1;
    }
    let mut j: usize = 0;
    let ghost half = sig_bytes@;
    while j < 32
        invariant
            0 <= j <= 32,
            half.len() == 32,
            sig_bytes@ == half + Seq::new(j as nat, |t: int| 0u8),
        decreases 32 - j,
    {
        sig_bytes.push(0u8);
        proof {
            assert(half + Seq::new((j + 1) as nat, |t: int| 0u8) =~= (half + Seq::new(
                j as nat,
                |t: int| 0u8,
            )).push(0u8));
        }
        j = j + 1;
    }
    let key_bytes = pattern_bytes(0);
    let pk_opt = crypto::public_key_from_bytes(&key_bytes);
    let sig_opt = crypto::signature_from_bytes(&sig_bytes);
    match (pk_opt, sig_opt) {
        (Some(pk), Some(sig)) => Some((pk, sig)),
        (Some(_), None) => {
            proof {
                assert(sig_bytes@[63] == 0u8);
                assert(false);
            }
            None
        },
        _ => None,
    }
}

/// Produces `n` random, correctly signed benchmark inputs by calling the
/// singular constructor `n` times on one shared randomness stream.
pub fn random_batch(csprng: &mut rand::rngs::OsRng, n: usize) -> (r: Vec<BenchmarkInput>)
    ensures
        r@.len() == n,
        forall|i: int| 0 <= i < n ==> (#[trigger] r@[i]).wf() && r@[i].msg@ == message_view(),
{
    let mut r: Vec<BenchmarkInput> = Vec::new();
    let mut i: usize = 0;
    while i < n
        invariant
            0 <= i <= n,
            r@.len() == i,
            forall|t: int| 0 <= t < i ==> (#[trigger] r@[t]).wf() && r@[t].msg@ == message_view(),
        decreases n - i,
    {
        r.push(BenchmarkInput::random(csprng));
        i = i + 1;
    }
    r
}

/// Produces `n` forged benchmark inputs, one per pattern index `0..n`.
pub fn forged_batch(n: usize) -> (r: Vec<BenchmarkInput>)
    ensures
        r@.len() == n,
        forall|i: int|
            0 <= i < n ==> (#[trigger] r@[i]).wf() && r@[i].msg@ == message_view()
                && r@[i].public_key@ == forged_pattern(0) && r@[i].signature@ == forged_pattern(
                i % 4,
            ) + Seq::new(32, |t: int| 0u8),
{
    let mut r: Vec<BenchmarkInput> = Vec::new();
    let mut i: usize = 0;
    while i < n
        invariant
            0 <= i <= n,
            r@.len() == i,
            forall|t: int|
                0 <= t < i ==> (#[trigger] r@[t]).wf() && r@[t].msg@ == message_view()
                    && r@[t].public_key@ == forged_pattern(0) && r@[t].signature@ == forged_pattern(
                    t % 4,
                ) + Seq::new(32, |u: int| 0u8),
        decreases n - i,
    {
        r.push(BenchmarkInput::forged(i));
        i = i + 1;
    }
    r
}

} // verus!
