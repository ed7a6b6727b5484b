use ed25519_hacking::input::half_forged_signature;
use ed25519_hacking::input::message;
use ed25519_hacking::input::pattern_bytes;
use ed25519_hacking::input::random_signature;
use ed25519_hacking::input::forged_batch;
use ed25519_hacking::input::random_batch;
use ed25519_hacking::input::BenchmarkInput;

use ed25519_dalek::Verifier;

#[test]
fn forged_patterns_are_distinct_and_reproducible() {
    let inputs: Vec<BenchmarkInput> = (0..4).map(BenchmarkInput::forged).collect();
    for a in 0..4 {
        for b in 0..4 {
            if a != b {
                assert_ne!(inputs[a].signature, inputs[b].signature);
            }
        }
        // Reproducible: building the same index again gives the same bytes.
        let again = BenchmarkInput::forged(a);
        assert_eq!(again.signature, inputs[a].signature);
        assert_eq!(again.public_key, inputs[a].public_key);
    }
}

#[test]
fn forged_wraps_around_modulo_the_pattern_count() {
    let first = BenchmarkInput::forged(0);
    let wrapped = BenchmarkInput::forged(4);
    assert_eq!(first.signature, wrapped.signature);
    assert_eq!(first.public_key, wrapped.public_key);
    assert_eq!(first.msg, wrapped.msg);
}

#[test]
fn forged_layout_is_pattern_then_zeroes() {
    let all_ff = BenchmarkInput::forged(0);
    assert_eq!(all_ff.public_key, vec![255u8; 32]);
    assert_eq!(all_ff.signature[..32], [255u8; 32]);
    assert_eq!(all_ff.signature[32..], [0u8; 32]);
    assert_eq!(all_ff.msg, "This is a test of the tsunami alert system.");

    let all_zero = BenchmarkInput::forged(1);
    assert_eq!(all_zero.signature, vec![0u8; 64]);
    assert_eq!(all_zero.public_key, vec![255u8; 32]);
}

#[test]
fn pattern_bytes_match_their_definition() {
    assert_eq!(pattern_bytes(0), vec![255u8; 32]);
    assert_eq!(pattern_bytes(1), vec![0u8; 32]);
    let a = pattern_bytes(2);
    assert_eq!(a.len(), 32);
    assert_eq!(a[0], 255);
    assert_eq!(a[5], 10);
    assert_eq!(a[22], 255);
    assert_eq!(a[2], 127);
    assert_eq!(a[1], 42);
    let b = pattern_bytes(3);
    assert_eq!(b[0], 255);
    assert_eq!(b[5], 11);
    assert_eq!(b[23], 255);
    assert_eq!(b[2], 42);
    assert_eq!(b[1], 127);
    assert_ne!(a, b);
}

#[test]
fn random_input_is_well_formed_and_really_signed() {
    let mut csprng = rand::rngs::OsRng;
    let input = BenchmarkInput::random(&mut csprng);
    assert_eq!(input.public_key.len(), 32);
    assert_eq!(input.signature.len(), 64);
    assert_eq!(input.msg, message());

    // The triple must verify under the real scheme: the generator signs,
    // it does not hand back unrelated bytes.
    let pk = ed25519_dalek::PublicKey::from_bytes(&input.public_key).unwrap();
    let sig = ed25519_dalek::Signature::from_bytes(&input.signature).unwrap();
    assert!(pk.verify(input.msg.as_bytes(), &sig).is_ok());
}

#[test]
fn random_signature_signs_the_fixed_message() {
    let mut csprng = rand::rngs::OsRng;
    let (keypair, signature) = random_signature(&mut csprng);
    assert!(keypair.public.verify(message().as_bytes(), &signature).is_ok());
}

#[test]
fn two_random_inputs_differ() {
    let mut csprng = rand::rngs::OsRng;
    let one = BenchmarkInput::random(&mut csprng);
    let two = BenchmarkInput::random(&mut csprng);
    assert_ne!(one.public_key, two.public_key);
    assert_ne!(one.signature, two.signature);
}

#[test]
fn half_forged_agrees_with_the_scheme_on_decodability() {
    let s = vec![255u8; 32];
    let ours = half_forged_signature(&s);
    let direct = ed25519_dalek::PublicKey::from_bytes(&[255u8; 32]);
    assert_eq!(ours.is_some(), direct.is_ok());
    if let Some((_, sig)) = ours {
        let bytes = sig.to_bytes();
        assert_eq!(bytes[..32], [255u8; 32]);
        assert_eq!(bytes[32..], [0u8; 32]);
    }
}

#[test]
fn random_inputs_are_accepted_by_the_scheme() {
    let mut csprng = rand::rngs::OsRng;
    let input = BenchmarkInput::random(&mut csprng);
    assert!(input.verifies_fixed_message());
    // Scheme acceptance is a function of the bytes alone: asking twice
    // about the same triple gives the same answer.
    assert_eq!(input.verifies_fixed_message(), input.verifies_fixed_message());
}

#[test]
fn forged_inputs_are_rejected_by_the_scheme() {
    // An all-zero signature under the all-0xFF key is no valid signature.
    let forged = BenchmarkInput::forged(1);
    assert!(!forged.verifies_fixed_message());
}

#[test]
fn batches_call_the_singular_forms() {
    let mut csprng = rand::rngs::OsRng;
    let random_cases = random_batch(&mut csprng, 10);
    assert_eq!(random_cases.len(), 10);
    for case in &random_cases {
        assert_eq!(case.public_key.len(), 32);
        assert_eq!(case.signature.len(), 64);
    }
    let forged_cases = forged_batch(10);
    assert_eq!(forged_cases.len(), 10);
    for (i, case) in forged_cases.iter().enumerate() {
        let singular = BenchmarkInput::forged(i);
        assert_eq!(case.signature, singular.signature);
        assert_eq!(case.public_key, singular.public_key);
        assert_eq!(case.msg, singular.msg);
    }
}
