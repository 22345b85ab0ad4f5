use btclib::crypto::{PrivateKey, PublicKey, Signature};

fn some_digest(tag: u8) -> btclib::sha256::Hash {
    let mut seed = btclib::sha256::Hash::zero().as_bytes();
    seed.push(tag);
    btclib::sha256::Hash::hash_bytes(&seed)
}

#[test]
fn signature_verifies_under_matching_key_pair() {
    let private_key = PrivateKey::new_key();
    let public_key = private_key.public_key();
    let digest = some_digest(1);
    let signature = Signature::sign_output(&digest, &private_key);
    assert!(signature.verify(&digest, &public_key));
}

#[test]
fn signature_fails_on_a_distinct_digest() {
    let private_key = PrivateKey::new_key();
    let public_key = private_key.public_key();
    let signature = Signature::sign_output(&some_digest(1), &private_key);
    assert!(!signature.verify(&some_digest(2), &public_key));
}

#[test]
fn signature_fails_under_a_mismatched_key() {
    let private_key = PrivateKey::new_key();
    let other_public = PrivateKey::new_key().public_key();
    let digest = some_digest(3);
    let signature = Signature::sign_output(&digest, &private_key);
    assert!(!signature.verify(&digest, &other_public));
}

#[test]
fn signing_is_deterministic() {
    let private_key = PrivateKey::new_key();
    let digest = some_digest(4);
    let first = Signature::sign_output(&digest, &private_key);
    let second = Signature::sign_output(&digest, &private_key);
    assert_eq!(first.to_byte_vec(), second.to_byte_vec());
}

#[test]
fn private_key_round_trips_through_bytes() {
    let private_key = PrivateKey::new_key();
    let bytes = private_key.to_byte_vec();
    assert_eq!(bytes.len(), 32);
    let rebuilt = PrivateKey::from_byte_vec(&bytes).unwrap();
    assert_eq!(rebuilt.public_key(), private_key.public_key());
    let digest = some_digest(5);
    let signature = Signature::sign_output(&digest, &rebuilt);
    assert!(signature.verify(&digest, &private_key.public_key()));
}

#[test]
fn all_zero_bytes_are_no_private_key() {
    let bytes = vec![0u8; 32];
    assert!(PrivateKey::from_byte_vec(&bytes).is_none());
}

#[test]
fn short_paddable_key_encodings_are_refused() {
    // The curve library would left-pad 24- to 31-byte values; the ledger
    // accepts only the canonical 32-byte encoding.
    assert!(PrivateKey::from_byte_vec(&vec![1u8; 24]).is_none());
    assert!(PrivateKey::from_byte_vec(&vec![1u8; 31]).is_none());
    assert!(PrivateKey::from_byte_vec(&vec![1u8; 33]).is_none());
    assert!(PrivateKey::from_byte_vec(&vec![]).is_none());
}

#[test]
fn public_key_round_trips_through_bytes() {
    let public_key = PrivateKey::new_key().public_key();
    let bytes = public_key.to_byte_vec();
    assert_eq!(bytes.len(), 33);
    let rebuilt = PublicKey::from_byte_vec(&bytes).unwrap();
    assert_eq!(rebuilt, public_key);
    assert!(PublicKey::from_byte_vec(&vec![0u8; 32]).is_none());
}

#[test]
fn signature_round_trips_through_bytes() {
    let private_key = PrivateKey::new_key();
    let digest = some_digest(6);
    let signature = Signature::sign_output(&digest, &private_key);
    let bytes = signature.to_byte_vec();
    assert_eq!(bytes.len(), 64);
    let rebuilt = Signature::from_byte_vec(&bytes).unwrap();
    assert!(rebuilt.verify(&digest, &private_key.public_key()));
    assert!(Signature::from_byte_vec(&vec![0u8; 63]).is_none());
}
