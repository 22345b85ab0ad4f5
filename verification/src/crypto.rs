//! Key pairs and signatures over the secp256k1 curve. Key and signature
//! material is held as its canonical byte encoding; the curve arithmetic
//! itself is done by the ecdsa and k256 crates behind trusted wrappers.
use vstd::prelude::*;

use ecdsa::signature::Signer;
use ecdsa::signature::Verifier;

verus! {

use crate::encoding::push_array;
use crate::encoding::u256_le;

/// Whether these 32 bytes are a valid secp256k1 secret scalar, i.e.
/// whether ecdsa::SigningKey::from_slice accepts them as given.
pub uninterp spec fn is_signing_key(key: Seq<u8>) -> bool;

/// The SEC1 compressed encoding of the verifying key that corresponds to
/// the signing key encoded by `key`; a function of `key` alone.
pub uninterp spec fn pubkey_of(key: Seq<u8>) -> Seq<u8>;

/// The RFC 6979 deterministic ECDSA signature over `msg` by the signing
/// key encoded by `key`; a function of its two arguments alone.
pub uninterp spec fn sig_of(msg: Seq<u8>, key: Seq<u8>) -> Seq<u8>;

/// Whether `sig` is an ECDSA signature of `msg` under the verifying key
/// encoded by `pubkey`; a function of its three arguments alone.
pub uninterp spec fn ecdsa_verifies(sig: Seq<u8>, msg: Seq<u8>, pubkey: Seq<u8>) -> bool;

/// A secp256k1 secret scalar, stored as the 32 bytes that
/// ecdsa::SigningKey::to_bytes produced for it.
#[derive(Clone, Debug)]
pub struct PrivateKey {
    bytes: [u8; 32],
}

/// A secp256k1 curve point identifying the holder of a private key,
/// stored as its 33-byte SEC1 compressed encoding.
#[derive(Clone, Copy, PartialEq, Eq, Debug)]
pub struct PublicKey {
    bytes: [u8; 33],
}

/// An ECDSA signature bound to exactly the digest it signs, stored as its
/// 64 fixed-width bytes (`r` then `s`).
#[derive(Clone, Copy, PartialEq, Eq, Debug)]
pub struct Signature {
    bytes: [u8; 64],
}

impl View for PrivateKey {
    type V = Seq<u8>;

    closed spec fn view(&self) -> Seq<u8> {
        self.bytes@
    }
}

impl View for PublicKey {
    type V = Seq<u8>;

    closed spec fn view(&self) -> Seq<u8> {
        self.bytes@
    }
}

impl View for Signature {
    type V = Seq<u8>;

    closed spec fn view(&self) -> Seq<u8> {
        self.bytes@
    }
}

/// Relies on ecdsa::SigningKey::from_slice: on a 32-byte input it
/// succeeds exactly for the valid secret scalar encodings, and does not
/// panic.
#[verifier::external_body]
fn signing_key_accepts(bytes: &Vec<u8>) -> (r: bool)
    requires
        bytes@.len() == 32,
    ensures
        r == is_signing_key(bytes@),
{
    ecdsa::SigningKey::<k256::Secp256k1>::from_slice(bytes).is_ok()
}

impl PrivateKey {
    /// Generates a fresh key pair's secret half.
    ///
    /// Relies on ecdsa::SigningKey::random with rand::thread_rng: the
    /// result is a uniformly random non-zero scalar, and its
    /// SigningKey::to_bytes encoding is accepted by
    /// SigningKey::from_slice again. Nothing else holds of the outcome.
    #[verifier::external_body]
    pub fn new_key() -> (r: PrivateKey)
        ensures
            is_signing_key(r@),
    {
        let key = ecdsa::SigningKey::<k256::Secp256k1>::random(&mut rand::thread_rng());
        let bytes: [u8; 32] = key.to_bytes().into();
        PrivateKey { bytes }
    }

    /// Derives the public half of this key pair.
    ///
    /// Relies on ecdsa::SigningKey::from_slice, ecdsa::SigningKey::
    /// verifying_key and ecdsa::VerifyingKey::to_sec1_bytes: the derived
    /// verifying key is a function of the secret scalar alone, and its
    /// compressed SEC1 encoding is 33 bytes. Bytes that are not a valid
    /// scalar yield a fixed placeholder instead of a key.
    #[verifier::external_body]
    pub fn public_key(&self) -> (r: PublicKey)
        ensures
            r@ == pubkey_of(self@),
    {
        match ecdsa::SigningKey::<k256::Secp256k1>::from_slice(&self.bytes) {
            Ok(key) => {
                let sec1 = key.verifying_key().to_sec1_bytes();
                let bytes: [u8; 33] = sec1.as_ref().try_into().unwrap();
                PublicKey { bytes }
            },
            Err(_) => PublicKey { bytes: [0u8; 33] },
        }
    }

    /// Rebuilds a private key from its byte encoding, accepting exactly
    /// the 32-byte encodings that key generation can produce.
    /// ecdsa::SigningKey::from_slice would also take a 24- to 31-byte
    /// value and left-pad it with zeros; those shorter encodings are
    /// deliberately refused, so a key always round-trips through the
    /// same 32 bytes.
    pub fn from_byte_vec(bytes: &Vec<u8>) -> (r: Option<PrivateKey>)
        ensures
            r is Some <==> bytes@.len() == 32 && is_signing_key(bytes@),
            r is Some ==> r.unwrap()@ == bytes@,
    {
        if bytes.len() != 32 {
            return None;
        }
        if !signing_key_accepts(bytes) {
            return None;
        }
        let mut arr: [u8; 32] = [0u8; 32];
        let mut j: usize = 0;
        while j < 32
            invariant
                j <= 32,
                bytes@.len() == 32,
                arr@.len() == 32,
                forall|k: int| 0 <= k < j ==> arr@[k] == bytes@[k],
            decreases 32 - j,
        {
            arr[j] = bytes[j];
            j = j + 1;
        }
        let r = PrivateKey { bytes: arr };
        assert(r@ =~= bytes@);
        Some(r)
    }

    /// The 32-byte encoding of this key, for storage outside the ledger.
    pub fn to_byte_vec(&self) -> (r: Vec<u8>)
        ensures
            r@ == self@,
    {
        let mut out: Vec<u8> = Vec::new();
        push_array(&mut out, &self.bytes);
        out
    }
}

impl PublicKey {
    /// Rebuilds a public key from its 33-byte SEC1 compressed encoding.
    pub fn from_byte_vec(bytes: &Vec<u8>) -> (r: Option<PublicKey>)
        ensures
            r is Some <==> bytes@.len() == 33,
            r is Some ==> r.unwrap()@ == bytes@,
    {
        if bytes.len() != 33 {
            return None;
        }
        let mut arr: [u8; 33] = [0u8; 33];
        let mut j: usize = 0;
        while j < 33
            invariant
                j <= 33,
                bytes@.len() == 33,
                arr@.len() == 33,
                forall|k: int| 0 <= k < j ==> arr@[k] == bytes@[k],
            decreases 33 - j,
        {
            arr[j] = bytes[j];
            j = j + 1;
        }
        let r = PublicKey { bytes: arr };
        assert(r@ =~= bytes@);
        Some(r)
    }

    /// The 33-byte encoding of this key.
    pub fn to_byte_vec(&self) -> (r: Vec<u8>)
        ensures
            r@ == self@,
    {
        let mut out: Vec<u8> = Vec::new();
        push_array(&mut out, &self.bytes);
        out
    }

    /// Appends this key's canonical bytes to an encoding buffer.
    pub fn append_to(&self, out: &mut Vec<u8>)
        ensures
            final(out)@ == old(out)@ + self@,
    {
        push_array(out, &self.bytes);
    }
}

impl Signature {
    /// Signs a digest with a private key.
    ///
    /// Relies on ecdsa::SigningKey::from_slice and the Signer impl of
    /// ecdsa::SigningKey (RFC 6979): the signature is a deterministic
    /// function of the digest bytes and the secret scalar, and a
    /// signature produced with a valid key verifies under the verifying
    /// key derived from that same scalar. Invalid key bytes or a failed
    /// signing attempt yield fixed placeholder bytes.
    #[verifier::external_body]
    pub fn sign_output(output_hash: &crate::sha256::Hash, private_key: &PrivateKey) -> (r: Signature)
        ensures
            r@ == sig_of(u256_le(output_hash.0), private_key@),
            is_signing_key(private_key@) ==> ecdsa_verifies(
                r@,
                u256_le(output_hash.0),
                pubkey_of(private_key@),
            ),
    {
        let msg = output_hash.as_bytes();
        let bytes: [u8; 64] = match ecdsa::SigningKey::<k256::Secp256k1>::from_slice(
            &private_key.bytes,
        ) {
            Ok(key) => {
                let sig: ecdsa::Signature<k256::Secp256k1> = key.sign(msg.as_slice());
                sig.to_bytes().as_slice().try_into().unwrap()
            },
            Err(_) => [0u8; 64],
        };
        Signature { bytes }
    }

    /// Checks this signature against a digest and a public key.
    ///
    /// Relies on ecdsa::VerifyingKey::from_sec1_bytes,
    /// ecdsa::Signature::from_slice and the Verifier impl of
    /// ecdsa::VerifyingKey: verification is a deterministic function of
    /// signature, message and key bytes; byte strings that decode to no
    /// curve point or to no well-formed signature verify as false.
    #[verifier::external_body]
    pub fn verify(&self, output_hash: &crate::sha256::Hash, public_key: &PublicKey) -> (r: bool)
        ensures
            r == ecdsa_verifies(self@, u256_le(output_hash.0), public_key@),
    {
        let msg = output_hash.as_bytes();
        match (
            ecdsa::VerifyingKey::<k256::Secp256k1>::from_sec1_bytes(&public_key.bytes),
            ecdsa::Signature::<k256::Secp256k1>::from_slice(&self.bytes),
        ) {
            (Ok(key), Ok(sig)) => key.verify(msg.as_slice(), &sig).is_ok(),
            _ => false,
        }
    }

    /// Rebuilds a signature from its 64-byte fixed-width encoding.
    pub fn from_byte_vec(bytes: &Vec<u8>) -> (r: Option<Signature>)
        ensures
            r is Some <==> bytes@.len() == 64,
            r is Some ==> r.unwrap()@ == bytes@,
    {
        if bytes.len() != 64 {
            return None;
        }
        let mut arr: [u8; 64] = [0u8; 64];
        let mut j: usize = 0;
        while j < 64
            invariant
                j <= 64,
                bytes@.len() == 64,
                arr@.len() == 64,
                forall|k: int| 0 <= k < j ==> arr@[k] == bytes@[k],
            decreases 64 - j,
        {
            arr[j] = bytes[j];
            j = j + 1;
        }
        let r = Signature { bytes: arr };
        assert(r@ =~= bytes@);
        Some(r)
    }

    /// The 64-byte encoding of this signature.
    pub fn to_byte_vec(&self) -> (r: Vec<u8>)
        ensures
            r@ == self@,
    {
        let mut out: Vec<u8> = Vec::new();
        push_array(&mut out, &self.bytes);
        out
    }

    /// Appends this signature's canonical bytes to an encoding buffer.
    pub fn append_to(&self, out: &mut Vec<u8>)
        ensures
            final(out)@ == old(out)@ + self@,
    {
        push_array(out, &self.bytes);
    }
}

} // verus!
