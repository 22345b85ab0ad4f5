//! Content digests: SHA-256 over a canonical byte encoding, read as a
//! 256-bit integer so it can be compared against a proof-of-work target.
use vstd::prelude::*;

verus! {

use crate::U256;
use crate::encoding::push_u256_le;
use crate::encoding::read_u256_le;
use crate::encoding::u256_from_le;
use crate::encoding::u256_le;

/// The SHA-256 digest, as 32 raw bytes, of a byte sequence. The digest is
/// a function of the input bytes alone; nothing further is assumed of it.
pub uninterp spec fn sha256_of(data: Seq<u8>) -> Seq<u8>;

/// Relies on sha256::digest, which returns the SHA-256 of the input bytes
/// as 64 lowercase hex digits, and on hex::decode, which maps those digits
/// back to the 32 raw digest bytes.
#[verifier::external_body]
fn sha256_digest(data: &Vec<u8>) -> (r: Vec<u8>)
    ensures
        r@ == sha256_of(data@),
        r@.len() == 32,
{
    let hex_digest = sha256::digest(data);
    hex::decode(hex_digest).unwrap()
}

/// A content digest: a 256-bit unsigned integer identifying a value by the
/// hash of its canonical byte encoding.
#[derive(Clone, Copy, PartialEq, Eq, Structural, Debug)]
pub struct Hash(pub U256);

/// The digest committed to a byte sequence: its SHA-256 output read as a
/// little-endian 256-bit integer.
pub open spec fn bytes_digest(data: Seq<u8>) -> Hash {
    Hash(u256_from_le(sha256_of(data)))
}

impl Hash {
    /// Digests a canonical byte encoding.
    pub fn hash_bytes(data: &Vec<u8>) -> (r: Hash)
        ensures
            r == bytes_digest(data@),
    {
        let digest = sha256_digest(data);
        Hash(read_u256_le(&digest))
    }

    /// Whether this digest is acceptable proof of work for `target`:
    /// numerically no greater than it.
    pub fn matches_target(&self, target: U256) -> (r: bool)
        ensures
            r == (self.0.as_nat() <= target.as_nat()),
    {
        self.0.le(&target)
    }

    /// The distinguished digest that marks "no parent block".
    pub fn zero() -> (r: Hash)
        ensures
            r == Hash(U256::spec_zero()),
            r.0.as_nat() == 0,
    {
        Hash(U256::zero())
    }

    /// The 32 little-endian bytes of this digest; also the message that is
    /// signed when an output referenced by this digest is spent.
    pub fn as_bytes(&self) -> (r: Vec<u8>)
        ensures
            r@ == u256_le(self.0),
    {
        let mut bytes: Vec<u8> = Vec::new();
        push_u256_le(&mut bytes, &self.0);
        bytes
    }
}

} // verus!
