//! The Merkle commitment binding an ordered, non-empty transaction list
//! to a single root digest.
use vstd::prelude::*;

verus! {

use crate::encoding::u256_le;
use crate::sha256::bytes_digest;
use crate::types::Transaction;
use crate::types::spec_tx_hash;

/// A single digest committing to an ordered transaction list.
#[derive(Clone, Copy, PartialEq, Eq, Structural, Debug)]
pub struct MerkleRoot(pub crate::sha256::Hash);

/// The digest of an ordered pair of digests: the combining step of the
/// Merkle tree.
pub open spec fn spec_pair_hash(left: crate::sha256::Hash, right: crate::sha256::Hash)
    -> crate::sha256::Hash {
    bytes_digest(u256_le(left.0) + u256_le(right.0))
}

/// The leaf digests of a transaction list, in list order.
pub open spec fn leaf_hashes(txs: Seq<Transaction>) -> Seq<crate::sha256::Hash> {
    Seq::new(txs.len(), |i: int| spec_tx_hash(txs[i]))
}

/// One layer up the tree: adjacent digests are paired and combined, the
/// final digest being paired with itself when the layer has odd length.
pub open spec fn merkle_parent(s: Seq<crate::sha256::Hash>) -> Seq<crate::sha256::Hash> {
    Seq::new(
        (s.len() + 1) / 2,
        |j: int|
            spec_pair_hash(
                s[2 * j],
                if 2 * j + 1 < s.len() {
                    s[2 * j + 1]
                } else {
                    s[2 * j]
                },
            ),
    )
}

/// The root reached by folding a non-empty layer of digests up to a
/// single one.
pub open spec fn merkle_fold(s: Seq<crate::sha256::Hash>) -> crate::sha256::Hash
    recommends
        s.len() >= 1,
    decreases s.len(),
{
    if s.len() <= 1 {
        s[0]
    } else {
        merkle_fold(merkle_parent(s))
    }
}

/// The Merkle root committed to a non-empty transaction list.
pub open spec fn spec_merkle_root(txs: Seq<Transaction>) -> MerkleRoot {
    MerkleRoot(merkle_fold(leaf_hashes(txs)))
}

/// Digests an ordered pair of digests.
fn pair_hash(left: &crate::sha256::Hash, right: &crate::sha256::Hash) -> (r: crate::sha256::Hash)
    ensures
        r == spec_pair_hash(*left, *right),
{
    let mut bytes: Vec<u8> = Vec::new();
    crate::encoding::push_u256_le(&mut bytes, &left.0);
    crate::encoding::push_u256_le(&mut bytes, &right.0);
    crate::sha256::Hash::hash_bytes(&bytes)
}

impl MerkleRoot {
    /// The root digest itself.
    pub fn as_hash(&self) -> (r: crate::sha256::Hash)
        ensures
            r == self.0,
    {
        self.0
    }

    /// Commits an ordered, non-empty transaction list to one digest:
    /// leaf digests are computed in list order, then each layer is
    /// halved by pairwise combination (duplicating the final digest of
    /// an odd layer) until a single digest remains. The root is a
    /// function of the ordered list alone, so equal lists always yield
    /// equal roots.
    #[verifier::rlimit(60)]
    pub fn calculate(transactions: &Vec<Transaction>) -> (r: MerkleRoot)
        requires
            transactions@.len() >= 1,
        ensures
            r == spec_merkle_root(transactions@),
    {
        let mut layer: Vec<crate::sha256::Hash> = Vec::new();
        let mut i: usize = 0;
        while i < transactions.len()
            invariant
                i <= transactions@.len(),
                layer@ == leaf_hashes(transactions@.take(i as int)),
            decreases transactions@.len() - i,
        {
            let h = transactions[i].hash();
            layer.push(h);
            proof {
                assert(layer@ =~= leaf_hashes(transactions@.take(i + 1)));
            }
            i = i + 1;
        }
        proof {
            assert(transactions@.take(transactions@.len() as int) =~= transactions@);
        }
        while layer.len() > 1
            invariant
                layer@.len() >= 1,
                merkle_fold(layer@) == merkle_fold(leaf_hashes(transactions@)),
            decreases layer@.len(),
        {
            let mut new_layer: Vec<crate::sha256::Hash> = Vec::new();
            let mut j: usize = 0;
            while j < layer.len()
                invariant
                    layer@.len() >= 2,
                    new_layer@ == merkle_parent(layer@).take(new_layer@.len() as int),
                    new_layer@.len() <= (layer@.len() + 1) / 2,
                    j == 2 * new_layer@.len() || (j == layer@.len() && layer@.len() % 2 == 1
                        && new_layer@.len() == (layer@.len() + 1) / 2),
                decreases layer@.len() - j,
            {
                let left = layer[j];
                let right = if j + 1 < layer.len() {
                    layer[j + 1]
                } else {
                    layer[j]
                };
                let combined = pair_hash(&left, &right);
                new_layer.push(combined);
                proof {
                    assert(new_layer@ =~= merkle_parent(layer@).take(new_layer@.len() as int));
                }
                j = if j + 1 < layer.len() {
                    j + 2
                } else {
                    j + 1
                };
            }
            proof {
                assert(new_layer@.len() == merkle_parent(layer@).len());
                assert(new_layer@ =~= merkle_parent(layer@));
            }
            layer = new_layer;
        }
        MerkleRoot(layer[0])
    }
}

} // verus!
