use btclib::types::{Transaction, TransactionOutput};
use btclib::util::MerkleRoot;

fn output(value: u64, unique_id: u128) -> TransactionOutput {
    let key = btclib::crypto::PrivateKey::new_key();
    TransactionOutput {
        value,
        unique_id,
        pubkey: key.public_key(),
    }
}

fn tx(value: u64, unique_id: u128) -> Transaction {
    Transaction::new(vec![], vec![output(value, unique_id)])
}

/// Combines two digests the way one Merkle layer does.
fn pair(left: btclib::sha256::Hash, right: btclib::sha256::Hash) -> btclib::sha256::Hash {
    let mut bytes = left.as_bytes();
    bytes.extend(right.as_bytes());
    btclib::sha256::Hash::hash_bytes(&bytes)
}

#[test]
fn merkle_root_is_deterministic() {
    let txs = vec![tx(1, 10), tx(2, 20), tx(3, 30)];
    let again = txs.clone();
    assert_eq!(MerkleRoot::calculate(&txs), MerkleRoot::calculate(&again));
}

#[test]
fn merkle_root_depends_on_order() {
    let t1 = tx(1, 10);
    let t2 = tx(2, 20);
    let forward = vec![t1.clone(), t2.clone()];
    let backward = vec![t2, t1];
    assert_ne!(
        MerkleRoot::calculate(&forward),
        MerkleRoot::calculate(&backward)
    );
}

#[test]
fn merkle_root_of_single_transaction_is_its_digest() {
    let t = tx(7, 70);
    let root = MerkleRoot::calculate(&vec![t.clone()]);
    assert_eq!(root.as_hash(), t.hash());
}

#[test]
fn merkle_root_of_pair_combines_leaf_digests() {
    let t1 = tx(1, 10);
    let t2 = tx(2, 20);
    let expected = pair(t1.hash(), t2.hash());
    let root = MerkleRoot::calculate(&vec![t1, t2]);
    assert_eq!(root.as_hash(), expected);
}

#[test]
fn merkle_root_duplicates_final_leaf_of_odd_layer() {
    let t1 = tx(1, 10);
    let t2 = tx(2, 20);
    let t3 = tx(3, 30);
    let expected = pair(
        pair(t1.hash(), t2.hash()),
        pair(t3.hash(), t3.hash()),
    );
    let root = MerkleRoot::calculate(&vec![t1, t2, t3]);
    assert_eq!(root.as_hash(), expected);
}

#[test]
fn transaction_digest_is_deterministic_and_content_sensitive() {
    let t1 = tx(1, 10);
    let t1_again = t1.clone();
    assert_eq!(t1.hash(), t1_again.hash());
    let t2 = tx(1, 11);
    assert_ne!(t1.hash(), t2.hash());
}

#[test]
fn digest_of_bytes_is_not_the_input() {
    let seed = btclib::sha256::Hash::zero().as_bytes();
    let digest = btclib::sha256::Hash::hash_bytes(&seed);
    assert_eq!(digest.as_bytes().len(), 32);
    assert_ne!(digest.as_bytes(), seed);
    assert_eq!(btclib::sha256::Hash::hash_bytes(&seed), digest);
}
