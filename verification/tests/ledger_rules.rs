use btclib::crypto::{PrivateKey, PublicKey, Signature};
use btclib::error::BtcError;
use btclib::types::{Block, BlockHeader, Blockchain, Transaction, TransactionInput, TransactionOutput};
use btclib::util::MerkleRoot;
use btclib::{subsidy, U256};

fn easy_target() -> U256 {
    U256 {
        w0: u64::MAX,
        w1: u64::MAX,
        w2: u64::MAX,
        w3: u64::MAX,
    }
}

fn impossible_target() -> U256 {
    U256 {
        w0: 0,
        w1: 0,
        w2: 0,
        w3: 0,
    }
}

fn output(value: u64, unique_id: u128, owner: &PublicKey) -> TransactionOutput {
    TransactionOutput {
        value,
        unique_id,
        pubkey: *owner,
    }
}

fn spend(key: btclib::sha256::Hash, signer: &PrivateKey) -> TransactionInput {
    TransactionInput {
        prev_transaction_output_hash: key,
        signature: Signature::sign_output(&key, signer),
    }
}

fn build_block(prev: btclib::sha256::Hash, timestamp: u64, txs: Vec<Transaction>) -> Block {
    let merkle_root = MerkleRoot::calculate(&txs);
    let header = BlockHeader::new(timestamp, 0, prev, merkle_root, easy_target());
    Block::new(header, txs)
}

/// A chain holding one genesis block whose coinbase pays `first` coins to
/// `owner` and the rest of the subsidy back to `owner`.
fn chain_with_spendable_output(owner: &PrivateKey, first: u64) -> (Blockchain, btclib::sha256::Hash) {
    let owner_pub = owner.public_key();
    let coinbase = Transaction::new(
        vec![],
        vec![
            output(first, 1, &owner_pub),
            output(subsidy(0) - first, 2, &owner_pub),
        ],
    );
    let spendable = coinbase.output_key(0);
    let genesis = build_block(btclib::sha256::Hash::zero(), 1, vec![coinbase]);
    let mut chain = Blockchain::new();
    assert_eq!(chain.add_block(genesis), Ok(()));
    (chain, spendable)
}

#[test]
fn new_chain_rebuilt_over_no_blocks_stays_empty() {
    let mut chain = Blockchain::new();
    chain.rebuild_utxos();
    assert!(chain.utxos.is_empty());
    assert!(chain.blocks.is_empty());
}

#[test]
fn genesis_with_nonzero_parent_digest_is_rejected() {
    let owner = PrivateKey::new_key();
    let coinbase = Transaction::new(vec![], vec![output(subsidy(0), 1, &owner.public_key())]);
    let bad_parent = btclib::sha256::Hash::hash_bytes(&vec![9, 9, 9]);
    let block = build_block(bad_parent, 1, vec![coinbase]);
    let mut chain = Blockchain::new();
    assert_eq!(chain.add_block(block), Err(BtcError::InvalidBlock));
    assert!(chain.blocks.is_empty());
}

#[test]
fn genesis_with_zero_parent_digest_is_accepted() {
    let owner = PrivateKey::new_key();
    let coinbase = Transaction::new(vec![], vec![output(subsidy(0), 1, &owner.public_key())]);
    let block = build_block(btclib::sha256::Hash::zero(), 1, vec![coinbase]);
    let mut chain = Blockchain::new();
    assert_eq!(chain.add_block(block), Ok(()));
    assert_eq!(chain.blocks.len(), 1);
}

#[test]
fn header_digest_must_satisfy_its_own_target() {
    let owner = PrivateKey::new_key();
    let coinbase = Transaction::new(vec![], vec![output(subsidy(0), 1, &owner.public_key())]);
    let merkle_root = MerkleRoot::calculate(&vec![coinbase.clone()]);
    let hard_header = BlockHeader::new(1, 0, btclib::sha256::Hash::zero(), merkle_root, impossible_target());
    let mut chain = Blockchain::new();
    assert_eq!(
        chain.add_block(Block::new(hard_header, vec![coinbase.clone()])),
        Err(BtcError::InvalidBlock)
    );
    // The corrected block, resubmitted with a reachable target, goes in.
    let easy_header = BlockHeader::new(1, 0, btclib::sha256::Hash::zero(), merkle_root, easy_target());
    assert_eq!(
        chain.add_block(Block::new(easy_header, vec![coinbase])),
        Ok(())
    );
}

#[test]
fn mismatched_merkle_root_is_rejected() {
    let owner = PrivateKey::new_key();
    let coinbase = Transaction::new(vec![], vec![output(subsidy(0), 1, &owner.public_key())]);
    let other_tx = Transaction::new(vec![], vec![output(subsidy(0), 2, &owner.public_key())]);
    let wrong_root = MerkleRoot::calculate(&vec![other_tx]);
    let header = BlockHeader::new(1, 0, btclib::sha256::Hash::zero(), wrong_root, easy_target());
    let mut chain = Blockchain::new();
    assert_eq!(
        chain.add_block(Block::new(header, vec![coinbase])),
        Err(BtcError::InvalidMerkleRoot)
    );
}

#[test]
fn timestamps_must_strictly_advance() {
    let owner = PrivateKey::new_key();
    let (mut chain, _key) = chain_with_spendable_output(&owner, 100);
    let tip = chain.blocks[0].hash();
    let stale_coinbase = Transaction::new(vec![], vec![output(subsidy(1), 3, &owner.public_key())]);
    let stale = build_block(tip, 1, vec![stale_coinbase]);
    assert_eq!(chain.add_block(stale), Err(BtcError::InvalidBlock));
}

#[test]
fn a_block_without_transactions_is_rejected() {
    let owner = PrivateKey::new_key();
    let coinbase = Transaction::new(vec![], vec![output(subsidy(0), 1, &owner.public_key())]);
    let borrowed_root = MerkleRoot::calculate(&vec![coinbase]);
    let header = BlockHeader::new(1, 0, btclib::sha256::Hash::zero(), borrowed_root, easy_target());
    let mut chain = Blockchain::new();
    assert_eq!(
        chain.add_block(Block::new(header, vec![])),
        Err(BtcError::InvalidBlock)
    );
}

#[test]
fn coinbase_total_must_match_subsidy_plus_fees_exactly() {
    let owner = PrivateKey::new_key();
    let owner_pub = owner.public_key();
    let mut chain = Blockchain::new();
    let off_by_one = Transaction::new(vec![], vec![output(subsidy(0) + 1, 1, &owner_pub)]);
    assert_eq!(
        chain.add_block(build_block(btclib::sha256::Hash::zero(), 1, vec![off_by_one])),
        Err(BtcError::InvalidTransaction)
    );
    let short_by_one = Transaction::new(vec![], vec![output(subsidy(0) - 1, 1, &owner_pub)]);
    assert_eq!(
        chain.add_block(build_block(btclib::sha256::Hash::zero(), 1, vec![short_by_one])),
        Err(BtcError::InvalidTransaction)
    );
    let exact = Transaction::new(vec![], vec![output(subsidy(0), 1, &owner_pub)]);
    assert_eq!(
        chain.add_block(build_block(btclib::sha256::Hash::zero(), 1, vec![exact])),
        Ok(())
    );
}

#[test]
fn coinbase_with_inputs_is_rejected() {
    let owner = PrivateKey::new_key();
    let (mut chain, key) = chain_with_spendable_output(&owner, 100);
    let tip = chain.blocks[0].hash();
    let bad_coinbase = Transaction::new(
        vec![spend(key, &owner)],
        vec![output(subsidy(1) + 100, 3, &owner.public_key())],
    );
    let block = build_block(tip, 2, vec![bad_coinbase]);
    assert_eq!(chain.add_block(block), Err(BtcError::InvalidTransaction));
}

#[test]
fn spending_the_same_output_twice_in_one_block_is_rejected() {
    let owner = PrivateKey::new_key();
    let recipient = PrivateKey::new_key().public_key();
    let (mut chain, key) = chain_with_spendable_output(&owner, 100);
    let tip = chain.blocks[0].hash();
    // Both inputs reference the same spendable output of value 100; the
    // fee computation sees 200 in and 150 out, so the coinbase matches.
    let double_spend = Transaction::new(
        vec![spend(key, &owner), spend(key, &owner)],
        vec![output(150, 3, &recipient)],
    );
    let coinbase = Transaction::new(vec![], vec![output(subsidy(1) + 50, 4, &owner.public_key())]);
    let block = build_block(tip, 2, vec![coinbase, double_spend]);
    assert_eq!(chain.add_block(block), Err(BtcError::InvalidTransaction));
    assert_eq!(chain.blocks.len(), 1);
    assert!(chain.utxos.get(&key).is_some());
}

#[test]
fn a_valid_spend_consumes_the_output_and_pays_the_fee() {
    let owner = PrivateKey::new_key();
    let recipient = PrivateKey::new_key().public_key();
    let (mut chain, key) = chain_with_spendable_output(&owner, 100);
    let tip = chain.blocks[0].hash();
    let transfer = Transaction::new(
        vec![spend(key, &owner)],
        vec![output(90, 3, &recipient)],
    );
    let new_output_key = transfer.output_key(0);
    let coinbase = Transaction::new(vec![], vec![output(subsidy(1) + 10, 4, &owner.public_key())]);
    let block = build_block(tip, 2, vec![coinbase, transfer]);
    assert_eq!(chain.add_block(block), Ok(()));
    assert!(chain.utxos.get(&key).is_none());
    let stored = chain.utxos.get(&new_output_key).unwrap();
    assert_eq!(stored.value, 90);
    assert_eq!(stored.pubkey, recipient);
}

#[test]
fn a_spend_signed_with_the_wrong_key_is_rejected() {
    let owner = PrivateKey::new_key();
    let thief = PrivateKey::new_key();
    let (mut chain, key) = chain_with_spendable_output(&owner, 100);
    let tip = chain.blocks[0].hash();
    let forged = Transaction::new(
        vec![spend(key, &thief)],
        vec![output(90, 3, &thief.public_key())],
    );
    let coinbase = Transaction::new(vec![], vec![output(subsidy(1) + 10, 4, &owner.public_key())]);
    let block = build_block(tip, 2, vec![coinbase, forged]);
    assert_eq!(chain.add_block(block), Err(BtcError::InvalidSignature));
}

#[test]
fn referencing_an_unknown_output_is_rejected() {
    let owner = PrivateKey::new_key();
    let (mut chain, _key) = chain_with_spendable_output(&owner, 100);
    let tip = chain.blocks[0].hash();
    let phantom_key = btclib::sha256::Hash::hash_bytes(&vec![42]);
    let phantom = Transaction::new(
        vec![spend(phantom_key, &owner)],
        vec![output(1, 3, &owner.public_key())],
    );
    let coinbase = Transaction::new(vec![], vec![output(subsidy(1), 4, &owner.public_key())]);
    let block = build_block(tip, 2, vec![coinbase, phantom]);
    assert_eq!(chain.add_block(block), Err(BtcError::InvalidTransaction));
}

#[test]
fn a_transaction_may_not_create_value() {
    let owner = PrivateKey::new_key();
    let (mut chain, key) = chain_with_spendable_output(&owner, 100);
    let tip = chain.blocks[0].hash();
    let inflating = Transaction::new(
        vec![spend(key, &owner)],
        vec![output(200, 3, &owner.public_key())],
    );
    let coinbase = Transaction::new(vec![], vec![output(subsidy(1), 4, &owner.public_key())]);
    let block = build_block(tip, 2, vec![coinbase, inflating]);
    assert_eq!(chain.add_block(block), Err(BtcError::InvalidTransaction));
}

#[test]
fn rebuild_reproduces_the_incrementally_maintained_ledger() {
    let owner = PrivateKey::new_key();
    let recipient = PrivateKey::new_key().public_key();
    let (mut chain, key) = chain_with_spendable_output(&owner, 100);
    let tip = chain.blocks[0].hash();
    let transfer = Transaction::new(
        vec![spend(key, &owner)],
        vec![output(100, 3, &recipient)],
    );
    let coinbase = Transaction::new(vec![], vec![output(subsidy(1), 4, &owner.public_key())]);
    let second = build_block(tip, 2, vec![coinbase, transfer]);
    let second_tip = second.hash();
    assert_eq!(chain.add_block(second), Ok(()));
    let third_coinbase =
        Transaction::new(vec![], vec![output(subsidy(2), 5, &owner.public_key())]);
    let third = build_block(second_tip, 3, vec![third_coinbase]);
    assert_eq!(chain.add_block(third), Ok(()));

    let mut rebuilt = chain.clone();
    rebuilt.rebuild_utxos();
    assert_eq!(rebuilt.utxos, chain.utxos);
    assert_eq!(rebuilt.blocks, chain.blocks);
}

#[test]
fn a_later_block_must_reference_the_current_tip() {
    let owner = PrivateKey::new_key();
    let (mut chain, _key) = chain_with_spendable_output(&owner, 100);
    let coinbase = Transaction::new(vec![], vec![output(subsidy(1), 3, &owner.public_key())]);
    let unlinked = build_block(btclib::sha256::Hash::zero(), 2, vec![coinbase]);
    assert_eq!(chain.add_block(unlinked), Err(BtcError::InvalidBlock));
    assert_eq!(chain.blocks.len(), 1);
}

#[test]
fn ledger_keys_distinguish_outputs_of_one_transaction() {
    let owner = PrivateKey::new_key().public_key();
    // Two structurally identical outputs still get distinct ledger keys.
    let tx = Transaction::new(vec![], vec![output(5, 7, &owner), output(5, 7, &owner)]);
    assert_ne!(tx.output_key(0), tx.output_key(1));
    assert_eq!(tx.output_key(0), btclib::types::utxo_key(&tx.hash(), 0));
}
