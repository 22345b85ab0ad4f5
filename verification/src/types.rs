//! Blocks, transactions, outputs and the chain itself, with the canonical
//! encodings that give each entity its digest and the rules that decide
//! whether a candidate block may be appended.
use vstd::prelude::*;

verus! {

use crate::U256;
use crate::crypto::PublicKey;
use crate::crypto::Signature;
use crate::encoding::push_u128_le;
use crate::encoding::push_u256_le;
use crate::encoding::push_u64_le;
use crate::encoding::u128_le;
use crate::encoding::u256_le;
use crate::encoding::u64_le;
use crate::sha256::bytes_digest;
use crate::util::MerkleRoot;
use crate::utxo::UtxoSet;

/// The chain: its blocks in append order and the unspent outputs they
/// currently leave behind. `utxos` reflects exactly the outputs created
/// by `blocks` minus the outputs consumed by inputs in `blocks` whenever
/// `well_formed` holds; `add_block` preserves that and `rebuild_utxos`
/// restores it.
#[derive(Clone, PartialEq, Debug)]
pub struct Blockchain {
    pub utxos: UtxoSet,
    pub blocks: Vec<Block>,
}

/// A candidate or committed block: a header and its transaction list.
#[derive(Clone, PartialEq, Debug)]
pub struct Block {
    pub header: BlockHeader,
    pub transactions: Vec<Transaction>,
}

/// The hashed commitment at the head of a block.
#[derive(Clone, Copy, PartialEq, Debug)]
pub struct BlockHeader {
    /// Seconds-granularity timestamp of the block.
    pub timestamp: u64,
    /// Nonce used to make the header digest meet the target.
    pub nonce: u64,
    /// Digest of the previous block, or the zero digest for a genesis
    /// block.
    pub prev_block_hash: crate::sha256::Hash,
    /// Merkle root of the block's transaction list.
    pub merkle_root: MerkleRoot,
    /// Largest header digest accepted as proof of work for this block.
    pub target: U256,
}

/// An ordered value transfer: inputs consuming prior outputs and the new
/// outputs they fund. The first transaction of a block (the coinbase) has
/// no inputs.
#[derive(Clone, PartialEq, Debug)]
pub struct Transaction {
    pub inputs: Vec<TransactionInput>,
    pub outputs: Vec<TransactionOutput>,
}

/// A spend of one prior output, named by its ledger key and authorized by
/// a signature over that key.
#[derive(Clone, Copy, PartialEq, Debug)]
pub struct TransactionInput {
    /// Ledger key of the unspent output being consumed.
    pub prev_transaction_output_hash: crate::sha256::Hash,
    /// Signature by the holder of the referenced output's key.
    pub signature: Signature,
}

/// A unit of value owned by a public key. The random discriminator keeps
/// two outputs of equal value and recipient from hashing alike.
#[derive(Clone, Copy, PartialEq, Debug)]
pub struct TransactionOutput {
    /// Amount carried, in smallest units.
    pub value: u64,
    /// 128-bit random discriminator.
    pub unique_id: u128,
    /// Recipient of the amount.
    pub pubkey: PublicKey,
}

// ---------------------------------------------------------------------
// Canonical encodings. Every entity hashes as the concatenation of its
// fields' fixed-width little-endian encodings, with list lengths
// prefixed, so structurally equal values always hash alike.
// ---------------------------------------------------------------------

/// Canonical bytes of one output.
pub open spec fn enc_output(o: TransactionOutput) -> Seq<u8> {
    u64_le(o.value) + u128_le(o.unique_id) + o.pubkey@
}

/// Canonical bytes of one input.
pub open spec fn enc_input(i: TransactionInput) -> Seq<u8> {
    u256_le(i.prev_transaction_output_hash.0) + i.signature@
}

/// Concatenated canonical bytes of a list of outputs.
pub open spec fn enc_output_seq(s: Seq<TransactionOutput>) -> Seq<u8>
    decreases s.len(),
{
    if s.len() == 0 {
        Seq::empty()
    } else {
        enc_output_seq(s.drop_last()) + enc_output(s.last())
    }
}

/// Concatenated canonical bytes of a list of inputs.
pub open spec fn enc_input_seq(s: Seq<TransactionInput>) -> Seq<u8>
    decreases s.len(),
{
    if s.len() == 0 {
        Seq::empty()
    } else {
        enc_input_seq(s.drop_last()) + enc_input(s.last())
    }
}

/// Canonical bytes of a transaction: both lists, each length-prefixed.
pub open spec fn enc_tx(t: Transaction) -> Seq<u8> {
    u64_le(t.inputs@.len() as u64) + enc_input_seq(t.inputs@) + u64_le(t.outputs@.len() as u64)
        + enc_output_seq(t.outputs@)
}

/// Canonical bytes of a block header.
pub open spec fn enc_header(h: BlockHeader) -> Seq<u8> {
    u64_le(h.timestamp) + u64_le(h.nonce) + u256_le(h.prev_block_hash.0) + u256_le(h.merkle_root.0.0)
        + u256_le(h.target)
}

/// Concatenated canonical bytes of a list of transactions.
pub open spec fn enc_tx_seq(s: Seq<Transaction>) -> Seq<u8>
    decreases s.len(),
{
    if s.len() == 0 {
        Seq::empty()
    } else {
        enc_tx_seq(s.drop_last()) + enc_tx(s.last())
    }
}

/// Canonical bytes of a whole block.
pub open spec fn enc_block(b: Block) -> Seq<u8> {
    enc_header(b.header) + u64_le(b.transactions@.len() as u64) + enc_tx_seq(b.transactions@)
}

/// The digest identifying an output's content.
pub open spec fn spec_output_hash(o: TransactionOutput) -> crate::sha256::Hash {
    bytes_digest(enc_output(o))
}

/// The digest identifying a transaction.
pub open spec fn spec_tx_hash(t: Transaction) -> crate::sha256::Hash {
    bytes_digest(enc_tx(t))
}

/// The digest identifying a block header; also the digest checked
/// against the proof-of-work target.
pub open spec fn spec_header_hash(h: BlockHeader) -> crate::sha256::Hash {
    bytes_digest(enc_header(h))
}

/// The digest identifying a whole block.
pub open spec fn spec_block_hash(b: Block) -> crate::sha256::Hash {
    bytes_digest(enc_block(b))
}

/// The ledger key of the output at `index` of the transaction whose
/// digest is `tx_hash`: a digest of the pair, so that keys are unique
/// across transactions producing structurally identical outputs.
pub open spec fn spec_utxo_key(tx_hash: crate::sha256::Hash, index: int) -> crate::sha256::Hash {
    bytes_digest(u256_le(tx_hash.0) + u64_le(index as u64))
}

// ---------------------------------------------------------------------
// Executable encoders.
// ---------------------------------------------------------------------

/// Appends the canonical bytes of one output.
fn encode_output_into(out: &mut Vec<u8>, o: &TransactionOutput)
    ensures
        final(out)@ == old(out)@ + enc_output(*o),
{
    push_u64_le(out, o.value);
    push_u128_le(out, o.unique_id);
    o.pubkey.append_to(out);
    assert(out@ =~= old(out)@ + enc_output(*o));
}

/// Appends the canonical bytes of one input.
fn encode_input_into(out: &mut Vec<u8>, i: &TransactionInput)
    ensures
        final(out)@ == old(out)@ + enc_input(*i),
{
    push_u256_le(out, &i.prev_transaction_output_hash.0);
    i.signature.append_to(out);
    assert(out@ =~= old(out)@ + enc_input(*i));
}

/// Appends the canonical bytes of a transaction.
fn encode_tx_into(out: &mut Vec<u8>, t: &Transaction)
    ensures
        final(out)@ == old(out)@ + enc_tx(*t),
{
    push_u64_le(out, t.inputs.len() as u64);
    let mut j: usize = 0;
    while j < t.inputs.len()
        invariant
            j <= t.inputs@.len(),
            out@ == old(out)@ + u64_le(t.inputs@.len() as u64) + enc_input_seq(
                t.inputs@.take(j as int),
            ),
        decreases t.inputs@.len() - j,
    {
        encode_input_into(out, &t.inputs[j]);
        proof {
            assert(t.inputs@.take(j + 1).drop_last() =~= t.inputs@.take(j as int));
            assert(t.inputs@.take(j + 1).last() == t.inputs@[j as int]);
            assert(out@ =~= old(out)@ + u64_le(t.inputs@.len() as u64) + enc_input_seq(
                t.inputs@.take(j + 1),
            ));
        }
        j = j + 1;
    }
    assert(t.inputs@.take(t.inputs@.len() as int) =~= t.inputs@);
    push_u64_le(out, t.outputs.len() as u64);
    let ghost mid = out@;
    let mut k: usize = 0;
    while k < t.outputs.len()
        invariant
            k <= t.outputs@.len(),
            out@ == mid + enc_output_seq(t.outputs@.take(k as int)),
        decreases t.outputs@.len() - k,
    {
        encode_output_into(out, &t.outputs[k]);
        proof {
            assert(t.outputs@.take(k + 1).drop_last() =~= t.outputs@.take(k as int));
            assert(t.outputs@.take(k + 1).last() == t.outputs@[k as int]);
            assert(out@ =~= mid + enc_output_seq(t.outputs@.take(k + 1)));
        }
        k = k + 1;
    }
    assert(t.outputs@.take(t.outputs@.len() as int) =~= t.outputs@);
    assert(out@ =~= old(out)@ + enc_tx(*t));
}

/// Appends the canonical bytes of a block header.
fn encode_header_into(out: &mut Vec<u8>, h: &BlockHeader)
    ensures
        final(out)@ == old(out)@ + enc_header(*h),
{
    push_u64_le(out, h.timestamp);
    push_u64_le(out, h.nonce);
    push_u256_le(out, &h.prev_block_hash.0);
    push_u256_le(out, &h.merkle_root.0.0);
    push_u256_le(out, &h.target);
    assert(out@ =~= old(out)@ + enc_header(*h));
}

/// Appends the canonical bytes of a whole block.
fn encode_block_into(out: &mut Vec<u8>, b: &Block)
    ensures
        final(out)@ == old(out)@ + enc_block(*b),
{
    encode_header_into(out, &b.header);
    push_u64_le(out, b.transactions.len() as u64);
    let ghost mid = out@;
    let mut j: usize = 0;
    while j < b.transactions.len()
        invariant
            j <= b.transactions@.len(),
            out@ == mid + enc_tx_seq(b.transactions@.take(j as int)),
        decreases b.transactions@.len() - j,
    {
        encode_tx_into(out, &b.transactions[j]);
        proof {
            assert(b.transactions@.take(j + 1).drop_last() =~= b.transactions@.take(j as int));
            assert(b.transactions@.take(j + 1).last() == b.transactions@[j as int]);
            assert(out@ =~= mid + enc_tx_seq(b.transactions@.take(j + 1)));
        }
        j = j + 1;
    }
    assert(b.transactions@.take(b.transactions@.len() as int) =~= b.transactions@);
    assert(out@ =~= old(out)@ + enc_block(*b));
}

/// The ledger key of output `index` of the transaction with digest
/// `tx_hash`.
pub fn utxo_key(tx_hash: &crate::sha256::Hash, index: u64) -> (r: crate::sha256::Hash)
    ensures
        r == spec_utxo_key(*tx_hash, index as int),
{
    let mut bytes: Vec<u8> = Vec::new();
    push_u256_le(&mut bytes, &tx_hash.0);
    push_u64_le(&mut bytes, index);
    crate::sha256::Hash::hash_bytes(&bytes)
}

impl TransactionOutput {
    /// The digest of this output's content.
    pub fn hash(&self) -> (r: crate::sha256::Hash)
        ensures
            r == spec_output_hash(*self),
    {
        let mut bytes: Vec<u8> = Vec::new();
        encode_output_into(&mut bytes, self);
        crate::sha256::Hash::hash_bytes(&bytes)
    }
}

impl Transaction {
    pub fn new(inputs: Vec<TransactionInput>, outputs: Vec<TransactionOutput>) -> (r: Transaction)
        ensures
            r.inputs == inputs,
            r.outputs == outputs,
    {
        Transaction { inputs, outputs }
    }

    /// The digest identifying this transaction.
    pub fn hash(&self) -> (r: crate::sha256::Hash)
        ensures
            r == spec_tx_hash(*self),
    {
        let mut bytes: Vec<u8> = Vec::new();
        encode_tx_into(&mut bytes, self);
        crate::sha256::Hash::hash_bytes(&bytes)
    }

    /// The ledger key under which output `index` of this transaction is
    /// inserted when a block carrying it is committed.
    pub fn output_key(&self, index: u64) -> (r: crate::sha256::Hash)
        ensures
            r == spec_utxo_key(spec_tx_hash(*self), index as int),
    {
        let tx_hash = self.hash();
        utxo_key(&tx_hash, index)
    }
}

impl BlockHeader {
    pub fn new(
        timestamp: u64,
        nonce: u64,
        prev_block_hash: crate::sha256::Hash,
        merkle_root: MerkleRoot,
        target: U256,
    ) -> (r: BlockHeader)
        ensures
            r == (BlockHeader { timestamp, nonce, prev_block_hash, merkle_root, target }),
    {
        BlockHeader { timestamp, nonce, prev_block_hash, merkle_root, target }
    }

    /// The digest identifying this header; the value held against the
    /// proof-of-work target.
    pub fn hash(&self) -> (r: crate::sha256::Hash)
        ensures
            r == spec_header_hash(*self),
    {
        let mut bytes: Vec<u8> = Vec::new();
        encode_header_into(&mut bytes, self);
        crate::sha256::Hash::hash_bytes(&bytes)
    }
}

impl Block {
    pub fn new(header: BlockHeader, transactions: Vec<Transaction>) -> (r: Block)
        ensures
            r.header == header,
            r.transactions == transactions,
    {
        Block { header, transactions }
    }

    /// The digest identifying this block; the value a successor must name
    /// in its `prev_block_hash`.
    pub fn hash(&self) -> (r: crate::sha256::Hash)
        ensures
            r == spec_block_hash(*self),
    {
        let mut bytes: Vec<u8> = Vec::new();
        encode_block_into(&mut bytes, self);
        crate::sha256::Hash::hash_bytes(&bytes)
    }
}

// ---------------------------------------------------------------------
// Validation rules, as spec-level functions. Each executable check is
// proved to return exactly what these functions say.
// ---------------------------------------------------------------------

/// The total value carried by a list of outputs.
pub open spec fn spec_sum_outputs(s: Seq<TransactionOutput>) -> int
    decreases s.len(),
{
    if s.len() == 0 {
        0
    } else {
        spec_sum_outputs(s.drop_last()) + s.last().value
    }
}

/// Whether every input references a key that is live in the ledger.
pub open spec fn spec_inputs_exist(
    inputs: Seq<TransactionInput>,
    utxos: Map<crate::sha256::Hash, TransactionOutput>,
) -> bool {
    forall|k: int|
        0 <= k < inputs.len() ==> utxos.dom().contains(inputs[k].prev_transaction_output_hash)
}

/// The total value of the outputs a list of inputs references;
/// meaningful when they all exist in the ledger.
pub open spec fn spec_input_sum(
    inputs: Seq<TransactionInput>,
    utxos: Map<crate::sha256::Hash, TransactionOutput>,
) -> int
    decreases inputs.len(),
{
    if inputs.len() == 0 {
        0
    } else {
        spec_input_sum(inputs.drop_last(), utxos)
            + utxos[inputs.last().prev_transaction_output_hash].value
    }
}

/// The miner fees offered by the non-coinbase transactions `txs`: the sum
/// over them of referenced input value minus output value. A transaction
/// whose inputs are not all live, or whose outputs exceed its inputs, has
/// no well-defined fee and fails as `InvalidTransaction`.
pub open spec fn spec_fees(
    txs: Seq<Transaction>,
    utxos: Map<crate::sha256::Hash, TransactionOutput>,
) -> Result<int, crate::error::BtcError>
    decreases txs.len(),
{
    if txs.len() == 0 {
        Ok(0)
    } else {
        match spec_fees(txs.drop_last(), utxos) {
            Err(e) => Err(e),
            Ok(acc) => {
                let t = txs.last();
                if !spec_inputs_exist(t.inputs@, utxos) {
                    Err(crate::error::BtcError::InvalidTransaction)
                } else if spec_input_sum(t.inputs@, utxos) < spec_sum_outputs(t.outputs@) {
                    Err(crate::error::BtcError::InvalidTransaction)
                } else {
                    Ok(acc + spec_input_sum(t.inputs@, utxos) - spec_sum_outputs(t.outputs@))
                }
            },
        }
    }
}

/// Checks one transaction's inputs in order against the ledger and the
/// set of keys already claimed in this block: each referenced output
/// must be live, not yet claimed, and the signature must verify against
/// the referenced output's key over the referenced digest. Returns the
/// enlarged claimed set and the summed input value.
pub open spec fn spec_check_tx_inputs(
    inputs: Seq<TransactionInput>,
    utxos: Map<crate::sha256::Hash, TransactionOutput>,
    claimed: Set<crate::sha256::Hash>,
) -> Result<(Set<crate::sha256::Hash>, int), crate::error::BtcError>
    decreases inputs.len(),
{
    if inputs.len() == 0 {
        Ok((claimed, 0))
    } else {
        let i0 = inputs.first();
        let key = i0.prev_transaction_output_hash;
        if !utxos.dom().contains(key) {
            Err(crate::error::BtcError::InvalidTransaction)
        } else if claimed.contains(key) {
            Err(crate::error::BtcError::InvalidTransaction)
        } else if !crate::crypto::ecdsa_verifies(i0.signature@, u256_le(key.0), utxos[key].pubkey@) {
            Err(crate::error::BtcError::InvalidSignature)
        } else {
            match spec_check_tx_inputs(inputs.drop_first(), utxos, claimed.insert(key)) {
                Err(e) => Err(e),
                Ok((c, s)) => Ok((c, s + utxos[key].value)),
            }
        }
    }
}

/// Checks the non-coinbase transactions `txs` in order, threading the
/// set of claimed keys across them, and requiring each transaction to
/// spend no more than its inputs carry.
pub open spec fn spec_check_txs(
    txs: Seq<Transaction>,
    utxos: Map<crate::sha256::Hash, TransactionOutput>,
    claimed: Set<crate::sha256::Hash>,
) -> Result<(), crate::error::BtcError>
    decreases txs.len(),
{
    if txs.len() == 0 {
        Ok(())
    } else {
        let t = txs.first();
        match spec_check_tx_inputs(t.inputs@, utxos, claimed) {
            Err(e) => Err(e),
            Ok((c, in_sum)) => {
                if in_sum < spec_sum_outputs(t.outputs@) {
                    Err(crate::error::BtcError::InvalidTransaction)
                } else {
                    spec_check_txs(txs.drop_first(), utxos, c)
                }
            },
        }
    }
}

/// The coinbase rule: the first transaction must have no inputs and at
/// least one output, and its total output value must equal the block
/// subsidy at `height` plus the miner fees of the other transactions.
pub open spec fn spec_verify_coinbase(
    b: Block,
    height: u64,
    utxos: Map<crate::sha256::Hash, TransactionOutput>,
) -> Result<(), crate::error::BtcError> {
    let cb = b.transactions@.first();
    if cb.inputs@.len() != 0 {
        Err(crate::error::BtcError::InvalidTransaction)
    } else if cb.outputs@.len() == 0 {
        Err(crate::error::BtcError::InvalidTransaction)
    } else {
        match spec_fees(b.transactions@.drop_first(), utxos) {
            Err(e) => Err(e),
            Ok(fees) => {
                if spec_sum_outputs(cb.outputs@) != crate::spec_subsidy(height) + fees {
                    Err(crate::error::BtcError::InvalidTransaction)
                } else {
                    Ok(())
                }
            },
        }
    }
}

/// The transaction rules of a whole candidate block at `height`: a
/// non-empty list, a valid coinbase, and every later transaction
/// spending only live, unclaimed, properly signed outputs without
/// creating value.
pub open spec fn spec_verify_transactions(
    b: Block,
    height: u64,
    utxos: Map<crate::sha256::Hash, TransactionOutput>,
) -> Result<(), crate::error::BtcError> {
    if b.transactions@.len() == 0 {
        Err(crate::error::BtcError::InvalidBlock)
    } else {
        match spec_verify_coinbase(b, height, utxos) {
            Err(e) => Err(e),
            Ok(()) => spec_check_txs(b.transactions@.drop_first(), utxos, Set::empty()),
        }
    }
}

/// Composes a partial input check with the value already summed before
/// it.
spec fn shift_inputs_result(
    r: Result<(Set<crate::sha256::Hash>, int), crate::error::BtcError>,
    add: int,
) -> Result<(Set<crate::sha256::Hash>, int), crate::error::BtcError> {
    match r {
        Ok((c, s)) => Ok((c, s + add)),
        Err(e) => Err(e),
    }
}

/// Output sums are non-negative and bounded by the list length times the
/// largest single value.
proof fn lemma_sum_outputs_bound(s: Seq<TransactionOutput>)
    ensures
        0 <= spec_sum_outputs(s) <= s.len() * 0xFFFF_FFFF_FFFF_FFFF,
    decreases s.len(),
{
    if s.len() > 0 {
        lemma_sum_outputs_bound(s.drop_last());
    }
}

/// A failed fee computation on a prefix settles the whole computation.
proof fn lemma_fees_prefix_err(
    txs: Seq<Transaction>,
    utxos: Map<crate::sha256::Hash, TransactionOutput>,
    i: int,
)
    requires
        0 <= i <= txs.len(),
        spec_fees(txs.take(i), utxos) is Err,
    ensures
        spec_fees(txs, utxos) == spec_fees(txs.take(i), utxos),
    decreases txs.len() - i,
{
    if i == txs.len() {
        assert(txs.take(i) =~= txs);
    } else {
        assert(txs.take(i + 1).drop_last() =~= txs.take(i));
        lemma_fees_prefix_err(txs, utxos, i + 1);
    }
}

/// Fees already accumulated on a prefix only grow as the rest of the
/// list is processed, unless a later transaction fails.
proof fn lemma_fees_prefix_ok(
    txs: Seq<Transaction>,
    utxos: Map<crate::sha256::Hash, TransactionOutput>,
    i: int,
    f: int,
)
    requires
        0 <= i <= txs.len(),
        spec_fees(txs.take(i), utxos) == Ok::<int, crate::error::BtcError>(f),
    ensures
        match spec_fees(txs, utxos) {
            Ok(g) => g >= f,
            Err(e) => e == crate::error::BtcError::InvalidTransaction,
        },
    decreases txs.len() - i,
{
    if i == txs.len() {
        assert(txs.take(i) =~= txs);
    } else {
        assert(txs.take(i + 1).drop_last() =~= txs.take(i));
        match spec_fees(txs.take(i + 1), utxos) {
            Err(e) => {
                lemma_fees_prefix_err(txs, utxos, i + 1);
            },
            Ok(g1) => {
                lemma_fees_prefix_ok(txs, utxos, i + 1, g1);
            },
        }
    }
}

/// Sums a list of output values without overflow.
fn sum_output_values(outputs: &Vec<TransactionOutput>) -> (r: u128)
    ensures
        r as int == spec_sum_outputs(outputs@),
{
    let mut total: u128 = 0;
    let mut j: usize = 0;
    while j < outputs.len()
        invariant
            j <= outputs@.len(),
            total as int == spec_sum_outputs(outputs@.take(j as int)),
            total as int <= j as int * 0xFFFF_FFFF_FFFF_FFFF,
        decreases outputs@.len() - j,
    {
        proof {
            assert(outputs@.take(j + 1).drop_last() =~= outputs@.take(j as int));
            assert(outputs@.take(j + 1).last() == outputs@[j as int]);
        }
        total = total + outputs[j].value as u128;
        j = j + 1;
    }
    proof {
        assert(outputs@.take(outputs@.len() as int) =~= outputs@);
    }
    total
}

/// Sums the ledger values a transaction's inputs reference, or reports
/// the first reference that is not live.
fn tx_input_sum(tx: &Transaction, utxos: &UtxoSet) -> (r: Option<u128>)
    ensures
        match r {
            Some(s) => spec_inputs_exist(tx.inputs@, utxos@) && s as int == spec_input_sum(
                tx.inputs@,
                utxos@,
            ),
            None => !spec_inputs_exist(tx.inputs@, utxos@),
        },
{
    let mut total: u128 = 0;
    let mut k: usize = 0;
    while k < tx.inputs.len()
        invariant
            k <= tx.inputs@.len(),
            total as int == spec_input_sum(tx.inputs@.take(k as int), utxos@),
            total as int <= k as int * 0xFFFF_FFFF_FFFF_FFFF,
            forall|i: int|
                0 <= i < k ==> utxos@.dom().contains(
                    tx.inputs@[i].prev_transaction_output_hash,
                ),
        decreases tx.inputs@.len() - k,
    {
        proof {
            assert(tx.inputs@.take(k + 1).drop_last() =~= tx.inputs@.take(k as int));
            assert(tx.inputs@.take(k + 1).last() == tx.inputs@[k as int]);
        }
        match utxos.get(&tx.inputs[k].prev_transaction_output_hash) {
            None => {
                return None;
            },
            Some(prev_output) => {
                total = total + prev_output.value as u128;
            },
        }
        k = k + 1;
    }
    proof {
        assert(tx.inputs@.take(tx.inputs@.len() as int) =~= tx.inputs@);
    }
    Some(total)
}

/// Whether `v` holds `h`.
fn vec_contains_hash(v: &Vec<crate::sha256::Hash>, h: &crate::sha256::Hash) -> (r: bool)
    ensures
        r == v@.contains(*h),
{
    let mut j: usize = 0;
    while j < v.len()
        invariant
            j <= v@.len(),
            forall|i: int| 0 <= i < j ==> v@[i] != *h,
        decreases v@.len() - j,
    {
        if v[j] == *h {
            return true;
        }
        j = j + 1;
    }
    false
}

impl Block {
    /// Computes the miner fees of this block's non-coinbase
    /// transactions. An `Err` means the fee rule already fails:
    /// either some transaction has no well-defined fee, or the total
    /// exceeds what any coinbase total could match.
    fn miner_fees(&self, utxos: &UtxoSet) -> (r: Result<u128, crate::error::BtcError>)
        requires
            self.transactions@.len() >= 1,
        ensures
            ({
                let rest = self.transactions@.drop_first();
                match r {
                    Ok(f) => spec_fees(rest, utxos@) == Ok::<int, crate::error::BtcError>(f as int),
                    Err(e) => e == crate::error::BtcError::InvalidTransaction && match spec_fees(
                        rest,
                        utxos@,
                    ) {
                        Ok(g) => g >= 0x100000000000000000000000000000000,
                        Err(e2) => e2 == crate::error::BtcError::InvalidTransaction,
                    },
                }
            }),
    {
        let ghost rest = self.transactions@.drop_first();
        let mut fees: u128 = 0;
        let mut j: usize = 1;
        while j < self.transactions.len()
            invariant
                1 <= j <= self.transactions@.len(),
                self.transactions@.len() >= 1,
                rest == self.transactions@.drop_first(),
                spec_fees(rest.take(j - 1), utxos@) == Ok::<int, crate::error::BtcError>(
                    fees as int,
                ),
            decreases self.transactions@.len() - j,
        {
            let tx = &self.transactions[j];
            proof {
                assert(rest.take(j as int).drop_last() =~= rest.take(j - 1));
                assert(rest.take(j as int).last() == rest[j - 1]);
                assert(rest[j - 1] == self.transactions@[j as int]);
            }
            let in_sum = match tx_input_sum(tx, utxos) {
                None => {
                    proof {
                        lemma_fees_prefix_err(rest, utxos@, j as int);
                    }
                    return Err(crate::error::BtcError::InvalidTransaction);
                },
                Some(s) => s,
            };
            let out_sum = sum_output_values(&tx.outputs);
            if in_sum < out_sum {
                proof {
                    lemma_fees_prefix_err(rest, utxos@, j as int);
                }
                return Err(crate::error::BtcError::InvalidTransaction);
            }
            let fee = in_sum - out_sum;
            if fee > u128::MAX - fees {
                proof {
                    lemma_fees_prefix_ok(rest, utxos@, j as int, fees as int + fee as int);
                }
                return Err(crate::error::BtcError::InvalidTransaction);
            }
            fees = fees + fee;
            j = j + 1;
        }
        proof {
            assert(rest.take(rest.len() as int) =~= rest);
        }
        Ok(fees)
    }

    /// Checks the coinbase rule of this block at `predicted_block_height`
    /// against the current ledger: no inputs, at least one output, and a
    /// total output value of exactly the subsidy plus the miner fees.
    pub fn verify_coinbase_transaction(
        &self,
        predicted_block_height: u64,
        utxos: &UtxoSet,
    ) -> (r: Result<(), crate::error::BtcError>)
        requires
            self.transactions@.len() >= 1,
        ensures
            r == spec_verify_coinbase(*self, predicted_block_height, utxos@),
    {
        let coinbase_tx = &self.transactions[0];
        if coinbase_tx.inputs.len() != 0 {
            return Err(crate::error::BtcError::InvalidTransaction);
        }
        if coinbase_tx.outputs.len() == 0 {
            return Err(crate::error::BtcError::InvalidTransaction);
        }
        let ghost n_outputs = coinbase_tx.outputs@.len();
        let total_coinbase_outputs = sum_output_values(&coinbase_tx.outputs);
        proof {
            lemma_sum_outputs_bound(coinbase_tx.outputs@);
        }
        let miner_fees = match self.miner_fees(utxos) {
            Err(e) => {
                return Err(e);
            },
            Ok(f) => f,
        };
        let block_reward = crate::subsidy(predicted_block_height);
        if miner_fees > u128::MAX - (block_reward as u128) {
            return Err(crate::error::BtcError::InvalidTransaction);
        }
        if total_coinbase_outputs != block_reward as u128 + miner_fees {
            return Err(crate::error::BtcError::InvalidTransaction);
        }
        Ok(())
    }

    /// Checks every transaction rule of this candidate block at
    /// `predicted_block_height` against the current ledger, in order:
    /// list non-empty, coinbase valid, and each later transaction
    /// spending only live, unclaimed outputs with valid signatures and
    /// no value created.
    pub fn verify_transactions(
        &self,
        predicted_block_height: u64,
        utxos: &UtxoSet,
    ) -> (r: Result<(), crate::error::BtcError>)
        ensures
            r == spec_verify_transactions(*self, predicted_block_height, utxos@),
    {
        if self.transactions.len() == 0 {
            return Err(crate::error::BtcError::InvalidBlock);
        }
        match self.verify_coinbase_transaction(predicted_block_height, utxos) {
            Err(e) => {
                return Err(e);
            },
            Ok(()) => {},
        }
        let ghost rest = self.transactions@.drop_first();
        let mut claimed: Vec<crate::sha256::Hash> = Vec::new();
        proof {
            assert(claimed@.to_set() =~= Set::<crate::sha256::Hash>::empty());
            assert(rest.skip(0) =~= rest);
        }
        let mut j: usize = 1;
        while j < self.transactions.len()
            invariant
                1 <= j <= self.transactions@.len(),
                self.transactions@.len() >= 1,
                rest == self.transactions@.drop_first(),
                spec_verify_coinbase(*self, predicted_block_height, utxos@) == Ok::<
                    (),
                    crate::error::BtcError,
                >(()),
                spec_check_txs(rest, utxos@, Set::empty()) == spec_check_txs(
                    rest.skip(j - 1),
                    utxos@,
                    claimed@.to_set(),
                ),
            decreases self.transactions@.len() - j,
        {
            let tx = &self.transactions[j];
            let ghost cs_head = claimed@.to_set();
            proof {
                assert(rest.skip(j - 1).first() == rest[j - 1]);
                assert(rest[j - 1] == self.transactions@[j as int]);
                assert(rest.skip(j - 1).drop_first() =~= rest.skip(j as int));
            }
            match check_tx_spends(tx, utxos, &mut claimed) {
                Err(e) => {
                    proof {
                        assert(rest.skip(j - 1).first() == *tx);
                        assert(spec_check_txs(rest.skip(j - 1), utxos@, cs_head) == Err::<
                            (),
                            crate::error::BtcError,
                        >(e));
                    }
                    return Err(e);
                },
                Ok(()) => {
                    proof {
                        assert(rest.skip(j - 1).first() == *tx);
                        assert(spec_check_txs(rest.skip(j - 1), utxos@, cs_head)
                            == spec_check_txs(rest.skip(j as int), utxos@, claimed@.to_set()));
                    }
                },
            }
            j = j + 1;
        }
        proof {
            assert(rest.skip(rest.len() as int) =~= Seq::<Transaction>::empty());
        }
        Ok(())
    }
}

/// Pushing an element onto a sequence inserts it into the set of the
/// sequence's elements.
proof fn lemma_push_to_set(s: Seq<crate::sha256::Hash>, x: crate::sha256::Hash)
    ensures
        s.push(x).to_set() == s.to_set().insert(x),
{
    assert forall|h: crate::sha256::Hash|
        s.push(x).to_set().contains(h) implies s.to_set().insert(x).contains(h) by {
        let i = choose|i: int| 0 <= i < s.push(x).len() && s.push(x)[i] == h;
        if i < s.len() {
            assert(s[i] == h);
        }
    }
    assert forall|h: crate::sha256::Hash|
        s.to_set().insert(x).contains(h) implies s.push(x).to_set().contains(h) by {
        if h == x {
            assert(s.push(x)[s.len() as int] == h);
        } else {
            let i = choose|i: int| 0 <= i < s.len() && s[i] == h;
            assert(s.push(x)[i] == h);
        }
    }
    assert(s.push(x).to_set() =~= s.to_set().insert(x));
}

/// Checks one non-coinbase transaction's spends against the ledger and
/// the keys already claimed in this block, recording the keys it claims.
#[verifier::loop_isolation(false)]
#[verifier::rlimit(60)]
fn check_tx_spends(
    tx: &Transaction,
    utxos: &UtxoSet,
    claimed: &mut Vec<crate::sha256::Hash>,
) -> (r: Result<(), crate::error::BtcError>)
    ensures
        match spec_check_tx_inputs(tx.inputs@, utxos@, old(claimed)@.to_set()) {
            Err(e) => r == Err::<(), crate::error::BtcError>(e),
            Ok((c, s)) => {
                if s < spec_sum_outputs(tx.outputs@) {
                    r == Err::<(), crate::error::BtcError>(
                        crate::error::BtcError::InvalidTransaction,
                    )
                } else {
                    r == Ok::<(), crate::error::BtcError>(()) && final(claimed)@.to_set() == c
                }
            },
        },
{
    proof {
        assert(tx.inputs@.skip(0) =~= tx.inputs@);
        assert(shift_inputs_result(
            spec_check_tx_inputs(tx.inputs@, utxos@, old(claimed)@.to_set()),
            0,
        ) == spec_check_tx_inputs(tx.inputs@, utxos@, old(claimed)@.to_set()));
    }
    let mut in_sum: u128 = 0;
    let mut k: usize = 0;
    while k < tx.inputs.len()
        invariant
            k <= tx.inputs@.len(),
            in_sum as int <= k as int * 0xFFFF_FFFF_FFFF_FFFF,
            spec_check_tx_inputs(tx.inputs@, utxos@, old(claimed)@.to_set())
                == shift_inputs_result(
                spec_check_tx_inputs(tx.inputs@.skip(k as int), utxos@, claimed@.to_set()),
                in_sum as int,
            ),
        decreases tx.inputs@.len() - k,
    {
        let input = &tx.inputs[k];
        let key = input.prev_transaction_output_hash;
        proof {
            assert(tx.inputs@.skip(k as int).first() == tx.inputs@[k as int]);
            assert(tx.inputs@.skip(k as int).drop_first() =~= tx.inputs@.skip(k + 1));
        }
        let prev_output = match utxos.get(&key) {
            None => {
                return Err(crate::error::BtcError::InvalidTransaction);
            },
            Some(o) => o,
        };
        if vec_contains_hash(claimed, &key) {
            return Err(crate::error::BtcError::InvalidTransaction);
        }
        if !input.signature.verify(&key, &prev_output.pubkey) {
            return Err(crate::error::BtcError::InvalidSignature);
        }
        in_sum = in_sum + prev_output.value as u128;
        let ghost before = claimed@;
        claimed.push(key);
        proof {
            lemma_push_to_set(before, key);
        }
        k = k + 1;
    }
    proof {
        assert(tx.inputs@.skip(tx.inputs@.len() as int) =~= Seq::<TransactionInput>::empty());
    }
    let out_sum = sum_output_values(&tx.outputs);
    if in_sum < out_sum {
        return Err(crate::error::BtcError::InvalidTransaction);
    }
    Ok(())
}

// ---------------------------------------------------------------------
// Committing a block to the ledger.
// ---------------------------------------------------------------------

/// The ledger after the outputs a transaction's inputs reference have
/// been deleted, in input order.
pub open spec fn spec_remove_inputs(
    m: Map<crate::sha256::Hash, TransactionOutput>,
    inputs: Seq<TransactionInput>,
) -> Map<crate::sha256::Hash, TransactionOutput>
    decreases inputs.len(),
{
    if inputs.len() == 0 {
        m
    } else {
        spec_remove_inputs(m, inputs.drop_last()).remove(
            inputs.last().prev_transaction_output_hash,
        )
    }
}

/// The ledger after a transaction's outputs have been inserted, each
/// keyed by the transaction digest combined with its index.
pub open spec fn spec_insert_outputs(
    m: Map<crate::sha256::Hash, TransactionOutput>,
    tx_hash: crate::sha256::Hash,
    outputs: Seq<TransactionOutput>,
) -> Map<crate::sha256::Hash, TransactionOutput>
    decreases outputs.len(),
{
    if outputs.len() == 0 {
        m
    } else {
        spec_insert_outputs(m, tx_hash, outputs.drop_last()).insert(
            spec_utxo_key(tx_hash, outputs.len() - 1),
            outputs.last(),
        )
    }
}

/// The ledger after one committed transaction: spent outputs deleted,
/// created outputs inserted.
pub open spec fn spec_apply_tx(
    m: Map<crate::sha256::Hash, TransactionOutput>,
    t: Transaction,
) -> Map<crate::sha256::Hash, TransactionOutput> {
    spec_insert_outputs(spec_remove_inputs(m, t.inputs@), spec_tx_hash(t), t.outputs@)
}

/// The ledger after a list of committed transactions, applied in order.
pub open spec fn spec_apply_txs(
    m: Map<crate::sha256::Hash, TransactionOutput>,
    txs: Seq<Transaction>,
) -> Map<crate::sha256::Hash, TransactionOutput>
    decreases txs.len(),
{
    if txs.len() == 0 {
        m
    } else {
        spec_apply_tx(spec_apply_txs(m, txs.drop_last()), txs.last())
    }
}

/// The ledger after one committed block.
pub open spec fn spec_apply_block(
    m: Map<crate::sha256::Hash, TransactionOutput>,
    b: Block,
) -> Map<crate::sha256::Hash, TransactionOutput> {
    spec_apply_txs(m, b.transactions@)
}

/// The ledger obtained by replaying a block list in its stored order,
/// starting from nothing.
pub open spec fn spec_replay(blocks: Seq<Block>) -> Map<
    crate::sha256::Hash,
    TransactionOutput,
>
    decreases blocks.len(),
{
    if blocks.len() == 0 {
        Map::empty()
    } else {
        spec_apply_block(spec_replay(blocks.drop_last()), blocks.last())
    }
}

/// Replaying an empty block history yields an empty ledger: a freshly
/// created chain that is rebuilt from its (empty) block list ends with
/// no unspent output at all.
pub proof fn lemma_replay_empty()
    ensures
        spec_replay(Seq::<Block>::empty()) == Map::<
            crate::sha256::Hash,
            TransactionOutput,
        >::empty(),
{
}

/// Replaying blocks and applying them incrementally agree: the ledger
/// replayed from a chain extended by one block is the incrementally
/// updated ledger. Together with the contracts of `add_block` and
/// `rebuild_utxos`, this is why a full rebuild after any number of
/// successful appends reproduces the incrementally maintained
/// unspent-output set, key for key and value for value.
pub proof fn lemma_replay_push(blocks: Seq<Block>, b: Block)
    ensures
        spec_replay(blocks.push(b)) == spec_apply_block(spec_replay(blocks), b),
{
    assert(blocks.push(b).drop_last() =~= blocks);
    assert(blocks.push(b).last() == b);
}

/// A key referenced by any input is gone after the removal pass.
proof fn lemma_remove_inputs_removes(
    m: Map<crate::sha256::Hash, TransactionOutput>,
    inputs: Seq<TransactionInput>,
    k: int,
)
    requires
        0 <= k < inputs.len(),
    ensures
        !spec_remove_inputs(m, inputs).dom().contains(inputs[k].prev_transaction_output_hash),
    decreases inputs.len(),
{
    if k < inputs.len() - 1 {
        lemma_remove_inputs_removes(m, inputs.drop_last(), k);
        assert(inputs.drop_last()[k] == inputs[k]);
    }
}

/// Inserting a transaction's outputs touches no ledger key but their
/// own.
proof fn lemma_insert_outputs_other_keys(
    m: Map<crate::sha256::Hash, TransactionOutput>,
    tx_hash: crate::sha256::Hash,
    outputs: Seq<TransactionOutput>,
    key: crate::sha256::Hash,
)
    requires
        forall|i: int| 0 <= i < outputs.len() ==> spec_utxo_key(tx_hash, i) != key,
    ensures
        spec_insert_outputs(m, tx_hash, outputs).dom().contains(key) == m.dom().contains(key),
    decreases outputs.len(),
{
    if outputs.len() > 0 {
        lemma_insert_outputs_other_keys(m, tx_hash, outputs.drop_last(), key);
    }
}

/// Each inserted output is afterwards live under its own key, and holds
/// its own value whenever no later output of the same transaction lands
/// on the same key.
proof fn lemma_insert_outputs_present(
    m: Map<crate::sha256::Hash, TransactionOutput>,
    tx_hash: crate::sha256::Hash,
    outputs: Seq<TransactionOutput>,
    j: int,
)
    requires
        0 <= j < outputs.len(),
    ensures
        spec_insert_outputs(m, tx_hash, outputs).dom().contains(spec_utxo_key(tx_hash, j)),
        (forall|i: int|
            j < i < outputs.len() ==> spec_utxo_key(tx_hash, i) != spec_utxo_key(tx_hash, j))
            ==> spec_insert_outputs(m, tx_hash, outputs)[spec_utxo_key(tx_hash, j)] == outputs[j],
    decreases outputs.len(),
{
    if j < outputs.len() - 1 {
        lemma_insert_outputs_present(m, tx_hash, outputs.drop_last(), j);
        assert(outputs.drop_last()[j] == outputs[j]);
    }
}

/// A committed transaction consumes what it spends: after its ledger
/// update, a key that one of its inputs references is live no more —
/// provided no output created by the same transaction lands on that very
/// key, which only a digest collision could bring about.
pub proof fn lemma_apply_tx_consumes_spent(
    m: Map<crate::sha256::Hash, TransactionOutput>,
    t: Transaction,
    k: int,
)
    requires
        0 <= k < t.inputs@.len(),
        forall|i: int|
            0 <= i < t.outputs@.len() ==> spec_utxo_key(spec_tx_hash(t), i)
                != t.inputs@[k].prev_transaction_output_hash,
    ensures
        !spec_apply_tx(m, t).dom().contains(t.inputs@[k].prev_transaction_output_hash),
{
    lemma_remove_inputs_removes(m, t.inputs@, k);
    lemma_insert_outputs_other_keys(
        spec_remove_inputs(m, t.inputs@),
        spec_tx_hash(t),
        t.outputs@,
        t.inputs@[k].prev_transaction_output_hash,
    );
}

/// A committed transaction creates what it promises: after its ledger
/// update, each of its outputs is live under its own ledger key, and the
/// key holds exactly that output whenever no later output of the same
/// transaction collides with it.
pub proof fn lemma_apply_tx_creates_outputs(
    m: Map<crate::sha256::Hash, TransactionOutput>,
    t: Transaction,
    j: int,
)
    requires
        0 <= j < t.outputs@.len(),
    ensures
        spec_apply_tx(m, t).dom().contains(spec_utxo_key(spec_tx_hash(t), j)),
        (forall|i: int|
            j < i < t.outputs@.len() ==> spec_utxo_key(spec_tx_hash(t), i) != spec_utxo_key(
                spec_tx_hash(t),
                j,
            )) ==> spec_apply_tx(m, t)[spec_utxo_key(spec_tx_hash(t), j)] == t.outputs@[j],
{
    lemma_insert_outputs_present(
        spec_remove_inputs(m, t.inputs@),
        spec_tx_hash(t),
        t.outputs@,
        j,
    );
}

/// The full acceptance rule for a candidate block against a chain tip
/// and ledger: linkage to the previous block (or the zero digest for a
/// genesis block), proof of work against the block's own target, a
/// non-empty transaction list, a matching Merkle commitment, a strictly
/// advancing timestamp, and the transaction rules at the predicted
/// height.
pub open spec fn spec_validate(
    blocks: Seq<Block>,
    utxos: Map<crate::sha256::Hash, TransactionOutput>,
    b: Block,
) -> Result<(), crate::error::BtcError> {
    if blocks.len() == 0 && b.header.prev_block_hash != crate::sha256::Hash(U256::spec_zero()) {
        Err(crate::error::BtcError::InvalidBlock)
    } else if blocks.len() > 0 && b.header.prev_block_hash != spec_block_hash(blocks.last()) {
        Err(crate::error::BtcError::InvalidBlock)
    } else if spec_header_hash(b.header).0.as_nat() > b.header.target.as_nat() {
        Err(crate::error::BtcError::InvalidBlock)
    } else if b.transactions@.len() == 0 {
        Err(crate::error::BtcError::InvalidBlock)
    } else if crate::util::spec_merkle_root(b.transactions@) != b.header.merkle_root {
        Err(crate::error::BtcError::InvalidMerkleRoot)
    } else if blocks.len() > 0 && b.header.timestamp <= blocks.last().header.timestamp {
        Err(crate::error::BtcError::InvalidBlock)
    } else {
        spec_verify_transactions(b, blocks.len() as u64, utxos)
    }
}

/// Deletes the outputs a committed transaction spends and inserts the
/// outputs it creates.
fn apply_tx_updates(utxos: &mut UtxoSet, tx: &Transaction)
    ensures
        final(utxos)@ == spec_apply_tx(old(utxos)@, *tx),
{
    let mut k: usize = 0;
    while k < tx.inputs.len()
        invariant
            k <= tx.inputs@.len(),
            utxos@ == spec_remove_inputs(old(utxos)@, tx.inputs@.take(k as int)),
        decreases tx.inputs@.len() - k,
    {
        proof {
            assert(tx.inputs@.take(k + 1).drop_last() =~= tx.inputs@.take(k as int));
            assert(tx.inputs@.take(k + 1).last() == tx.inputs@[k as int]);
        }
        utxos.remove(&tx.inputs[k].prev_transaction_output_hash);
        k = k + 1;
    }
    proof {
        assert(tx.inputs@.take(tx.inputs@.len() as int) =~= tx.inputs@);
    }
    let tx_hash = tx.hash();
    let ghost spent = utxos@;
    let mut k: usize = 0;
    while k < tx.outputs.len()
        invariant
            k <= tx.outputs@.len(),
            tx_hash == spec_tx_hash(*tx),
            utxos@ == spec_insert_outputs(spent, spec_tx_hash(*tx), tx.outputs@.take(k as int)),
        decreases tx.outputs@.len() - k,
    {
        proof {
            assert(tx.outputs@.take(k + 1).drop_last() =~= tx.outputs@.take(k as int));
            assert(tx.outputs@.take(k + 1).last() == tx.outputs@[k as int]);
        }
        let key = utxo_key(&tx_hash, k as u64);
        utxos.insert(key, tx.outputs[k]);
        k = k + 1;
    }
    proof {
        assert(tx.outputs@.take(tx.outputs@.len() as int) =~= tx.outputs@);
    }
}

impl Blockchain {
    /// Whether the unspent-output ledger is exactly what replaying the
    /// stored blocks produces. `new` establishes this, `add_block`
    /// preserves it, and `rebuild_utxos` restores it from the blocks
    /// alone.
    pub open spec fn well_formed(self) -> bool {
        self.utxos@ == spec_replay(self.blocks@)
    }

    /// An empty chain with an empty ledger.
    pub fn new() -> (r: Blockchain)
        ensures
            r.blocks@ == Seq::<Block>::empty(),
            r.utxos@ == Map::<crate::sha256::Hash, TransactionOutput>::empty(),
            r.well_formed(),
    {
        Blockchain { utxos: UtxoSet::new(), blocks: Vec::new() }
    }

    /// Validates `block` against the chain tip and current ledger and,
    /// only if every check passes, appends it and applies its spends and
    /// new outputs. On rejection the error names the first failing check
    /// and the chain is left exactly as it was.
    #[verifier::loop_isolation(false)]
    pub fn add_block(&mut self, block: Block) -> (r: Result<(), crate::error::BtcError>)
        ensures
            r == spec_validate(old(self).blocks@, old(self).utxos@, block),
            r is Ok ==> final(self).blocks@ == old(self).blocks@.push(block)
                && final(self).utxos@ == spec_apply_block(old(self).utxos@, block),
            r is Err ==> *final(self) == *old(self),
            old(self).well_formed() ==> final(self).well_formed(),
    {
        if self.blocks.len() == 0 {
            if block.header.prev_block_hash != crate::sha256::Hash::zero() {
                return Err(crate::error::BtcError::InvalidBlock);
            }
        } else {
            let last_hash = self.blocks[self.blocks.len() - 1].hash();
            if block.header.prev_block_hash != last_hash {
                return Err(crate::error::BtcError::InvalidBlock);
            }
        }
        let header_hash = block.header.hash();
        if !header_hash.matches_target(block.header.target) {
            return Err(crate::error::BtcError::InvalidBlock);
        }
        if block.transactions.len() == 0 {
            return Err(crate::error::BtcError::InvalidBlock);
        }
        let calculated_merkle_root = MerkleRoot::calculate(&block.transactions);
        if calculated_merkle_root != block.header.merkle_root {
            return Err(crate::error::BtcError::InvalidMerkleRoot);
        }
        if self.blocks.len() > 0 {
            let prev_timestamp = self.blocks[self.blocks.len() - 1].header.timestamp;
            if block.header.timestamp <= prev_timestamp {
                return Err(crate::error::BtcError::InvalidBlock);
            }
        }
        let predicted_height = self.blocks.len() as u64;
        let tx_check = block.verify_transactions(predicted_height, &self.utxos);
        if let Err(e) = tx_check {
            return Err(e);
        }
        let ghost m0 = self.utxos@;
        let mut ti: usize = 0;
        while ti < block.transactions.len()
            invariant
                ti <= block.transactions@.len(),
                self.blocks@ == old(self).blocks@,
                self.utxos@ == spec_apply_txs(m0, block.transactions@.take(ti as int)),
            decreases block.transactions@.len() - ti,
        {
            proof {
                assert(block.transactions@.take(ti + 1).drop_last() =~= block.transactions@.take(
                    ti as int,
                ));
                assert(block.transactions@.take(ti + 1).last() == block.transactions@[ti as int]);
            }
            apply_tx_updates(&mut self.utxos, &block.transactions[ti]);
            ti = ti + 1;
        }
        proof {
            assert(block.transactions@.take(block.transactions@.len() as int)
                =~= block.transactions@);
        }
        proof {
            if old(self).well_formed() {
                lemma_replay_push(old(self).blocks@, block);
            }
        }
        self.blocks.push(block);
        tx_check
    }

    /// Recomputes the unspent-output ledger from nothing by replaying
    /// every stored block, and with it every transaction, in stored
    /// order: spent outputs deleted, created outputs inserted. The
    /// blocks themselves are left untouched.
    pub fn rebuild_utxos(&mut self)
        ensures
            final(self).blocks@ == old(self).blocks@,
            final(self).utxos@ == spec_replay(old(self).blocks@),
            final(self).well_formed(),
    {
        self.utxos = UtxoSet::new();
        let mut bi: usize = 0;
        while bi < self.blocks.len()
            invariant
                bi <= self.blocks@.len(),
                self.blocks@ == old(self).blocks@,
                self.utxos@ == spec_replay(self.blocks@.take(bi as int)),
            decreases self.blocks@.len() - bi,
        {
            proof {
                assert(self.blocks@.take(bi + 1).drop_last() =~= self.blocks@.take(bi as int));
                assert(self.blocks@.take(bi + 1).last() == self.blocks@[bi as int]);
            }
            let ghost pre = self.utxos@;
            let n_txs = self.blocks[bi].transactions.len();
            let mut ti: usize = 0;
            while ti < n_txs
                invariant
                    bi < self.blocks@.len(),
                    ti <= self.blocks@[bi as int].transactions@.len(),
                    n_txs == self.blocks@[bi as int].transactions@.len(),
                    self.blocks@ == old(self).blocks@,
                    self.utxos@ == spec_apply_txs(
                        pre,
                        self.blocks@[bi as int].transactions@.take(ti as int),
                    ),
                decreases n_txs - ti,
            {
                proof {
                    let txs = self.blocks@[bi as int].transactions@;
                    assert(txs.take(ti + 1).drop_last() =~= txs.take(ti as int));
                    assert(txs.take(ti + 1).last() == txs[ti as int]);
                }
                apply_tx_updates(&mut self.utxos, &self.blocks[bi].transactions[ti]);
                ti = ti + 1;
            }
            proof {
                let txs = self.blocks@[bi as int].transactions@;
                assert(txs.take(txs.len() as int) =~= txs);
            }
            bi = bi + 1;
        }
        proof {
            assert(self.blocks@.take(self.blocks@.len() as int) =~= self.blocks@);
        }
    }
}

} // verus!
