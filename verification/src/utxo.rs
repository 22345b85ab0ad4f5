//! The ledger of unspent transaction outputs: a mapping from ledger key
//! to live output, mutated only when a committed block spends or creates
//! outputs.
use vstd::prelude::*;

verus! {

use crate::types::TransactionOutput;

/// The unspent-output ledger. Entries are kept in insertion order; a
/// later insertion under an existing key shadows the earlier one, so the
/// ledger behaves as a map with overwrite semantics. (A digest collision
/// between two distinct outputs would therefore overwrite; the key
/// derivation makes that as hard as a hash collision.)
#[derive(Clone, PartialEq, Debug)]
pub struct UtxoSet {
    entries: Vec<(crate::sha256::Hash, TransactionOutput)>,
}

/// The map an entry list denotes: each pair inserted in order, later
/// pairs shadowing earlier ones.
pub open spec fn entries_map(s: Seq<(crate::sha256::Hash, TransactionOutput)>) -> Map<
    crate::sha256::Hash,
    TransactionOutput,
>
    decreases s.len(),
{
    if s.len() == 0 {
        Map::empty()
    } else {
        entries_map(s.drop_last()).insert(s.last().0, s.last().1)
    }
}

impl View for UtxoSet {
    type V = Map<crate::sha256::Hash, TransactionOutput>;

    closed spec fn view(&self) -> Map<crate::sha256::Hash, TransactionOutput> {
        entries_map(self.entries@)
    }
}

/// An entry whose key recurs nowhere later in the list gives the map's
/// value at that key.
proof fn lemma_entries_map_found(
    s: Seq<(crate::sha256::Hash, TransactionOutput)>,
    j: int,
    key: crate::sha256::Hash,
)
    requires
        0 <= j < s.len(),
        s[j].0 == key,
        forall|i: int| j < i < s.len() ==> s[i].0 != key,
    ensures
        entries_map(s).dom().contains(key),
        entries_map(s)[key] == s[j].1,
    decreases s.len(),
{
    if j == s.len() - 1 {
    } else {
        lemma_entries_map_found(s.drop_last(), j, key);
    }
}

/// A key that occurs in no entry is not in the map.
proof fn lemma_entries_map_missing(
    s: Seq<(crate::sha256::Hash, TransactionOutput)>,
    key: crate::sha256::Hash,
)
    requires
        forall|i: int| 0 <= i < s.len() ==> s[i].0 != key,
    ensures
        !entries_map(s).dom().contains(key),
    decreases s.len(),
{
    if s.len() > 0 {
        lemma_entries_map_missing(s.drop_last(), key);
    }
}

impl UtxoSet {
    /// An empty ledger.
    pub fn new() -> (r: UtxoSet)
        ensures
            r@ == Map::<crate::sha256::Hash, TransactionOutput>::empty(),
    {
        UtxoSet { entries: Vec::new() }
    }

    /// Looks up the live output stored under `key`, if any.
    pub fn get(&self, key: &crate::sha256::Hash) -> (r: Option<&TransactionOutput>)
        ensures
            match r {
                Some(o) => self@.dom().contains(*key) && *o == self@[*key],
                None => !self@.dom().contains(*key),
            },
    {
        let mut j: usize = self.entries.len();
        while j > 0
            invariant
                j <= self.entries@.len(),
                forall|i: int| j <= i < self.entries@.len() ==> self.entries@[i].0 != *key,
            decreases j,
        {
            j = j - 1;
            if self.entries[j].0 == *key {
                proof {
                    lemma_entries_map_found(self.entries@, j as int, *key);
                }
                return Some(&self.entries[j].1);
            }
        }
        proof {
            lemma_entries_map_missing(self.entries@, *key);
        }
        None
    }

    /// Stores `output` under `key`, shadowing any previous entry.
    pub fn insert(&mut self, key: crate::sha256::Hash, output: TransactionOutput)
        ensures
            final(self)@ == old(self)@.insert(key, output),
    {
        self.entries.push((key, output));
        proof {
            assert(self.entries@.drop_last() =~= old(self).entries@);
        }
    }

    /// Deletes whatever is stored under `key`.
    pub fn remove(&mut self, key: &crate::sha256::Hash)
        ensures
            final(self)@ == old(self)@.remove(*key),
    {
        let mut kept: Vec<(crate::sha256::Hash, TransactionOutput)> = Vec::new();
        let mut j: usize = 0;
        while j < self.entries.len()
            invariant
                j <= self.entries@.len(),
                entries_map(kept@) == entries_map(self.entries@.take(j as int)).remove(*key),
            decreases self.entries@.len() - j,
        {
            let e = self.entries[j];
            proof {
                assert(self.entries@.take(j + 1).drop_last() =~= self.entries@.take(j as int));
                assert(self.entries@.take(j + 1).last() == self.entries@[j as int]);
            }
            if e.0 != *key {
                let ghost prev = kept@;
                kept.push(e);
                proof {
                    assert(kept@.drop_last() =~= prev);
                    assert(entries_map(kept@) =~= entries_map(self.entries@.take(j + 1)).remove(
                        *key,
                    ));
                }
            } else {
                proof {
                    assert(entries_map(kept@) =~= entries_map(self.entries@.take(j + 1)).remove(
                        *key,
                    ));
                }
            }
            j = j + 1;
        }
        proof {
            assert(self.entries@.take(self.entries@.len() as int) =~= self.entries@);
        }
        self.entries = kept;
    }

    /// Whether the ledger holds no output at all.
    pub fn is_empty(&self) -> (r: bool)
        ensures
            r == (self@ == Map::<crate::sha256::Hash, TransactionOutput>::empty()),
    {
        if self.entries.len() == 0 {
            proof {
                assert(self@ =~= Map::<crate::sha256::Hash, TransactionOutput>::empty());
            }
            true
        } else {
            proof {
                let s = self.entries@;
                assert(entries_map(s).dom().contains(s.last().0));
            }
            false
        }
    }
}

} // verus!
