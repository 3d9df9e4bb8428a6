use std::sync::Arc;
use vstd::prelude::*;
use crate::ledger_store::LedgerStore;
use crate::state_store::{entries_view, keys_increasing, splits_at, StateStore};
use crate::transaction_store::TransactionStore;
use crate::types::{
    AccountStateBlob, BackupError, HashValue, LedgerInfoWithSignatures, SparseMerkleRangeProof,
    Transaction, TransactionAccumulatorRangeProof, TransactionInfo, TransactionInfoWithProof,
    Version,
};

verus! {

/// Read-only access for backups to the ledger, transaction and state stores,
/// shared with the rest of the database.
#[derive(Clone)]
pub struct BackupHandler {
    ledger_store: Arc<LedgerStore>,
    transaction_store: Arc<TransactionStore>,
    state_store: Arc<StateStore>,
}

impl BackupHandler {
    pub closed spec fn ledger(self) -> LedgerStore {
        *self.ledger_store
    }

    pub closed spec fn transactions(self) -> TransactionStore {
        *self.transaction_store
    }

    pub closed spec fn state(self) -> StateStore {
        *self.state_store
    }

    /// Each store's own invariant. The three stores are not required to
    /// hold the same versions: a version the ledger lacks may still be served
    /// by the account functions, and a gap between the transaction log and
    /// the ledger shows as `StoreInconsistency` items.
    pub open spec fn well_formed(self) -> bool {
        self.ledger().well_formed() && self.state().well_formed()
    }

    /// Whether the item at version `v` of a transaction range can be produced:
    /// both stores hold `v` and agree on the transaction's content hash.
    pub open spec fn transaction_item_ok(self, v: int) -> bool {
        &&& 0 <= v < self.transactions().transactions().len()
        &&& v < self.ledger().num_versions()
        &&& self.ledger().infos()[v].transaction_hash == self.transactions().transactions()[v].0
    }

    /// Why the item at version `v` cannot be produced: past the end of both
    /// stores the range is invalid; otherwise the stores disagree.
    pub open spec fn transaction_item_error(self, v: int) -> BackupError {
        if v >= self.transactions().transactions().len() && v >= self.ledger().num_versions() {
            BackupError::InvalidRange
        } else {
            BackupError::StoreInconsistency
        }
    }

    pub fn new(
        ledger_store: Arc<LedgerStore>,
        transaction_store: Arc<TransactionStore>,
        state_store: Arc<StateStore>,
    ) -> (r: BackupHandler)
        ensures
            r.ledger() == *ledger_store,
            r.transactions() == *transaction_store,
            r.state() == *state_store,
    {
        BackupHandler { ledger_store, transaction_store, state_store }
    }

    /// The transactions of versions `start..start + num_transactions` with
    /// their outcomes, one item per version; an item fails alone where it
    /// cannot be produced.
    pub fn get_transaction_iter(&self, start_version: Version, num_transactions: usize) -> (r: Vec<
        Result<(Transaction, TransactionInfo), BackupError>,
    >)
        requires
            self.well_formed(),
        ensures
            r@.len() == num_transactions,
            forall|i: int|
                0 <= i < num_transactions ==> ((#[trigger] r@[i]) is Ok <==> self.transaction_item_ok(
                    start_version + i,
                )),
            forall|i: int|
                0 <= i < num_transactions && (#[trigger] r@[i]) is Ok ==> {
                    let (t, info) = r@[i]->Ok_0;
                    &&& t@ == self.transactions().transactions()[start_version + i]
                    &&& info == self.ledger().infos()[start_version + i]
                    &&& info.version == start_version + i
                    &&& info.transaction_hash == t.hash
                },
            forall|i: int|
                0 <= i < num_transactions && (#[trigger] r@[i]) is Err ==> r@[i]->Err_0
                    == self.transaction_item_error(start_version + i),
    {
        let txns = self.transaction_store.get_transaction_iter(start_version, num_transactions);
        let infos = self.ledger_store.get_transaction_info_iter(start_version, num_transactions);
        let ghost tv = txns@.map_values(|t: Transaction| t@);
        proof {
            assert(tv.len() == txns@.len());
        }
        let mut r: Vec<Result<(Transaction, TransactionInfo), BackupError>> = Vec::new();
        let mut i: usize = 0;
        while i < num_transactions
            invariant
                self.well_formed(),
                i <= num_transactions,
                r@.len() == i,
                tv == txns@.map_values(|t: Transaction| t@),
                start_version >= self.transactions().transactions().len() ==> txns@.len() == 0,
                start_version < self.transactions().transactions().len() ==> tv
                    == self.transactions().transactions().subrange(
                    start_version as int,
                    vstd::math::min(
                        start_version + num_transactions,
                        self.transactions().transactions().len() as int,
                    ),
                ),
                start_version >= self.ledger().num_versions() ==> infos@.len() == 0,
                start_version < self.ledger().num_versions() ==> infos@ == self.ledger().infos().subrange(
                    start_version as int,
                    vstd::math::min(start_version + num_transactions, self.ledger().num_versions()),
                ),
                forall|k: int|
                    0 <= k < i ==> ((#[trigger] r@[k]) is Ok <==> self.transaction_item_ok(
                        start_version + k,
                    )),
                forall|k: int|
                    0 <= k < i && (#[trigger] r@[k]) is Ok ==> {
                        let (t, info) = r@[k]->Ok_0;
                        &&& t@ == self.transactions().transactions()[start_version + k]
                        &&& info == self.ledger().infos()[start_version + k]
                        &&& info.version == start_version + k
                        &&& info.transaction_hash == t.hash
                    },
                forall|k: int|
                    0 <= k < i && (#[trigger] r@[k]) is Err ==> r@[k]->Err_0
                        == self.transaction_item_error(start_version + k),
            decreases num_transactions - i,
        {
            let ghost v = start_version + i;
            proof {
                assert(i < txns@.len() <==> v < self.transactions().transactions().len());
                assert(i < infos@.len() <==> v < self.ledger().num_versions());
            }
            let item = if i < txns.len() && i < infos.len() {
                proof {
                    assert(tv[i as int] == txns@[i as int]@);
                    assert(tv[i as int] == self.transactions().transactions()[v]);
                    assert(infos@[i as int] == self.ledger().infos()[v]);
                }
                if infos[i].transaction_hash == txns[i].hash {
                    Ok((txns[i].duplicate(), infos[i]))
                } else {
                    Err(BackupError::StoreInconsistency)
                }
            } else if i < txns.len() || i < infos.len() {
                Err(BackupError::StoreInconsistency)
            } else {
                Err(BackupError::InvalidRange)
            };
            r.push(item);
            i = i + 1;
        }
        r
    }
    /// Accumulator evidence for versions `first_version..=last_version`,
    /// with the checkpoint it was built against: the canonical checkpoint of
    /// the epoch of `last_version`.
    pub fn get_transaction_range_proof(&self, first_version: Version, last_version: Version) -> (r:
        Result<(TransactionAccumulatorRangeProof, LedgerInfoWithSignatures), BackupError>)
        requires
            self.well_formed(),
        ensures
            last_version < first_version ==> r == Err::<
                (TransactionAccumulatorRangeProof, LedgerInfoWithSignatures),
                BackupError,
            >(BackupError::InvalidRange),
            first_version <= last_version && last_version >= self.ledger().num_versions() ==> r
                == Err::<(TransactionAccumulatorRangeProof, LedgerInfoWithSignatures), BackupError>(
                BackupError::InvalidRange,
            ),
            first_version <= last_version < self.ledger().num_versions() ==> {
                let c = self.ledger().checkpoint_of(self.ledger().epoch_of(last_version as int));
                &&& (c is None || (c->Some_0).version < last_version) ==> r == Err::<
                    (TransactionAccumulatorRangeProof, LedgerInfoWithSignatures),
                    BackupError,
                >(BackupError::MissingCheckpoint)
                &&& (c is Some && (c->Some_0).version >= last_version) ==> r is Ok && r->Ok_0.1
                    == c->Some_0
                &&& self.ledger().epoch_of(last_version as int) < self.ledger().epoch_endings().len()
                    ==> r is Ok
            },
            r is Ok ==> {
                let (p, li) = r->Ok_0;
                let leaves = self.ledger().leaves();
                &&& li.epoch == self.ledger().epoch_of(last_version as int)
                &&& li.version < self.ledger().num_versions()
                &&& p.first_version == first_version
                &&& p.num_leaves == last_version - first_version + 1
                &&& p.ledger_version == li.version
                &&& p.left_siblings@ == leaves.subrange(0, first_version as int)
                &&& p.right_siblings@ == leaves.subrange(last_version + 1, li.version + 1)
                &&& p.fits(li, leaves.subrange(first_version as int, last_version + 1))
                &&& p.all_leaves(leaves.subrange(first_version as int, last_version + 1))
                    == leaves.subrange(0, li.version + 1)
            },
    {
        if last_version < first_version {
            return Err(BackupError::InvalidRange);
        }
        let epoch = match self.ledger_store.get_epoch(last_version) {
            Ok(e) => e,
            Err(e) => {
                return Err(e);
            },
        };
        let ledger_info = match self.ledger_store.get_latest_ledger_info_in_epoch(epoch) {
            Ok(li) => li,
            Err(e) => {
                return Err(e);
            },
        };
        proof {
            self.ledger().lemma_checkpoint_epoch(epoch as int);
            if epoch < self.ledger().epoch_endings().len() {
                self.ledger().lemma_ended_epoch_covers(last_version as int);
            }
        }
        if ledger_info.version < last_version {
            return Err(BackupError::MissingCheckpoint);
        }
        let num_transactions = last_version - first_version + 1;
        match self.ledger_store.get_transaction_range_proof(
            first_version,
            num_transactions,
            ledger_info.version,
        ) {
            Ok(p) => {
                proof {
                    let leaves = self.ledger().leaves();
                    assert(p.left_siblings@ + leaves.subrange(first_version as int, last_version + 1)
                        + p.right_siblings@ =~= leaves.subrange(0, ledger_info.version + 1));
                }
                Ok((p, ledger_info))
            },
            Err(e) => Err(e),
        }
    }

    /// The accounts of the state tree at `version`, in increasing key order
    /// from the smallest key.
    pub fn get_account_iter(&self, version: Version) -> (r: Result<
        Vec<(HashValue, AccountStateBlob)>,
        BackupError,
    >)
        requires
            self.well_formed(),
        ensures
            r is Ok <==> version < self.state().snapshots().len(),
            r is Ok ==> entries_view(r->Ok_0@) == self.state().snapshots()[version as int],
            r is Ok ==> keys_increasing(entries_view(r->Ok_0@)),
            r is Err ==> r->Err_0 == BackupError::InvalidRange,
    {
        self.state_store.get_account_iter(version)
    }

    /// Evidence that the state tree at `version` holds no key at or below
    /// `rightmost_key` beyond its first `num_left_leaves` accounts.
    pub fn get_account_state_range_proof(&self, rightmost_key: HashValue, version: Version) -> (r:
        Result<SparseMerkleRangeProof, BackupError>)
        requires
            self.well_formed(),
        ensures
            r is Ok <==> version < self.state().snapshots().len(),
            r is Ok ==> {
                let p = r->Ok_0;
                let s = self.state().snapshots()[version as int];
                &&& p.version == version
                &&& p.rightmost_key == rightmost_key
                &&& splits_at(s, rightmost_key, p.num_left_leaves as int)
                &&& p.right_siblings@ == s.subrange(p.num_left_leaves as int, s.len() as int).map_values(
                    |e: (HashValue, Seq<u8>)| e.0,
                )
            },
            r is Err ==> r->Err_0 == BackupError::InvalidRange,
    {
        self.state_store.get_account_state_range_proof(rightmost_key, version)
    }

    /// The newest committed version and its state root hash.
    pub fn get_latest_state_root(&self) -> (r: Result<(Version, HashValue), BackupError>)
        requires
            self.well_formed(),
        ensures
            r is Ok <==> self.ledger().num_versions() > 0,
            r is Ok ==> r->Ok_0.0 == self.ledger().num_versions() - 1 && r->Ok_0.1
                == self.ledger().infos().last().state_root_hash,
            r is Err ==> r->Err_0 == BackupError::InvalidRange,
    {
        match self.ledger_store.get_latest_transaction_info() {
            Ok((version, info)) => Ok((version, info.state_root_hash)),
            Err(e) => Err(e),
        }
    }

    /// The outcome at `version` with the evidence for its leaf, against the
    /// canonical checkpoint of the epoch of `version`.
    pub fn get_state_root_proof(&self, version: Version) -> (r: Result<
        (TransactionInfoWithProof, LedgerInfoWithSignatures),
        BackupError,
    >)
        requires
            self.well_formed(),
        ensures
            version >= self.ledger().num_versions() ==> r == Err::<
                (TransactionInfoWithProof, LedgerInfoWithSignatures),
                BackupError,
            >(BackupError::InvalidRange),
            version < self.ledger().num_versions() ==> {
                let c = self.ledger().checkpoint_of(self.ledger().epoch_of(version as int));
                &&& (c is None || (c->Some_0).version < version) ==> r == Err::<
                    (TransactionInfoWithProof, LedgerInfoWithSignatures),
                    BackupError,
                >(BackupError::MissingCheckpoint)
                &&& (c is Some && (c->Some_0).version >= version) ==> r is Ok && r->Ok_0.1
                    == c->Some_0
                &&& self.ledger().epoch_of(version as int) < self.ledger().epoch_endings().len()
                    ==> r is Ok
            },
            r is Ok ==> {
                let (p, li) = r->Ok_0;
                let leaves = self.ledger().leaves();
                &&& li.epoch == self.ledger().epoch_of(version as int)
                &&& p.transaction_info == self.ledger().infos()[version as int]
                &&& p.proof.first_version == version
                &&& p.proof.num_leaves == 1
                &&& p.proof.ledger_version == li.version
                &&& p.proof.left_siblings@ == leaves.subrange(0, version as int)
                &&& p.proof.right_siblings@ == leaves.subrange(version + 1, li.version + 1)
            },
    {
        let epoch = match self.ledger_store.get_epoch(version) {
            Ok(e) => e,
            Err(e) => {
                return Err(e);
            },
        };
        let ledger_info = match self.ledger_store.get_latest_ledger_info_in_epoch(epoch) {
            Ok(li) => li,
            Err(e) => {
                return Err(e);
            },
        };
        proof {
            self.ledger().lemma_checkpoint_epoch(epoch as int);
            if epoch < self.ledger().epoch_endings().len() {
                self.ledger().lemma_ended_epoch_covers(version as int);
            }
        }
        if ledger_info.version < version {
            return Err(BackupError::MissingCheckpoint);
        }
        match self.ledger_store.get_transaction_info_with_proof(version, ledger_info.version) {
            Ok(p) => Ok((p, ledger_info)),
            Err(e) => Err(e),
        }
    }

    /// The epoch-ending checkpoint of each epoch in `start_epoch..end_epoch`,
    /// in increasing epoch order, one item per epoch: an epoch that has not
    /// ended yet gives `MissingCheckpoint` at its position without spoiling
    /// the items around it. An empty range gives no items.
    pub fn get_epoch_ending_ledger_info_iter(&self, start_epoch: u64, end_epoch: u64) -> (r: Vec<
        Result<LedgerInfoWithSignatures, BackupError>,
    >)
        requires
            self.well_formed(),
        ensures
            r@.len() == if start_epoch <= end_epoch {
                end_epoch - start_epoch
            } else {
                0
            },
            forall|i: int|
                0 <= i < r@.len() ==> ((#[trigger] r@[i]) is Ok <==> start_epoch + i
                    < self.ledger().epoch_endings().len()),
            forall|i: int|
                0 <= i < r@.len() && (#[trigger] r@[i]) is Ok ==> r@[i]->Ok_0
                    == self.ledger().epoch_endings()[start_epoch + i] && (r@[i]->Ok_0).epoch
                    == start_epoch + i,
            forall|i: int|
                0 <= i < r@.len() && (#[trigger] r@[i]) is Err ==> r@[i]->Err_0
                    == BackupError::MissingCheckpoint,
    {
        self.ledger_store.get_epoch_ending_ledger_info_iter(start_epoch, end_epoch)
    }
}

} // verus!
