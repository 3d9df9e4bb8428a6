use vstd::prelude::*;
use crate::types::{
    BackupError, HashValue, LedgerInfoWithSignatures, TransactionAccumulatorRangeProof,
    TransactionInfo, TransactionInfoWithProof, Version,
};

verus! {

/// The authenticated ledger: one outcome and one accumulator leaf per
/// committed version, and the index of epoch-ending checkpoints.
pub struct LedgerStore {
    infos: Vec<TransactionInfo>,
    leaves: Vec<HashValue>,
    epoch_endings: Vec<LedgerInfoWithSignatures>,
    latest: Option<LedgerInfoWithSignatures>,
}

impl LedgerStore {
    pub closed spec fn infos(self) -> Seq<TransactionInfo> {
        self.infos@
    }

    /// The accumulator's leaves, one per committed version.
    pub closed spec fn leaves(self) -> Seq<HashValue> {
        self.leaves@
    }

    /// The last checkpoint of each finished epoch, indexed by epoch.
    pub closed spec fn epoch_endings(self) -> Seq<LedgerInfoWithSignatures> {
        self.epoch_endings@
    }

    /// The latest checkpoint of the epoch still open, if one was signed.
    pub closed spec fn latest(self) -> Option<LedgerInfoWithSignatures> {
        self.latest
    }

    pub open spec fn num_versions(self) -> int {
        self.infos().len() as int
    }

    /// The ledger's own invariant: outcomes sit at their versions, one leaf
    /// each, and epoch-ending checkpoints come in epoch and version order.
    /// It does not ask the open epoch's latest checkpoint to be at the last
    /// committed version (versions committed after it have no checkpoint
    /// yet), nor does it bind leaves or `root_hash` to the outcomes.
    pub open spec fn well_formed(self) -> bool {
        &&& self.infos().len() == self.leaves().len()
        &&& self.num_versions() <= u64::MAX
        &&& forall|v: int| 0 <= v < self.infos().len() ==> #[trigger] self.infos()[v].version == v
        &&& forall|e: int|
            0 <= e < self.epoch_endings().len() ==> (#[trigger] self.epoch_endings()[e]).epoch == e
                && self.epoch_endings()[e].version < self.num_versions()
        &&& forall|i: int, j: int|
            0 <= i < j < self.epoch_endings().len() ==> (#[trigger] self.epoch_endings()[i]).version
                < (#[trigger] self.epoch_endings()[j]).version
        &&& self.latest() is Some ==> {
            let l = self.latest()->Some_0;
            &&& l.epoch == self.epoch_endings().len()
            &&& l.version < self.num_versions()
            &&& forall|e: int|
                0 <= e < self.epoch_endings().len() ==> #[trigger] self.epoch_endings()[e].version
                    < l.version
        }
    }

    /// `e` is the epoch of version `v`: the number of epochs that ended
    /// before `v`. The epoch-ending version itself belongs to its epoch.
    pub open spec fn is_epoch_of(self, v: int, e: int) -> bool {
        &&& 0 <= e <= self.epoch_endings().len()
        &&& forall|i: int| 0 <= i < e ==> #[trigger] self.epoch_endings()[i].version < v
        &&& forall|i: int|
            e <= i < self.epoch_endings().len() ==> #[trigger] self.epoch_endings()[i].version >= v
    }

    /// The epoch of version `v`.
    pub open spec fn epoch_of(self, v: int) -> int {
        choose|e: int| self.is_epoch_of(v, e)
    }

    /// A version has at most one epoch.
    pub proof fn lemma_epoch_unique(self, v: int, e1: int, e2: int)
        requires
            self.is_epoch_of(v, e1),
            self.is_epoch_of(v, e2),
        ensures
            e1 == e2,
    {
        if e1 < e2 {
            assert(self.epoch_endings()[e1].version < v);
        } else if e2 < e1 {
            assert(self.epoch_endings()[e2].version < v);
        }
    }

    /// The epoch-ending checkpoint of a version's epoch, where that epoch has
    /// ended, lies at or after the version.
    pub proof fn lemma_ended_epoch_covers(self, v: int)
        requires
            self.well_formed(),
            0 <= v < self.num_versions(),
            self.is_epoch_of(v, self.epoch_of(v)),
            self.epoch_of(v) < self.epoch_endings().len(),
        ensures
            self.checkpoint_of(self.epoch_of(v)) is Some,
            (self.checkpoint_of(self.epoch_of(v))->Some_0).version >= v,
    {
    }

    /// Each checkpoint the store holds belongs to the epoch it is filed under.
    pub proof fn lemma_checkpoint_epoch(self, e: int)
        requires
            self.well_formed(),
            self.checkpoint_of(e) is Some,
        ensures
            (self.checkpoint_of(e)->Some_0).epoch == e,
            (self.checkpoint_of(e)->Some_0).version < self.num_versions(),
    {
    }

    /// The canonical checkpoint of epoch `e`, if the store has one.
    pub open spec fn checkpoint_of(self, e: int) -> Option<LedgerInfoWithSignatures> {
        if 0 <= e < self.epoch_endings().len() {
            Some(self.epoch_endings()[e])
        } else if self.latest() is Some && (self.latest()->Some_0).epoch == e {
            self.latest()
        } else {
            None
        }
    }

    /// A store that holds nothing yet.
    pub fn new() -> (r: LedgerStore)
        ensures
            r.well_formed(),
            r.infos().len() == 0,
            r.epoch_endings().len() == 0,
            r.latest() is None,
    {
        LedgerStore { infos: Vec::new(), leaves: Vec::new(), epoch_endings: Vec::new(), latest: None }
    }

    /// The number of committed versions.
    pub fn num_transactions(&self) -> (r: u64)
        requires
            self.well_formed(),
        ensures
            r == self.num_versions(),
    {
        self.infos.len() as u64
    }
    /// Records the outcome of the next version and its accumulator leaf.
    pub fn append(&mut self, info: TransactionInfo, leaf: HashValue) -> (r: Result<(), BackupError>)
        requires
            old(self).well_formed(),
        ensures
            final(self).well_formed(),
            r is Ok <==> info.version == old(self).num_versions() && info.version < u64::MAX,
            r is Ok ==> final(self).infos() == old(self).infos().push(info) && final(self).leaves()
                == old(self).leaves().push(leaf),
            r is Err ==> r->Err_0 == BackupError::InvalidRange && final(self).infos()
                == old(self).infos() && final(self).leaves() == old(self).leaves(),
            final(self).epoch_endings() == old(self).epoch_endings(),
            final(self).latest() == old(self).latest(),
    {
        if info.version == u64::MAX || info.version != self.infos.len() as u64 {
            return Err(BackupError::InvalidRange);
        }
        self.infos.push(info);
        self.leaves.push(leaf);
        proof {
            assert forall|e: int| 0 <= e < self.epoch_endings().len() implies (
            #[trigger] self.epoch_endings()[e]).version < self.num_versions() by {
                assert(old(self).epoch_endings()[e] == self.epoch_endings()[e]);
                assert(old(self).epoch_endings()[e].version < old(self).num_versions());
            }
        }
        Ok(())
    }

    /// Records a signed checkpoint of the open epoch, which replaces any
    /// earlier one of that epoch.
    pub fn put_ledger_info(&mut self, li: LedgerInfoWithSignatures) -> (r: Result<(), BackupError>)
        requires
            old(self).well_formed(),
        ensures
            final(self).well_formed(),
            r is Ok <==> {
                &&& li.epoch == old(self).epoch_endings().len()
                &&& li.version < old(self).num_versions()
                &&& old(self).epoch_endings().len() > 0 ==> old(self).epoch_endings().last().version
                    < li.version
                &&& old(self).latest() is Some ==> (old(self).latest()->Some_0).version <= li.version
            },
            r is Ok ==> final(self).latest() == Some(li),
            r is Err ==> r->Err_0 == BackupError::InvalidRange && final(self).latest() == old(
                self,
            ).latest(),
            final(self).infos() == old(self).infos(),
            final(self).leaves() == old(self).leaves(),
            final(self).epoch_endings() == old(self).epoch_endings(),
    {
        let n = self.epoch_endings.len();
        if li.epoch != n as u64 || li.version >= self.infos.len() as u64 {
            return Err(BackupError::InvalidRange);
        }
        if n > 0 && self.epoch_endings[n - 1].version >= li.version {
            return Err(BackupError::InvalidRange);
        }
        match &self.latest {
            Some(l) => {
                if l.version > li.version {
                    return Err(BackupError::InvalidRange);
                }
            },
            None => {},
        }
        proof {
            if n > 0 {
                assert forall|e: int| 0 <= e < n implies #[trigger] self.epoch_endings()[e].version
                    < li.version by {
                    if e < n - 1 {
                        assert(self.epoch_endings()[e].version < self.epoch_endings()[n - 1].version);
                    }
                }
            }
        }
        self.latest = Some(li);
        Ok(())
    }

    /// Closes the open epoch: its latest checkpoint becomes its canonical
    /// epoch-ending checkpoint.
    pub fn end_epoch(&mut self) -> (r: Result<(), BackupError>)
        requires
            old(self).well_formed(),
        ensures
            final(self).well_formed(),
            r is Ok <==> old(self).latest() is Some,
            r is Ok ==> final(self).epoch_endings() == old(self).epoch_endings().push(
                old(self).latest()->Some_0,
            ) && final(self).latest() is None,
            r is Err ==> r->Err_0 == BackupError::MissingCheckpoint && final(self).epoch_endings()
                == old(self).epoch_endings(),
            final(self).infos() == old(self).infos(),
            final(self).leaves() == old(self).leaves(),
    {
        match self.latest {
            Some(l) => {
                self.epoch_endings.push(l);
                self.latest = None;
                Ok(())
            },
            None => Err(BackupError::MissingCheckpoint),
        }
    }

    /// The epoch of a committed version, found by binary search over the
    /// epoch-ending versions.
    pub fn get_epoch(&self, version: Version) -> (r: Result<u64, BackupError>)
        requires
            self.well_formed(),
        ensures
            r is Ok <==> version < self.num_versions(),
            r is Ok ==> self.is_epoch_of(version as int, r->Ok_0 as int) && r->Ok_0 == self.epoch_of(
                version as int,
            ),
            r is Err ==> r->Err_0 == BackupError::InvalidRange,
    {
        if version >= self.infos.len() as u64 {
            return Err(BackupError::InvalidRange);
        }
        let mut lo: usize = 0;
        let mut hi: usize = self.epoch_endings.len();
        while lo < hi
            invariant
                self.well_formed(),
                0 <= lo <= hi <= self.epoch_endings@.len(),
                forall|i: int| 0 <= i < lo ==> #[trigger] self.epoch_endings()[i].version < version,
                forall|i: int|
                    hi <= i < self.epoch_endings@.len() ==> #[trigger] self.epoch_endings()[i].version
                        >= version,
            decreases hi - lo,
        {
            let mid = lo + (hi - lo) / 2;
            if self.epoch_endings[mid].version < version {
                proof {
                    assert forall|i: int| 0 <= i < mid + 1 implies #[trigger] self.epoch_endings()[i].version
                        < version by {
                        if i < mid {
                            assert(self.epoch_endings()[i].version < self.epoch_endings()[mid as int].version);
                        }
                    }
                }
                lo = mid + 1;
            } else {
                proof {
                    assert forall|i: int| mid <= i < self.epoch_endings@.len() implies #[trigger] self.epoch_endings()[i].version
                        >= version by {
                        if i > mid {
                            assert(self.epoch_endings()[mid as int].version < self.epoch_endings()[i].version);
                        }
                    }
                }
                hi = mid;
            }
        }
        proof {
            assert(self.is_epoch_of(version as int, lo as int));
            self.lemma_epoch_unique(version as int, lo as int, self.epoch_of(version as int));
        }
        Ok(lo as u64)
    }

    /// The canonical checkpoint of an epoch: its epoch-ending checkpoint, or
    /// for the open epoch the latest one signed.
    pub fn get_latest_ledger_info_in_epoch(&self, epoch: u64) -> (r: Result<
        LedgerInfoWithSignatures,
        BackupError,
    >)
        requires
            self.well_formed(),
        ensures
            r is Ok <==> self.checkpoint_of(epoch as int) is Some,
            r is Ok ==> Some(r->Ok_0) == self.checkpoint_of(epoch as int),
            r is Err ==> r->Err_0 == BackupError::MissingCheckpoint,
    {
        if epoch < self.epoch_endings.len() as u64 {
            return Ok(self.epoch_endings[epoch as usize]);
        }
        match self.latest {
            Some(l) => {
                if l.epoch == epoch {
                    Ok(l)
                } else {
                    Err(BackupError::MissingCheckpoint)
                }
            },
            None => Err(BackupError::MissingCheckpoint),
        }
    }
    /// The accumulator leaves of versions `from..to`.
    fn copy_leaves(&self, from: usize, to: usize) -> (r: Vec<HashValue>)
        requires
            from <= to <= self.leaves().len(),
        ensures
            r@ == self.leaves().subrange(from as int, to as int),
    {
        let mut r: Vec<HashValue> = Vec::new();
        let mut i: usize = from;
        while i < to
            invariant
                from <= i <= to <= self.leaves@.len(),
                r@ == self.leaves@.subrange(from as int, i as int),
            decreases to - i,
        {
            r.push(self.leaves[i]);
            i = i + 1;
        }
        r
    }

    /// Accumulator evidence for the `num` leaves from `first`, against the
    /// accumulator as it stood at `ledger_version`.
    pub fn get_transaction_range_proof(&self, first: Version, num: u64, ledger_version: Version) -> (r:
        Result<TransactionAccumulatorRangeProof, BackupError>)
        requires
            self.well_formed(),
        ensures
            r is Ok <==> 0 < num && first + num - 1 <= ledger_version && ledger_version
                < self.num_versions(),
            r is Ok ==> {
                let p = r->Ok_0;
                &&& p.first_version == first
                &&& p.num_leaves == num
                &&& p.ledger_version == ledger_version
                &&& p.left_siblings@ == self.leaves().subrange(0, first as int)
                &&& p.right_siblings@ == self.leaves().subrange(
                    first + num,
                    ledger_version + 1,
                )
            },
            r is Err ==> r->Err_0 == BackupError::InvalidRange,
    {
        if num == 0 || ledger_version >= self.infos.len() as u64 || first > ledger_version
            || num - 1 > ledger_version - first {
            return Err(BackupError::InvalidRange);
        }
        let left = self.copy_leaves(0, first as usize);
        let right = self.copy_leaves((first + num) as usize, (ledger_version + 1) as usize);
        Ok(
            TransactionAccumulatorRangeProof {
                first_version: first,
                num_leaves: num,
                ledger_version,
                left_siblings: left,
                right_siblings: right,
            },
        )
    }

    /// The outcome at `version` with the evidence for its leaf at `ledger_version`.
    pub fn get_transaction_info_with_proof(&self, version: Version, ledger_version: Version) -> (r:
        Result<TransactionInfoWithProof, BackupError>)
        requires
            self.well_formed(),
        ensures
            r is Ok <==> version <= ledger_version && ledger_version < self.num_versions(),
            r is Ok ==> {
                let p = r->Ok_0;
                &&& p.transaction_info == self.infos()[version as int]
                &&& p.proof.first_version == version
                &&& p.proof.num_leaves == 1
                &&& p.proof.ledger_version == ledger_version
                &&& p.proof.left_siblings@ == self.leaves().subrange(0, version as int)
                &&& p.proof.right_siblings@ == self.leaves().subrange(
                    version + 1,
                    ledger_version + 1,
                )
            },
            r is Err ==> r->Err_0 == BackupError::InvalidRange,
    {
        let res = self.get_transaction_range_proof(version, 1, ledger_version);
        match res {
            Ok(proof) => {
                let num_versions = self.infos.len();
                proof {
                    assert(version < num_versions);
                }
                let info = self.infos[version as usize];
                Ok(TransactionInfoWithProof { transaction_info: info, proof })
            },
            Err(e) => Err(e),
        }
    }

    /// The outcomes of up to `num` versions from `start`: fewer where the
    /// store ends first.
    pub fn get_transaction_info_iter(&self, start: Version, num: usize) -> (r: Vec<TransactionInfo>)
        requires
            self.well_formed(),
        ensures
            start >= self.num_versions() ==> r@.len() == 0,
            start < self.num_versions() ==> r@ == self.infos().subrange(
                start as int,
                vstd::math::min(start + num, self.num_versions()),
            ),
    {
        let mut r: Vec<TransactionInfo> = Vec::new();
        let len = self.infos.len();
        if start >= len as u64 {
            return r;
        }
        let s = start as usize;
        let end: usize = if num > len - s { len } else { s + num };
        let mut i: usize = s;
        while i < end
            invariant
                s <= i <= end <= len,
                len == self.infos@.len(),
                r@ == self.infos@.subrange(s as int, i as int),
            decreases end - i,
        {
            r.push(self.infos[i]);
            i = i + 1;
        }
        r
    }

    /// The newest committed version and its outcome.
    pub fn get_latest_transaction_info(&self) -> (r: Result<(Version, TransactionInfo), BackupError>)
        requires
            self.well_formed(),
        ensures
            r is Ok <==> self.num_versions() > 0,
            r is Ok ==> r->Ok_0.0 == self.num_versions() - 1 && r->Ok_0.1 == self.infos().last(),
            r is Err ==> r->Err_0 == BackupError::InvalidRange,
    {
        let len = self.infos.len();
        if len == 0 {
            return Err(BackupError::InvalidRange);
        }
        Ok(((len - 1) as u64, self.infos[len - 1]))
    }

    /// The epoch-ending checkpoint of each epoch in `start_epoch..end_epoch`,
    /// in order, one item per epoch: an epoch that has not ended yet gives
    /// `MissingCheckpoint` at its position. An empty range gives no items.
    pub fn get_epoch_ending_ledger_info_iter(&self, start_epoch: u64, end_epoch: u64) -> (r: Vec<
        Result<LedgerInfoWithSignatures, BackupError>,
    >)
        requires
            self.well_formed(),
        ensures
            r@.len() == if start_epoch <= end_epoch {
                end_epoch - start_epoch
            } else {
                0
            },
            forall|i: int|
                0 <= i < r@.len() ==> ((#[trigger] r@[i]) is Ok <==> start_epoch + i
                    < self.epoch_endings().len()),
            forall|i: int|
                0 <= i < r@.len() && (#[trigger] r@[i]) is Ok ==> r@[i]->Ok_0
                    == self.epoch_endings()[start_epoch + i] && (r@[i]->Ok_0).epoch == start_epoch + i,
            forall|i: int|
                0 <= i < r@.len() && (#[trigger] r@[i]) is Err ==> r@[i]->Err_0
                    == BackupError::MissingCheckpoint,
    {
        let mut r: Vec<Result<LedgerInfoWithSignatures, BackupError>> = Vec::new();
        if start_epoch >= end_epoch {
            return r;
        }
        let num_ended = self.epoch_endings.len() as u64;
        let mut e: u64 = start_epoch;
        while e < end_epoch
            invariant
                self.well_formed(),
                start_epoch <= e <= end_epoch,
                num_ended == self.epoch_endings().len(),
                num_ended <= usize::MAX,
                r@.len() == e - start_epoch,
                forall|i: int|
                    0 <= i < r@.len() ==> ((#[trigger] r@[i]) is Ok <==> start_epoch + i
                        < self.epoch_endings().len()),
                forall|i: int|
                    0 <= i < r@.len() && (#[trigger] r@[i]) is Ok ==> r@[i]->Ok_0
                        == self.epoch_endings()[start_epoch + i] && (r@[i]->Ok_0).epoch == start_epoch
                        + i,
                forall|i: int|
                    0 <= i < r@.len() && (#[trigger] r@[i]) is Err ==> r@[i]->Err_0
                        == BackupError::MissingCheckpoint,
            decreases end_epoch - e,
        {
            if e < num_ended {
                let li = self.epoch_endings[e as usize];
                assert(li == self.epoch_endings()[e as int] && li.epoch == e);
                r.push(Ok(li));
            } else {
                r.push(Err(BackupError::MissingCheckpoint));
            }
            e = e + 1;
        }
        r
    }
}

} // verus!
