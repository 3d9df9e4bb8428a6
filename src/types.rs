use vstd::prelude::*;

verus! {

/// A committed ledger state, and the position of its leaf in the accumulator.
pub type Version = u64;

/// A 256-bit hash, also used as the key of an account in the state tree.
/// Keys are ordered as the 256-bit number `hi * 2^128 + lo`.
#[derive(Clone, Copy, Debug, PartialEq, Eq, Structural)]
pub struct HashValue {
    pub hi: u128,
    pub lo: u128,
}

impl HashValue {
    /// The all-zero hash: the smallest key.
    pub fn zero() -> (r: HashValue)
        ensures
            r.hi == 0 && r.lo == 0,
    {
        HashValue { hi: 0, lo: 0 }
    }

    pub open spec fn key_lt(self, other: HashValue) -> bool {
        self.hi < other.hi || (self.hi == other.hi && self.lo < other.lo)
    }

    pub open spec fn key_le(self, other: HashValue) -> bool {
        self.key_lt(other) || self == other
    }

    /// Strict key order.
    pub fn less_than(&self, other: &HashValue) -> (r: bool)
        ensures
            r == self.key_lt(*other),
    {
        self.hi < other.hi || (self.hi == other.hi && self.lo < other.lo)
    }
}

/// A submitted operation, with the content hash recorded when it was committed.
#[derive(Clone, Debug, PartialEq, Eq)]
pub struct Transaction {
    pub hash: HashValue,
    pub payload: Vec<u8>,
}

impl View for Transaction {
    type V = (HashValue, Seq<u8>);

    open spec fn view(&self) -> (HashValue, Seq<u8>) {
        (self.hash, self.payload@)
    }
}

impl Transaction {
    /// A copy with the same hash and payload.
    pub fn duplicate(&self) -> (r: Transaction)
        ensures
            r@ == self@,
    {
        Transaction { hash: self.hash, payload: self.payload.clone() }
    }
}

/// The recorded outcome of the transaction at `version`.
#[derive(Clone, Copy, Debug, PartialEq, Eq, Structural)]
pub struct TransactionInfo {
    pub version: Version,
    pub transaction_hash: HashValue,
    pub state_root_hash: HashValue,
    pub event_root_hash: HashValue,
    pub gas_used: u64,
}

/// A signed checkpoint binding an epoch, a version and the accumulator root.
/// `root_hash` and `signature` are carried as recorded; this library neither
/// computes nor checks them.
#[derive(Clone, Copy, Debug, PartialEq, Eq, Structural)]
pub struct LedgerInfoWithSignatures {
    pub epoch: u64,
    pub version: Version,
    pub root_hash: HashValue,
    pub signature: HashValue,
}

/// The serialized state of one account.
#[derive(Clone, Debug, PartialEq, Eq)]
pub struct AccountStateBlob {
    pub bytes: Vec<u8>,
}

impl View for AccountStateBlob {
    type V = Seq<u8>;

    open spec fn view(&self) -> Seq<u8> {
        self.bytes@
    }
}

impl AccountStateBlob {
    /// A copy with the same bytes.
    pub fn duplicate(&self) -> (r: AccountStateBlob)
        ensures
            r@ == self@,
    {
        AccountStateBlob { bytes: self.bytes.clone() }
    }
}

/// Evidence for a contiguous run of accumulator leaves: the leaves to its left
/// (from version 0) and to its right (up to `ledger_version`). The leaves are
/// carried as the store recorded them; no hash ties them to a checkpoint's
/// `root_hash`.
#[derive(Clone, Debug, PartialEq, Eq)]
pub struct TransactionAccumulatorRangeProof {
    pub first_version: Version,
    pub num_leaves: u64,
    pub ledger_version: Version,
    pub left_siblings: Vec<HashValue>,
    pub right_siblings: Vec<HashValue>,
}

impl TransactionAccumulatorRangeProof {
    /// The accumulator's leaves as the proof and the range's own leaves
    /// together give them.
    pub open spec fn all_leaves(self, range_leaves: Seq<HashValue>) -> Seq<HashValue> {
        self.left_siblings@ + range_leaves + self.right_siblings@
    }

    /// The proof, with `range_leaves`, has the shape of the accumulator at
    /// the checkpoint's version: one leaf per version up to it, the range at
    /// its place. This is a check of shape only: no leaf value is compared,
    /// and nothing binds the leaves to the checkpoint's `root_hash`.
    pub open spec fn fits(self, ledger_info: LedgerInfoWithSignatures, range_leaves: Seq<HashValue>) -> bool {
        &&& self.ledger_version == ledger_info.version
        &&& self.num_leaves > 0
        &&& self.num_leaves == range_leaves.len()
        &&& self.first_version == self.left_siblings@.len()
        &&& self.all_leaves(range_leaves).len() == ledger_info.version + 1
    }

    /// Checks that the proof and `range_leaves` have the shape of the
    /// accumulator at the checkpoint (counts and positions only; the
    /// checkpoint's `root_hash` is not consulted).
    pub fn verify(&self, ledger_info: &LedgerInfoWithSignatures, range_leaves: &Vec<HashValue>) -> (r:
        bool)
        ensures
            r == self.fits(*ledger_info, range_leaves@),
    {
        if self.ledger_version != ledger_info.version || self.num_leaves == 0 {
            return false;
        }
        if self.num_leaves != range_leaves.len() as u64 || self.first_version
            != self.left_siblings.len() as u64 {
            return false;
        }
        let total = self.left_siblings.len() as u128 + range_leaves.len() as u128
            + self.right_siblings.len() as u128;
        total == ledger_info.version as u128 + 1
    }
}

/// The outcome at one version, with the accumulator evidence for its leaf.
#[derive(Clone, Debug, PartialEq, Eq)]
pub struct TransactionInfoWithProof {
    pub transaction_info: TransactionInfo,
    pub proof: TransactionAccumulatorRangeProof,
}

/// Evidence that the state tree at `version` holds no key at or below
/// `rightmost_key` beyond those counted in `num_left_leaves`; the keys above
/// the bound are listed in `right_siblings`.
#[derive(Clone, Debug, PartialEq, Eq)]
pub struct SparseMerkleRangeProof {
    pub version: Version,
    pub rightmost_key: HashValue,
    pub num_left_leaves: u64,
    pub right_siblings: Vec<HashValue>,
}

/// Why a backup read failed.
#[derive(Clone, Copy, Debug, PartialEq, Eq, Structural)]
pub enum BackupError {
    /// The last version lies before the first, or the range runs past the
    /// committed data.
    InvalidRange,
    /// Two stores disagree on the same version range.
    StoreInconsistency,
    /// No checkpoint is recorded for the version or epoch asked for.
    MissingCheckpoint,
}

} // verus!
