use vstd::prelude::*;
use crate::types::{AccountStateBlob, BackupError, HashValue, SparseMerkleRangeProof, Version};

verus! {

/// One account of a snapshot, as (key, state bytes).
pub open spec fn entry_view(e: (HashValue, AccountStateBlob)) -> (HashValue, Seq<u8>) {
    (e.0, e.1@)
}

pub open spec fn entries_view(s: Seq<(HashValue, AccountStateBlob)>) -> Seq<(HashValue, Seq<u8>)> {
    s.map_values(|e: (HashValue, AccountStateBlob)| entry_view(e))
}

/// Keys strictly increase along `s`, so no key occurs twice.
pub open spec fn keys_increasing(s: Seq<(HashValue, Seq<u8>)>) -> bool {
    forall|i: int, j: int| 0 <= i < j < s.len() ==> (#[trigger] s[i]).0.key_lt((#[trigger] s[j]).0)
}

/// `k` splits the sorted snapshot `s` at `rightmost_key`: the first `k`
/// accounts have keys at or below it, the others above it.
pub open spec fn splits_at(s: Seq<(HashValue, Seq<u8>)>, rightmost_key: HashValue, k: int) -> bool {
    &&& 0 <= k <= s.len()
    &&& forall|i: int| 0 <= i < k ==> (#[trigger] s[i]).0.key_le(rightmost_key)
    &&& forall|i: int| k <= i < s.len() ==> rightmost_key.key_lt((#[trigger] s[i]).0)
}

/// A backup chunk made of the first `num_left_leaves` accounts of a tree, as
/// its range proof counts them, leaves out no account whose key is at or
/// below the proof's rightmost key, and holds no account above it.
pub proof fn lemma_range_proof_complete(
    s: Seq<(HashValue, Seq<u8>)>,
    rightmost_key: HashValue,
    num_left_leaves: int,
    chunk: Seq<(HashValue, Seq<u8>)>,
)
    requires
        keys_increasing(s),
        splits_at(s, rightmost_key, num_left_leaves),
        chunk == s.subrange(0, num_left_leaves),
    ensures
        forall|i: int| 0 <= i < s.len() && (#[trigger] s[i]).0.key_le(rightmost_key) ==> chunk.contains(
            s[i],
        ),
        forall|j: int| 0 <= j < chunk.len() ==> (#[trigger] chunk[j]).0.key_le(rightmost_key),
{
    assert forall|i: int| 0 <= i < s.len() && (#[trigger] s[i]).0.key_le(rightmost_key) implies chunk.contains(
        s[i],
    ) by {
        if i >= num_left_leaves {
            assert(rightmost_key.key_lt(s[i].0));
        }
        assert(chunk[i] == s[i]);
    }
    assert forall|j: int| 0 <= j < chunk.len() implies (#[trigger] chunk[j]).0.key_le(rightmost_key) by {
        assert(chunk[j] == s[j]);
    }
}

/// The versioned account state: for each version, the accounts of the tree
/// at that version in increasing key order.
pub struct StateStore {
    snapshots: Vec<Vec<(HashValue, AccountStateBlob)>>,
}

impl StateStore {
    /// The tree at each version, as its accounts in key order.
    pub closed spec fn snapshots(self) -> Seq<Seq<(HashValue, Seq<u8>)>> {
        self.snapshots@.map_values(|s: Vec<(HashValue, AccountStateBlob)>| entries_view(s@))
    }

    pub open spec fn well_formed(self) -> bool {
        forall|v: int| 0 <= v < self.snapshots().len() ==> keys_increasing(#[trigger] self.snapshots()[v])
    }

    /// A store that holds no version yet.
    pub fn new() -> (r: StateStore)
        ensures
            r.well_formed(),
            r.snapshots().len() == 0,
    {
        StateStore { snapshots: Vec::new() }
    }

    /// Records the tree of the next version; its accounts must come in
    /// strictly increasing key order.
    pub fn append(&mut self, entries: Vec<(HashValue, AccountStateBlob)>) -> (r: Result<(), BackupError>)
        requires
            old(self).well_formed(),
        ensures
            final(self).well_formed(),
            r is Ok <==> keys_increasing(entries_view(entries@)),
            r is Ok ==> final(self).snapshots() == old(self).snapshots().push(entries_view(entries@)),
            r is Err ==> r->Err_0 == BackupError::InvalidRange && final(self).snapshots() == old(
                self,
            ).snapshots(),
    {
        let n = entries.len();
        let mut i: usize = 1;
        while i < n
            invariant
                self.well_formed(),
                self.snapshots() == old(self).snapshots(),
                1 <= i || n == 0,
                n == entries@.len(),
                i <= n || n == 0,
                keys_increasing(entries_view(entries@).subrange(0, i as int)) || n == 0,
            decreases n - i,
        {
            if !entries[i - 1].0.less_than(&entries[i].0) {
                proof {
                    let s = entries_view(entries@);
                    assert(s[i - 1] == entry_view(entries@[i - 1]));
                    assert(s[i as int] == entry_view(entries@[i as int]));
                    assert(!s[i - 1].0.key_lt(s[i as int].0));
                }
                return Err(BackupError::InvalidRange);
            }
            proof {
                let s = entries_view(entries@);
                let p = s.subrange(0, i as int);
                let q = s.subrange(0, i + 1);
                assert forall|a: int, b: int| 0 <= a < b < q.len() implies (#[trigger] q[a]).0.key_lt(
                    (#[trigger] q[b]).0,
                ) by {
                    if b < i {
                        assert(p[a] == q[a] && p[b] == q[b]);
                    } else if a < i - 1 {
                        assert(p[a] == q[a] && p[i - 1] == q[i - 1]);
                        assert(p[a].0.key_lt(p[i - 1].0));
                    }
                }
            }
            i = i + 1;
        }
        proof {
            if n > 0 {
                assert(entries_view(entries@).subrange(0, n as int) =~= entries_view(entries@));
            }
        }
        self.snapshots.push(entries);
        proof {
            assert(self.snapshots() =~= old(self).snapshots().push(entries_view(entries@)));
        }
        Ok(())
    }
    /// The accounts of the tree at `version`, in increasing key order from
    /// the smallest key.
    pub fn get_account_iter(&self, version: Version) -> (r: Result<
        Vec<(HashValue, AccountStateBlob)>,
        BackupError,
    >)
        requires
            self.well_formed(),
        ensures
            r is Ok <==> version < self.snapshots().len(),
            r is Ok ==> entries_view(r->Ok_0@) == self.snapshots()[version as int],
            r is Err ==> r->Err_0 == BackupError::InvalidRange,
    {
        let nv = self.snapshots.len();
        if version >= nv as u64 {
            return Err(BackupError::InvalidRange);
        }
        let snap = &self.snapshots[version as usize];
        assert(entries_view(snap@) == self.snapshots()[version as int]);
        let mut r: Vec<(HashValue, AccountStateBlob)> = Vec::new();
        let mut i: usize = 0;
        while i < snap.len()
            invariant
                i <= snap@.len(),
                entries_view(r@) == entries_view(snap@).subrange(0, i as int),
            decreases snap@.len() - i,
        {
            let e = (snap[i].0, snap[i].1.duplicate());
            proof {
                assert(entries_view(r@.push(e)) =~= entries_view(r@).push(entry_view(e)));
                assert(entries_view(snap@).subrange(0, i + 1) =~= entries_view(snap@).subrange(
                    0,
                    i as int,
                ).push(entry_view(snap@[i as int])));
            }
            r.push(e);
            i = i + 1;
        }
        proof {
            assert(entries_view(snap@).subrange(0, i as int) =~= entries_view(snap@));
        }
        Ok(r)
    }

    /// Evidence that the tree at `version` holds no key at or below
    /// `rightmost_key` but its first `num_left_leaves` accounts; the keys
    /// above the bound follow in `right_siblings`.
    pub fn get_account_state_range_proof(&self, rightmost_key: HashValue, version: Version) -> (r:
        Result<SparseMerkleRangeProof, BackupError>)
        requires
            self.well_formed(),
        ensures
            r is Ok <==> version < self.snapshots().len(),
            r is Ok ==> {
                let p = r->Ok_0;
                let s = self.snapshots()[version as int];
                &&& p.version == version
                &&& p.rightmost_key == rightmost_key
                &&& splits_at(s, rightmost_key, p.num_left_leaves as int)
                &&& p.right_siblings@ == s.subrange(p.num_left_leaves as int, s.len() as int).map_values(
                    |e: (HashValue, Seq<u8>)| e.0,
                )
            },
            r is Err ==> r->Err_0 == BackupError::InvalidRange,
    {
        let nv = self.snapshots.len();
        if version >= nv as u64 {
            return Err(BackupError::InvalidRange);
        }
        let snap = &self.snapshots[version as usize];
        let ghost s = self.snapshots()[version as int];
        assert(entries_view(snap@) == s);
        let n = snap.len();
        let mut k: usize = 0;
        while k < n && !rightmost_key.less_than(&snap[k].0)
            invariant
                k <= n == snap@.len() == s.len(),
                s == entries_view(snap@),
                forall|i: int| 0 <= i < k ==> (#[trigger] s[i]).0.key_le(rightmost_key),
            decreases n - k,
        {
            proof {
                assert(s[k as int] == entry_view(snap@[k as int]));
                assert(!rightmost_key.key_lt(s[k as int].0));
            }
            k = k + 1;
        }
        proof {
            assert forall|i: int| k <= i < s.len() implies rightmost_key.key_lt((#[trigger] s[i]).0) by {
                assert(s[k as int] == entry_view(snap@[k as int]));
                if i > k {
                    assert(s[k as int].0.key_lt(s[i].0));
                }
            }
        }
        let mut right: Vec<HashValue> = Vec::new();
        let mut j: usize = k;
        while j < n
            invariant
                k <= j <= n == snap@.len() == s.len(),
                s == entries_view(snap@),
                right@ == s.subrange(k as int, j as int).map_values(|e: (HashValue, Seq<u8>)| e.0),
            decreases n - j,
        {
            proof {
                assert(s[j as int] == entry_view(snap@[j as int]));
                assert(s.subrange(k as int, j + 1).map_values(|e: (HashValue, Seq<u8>)| e.0)
                    =~= s.subrange(k as int, j as int).map_values(|e: (HashValue, Seq<u8>)| e.0).push(
                    snap@[j as int].0,
                ));
            }
            right.push(snap[j].0);
            j = j + 1;
        }
        Ok(
            SparseMerkleRangeProof {
                version,
                rightmost_key,
                num_left_leaves: k as u64,
                right_siblings: right,
            },
        )
    }
    /// The number of accounts in the tree at `version`.
    pub fn get_account_count(&self, version: Version) -> (r: Result<u64, BackupError>)
        requires
            self.well_formed(),
        ensures
            r is Ok <==> version < self.snapshots().len(),
            r is Ok ==> r->Ok_0 == self.snapshots()[version as int].len(),
            r is Err ==> r->Err_0 == BackupError::InvalidRange,
    {
        let nv = self.snapshots.len();
        if version >= nv as u64 {
            return Err(BackupError::InvalidRange);
        }
        let snap = &self.snapshots[version as usize];
        assert(entries_view(snap@) == self.snapshots()[version as int]);
        Ok(snap.len() as u64)
    }
}

} // verus!
