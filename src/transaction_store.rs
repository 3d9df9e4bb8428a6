use vstd::prelude::*;
use crate::types::{Transaction, Version};

verus! {

/// The append-only log of committed transactions, indexed by version.
pub struct TransactionStore {
    txns: Vec<Transaction>,
}

impl TransactionStore {
    /// The committed transactions, as (content hash, payload) by version.
    pub closed spec fn transactions(self) -> Seq<(crate::types::HashValue, Seq<u8>)> {
        self.txns@.map_values(|t: Transaction| t@)
    }

    /// A log that holds nothing yet.
    pub fn new() -> (r: TransactionStore)
        ensures
            r.transactions().len() == 0,
    {
        TransactionStore { txns: Vec::new() }
    }

    /// Records the transaction of the next version.
    pub fn append(&mut self, txn: Transaction)
        ensures
            final(self).transactions() == old(self).transactions().push(txn@),
    {
        self.txns.push(txn);
        proof {
            assert(self.transactions() =~= old(self).transactions().push(txn@));
        }
    }

    /// Up to `num` transactions from `start`: fewer where the log ends first.
    pub fn get_transaction_iter(&self, start: Version, num: usize) -> (r: Vec<Transaction>)
        ensures
            start >= self.transactions().len() ==> r@.len() == 0,
            start < self.transactions().len() ==> r@.map_values(|t: Transaction| t@)
                == self.transactions().subrange(
                start as int,
                vstd::math::min(start + num, self.transactions().len() as int),
            ),
    {
        let mut r: Vec<Transaction> = Vec::new();
        let len = self.txns.len();
        if start >= len as u64 {
            return r;
        }
        let s = start as usize;
        let end: usize = if num > len - s { len } else { s + num };
        let mut i: usize = s;
        while i < end
            invariant
                s <= i <= end <= len,
                len == self.txns@.len(),
                r@.map_values(|t: Transaction| t@) == self.transactions().subrange(s as int, i as int),
            decreases end - i,
        {
            let t = self.txns[i].duplicate();
            proof {
                assert(r@.push(t).map_values(|t: Transaction| t@) =~= r@.map_values(
                    |t: Transaction| t@,
                ).push(t@));
                assert(self.transactions().subrange(s as int, i + 1) =~= self.transactions().subrange(
                    s as int,
                    i as int,
                ).push(t@));
            }
            r.push(t);
            i = i + 1;
        }
        r
    }
}

} // verus!
