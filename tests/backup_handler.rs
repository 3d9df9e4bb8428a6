use std::sync::Arc;

use libradb::{
    AccountStateBlob, BackupError, BackupHandler, HashValue, LedgerInfoWithSignatures, LedgerStore,
    StateStore, Transaction, TransactionInfo, TransactionStore,
};

fn h(hi: u128, lo: u128) -> HashValue {
    HashValue { hi, lo }
}

fn txn(v: u64) -> Transaction {
    Transaction { hash: h(0, 100 + v as u128), payload: vec![v as u8, 7] }
}

fn info(v: u64) -> TransactionInfo {
    TransactionInfo {
        version: v,
        transaction_hash: h(0, 100 + v as u128),
        state_root_hash: h(2, v as u128),
        event_root_hash: h(3, v as u128),
        gas_used: 10 * v,
    }
}

fn leaf(v: u64) -> HashValue {
    h(1, v as u128)
}

fn checkpoint(epoch: u64, version: u64) -> LedgerInfoWithSignatures {
    LedgerInfoWithSignatures {
        epoch,
        version,
        root_hash: h(4, version as u128),
        signature: h(5, epoch as u128),
    }
}

fn blob(b: u8) -> AccountStateBlob {
    AccountStateBlob { bytes: vec![b, b + 1] }
}

/// Versions 0..n in all three stores; `epoch_ends` lists the versions at
/// which an epoch ends.
fn stores(n: u64, epoch_ends: &[u64]) -> (LedgerStore, TransactionStore, StateStore) {
    let mut ledger = LedgerStore::new();
    let mut txns = TransactionStore::new();
    let mut state = StateStore::new();
    for v in 0..n {
        ledger.append(info(v), leaf(v)).unwrap();
        txns.append(txn(v));
        let accounts: Vec<(HashValue, AccountStateBlob)> =
            (0..=v).map(|k| (h(0, 10 * k as u128), blob(k as u8))).collect();
        state.append(accounts).unwrap();
    }
    for (epoch, &end) in epoch_ends.iter().enumerate() {
        ledger.put_ledger_info(checkpoint(epoch as u64, end)).unwrap();
        ledger.end_epoch().unwrap();
    }
    (ledger, txns, state)
}

fn handler(ledger: LedgerStore, txns: TransactionStore, state: StateStore) -> BackupHandler {
    BackupHandler::new(Arc::new(ledger), Arc::new(txns), Arc::new(state))
}

fn six_versions() -> BackupHandler {
    let (ledger, txns, state) = stores(6, &[5]);
    handler(ledger, txns, state)
}

#[test]
fn range_proof_three_leaves_in_first_epoch() {
    let b = six_versions();
    let (proof, li) = b.get_transaction_range_proof(2, 4).unwrap();
    assert_eq!(li.epoch, 0);
    assert_eq!(li.version, 5);
    assert_eq!(proof.first_version, 2);
    assert_eq!(proof.num_leaves, 3);
    assert_eq!(proof.ledger_version, 5);
    assert_eq!(proof.left_siblings, vec![leaf(0), leaf(1)]);
    assert_eq!(proof.right_siblings, vec![leaf(5)]);
}

#[test]
fn transaction_range_three_items_match_hashes() {
    let b = six_versions();
    let items = b.get_transaction_iter(2, 3);
    assert_eq!(items.len(), 3);
    for (i, item) in items.into_iter().enumerate() {
        let (t, ti) = item.unwrap();
        assert_eq!(ti.version, 2 + i as u64);
        assert_eq!(ti.transaction_hash, t.hash);
        assert_eq!(t.payload, vec![(2 + i) as u8, 7]);
    }
}

#[test]
fn reversed_range_is_invalid() {
    let b = six_versions();
    assert_eq!(b.get_transaction_range_proof(5, 2), Err(BackupError::InvalidRange));
}

#[test]
fn reversed_range_on_empty_store_is_invalid() {
    let b = handler(LedgerStore::new(), TransactionStore::new(), StateStore::new());
    assert_eq!(b.get_transaction_range_proof(1, 0), Err(BackupError::InvalidRange));
}

#[test]
fn range_past_committed_versions_is_invalid() {
    let b = six_versions();
    assert_eq!(b.get_transaction_range_proof(2, 6), Err(BackupError::InvalidRange));
}

#[test]
fn single_version_range_proof() {
    let b = six_versions();
    let (proof, li) = b.get_transaction_range_proof(5, 5).unwrap();
    assert_eq!(li.version, 5);
    assert_eq!(proof.num_leaves, 1);
    assert_eq!(proof.left_siblings.len(), 5);
    assert!(proof.right_siblings.is_empty());
}

#[test]
fn range_in_open_epoch_uses_latest_checkpoint() {
    let (mut ledger, mut txns, mut state) = stores(6, &[2]);
    ledger.put_ledger_info(checkpoint(1, 4)).unwrap();
    for v in 6..8 {
        ledger.append(info(v), leaf(v)).unwrap();
        txns.append(txn(v));
        state.append(vec![]).unwrap();
    }
    let b = handler(ledger, txns, state);
    let (proof, li) = b.get_transaction_range_proof(3, 4).unwrap();
    assert_eq!(li, checkpoint(1, 4));
    assert_eq!(proof.left_siblings, vec![leaf(0), leaf(1), leaf(2)]);
    assert!(proof.right_siblings.is_empty());
    let (p0, li0) = b.get_transaction_range_proof(0, 2).unwrap();
    assert_eq!(li0, checkpoint(0, 2));
    assert_eq!(p0.num_leaves, 3);
    // Version 6 lies after the latest checkpoint of the open epoch.
    assert_eq!(b.get_transaction_range_proof(5, 6), Err(BackupError::MissingCheckpoint));
}

#[test]
fn range_without_checkpoint_is_missing() {
    let (ledger, txns, state) = stores(4, &[]);
    let b = handler(ledger, txns, state);
    assert_eq!(b.get_transaction_range_proof(0, 1), Err(BackupError::MissingCheckpoint));
    assert_eq!(b.get_state_root_proof(1), Err(BackupError::MissingCheckpoint));
}

#[test]
fn epoch_lookup_by_binary_search() {
    let (ledger, _, _) = stores(12, &[1, 4, 5, 9]);
    assert_eq!(ledger.get_epoch(0), Ok(0));
    assert_eq!(ledger.get_epoch(1), Ok(0));
    assert_eq!(ledger.get_epoch(2), Ok(1));
    assert_eq!(ledger.get_epoch(4), Ok(1));
    assert_eq!(ledger.get_epoch(5), Ok(2));
    assert_eq!(ledger.get_epoch(6), Ok(3));
    assert_eq!(ledger.get_epoch(9), Ok(3));
    assert_eq!(ledger.get_epoch(10), Ok(4));
    assert_eq!(ledger.get_epoch(11), Ok(4));
    assert_eq!(ledger.get_epoch(12), Err(BackupError::InvalidRange));
}

#[test]
fn transaction_range_past_end_fails_per_item() {
    let b = six_versions();
    let items = b.get_transaction_iter(4, 4);
    assert_eq!(items.len(), 4);
    assert!(items[0].is_ok());
    assert!(items[1].is_ok());
    assert_eq!(items[2], Err(BackupError::InvalidRange));
    assert_eq!(items[3], Err(BackupError::InvalidRange));
}

#[test]
fn transaction_range_with_gap_is_inconsistent() {
    let (mut ledger, txns, state) = stores(3, &[]);
    ledger.append(info(3), leaf(3)).unwrap();
    let b = handler(ledger, txns, state);
    let items = b.get_transaction_iter(1, 4);
    assert!(items[0].is_ok());
    assert!(items[1].is_ok());
    assert_eq!(items[2], Err(BackupError::StoreInconsistency));
    assert_eq!(items[3], Err(BackupError::InvalidRange));
}

#[test]
fn transaction_range_with_hash_mismatch_is_inconsistent() {
    let (ledger, _, state) = stores(3, &[]);
    let mut txns = TransactionStore::new();
    txns.append(txn(0));
    txns.append(Transaction { hash: h(9, 9), payload: vec![] });
    txns.append(txn(2));
    let b = handler(ledger, txns, state);
    let items = b.get_transaction_iter(0, 3);
    assert!(items[0].is_ok());
    assert_eq!(items[1], Err(BackupError::StoreInconsistency));
    assert!(items[2].is_ok());
}

#[test]
fn empty_transaction_range() {
    let b = six_versions();
    assert!(b.get_transaction_iter(3, 0).is_empty());
}

#[test]
fn ledger_rejects_out_of_order_append() {
    let mut ledger = LedgerStore::new();
    assert_eq!(ledger.append(info(1), leaf(1)), Err(BackupError::InvalidRange));
    assert_eq!(ledger.append(info(0), leaf(0)), Ok(()));
    assert_eq!(ledger.num_transactions(), 1);
    assert_eq!(ledger.end_epoch(), Err(BackupError::MissingCheckpoint));
    assert_eq!(ledger.put_ledger_info(checkpoint(1, 0)), Err(BackupError::InvalidRange));
    assert_eq!(ledger.put_ledger_info(checkpoint(0, 1)), Err(BackupError::InvalidRange));
    assert_eq!(ledger.put_ledger_info(checkpoint(0, 0)), Ok(()));
}

#[test]
fn account_iter_keys_increase() {
    let b = six_versions();
    let accounts = b.get_account_iter(3).unwrap();
    assert_eq!(accounts.len(), 4);
    for w in accounts.windows(2) {
        assert!(w[0].0.less_than(&w[1].0));
    }
    assert_eq!(accounts[0].0, HashValue::zero());
    assert_eq!(accounts[2], (h(0, 20), blob(2)));
    assert_eq!(b.get_account_iter(6), Err(BackupError::InvalidRange));
}

#[test]
fn state_rejects_unsorted_accounts() {
    let mut state = StateStore::new();
    let unsorted = vec![(h(0, 5), blob(1)), (h(0, 5), blob(2))];
    assert_eq!(state.append(unsorted), Err(BackupError::InvalidRange));
    let sorted = vec![(h(0, 5), blob(1)), (h(1, 0), blob(2))];
    assert_eq!(state.append(sorted), Ok(()));
    assert_eq!(state.get_account_iter(0).unwrap().len(), 2);
}

#[test]
fn account_range_proof_splits_at_rightmost_key() {
    let b = six_versions();
    // Keys at version 5: 0, 10, 20, 30, 40, 50.
    let p = b.get_account_state_range_proof(h(0, 25), 5).unwrap();
    assert_eq!(p.num_left_leaves, 3);
    assert_eq!(p.right_siblings, vec![h(0, 30), h(0, 40), h(0, 50)]);
    let chunk: Vec<HashValue> =
        b.get_account_iter(5).unwrap().into_iter().take(3).map(|(k, _)| k).collect();
    assert_eq!(chunk, vec![h(0, 0), h(0, 10), h(0, 20)]);
    let at_key = b.get_account_state_range_proof(h(0, 30), 5).unwrap();
    assert_eq!(at_key.num_left_leaves, 4);
    let all = b.get_account_state_range_proof(h(1, 0), 5).unwrap();
    assert_eq!(all.num_left_leaves, 6);
    assert!(all.right_siblings.is_empty());
    assert_eq!(b.get_account_state_range_proof(h(0, 0), 9), Err(BackupError::InvalidRange));
}

#[test]
fn latest_state_root() {
    let b = six_versions();
    assert_eq!(b.get_latest_state_root(), Ok((5, h(2, 5))));
    let empty = handler(LedgerStore::new(), TransactionStore::new(), StateStore::new());
    assert_eq!(empty.get_latest_state_root(), Err(BackupError::InvalidRange));
}

#[test]
fn state_root_proof_against_epoch_checkpoint() {
    let b = six_versions();
    let (p, li) = b.get_state_root_proof(3).unwrap();
    assert_eq!(li, checkpoint(0, 5));
    assert_eq!(p.transaction_info, info(3));
    assert_eq!(p.proof.num_leaves, 1);
    assert_eq!(p.proof.left_siblings, vec![leaf(0), leaf(1), leaf(2)]);
    assert_eq!(p.proof.right_siblings, vec![leaf(4), leaf(5)]);
    assert_eq!(b.get_state_root_proof(6), Err(BackupError::InvalidRange));
}

#[test]
fn epoch_checkpoints_are_consecutive() {
    let (ledger, txns, state) = stores(10, &[1, 4, 7]);
    let b = handler(ledger, txns, state);
    let lis = b.get_epoch_ending_ledger_info_iter(1, 3);
    assert_eq!(lis, vec![Ok(checkpoint(1, 4)), Ok(checkpoint(2, 7))]);
    assert!(b.get_epoch_ending_ledger_info_iter(2, 2).is_empty());
    assert!(b.get_epoch_ending_ledger_info_iter(3, 1).is_empty());
}

#[test]
fn unfinished_epoch_fails_in_place() {
    let (ledger, txns, state) = stores(10, &[1, 4, 7]);
    let b = handler(ledger, txns, state);
    let lis = b.get_epoch_ending_ledger_info_iter(1, 5);
    assert_eq!(
        lis,
        vec![
            Ok(checkpoint(1, 4)),
            Ok(checkpoint(2, 7)),
            Err(BackupError::MissingCheckpoint),
            Err(BackupError::MissingCheckpoint),
        ]
    );
    let all = b.get_epoch_ending_ledger_info_iter(0, 4);
    assert_eq!(all.len(), 4);
    for (i, li) in all.iter().take(3).enumerate() {
        assert_eq!(li.as_ref().unwrap().epoch, i as u64);
    }
    assert_eq!(all[3], Err(BackupError::MissingCheckpoint));
}

#[test]
fn account_count_matches_iteration() {
    let (_, _, state) = stores(6, &[5]);
    for v in 0..6 {
        let n = state.get_account_count(v).unwrap();
        assert_eq!(n, v + 1);
        assert_eq!(state.get_account_iter(v).unwrap().len() as u64, n);
    }
    assert_eq!(state.get_account_count(6), Err(BackupError::InvalidRange));
}

#[test]
fn range_proof_verifies_with_its_leaves() {
    let b = six_versions();
    let (proof, li) = b.get_transaction_range_proof(2, 4).unwrap();
    let range = vec![leaf(2), leaf(3), leaf(4)];
    assert!(proof.verify(&li, &range));
    assert!(!proof.verify(&li, &vec![leaf(2), leaf(3)]));
    assert!(!proof.verify(&checkpoint(1, 6), &range));
}
