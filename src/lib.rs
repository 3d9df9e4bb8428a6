//! Read-only backup access to a versioned, authenticated ledger database.
//!
//! A [`BackupHandler`] composes three stores (the transaction log, the
//! authenticated ledger and the versioned account state) and hands out
//! ranges of transactions, account states and epoch-ending checkpoints,
//! each paired with what a restoring party needs to check it.

pub mod types;
pub mod ledger_store;
pub mod transaction_store;
pub mod state_store;
pub mod backup_handler;

pub use types::{
    AccountStateBlob, BackupError, HashValue, LedgerInfoWithSignatures, SparseMerkleRangeProof,
    Transaction, TransactionAccumulatorRangeProof, TransactionInfo, TransactionInfoWithProof,
    Version,
};
pub use ledger_store::LedgerStore;
pub use transaction_store::TransactionStore;
pub use state_store::StateStore;
pub use backup_handler::BackupHandler;
