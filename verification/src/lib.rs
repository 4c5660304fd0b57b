//! A collateralized micro-lending engine.
//!
//! A borrower locks a uniquely identified asset, draws a principal, and either
//! repays it to free the asset or forfeits the asset to a liquidator once the
//! term has run out. Every operation is a total function of the engine's state
//! and of plain values handed in by the host; its contract says exactly which
//! state and which answer come out.

pub mod account;
pub mod consistency;
pub mod engine;
pub mod laws;
pub mod ledger;
pub mod loan;
pub mod preservation;
pub mod snapshot;

pub use account::AccountId;
pub use engine::{EngineView, LendingNFT, MintOrder, MintView, TransferOrder, TransferView};
pub use ledger::{LedgerView, LoanLedger};
pub use loan::{LoanError, LoanRecord, LoanStatus, LoanView};
