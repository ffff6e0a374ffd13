//! Reputation aggregator: tracks, per network node and agreement, the
//! money-flow status reported against bilateral agreements, together with the
//! one-time agreement metadata, and derives per-node views of that state.
//!
//! The crate is organised around a small set of verified pieces:
//! a decimal amount model, the reconciliation store with its two keyed
//! tables, the report protocol that classifies each status report, the
//! JSON encoders for the wire format, and the replay driver that migrates
//! a legacy ledger under bounded concurrency.
pub mod amount;
pub mod client;
pub mod codec;
pub mod model;
pub mod replay;
pub mod report;
pub mod store;
mod text;
pub mod time;

pub use amount::Amount;
pub use client::AgreementRole;
pub use model::{Agreement, AgreementInfo, ReportResult, Role, StandardScore, Status, StatusBuilder,
    Timestamp};
pub use replay::{LegacyRow, ReplayDriver, ReportRequest, RowError, RowOutcome};
pub use report::{RawStatus, ValidationError};
pub use store::StatusDao;
