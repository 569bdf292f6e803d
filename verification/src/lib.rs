//! A role-gated, quorum-based action-authorization engine.
//!
//! A shared account whose sensitive operations are proposed by an authorized
//! party and ratified by a threshold of staked co-signers before they run.
//! Every operation is all-or-nothing: it either commits fully or leaves the
//! state exactly as it was.

pub mod action;
pub mod action_log;
pub mod address;
pub mod admin;
pub mod board;
pub mod dedup;
pub mod error;
pub mod executor;
pub mod gateway;
pub mod laws;
pub mod model;
pub mod multisig;
pub mod proposals;
pub mod quorum;
pub mod registry;
pub mod roles;
pub mod stake;
pub mod staking;
pub mod swap;
pub mod user_role;
pub mod views;

pub use action::{Action, TransactionStatus, Transfer};
pub use address::Address;
pub use error::MultisigError;
pub use gateway::{CurrentTxBatch, ExternalCall};
pub use multisig::Multisig;
pub use swap::{EgldEsdtSwap, EsdtTokenPayment, SwapError, WrappedEgldSwap};
pub use user_role::UserRole;
