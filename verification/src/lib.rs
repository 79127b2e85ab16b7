//! A verified replay engine for a log of financial transaction events.
//!
//! An ordered stream of commands (deposit, withdrawal, dispute, resolve,
//! chargeback) is applied one at a time to a set of client accounts. The
//! engine enforces strict idempotency and eligibility rules: ineligible
//! commands are silent no-ops, and arithmetic overflow is a hard error for
//! the single offending command.

pub mod amount;
pub mod cli;
pub mod commands;
pub mod conservation;
pub mod consts;
pub mod csv_models;
pub mod csv_service;
pub mod domain_state;
pub mod errors;
pub mod identifiers;
pub mod state;
pub mod tx_command;
