//! The transaction state machine: one handler per command kind.
//!
//! Every handler is an idempotent no-op on ineligibility and a hard error
//! only on arithmetic overflow. Each handler's contract pins the new
//! engine state to a spec-level transition function on the engine model.

pub mod chargeback_command;
pub mod deposit_command;
pub mod dispatch;
pub mod dispute_command;
pub mod resolve_command;
pub mod tx_command_trait;
pub mod withdrawal_command;
