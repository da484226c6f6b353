//! A stake-pool ledger: the fee schedule, the three lifecycle certificates,
//! transaction assembly and the ledger state machine that applies them.

pub mod certificate;
pub mod error;
pub mod fees;
pub mod keys;
pub mod ledger;
pub mod lifecycle;
pub mod model;
mod table;
pub mod transaction;
