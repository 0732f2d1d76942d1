//! An access-control registry: one record of configuration, a blacklist
//! with one entry for each blacklisted address, a two-step transfer of
//! ownership, and the decision whether an address is allowed, which may
//! come to the answer of a sanctions oracle.
//!
//! Every operation is a function from the state before it, and what the
//! caller hands in, to the state after it or an error; an operation that
//! fails changes nothing.

pub mod address;
pub mod error;
pub mod instructions;
pub mod state;
pub mod store;
pub mod token_starter;

pub use address::Address;
pub use error::{AccessRegistryError, OracleFailure};
pub use instructions::accept_ownership::handler as accept_ownership;
pub use instructions::get_approved_batch::handler as get_approved_batch;
pub use instructions::initialize::handler as initialize;
pub use instructions::is_approved::handler as is_approved;
pub use instructions::is_approved::ApprovalStep;
pub use instructions::is_sanctioned_by_chainalysis::handler as is_sanctioned_by_chainalysis;
pub use instructions::set_blacklisted::handler as set_blacklisted;
pub use instructions::set_blacklisted_batch::handler as set_blacklisted_batch;
pub use instructions::transfer_ownership::handler as transfer_ownership;
pub use state::{AccessRegistry, BlacklistEntry, MAX_BATCH_SIZE};
pub use store::BlacklistStore;
