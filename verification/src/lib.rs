//! StellarFlow price oracle: the decision logic of the oracle contract, verified.
//!
//! The contract's storage is modelled by [`PriceOracle`]; each contract entry point
//! is a method on it that takes what the ledger host supplies (ledger time, caller,
//! the contract's own address) as plain values.
//!
//! - [`pricing`]: percentage moves in basis points, price validity, staleness.
//! - [`bytes`]: byte strings (symbols, addresses) and their lexicographic order.
//! - [`keymap`]: maps keyed by byte strings, kept in key order.
//! - [`types`]: the stored and returned records.
//! - [`auth`]: instance storage: admins, providers, pause flag.
//! - [`asset_symbol`]: the symbols providers may publish.
//! - [`oracle`]: the contract's storage and entry points.
//! - [`laws`]: properties that relate the operations.

pub mod pricing;
pub mod bytes;
pub mod keymap;
pub mod error;
pub mod types;
pub mod asset_symbol;
pub mod auth;
pub mod oracle;
pub mod laws;

pub use error::Error;
pub use oracle::PriceOracle;
pub use pricing::{calculate_percentage_change_bps, calculate_percentage_difference_bps, is_stale, is_valid};
pub use types::{Address, PriceBounds, PriceData, PriceEntry, PriceUpdatedEvent, Symbol};
