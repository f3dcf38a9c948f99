//! A watch-only wallet view engine: derives a window of addresses from a pair
//! of output descriptors, joins batched indexer figures onto them, turns
//! synced transactions and unspent outputs into signed, height-sorted view
//! rows, and swaps the three resulting collections in atomically.

pub mod types;
pub mod sort;
pub mod deriv;
pub mod indexer;
pub mod store;
pub mod view;

