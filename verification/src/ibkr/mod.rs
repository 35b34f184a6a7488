//! Interactive Brokers activity statements (CSV with sections).
pub mod accounts;
pub mod common;
pub mod error;
pub mod header;
pub mod ids;
pub mod instruments;
pub mod parser;
pub mod positions;
pub mod transactions;
