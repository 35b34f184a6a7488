//! Verified core of the Matapan bank-statement importers.
pub mod ai_client;
pub mod alipay;
pub mod carpay;
pub mod ccb;
pub mod cli;
pub mod csvtext;
pub mod dashboard;
pub mod dates;
pub mod encoding;
pub mod general;
pub mod hashing;
pub mod ibkr;
pub mod idset;
pub mod intesa;
pub mod money;
pub mod records;
pub mod revolut;
pub mod rules;
pub mod seb;
pub mod text;
