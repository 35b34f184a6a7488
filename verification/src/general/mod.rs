//! The general importer: any CSV or spreadsheet, unfolded into plain rows,
//! normalized by an AI model, and checked and completed here.
pub mod accounts;
pub mod issues;
pub mod normalize;
pub mod transactions;
pub mod unfold;
