//! Alipay bill exports (CSV, often GB18030-encoded, with a preamble before
//! the table).
pub mod transactions;

use vstd::prelude::*;

use crate::records::Instrument;
use crate::text::owned;

verus! {

broadcast use vstd::string::group_string_axioms;

/// The Alipay importer: one wallet account in one currency; by default only
/// successful payments and refunds are imported.
pub struct AlipayCsvParser {
    pub account_id: String,
    pub currency: String,
    pub only_successful: bool,
}

impl AlipayCsvParser {
    pub fn new(account_id: &str) -> (p: AlipayCsvParser)
        ensures
            p.account_id@ == account_id@,
            p.currency@ == "CNY"@,
            p.only_successful,
    {
        AlipayCsvParser { account_id: owned(account_id), currency: owned("CNY"), only_successful: true }
    }

    pub fn with_currency(self, currency: &str) -> (p: AlipayCsvParser)
        ensures
            p.account_id@ == self.account_id@,
            p.currency@ == currency@,
            p.only_successful == self.only_successful,
    {
        let mut p = self;
        p.currency = owned(currency);
        p
    }

    pub fn with_only_successful(self, only_successful: bool) -> (p: AlipayCsvParser)
        ensures
            p.account_id@ == self.account_id@,
            p.currency@ == self.currency@,
            p.only_successful == only_successful,
    {
        let mut p = self;
        p.only_successful = only_successful;
        p
    }
}

/// Alipay statements list no investment instruments yet.
pub fn create_instruments() -> (v: Vec<Instrument>)
    ensures
        v@.len() == 0,
{
    Vec::new()
}

/// Alipay statements list no investment instruments yet.
pub fn map_instrument_from_row() -> (r: Option<Instrument>)
    ensures
        r is None,
{
    None
}

} // verus!
