//! The instrument a portfolio row names.
use vstd::prelude::*;

use crate::records::{Instrument, InstrumentV};
use crate::text::{concat, owned, trim, trim_spec};

verus! {

broadcast use vstd::string::group_string_axioms;

/// The part of a portfolio row that names its instrument.
pub struct PortfolioRowData {
    pub isin: String,
    pub description: String,
}

/// The instrument of a holding with the given ISIN and description.
pub open spec fn holding_instrument(isin: Seq<char>, description: Seq<char>) -> InstrumentV {
    InstrumentV {
        instrument_id: "ISIN_"@ + trim_spec(isin),
        source: Some("Intesa Sanpaolo"@),
        asset_category: None,
        description: if trim_spec(description).len() == 0 {
            None
        } else {
            Some(trim_spec(description))
        },
        security_id: Some(trim_spec(isin)),
        instrument_type: None,
    }
}

/// The instrument a row names: none when its ISIN is blank, else
/// `ISIN_<isin>` with the description when there is one.
pub fn map_instrument_from_row(row: &PortfolioRowData) -> (out: Option<Instrument>)
    ensures
        match out {
            Some(i) => trim_spec(row.isin@).len() > 0 && i@ == holding_instrument(
                row.isin@,
                row.description@,
            ),
            None => trim_spec(row.isin@).len() == 0,
        },
{
    let isin = trim(row.isin.as_str());
    if isin.unicode_len() == 0 {
        return None;
    }
    let description = trim(row.description.as_str());
    let security_id = trim(row.isin.as_str());
    Some(
        Instrument {
            instrument_id: concat("ISIN_", isin.as_str()),
            source: Some(owned("Intesa Sanpaolo")),
            asset_category: None,
            description: if description.unicode_len() == 0 {
                None
            } else {
                Some(description)
            },
            security_id: Some(security_id),
            instrument_type: None,
        },
    )
}

} // verus!
