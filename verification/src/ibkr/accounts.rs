//! The two accounts an IBKR statement feeds, and the statement date a file
//! name can carry.
use vstd::prelude::*;

use super::common::IbkrCsvParser;
use super::error::IbkrError;
use crate::csvtext::{csv_records_loose, read_records_loose, table_views};
use crate::dates::{chrono_date, parse_date_fmt, Date};
use crate::records::{Account, AccountV};
use crate::text::{chars_of, owned, split_char, split_spec, string_of_range};

verus! {

broadcast use vstd::string::group_string_axioms;

pub open spec fn ibkr_account(id: Seq<char>) -> AccountV {
    AccountV { account_id: id, institution: "IBKR"@, country: None, iban: None, bic: None, is_active: true }
}

pub fn field_checking_account_id(parser: &IbkrCsvParser) -> (out: String)
    ensures
        out@ == parser.account_id_checking@,
{
    parser.account_id_checking.clone()
}

pub fn field_savings_account_id(parser: &IbkrCsvParser) -> (out: String)
    ensures
        out@ == parser.account_id_savings@,
{
    parser.account_id_savings.clone()
}

pub fn field_institution() -> (out: String)
    ensures
        out@ == "IBKR"@,
{
    owned("IBKR")
}

pub fn field_country() -> (out: Option<String>)
    ensures
        out is None,
{
    None
}

pub fn field_iban() -> (out: Option<String>)
    ensures
        out is None,
{
    None
}

pub fn field_bic() -> (out: Option<String>)
    ensures
        out is None,
{
    None
}

pub fn field_is_active() -> (out: bool)
    ensures
        out,
{
    true
}

pub fn build_checking_account(parser: &IbkrCsvParser) -> (a: Account)
    ensures
        a@ == ibkr_account(parser.account_id_checking@),
{
    Account {
        account_id: field_checking_account_id(parser),
        institution: field_institution(),
        country: field_country(),
        iban: field_iban(),
        bic: field_bic(),
        is_active: field_is_active(),
    }
}

pub fn build_savings_account(parser: &IbkrCsvParser) -> (a: Account)
    ensures
        a@ == ibkr_account(parser.account_id_savings@),
{
    Account {
        account_id: field_savings_account_id(parser),
        institution: field_institution(),
        country: field_country(),
        iban: field_iban(),
        bic: field_bic(),
        is_active: field_is_active(),
    }
}

/// Both accounts: checking first, then savings.
pub fn create_all_accounts(parser: &IbkrCsvParser) -> (v: Vec<Account>)
    ensures
        v@.len() == 2,
        v@[0]@ == ibkr_account(parser.account_id_checking@),
        v@[1]@ == ibkr_account(parser.account_id_savings@),
{
    let mut v = Vec::new();
    v.push(build_checking_account(parser));
    v.push(build_savings_account(parser));
    v
}

impl IbkrCsvParser {
    pub fn create_accounts(&self) -> (v: Vec<Account>)
        ensures
            v@.len() == 2,
            v@[0]@ == ibkr_account(self.account_id_checking@),
            v@[1]@ == ibkr_account(self.account_id_savings@),
    {
        create_all_accounts(self)
    }

    /// The records of a statement's CSV text.
    pub fn read_records(&self, text: &str) -> (r: Result<Vec<Vec<String>>, String>)
        ensures
            match r {
                Ok(v) => csv_records_loose(text@) == Some(table_views(v@)),
                Err(_) => csv_records_loose(text@) is None,
            },
    {
        read_records_loose(text)
    }
}

/// The statement end a file stem like `U1234567_20250131` carries: its last
/// `_`-separated token when that is eight ASCII digits forming a date.
pub open spec fn stem_date_spec(stem: Seq<char>) -> Option<Date> {
    let parts = split_spec(stem, '_');
    let last = parts[parts.len() - 1];
    if last.len() == 8 && forall|i: int| 0 <= i < 8 ==> crate::text::is_digit(#[trigger] last[i]) {
        chrono_date(last, "%Y%m%d"@)
    } else {
        None
    }
}

pub fn extract_statement_end_from_filename(stem: &str) -> (r: Option<Date>)
    ensures
        r == stem_date_spec(stem@),
{
    let parts = split_char(stem, '_');
    proof {
        crate::text::lemma_split_nonempty(stem@, '_');
    }
    let last = &parts[parts.len() - 1];
    let ghost want = split_spec(stem@, '_')[split_spec(stem@, '_').len() - 1];
    assert(last@ == want);
    let cs = chars_of(last.as_str());
    if cs.len() != 8 {
        return None;
    }
    let mut i: usize = 0;
    while i < 8
        invariant
            i <= 8,
            cs@.len() == 8,
            cs@ == want,
            want == split_spec(stem@, '_')[split_spec(stem@, '_').len() - 1],
            forall|j: int| 0 <= j < i ==> crate::text::is_digit(#[trigger] cs@[j]),
        decreases 8 - i,
    {
        if !('0' <= cs[i] && cs[i] <= '9') {
            assert(!crate::text::is_digit(want[i as int]));
            return None;
        }
        i = i + 1;
    }
    parse_date_fmt(last.as_str(), "%Y%m%d")
}

} // verus!
