//! Pieces shared by the statement sections: the parser's accounts, cash-flow
//! direction, transaction identifiers and date fields.
use vstd::prelude::*;

use super::header::{column_of, SectionHeader};
use crate::dates::{chrono_date, iso_date, iso_text, parse_date_fmt, Date};
use crate::hashing::{hex_spec, prefixed_digest_id, sha256, utf8};
use crate::money::{Amount, AmountV, Sign};
use crate::text::{concat, owned, split_char, split_spec, trim, trim_spec};

verus! {

broadcast use vstd::string::group_string_axioms;

/// The IBKR importer: cash moves through the checking account, securities
/// are held in the savings (trading) account.
pub struct IbkrCsvParser {
    pub account_id_checking: String,
    pub account_id_savings: String,
}

impl IbkrCsvParser {
    pub fn new() -> (p: IbkrCsvParser)
        ensures
            p.account_id_checking@ == "IBKR_CHECKING"@,
            p.account_id_savings@ == "IBKR_SAVINGS"@,
    {
        IbkrCsvParser {
            account_id_checking: owned("IBKR_CHECKING"),
            account_id_savings: owned("IBKR_SAVINGS"),
        }
    }
}

/// The number the caller parsed from the cell under column `name`.
pub open spec fn num_spec<A>(keys: Seq<Seq<char>>, nums: Seq<Option<AmountV<A>>>, name: Seq<char>) -> Option<
    AmountV<A>,
> {
    match column_of(keys, name) {
        Some(i) => if i < nums.len() {
            nums[i]
        } else {
            None
        },
        None => None,
    }
}

pub fn num_at<A: Copy>(header: &SectionHeader, nums: &Vec<Option<Amount<A>>>, name: &str) -> (r: Option<
    Amount<A>,
>)
    ensures
        match r {
            Some(a) => num_spec(header.keys_view(), crate::money::opt_amount_views(nums@), name@)
                == Some(a@),
            None => num_spec(header.keys_view(), crate::money::opt_amount_views(nums@), name@)
                is None,
        },
{
    match header.index_of(name) {
        Some(i) => if i < nums.len() {
            match &nums[i] {
                Some(a) => Some(a.copy()),
                None => None,
            }
        } else {
            None
        },
        None => None,
    }
}

/// Direction of a cash flow on `account`: `(type, from, to)`; money in when
/// the amount is not negative.
pub open spec fn cashflow_spec(account: Seq<char>, sign: Sign) -> (Seq<char>, Seq<char>, Seq<char>) {
    if sign.ge_zero() {
        ("income"@, "EXTERNAL_PAYER"@, account)
    } else {
        ("expense"@, account, "EXTERNAL_PAYEE"@)
    }
}

pub fn cashflow_to_txn(account_id: &str, sign: Sign) -> (r: (String, String, String))
    ensures
        (r.0@, r.1@, r.2@) == cashflow_spec(account_id@, sign),
{
    if sign.is_non_negative() {
        (owned("income"), owned("EXTERNAL_PAYER"), owned(account_id))
    } else {
        (owned("expense"), owned(account_id), owned("EXTERNAL_PAYEE"))
    }
}

/// The text hashed into a transaction identifier.
pub open spec fn txn_key(
    prefix: Seq<char>,
    date: Date,
    amount_text: Seq<char>,
    currency: Seq<char>,
    description: Seq<char>,
    extra: Seq<char>,
) -> Seq<char> {
    prefix + "|"@ + iso_text(date) + "|"@ + amount_text + "|"@ + trim_spec(currency) + "|"@
        + trim_spec(description) + "|"@ + trim_spec(extra)
}

/// `"<prefix>-<24 hex digits of SHA-256(key)>"`.
pub open spec fn txn_id_spec(
    prefix: Seq<char>,
    date: Date,
    amount_text: Seq<char>,
    currency: Seq<char>,
    description: Seq<char>,
    extra: Seq<char>,
) -> Seq<char> {
    prefix + "-"@ + hex_spec(
        sha256(utf8(txn_key(prefix, date, amount_text, currency, description, extra))).take(12),
    )
}

/// Identifier of a transaction; `amount_text` is the amount with eight
/// decimals.
pub fn build_txn_id(
    prefix: &str,
    date: &Date,
    amount_text: &str,
    currency: &str,
    description: &str,
    extra: &str,
) -> (out: String)
    ensures
        out@ == txn_id_spec(prefix@, *date, amount_text@, currency@, description@, extra@),
{
    let mut key = owned(prefix);
    key.append("|");
    key.append(iso_date(date).as_str());
    key.append("|");
    key.append(amount_text);
    key.append("|");
    key.append(trim(currency).as_str());
    key.append("|");
    key.append(trim(description).as_str());
    key.append("|");
    key.append(trim(extra).as_str());
    prefixed_digest_id(prefix, key.as_str(), 12)
}

/// `YYYY-MM-DD` after trimming.
pub open spec fn ymd_spec(s: Seq<char>) -> Option<Date> {
    chrono_date(trim_spec(s), "%Y-%m-%d"@)
}

pub fn parse_yyyy_mm_dd(s: &str) -> (r: Option<Date>)
    ensures
        r == ymd_spec(s@),
{
    let t = trim(s);
    parse_date_fmt(t.as_str(), "%Y-%m-%d")
}

/// The date before the first comma of a `"YYYY-MM-DD, hh:mm:ss"` stamp.
pub open spec fn datetime_date_spec(s: Seq<char>) -> Option<Date> {
    ymd_spec(trim_spec(split_spec(trim_spec(s), ',')[0]))
}

pub fn parse_ibkr_datetime_date(s: &str) -> (r: Option<Date>)
    ensures
        r == datetime_date_spec(s@),
{
    let text = trim(s);
    let parts = split_char(text.as_str(), ',');
    proof {
        crate::text::lemma_split_nonempty(text@, ',');
    }
    let date_part = trim(parts[0].as_str());
    parse_yyyy_mm_dd(date_part.as_str())
}

} // verus!
