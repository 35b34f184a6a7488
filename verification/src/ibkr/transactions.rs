//! Cash sections of the statement (deposits & withdrawals, fees, interest,
//! withholding tax), trades and corporate actions, each row becoming one or
//! two transactions.
use vstd::prelude::*;

use super::common::{
    build_txn_id, cashflow_spec, cashflow_to_txn, datetime_date_spec,
    num_at, num_spec, parse_ibkr_datetime_date, parse_yyyy_mm_dd, txn_id_spec, ymd_spec,
    IbkrCsvParser,
};
use super::error::{IbkrError, IbkrErrorV};
use super::header::{field_spec, lookup_spec, row_views, HeaderRegistry, SectionHeader};
use crate::dates::Date;
use crate::money::{opt_amount_views, Amount, AmountV, Sign};
use crate::records::{build_transaction_value, seq_views, txn_v, Transaction, TransactionV};
use crate::text::{
    concat, eq_ignore_ascii_case, eq_ignore_ascii_case_spec, is_blank, owned, same, trim_spec,
};

verus! {

broadcast use vstd::string::group_string_axioms;

/// The four cash sections share one layout.
#[derive(Clone, Copy, PartialEq, Eq, Structural)]
pub enum CashKind {
    DepositsWithdrawals,
    Fees,
    Interest,
    WithholdingTax,
}

pub open spec fn section_name(k: CashKind) -> Seq<char> {
    match k {
        CashKind::DepositsWithdrawals => "Deposits & Withdrawals"@,
        CashKind::Fees => "Fees"@,
        CashKind::Interest => "Interest"@,
        CashKind::WithholdingTax => "Withholding Tax"@,
    }
}

pub open spec fn date_column(k: CashKind) -> Seq<char> {
    match k {
        CashKind::DepositsWithdrawals => "Settle Date"@,
        _ => "Date"@,
    }
}

/// Total lines and rows without a date are skipped (fees: rows without a
/// currency or a date).
pub open spec fn cash_skip(k: CashKind, currency: Seq<char>, date_raw: Seq<char>) -> bool {
    match k {
        CashKind::Fees => currency.len() == 0 || date_raw.len() == 0,
        _ => eq_ignore_ascii_case_spec(currency, "total"@) || date_raw.len() == 0,
    }
}

/// Fees and withholding tax are money out: a positive amount is negated.
pub open spec fn cash_sign(k: CashKind, s: Sign) -> Sign {
    match k {
        CashKind::Fees | CashKind::WithholdingTax => if s == Sign::Positive {
            Sign::Negative
        } else {
            s
        },
        _ => s,
    }
}

pub open spec fn description_prefix(k: CashKind) -> Seq<char> {
    match k {
        CashKind::DepositsWithdrawals => "IBKR D/W: "@,
        CashKind::Fees => "IBKR Fee: "@,
        CashKind::Interest => "IBKR Interest: "@,
        CashKind::WithholdingTax => "IBKR Withholding: "@,
    }
}

pub open spec fn id_prefix(k: CashKind) -> Seq<char> {
    match k {
        CashKind::DepositsWithdrawals => "IBKR-DW"@,
        CashKind::Fees => "IBKR-FEE"@,
        CashKind::Interest => "IBKR-INT"@,
        CashKind::WithholdingTax => "IBKR-WHT"@,
    }
}

/// Transactions of one row of a cash section read through `keys`.
pub open spec fn cash_body<A>(
    k: CashKind,
    checking: Seq<char>,
    keys: Seq<Seq<char>>,
    row: Seq<Seq<char>>,
    nums: Seq<Option<AmountV<A>>>,
) -> Result<Seq<TransactionV<A>>, IbkrErrorV> {
    let currency = field_spec(keys, row, "Currency"@);
    let date_raw = field_spec(keys, row, date_column(k));
    let description = field_spec(keys, row, "Description"@);
    let amount_raw = field_spec(keys, row, "Amount"@);
    if cash_skip(k, currency, date_raw) {
        Ok(Seq::empty())
    } else {
        match ymd_spec(date_raw) {
            None => Err(IbkrErrorV::BadDate(section_name(k), date_raw)),
            Some(date) => match num_spec(keys, nums, "Amount"@) {
                None => Err(IbkrErrorV::BadAmount(section_name(k), amount_raw)),
                Some(a) => {
                    let (ty, from, to) = cashflow_spec(checking, cash_sign(k, a.sign));
                    let desc = description_prefix(k) + description;
                    Ok(
                        seq![
                            txn_v(
                                date,
                                from,
                                to,
                                ty,
                                a.magnitude,
                                currency,
                                desc,
                                txn_id_spec(
                                    id_prefix(k),
                                    date,
                                    a.magnitude_fixed8,
                                    currency,
                                    desc,
                                    date_raw,
                                ),
                            ),
                        ],
                    )
                },
            },
        }
    }
}

pub open spec fn fee_description(symbol: Seq<char>) -> Seq<char> {
    "Trade fee "@ + symbol
}

pub open spec fn or_question(s: Seq<char>) -> Seq<char> {
    if s.len() == 0 {
        "?"@
    } else {
        s
    }
}

pub open spec fn trade_description(symbol: Seq<char>, qty: Seq<char>, price: Seq<char>) -> Seq<char> {
    "Trade "@ + symbol + " qty="@ + or_question(qty) + " price="@ + or_question(price)
}

/// A trade moves its proceeds between the trading and the cash account; its
/// commission leaves the trading account.
pub open spec fn trade_body<A>(
    checking: Seq<char>,
    savings: Seq<char>,
    keys: Seq<Seq<char>>,
    row: Seq<Seq<char>>,
    nums: Seq<Option<AmountV<A>>>,
) -> Result<Seq<TransactionV<A>>, IbkrErrorV> {
    let currency = field_spec(keys, row, "Currency"@);
    let symbol = field_spec(keys, row, "Symbol"@);
    let date_time_raw = field_spec(keys, row, "Date/Time"@);
    let quantity_raw = field_spec(keys, row, "Quantity"@);
    let price_raw = field_spec(keys, row, "T. Price"@);
    match datetime_date_spec(date_time_raw) {
        None => Err(IbkrErrorV::BadDate("Trades"@, date_time_raw)),
        Some(date) => match num_spec(keys, nums, "Proceeds"@) {
            Some(p) if p.sign.nonzero() => {
                let from = if p.sign.ge_zero() {
                    savings
                } else {
                    checking
                };
                let to = if p.sign.ge_zero() {
                    checking
                } else {
                    savings
                };
                let desc = trade_description(symbol, quantity_raw, price_raw);
                let main = txn_v(
                    date,
                    from,
                    to,
                    "transfer"@,
                    p.magnitude,
                    currency,
                    desc,
                    txn_id_spec("IBKR-TRD"@, date, p.magnitude_fixed8, currency, desc, date_time_raw),
                );
                match num_spec(keys, nums, "Comm/Fee"@) {
                    Some(f) if f.sign.nonzero() => Ok(
                        seq![
                            main,
                            txn_v(
                                date,
                                savings,
                                "EXTERNAL_PAYEE"@,
                                "expense"@,
                                f.magnitude,
                                currency,
                                fee_description(symbol),
                                txn_id_spec(
                                    "IBKR-TRFEE"@,
                                    date,
                                    f.magnitude_fixed8,
                                    currency,
                                    fee_description(symbol),
                                    date_time_raw,
                                ),
                            ),
                        ],
                    ),
                    _ => Ok(seq![main]),
                }
            },
            _ => Ok(Seq::empty()),
        },
    }
}

/// A corporate action with proceeds is a cash flow on the cash account.
pub open spec fn corporate_body<A>(
    checking: Seq<char>,
    keys: Seq<Seq<char>>,
    row: Seq<Seq<char>>,
    nums: Seq<Option<AmountV<A>>>,
) -> Result<Seq<TransactionV<A>>, IbkrErrorV> {
    let currency = field_spec(keys, row, "Currency"@);
    let date_time_raw = field_spec(keys, row, "Date/Time"@);
    let report_date_raw = field_spec(keys, row, "Report Date"@);
    let description = field_spec(keys, row, "Description"@);
    if currency.len() == 0 {
        Ok(Seq::empty())
    } else {
        match num_spec(keys, nums, "Proceeds"@) {
            Some(p) if p.sign.nonzero() => {
                let date = match datetime_date_spec(date_time_raw) {
                    Some(d) => Some(d),
                    None => ymd_spec(report_date_raw),
                };
                match date {
                    None => Err(IbkrErrorV::BadDate("Corporate Actions"@, date_time_raw)),
                    Some(date) => {
                        let (ty, from, to) = cashflow_spec(checking, p.sign);
                        let desc = "CorpAction: "@ + description;
                        Ok(
                            seq![
                                txn_v(
                                    date,
                                    from,
                                    to,
                                    ty,
                                    p.magnitude,
                                    currency,
                                    desc,
                                    txn_id_spec(
                                        "IBKR-CA"@,
                                        date,
                                        p.magnitude_fixed8,
                                        currency,
                                        desc,
                                        date_time_raw,
                                    ),
                                ),
                            ],
                        )
                    },
                }
            },
            _ => Ok(Seq::empty()),
        }
    }
}

/// Which transactions a data row of `section` yields: `None` when the
/// section holds no transactions.
pub open spec fn transaction_row_spec<A>(
    checking: Seq<char>,
    savings: Seq<char>,
    section: Seq<char>,
    headers: Seq<(Seq<char>, Seq<Seq<char>>)>,
    row: Seq<Seq<char>>,
    nums: Seq<Option<AmountV<A>>>,
) -> Option<Result<Seq<TransactionV<A>>, IbkrErrorV>> {
    let known = section == "Deposits & Withdrawals"@ || section == "Fees"@ || section
        == "Interest"@ || section == "Withholding Tax"@ || section == "Trades"@ || section
        == "Corporate Actions"@;
    if !known {
        None
    } else {
        match lookup_spec(headers, section) {
            None => Some(Err(IbkrErrorV::MissingHeader(section))),
            Some(keys) => Some(
                if section == "Deposits & Withdrawals"@ {
                    cash_body(CashKind::DepositsWithdrawals, checking, keys, row, nums)
                } else if section == "Fees"@ {
                    cash_body(CashKind::Fees, checking, keys, row, nums)
                } else if section == "Interest"@ {
                    cash_body(CashKind::Interest, checking, keys, row, nums)
                } else if section == "Withholding Tax"@ {
                    cash_body(CashKind::WithholdingTax, checking, keys, row, nums)
                } else if section == "Trades"@ {
                    trade_body(checking, savings, keys, row, nums)
                } else {
                    corporate_body(checking, keys, row, nums)
                },
            ),
        }
    }
}

// ----------------------------------------------------------------------------
// Field readers
// ----------------------------------------------------------------------------

pub fn field_dw_currency(header: &SectionHeader, row: &Vec<String>) -> (out: String)
    ensures
        out@ == field_spec(header.keys_view(), row_views(row@), "Currency"@),
{
    header.field(row, "Currency")
}

pub fn field_dw_settle_date(header: &SectionHeader, row: &Vec<String>) -> (out: String)
    ensures
        out@ == field_spec(header.keys_view(), row_views(row@), "Settle Date"@),
{
    header.field(row, "Settle Date")
}

pub fn field_dw_description(header: &SectionHeader, row: &Vec<String>) -> (out: String)
    ensures
        out@ == field_spec(header.keys_view(), row_views(row@), "Description"@),
{
    header.field(row, "Description")
}

pub fn field_dw_amount_raw(header: &SectionHeader, row: &Vec<String>) -> (out: String)
    ensures
        out@ == field_spec(header.keys_view(), row_views(row@), "Amount"@),
{
    header.field(row, "Amount")
}

pub fn field_dw_skip_row(currency: &str, settle_date: &str) -> (b: bool)
    ensures
        b == cash_skip(CashKind::DepositsWithdrawals, currency@, settle_date@),
{
    eq_ignore_ascii_case(currency, "total") || is_blank(settle_date)
}

pub fn field_dw_output_description(description: &str) -> (out: String)
    ensures
        out@ == description_prefix(CashKind::DepositsWithdrawals) + description@,
{
    concat("IBKR D/W: ", description)
}

pub fn field_fee_currency(header: &SectionHeader, row: &Vec<String>) -> (out: String)
    ensures
        out@ == field_spec(header.keys_view(), row_views(row@), "Currency"@),
{
    header.field(row, "Currency")
}

pub fn field_fee_date_raw(header: &SectionHeader, row: &Vec<String>) -> (out: String)
    ensures
        out@ == field_spec(header.keys_view(), row_views(row@), "Date"@),
{
    header.field(row, "Date")
}

pub fn field_fee_description(header: &SectionHeader, row: &Vec<String>) -> (out: String)
    ensures
        out@ == field_spec(header.keys_view(), row_views(row@), "Description"@),
{
    header.field(row, "Description")
}

pub fn field_fee_amount_raw(header: &SectionHeader, row: &Vec<String>) -> (out: String)
    ensures
        out@ == field_spec(header.keys_view(), row_views(row@), "Amount"@),
{
    header.field(row, "Amount")
}

pub fn field_fee_skip_row(currency: &str, date_raw: &str) -> (b: bool)
    ensures
        b == cash_skip(CashKind::Fees, currency@, date_raw@),
{
    is_blank(currency) || is_blank(date_raw)
}

/// A fee is money out: a positive amount is negated.
pub fn field_fee_normalized_signed_amount(sign: Sign) -> (r: Sign)
    ensures
        r == cash_sign(CashKind::Fees, sign),
{
    if sign.is_positive() {
        Sign::Negative
    } else {
        sign
    }
}

pub fn field_fee_output_description(description: &str) -> (out: String)
    ensures
        out@ == description_prefix(CashKind::Fees) + description@,
{
    concat("IBKR Fee: ", description)
}

pub fn field_interest_currency(header: &SectionHeader, row: &Vec<String>) -> (out: String)
    ensures
        out@ == field_spec(header.keys_view(), row_views(row@), "Currency"@),
{
    header.field(row, "Currency")
}

pub fn field_interest_date_raw(header: &SectionHeader, row: &Vec<String>) -> (out: String)
    ensures
        out@ == field_spec(header.keys_view(), row_views(row@), "Date"@),
{
    header.field(row, "Date")
}

pub fn field_interest_description(header: &SectionHeader, row: &Vec<String>) -> (out: String)
    ensures
        out@ == field_spec(header.keys_view(), row_views(row@), "Description"@),
{
    header.field(row, "Description")
}

pub fn field_interest_amount_raw(header: &SectionHeader, row: &Vec<String>) -> (out: String)
    ensures
        out@ == field_spec(header.keys_view(), row_views(row@), "Amount"@),
{
    header.field(row, "Amount")
}

pub fn field_interest_skip_row(currency: &str, date_raw: &str) -> (b: bool)
    ensures
        b == cash_skip(CashKind::Interest, currency@, date_raw@),
{
    eq_ignore_ascii_case(currency, "total") || is_blank(date_raw)
}

pub fn field_interest_output_description(description: &str) -> (out: String)
    ensures
        out@ == description_prefix(CashKind::Interest) + description@,
{
    concat("IBKR Interest: ", description)
}

pub fn field_wht_currency(header: &SectionHeader, row: &Vec<String>) -> (out: String)
    ensures
        out@ == field_spec(header.keys_view(), row_views(row@), "Currency"@),
{
    header.field(row, "Currency")
}

pub fn field_wht_date_raw(header: &SectionHeader, row: &Vec<String>) -> (out: String)
    ensures
        out@ == field_spec(header.keys_view(), row_views(row@), "Date"@),
{
    header.field(row, "Date")
}

pub fn field_wht_description(header: &SectionHeader, row: &Vec<String>) -> (out: String)
    ensures
        out@ == field_spec(header.keys_view(), row_views(row@), "Description"@),
{
    header.field(row, "Description")
}

pub fn field_wht_amount_raw(header: &SectionHeader, row: &Vec<String>) -> (out: String)
    ensures
        out@ == field_spec(header.keys_view(), row_views(row@), "Amount"@),
{
    header.field(row, "Amount")
}

pub fn field_wht_skip_row(currency: &str, date_raw: &str) -> (b: bool)
    ensures
        b == cash_skip(CashKind::WithholdingTax, currency@, date_raw@),
{
    eq_ignore_ascii_case(currency, "total") || is_blank(date_raw)
}

/// Withholding tax is money out: a positive amount is negated.
pub fn field_wht_normalized_signed_amount(sign: Sign) -> (r: Sign)
    ensures
        r == cash_sign(CashKind::WithholdingTax, sign),
{
    if sign.is_positive() {
        Sign::Negative
    } else {
        sign
    }
}

pub fn field_wht_output_description(description: &str) -> (out: String)
    ensures
        out@ == description_prefix(CashKind::WithholdingTax) + description@,
{
    concat("IBKR Withholding: ", description)
}

pub fn field_trade_currency(header: &SectionHeader, row: &Vec<String>) -> (out: String)
    ensures
        out@ == field_spec(header.keys_view(), row_views(row@), "Currency"@),
{
    header.field(row, "Currency")
}

pub fn field_trade_symbol(header: &SectionHeader, row: &Vec<String>) -> (out: String)
    ensures
        out@ == field_spec(header.keys_view(), row_views(row@), "Symbol"@),
{
    header.field(row, "Symbol")
}

pub fn field_trade_date_time_raw(header: &SectionHeader, row: &Vec<String>) -> (out: String)
    ensures
        out@ == field_spec(header.keys_view(), row_views(row@), "Date/Time"@),
{
    header.field(row, "Date/Time")
}

pub fn field_trade_quantity_raw(header: &SectionHeader, row: &Vec<String>) -> (out: String)
    ensures
        out@ == field_spec(header.keys_view(), row_views(row@), "Quantity"@),
{
    header.field(row, "Quantity")
}

pub fn field_trade_price_raw(header: &SectionHeader, row: &Vec<String>) -> (out: String)
    ensures
        out@ == field_spec(header.keys_view(), row_views(row@), "T. Price"@),
{
    header.field(row, "T. Price")
}

pub fn field_trade_proceeds_raw(header: &SectionHeader, row: &Vec<String>) -> (out: String)
    ensures
        out@ == field_spec(header.keys_view(), row_views(row@), "Proceeds"@),
{
    header.field(row, "Proceeds")
}

pub fn field_trade_fee_raw(header: &SectionHeader, row: &Vec<String>) -> (out: String)
    ensures
        out@ == field_spec(header.keys_view(), row_views(row@), "Comm/Fee"@),
{
    header.field(row, "Comm/Fee")
}

/// `(type, from, to)` of a trade's proceeds: a sale (non-negative proceeds)
/// moves cash from the trading account to the cash account.
pub fn field_trade_transfer_direction(parser: &IbkrCsvParser, sign: Sign) -> (r: (
    String,
    String,
    String,
))
    ensures
        r.0@ == "transfer"@,
        r.1@ == (if sign.ge_zero() {
            parser.account_id_savings@
        } else {
            parser.account_id_checking@
        }),
        r.2@ == (if sign.ge_zero() {
            parser.account_id_checking@
        } else {
            parser.account_id_savings@
        }),
{
    if sign.is_non_negative() {
        (owned("transfer"), parser.account_id_savings.clone(), parser.account_id_checking.clone())
    } else {
        (owned("transfer"), parser.account_id_checking.clone(), parser.account_id_savings.clone())
    }
}

fn or_question_exec(s: &str) -> (out: String)
    ensures
        out@ == or_question(s@),
{
    if is_blank(s) {
        owned("?")
    } else {
        owned(s)
    }
}

pub fn field_trade_output_description(symbol: &str, quantity_raw: &str, price_raw: &str) -> (out:
    String)
    ensures
        out@ == trade_description(symbol@, quantity_raw@, price_raw@),
{
    let mut out = concat("Trade ", symbol);
    out.append(" qty=");
    out.append(or_question_exec(quantity_raw).as_str());
    out.append(" price=");
    out.append(or_question_exec(price_raw).as_str());
    out
}

pub fn field_trade_fee_description(symbol: &str) -> (out: String)
    ensures
        out@ == fee_description(symbol@),
{
    concat("Trade fee ", symbol)
}

pub fn field_corp_currency(header: &SectionHeader, row: &Vec<String>) -> (out: String)
    ensures
        out@ == field_spec(header.keys_view(), row_views(row@), "Currency"@),
{
    header.field(row, "Currency")
}

pub fn field_corp_date_time_raw(header: &SectionHeader, row: &Vec<String>) -> (out: String)
    ensures
        out@ == field_spec(header.keys_view(), row_views(row@), "Date/Time"@),
{
    header.field(row, "Date/Time")
}

pub fn field_corp_report_date_raw(header: &SectionHeader, row: &Vec<String>) -> (out: String)
    ensures
        out@ == field_spec(header.keys_view(), row_views(row@), "Report Date"@),
{
    header.field(row, "Report Date")
}

pub fn field_corp_description(header: &SectionHeader, row: &Vec<String>) -> (out: String)
    ensures
        out@ == field_spec(header.keys_view(), row_views(row@), "Description"@),
{
    header.field(row, "Description")
}

pub fn field_corp_proceeds_raw(header: &SectionHeader, row: &Vec<String>) -> (out: String)
    ensures
        out@ == field_spec(header.keys_view(), row_views(row@), "Proceeds"@),
{
    header.field(row, "Proceeds")
}

pub fn field_corp_skip_row(currency: &str) -> (b: bool)
    ensures
        b == (currency@.len() == 0),
{
    is_blank(currency)
}

pub fn field_corp_output_description(description: &str) -> (out: String)
    ensures
        out@ == "CorpAction: "@ + description@,
{
    concat("CorpAction: ", description)
}

// ----------------------------------------------------------------------------
// Section handlers
// ----------------------------------------------------------------------------

/// Outcome `r` of a section handler, given whether the row's section is the
/// handler's, the registered headers and what the row yields under its
/// header: transactions appended (`before` becomes `after`), or an error.
pub open spec fn handled<A>(
    r: Result<bool, IbkrErrorV>,
    applies: bool,
    section: Seq<char>,
    headers: Seq<(Seq<char>, Seq<Seq<char>>)>,
    body: spec_fn(Seq<Seq<char>>) -> Result<Seq<TransactionV<A>>, IbkrErrorV>,
    before: Seq<TransactionV<A>>,
    after: Seq<TransactionV<A>>,
) -> bool {
    match r {
        Ok(false) => !applies && after == before,
        Ok(true) => applies && match lookup_spec(headers, section) {
            None => false,
            Some(keys) => match body(keys) {
                Ok(ts) => after == before + ts,
                Err(_) => false,
            },
        },
        Err(e) => applies && match lookup_spec(headers, section) {
            None => e == IbkrErrorV::MissingHeader(section),
            Some(keys) => body(keys) == Err::<Seq<TransactionV<A>>, IbkrErrorV>(e),
        },
    }
}

pub open spec fn result_view(r: Result<bool, IbkrError>) -> Result<bool, IbkrErrorV> {
    match r {
        Ok(b) => Ok(b),
        Err(e) => Err(e@),
    }
}

fn header_of<'a>(headers: &'a HeaderRegistry, section: &str) -> (r: Result<&'a SectionHeader, IbkrError>)
    ensures
        match r {
            Ok(h) => lookup_spec(headers.view_entries(), section@) == Some(h.keys_view()),
            Err(e) => lookup_spec(headers.view_entries(), section@) is None && e@
                == IbkrErrorV::MissingHeader(section@),
        },
{
    match headers.find(section) {
        Some(i) => Ok(&headers.entries[i].1),
        None => Err(IbkrError::MissingHeader { section: owned(section) }),
    }
}

pub fn parse_deposits_and_withdrawals<A: Copy>(
    parser: &IbkrCsvParser,
    section: &str,
    headers: &HeaderRegistry,
    row: &Vec<String>,
    nums: &Vec<Option<Amount<A>>>,
    transactions: &mut Vec<Transaction<A>>,
) -> (r: Result<bool, IbkrError>)
    ensures
        handled(
            result_view(r),
            section@ == "Deposits & Withdrawals"@,
            section@,
            headers.view_entries(),
            |keys: Seq<Seq<char>>|
                cash_body(
                    CashKind::DepositsWithdrawals,
                    parser.account_id_checking@,
                    keys,
                    row_views(row@),
                    opt_amount_views(nums@),
                ),
            seq_views(old(transactions)@),
            seq_views(final(transactions)@),
        ),
{
    if !same(section, "Deposits & Withdrawals") {
        return Ok(false);
    }
    let header = header_of(headers, section)?;
    let currency = field_dw_currency(header, row);
    let settle_date = field_dw_settle_date(header, row);
    let description = field_dw_description(header, row);
    let amount_raw = field_dw_amount_raw(header, row);
    if field_dw_skip_row(currency.as_str(), settle_date.as_str()) {
        assert(seq_views(transactions@) =~= seq_views(transactions@) + Seq::<TransactionV<A>>::empty());
        return Ok(true);
    }
    let date = match parse_yyyy_mm_dd(settle_date.as_str()) {
        Some(d) => d,
        None => {
            return Err(IbkrError::BadDate { section: owned(section), value: settle_date });
        },
    };
    let signed = match num_at(header, nums, "Amount") {
        Some(a) => a,
        None => {
            return Err(IbkrError::BadAmount { section: owned(section), value: amount_raw });
        },
    };
    let (txn_type, from_acc, to_acc) = cashflow_to_txn(
        parser.account_id_checking.as_str(),
        signed.sign,
    );
    let output_description = field_dw_output_description(description.as_str());
    let txn_id = build_txn_id(
        "IBKR-DW",
        &date,
        signed.magnitude_fixed8.as_str(),
        currency.as_str(),
        output_description.as_str(),
        settle_date.as_str(),
    );
    let ghost before = seq_views(transactions@);
    transactions.push(
        build_transaction_value(
            &date,
            from_acc,
            to_acc,
            txn_type,
            signed.magnitude,
            currency,
            output_description,
            txn_id,
        ),
    );
    assert(seq_views(transactions@) =~= before + seq![transactions@.last()@]);
    Ok(true)
}

pub fn parse_fees<A: Copy>(
    parser: &IbkrCsvParser,
    section: &str,
    headers: &HeaderRegistry,
    row: &Vec<String>,
    nums: &Vec<Option<Amount<A>>>,
    transactions: &mut Vec<Transaction<A>>,
) -> (r: Result<bool, IbkrError>)
    ensures
        handled(
            result_view(r),
            section@ == "Fees"@,
            section@,
            headers.view_entries(),
            |keys: Seq<Seq<char>>|
                cash_body(
                    CashKind::Fees,
                    parser.account_id_checking@,
                    keys,
                    row_views(row@),
                    opt_amount_views(nums@),
                ),
            seq_views(old(transactions)@),
            seq_views(final(transactions)@),
        ),
{
    if !same(section, "Fees") {
        return Ok(false);
    }
    let header = header_of(headers, section)?;
    let currency = field_fee_currency(header, row);
    let date_raw = field_fee_date_raw(header, row);
    let description = field_fee_description(header, row);
    let amount_raw = field_fee_amount_raw(header, row);
    if field_fee_skip_row(currency.as_str(), date_raw.as_str()) {
        assert(seq_views(transactions@) =~= seq_views(transactions@) + Seq::<TransactionV<A>>::empty());
        return Ok(true);
    }
    let date = match parse_yyyy_mm_dd(date_raw.as_str()) {
        Some(d) => d,
        None => {
            return Err(IbkrError::BadDate { section: owned(section), value: date_raw });
        },
    };
    let signed = match num_at(header, nums, "Amount") {
        Some(a) => a,
        None => {
            return Err(IbkrError::BadAmount { section: owned(section), value: amount_raw });
        },
    };
    let normalized = field_fee_normalized_signed_amount(signed.sign);
    let (txn_type, from_acc, to_acc) = cashflow_to_txn(
        parser.account_id_checking.as_str(),
        normalized,
    );
    let output_description = field_fee_output_description(description.as_str());
    let txn_id = build_txn_id(
        "IBKR-FEE",
        &date,
        signed.magnitude_fixed8.as_str(),
        currency.as_str(),
        output_description.as_str(),
        date_raw.as_str(),
    );
    let ghost before = seq_views(transactions@);
    transactions.push(
        build_transaction_value(
            &date,
            from_acc,
            to_acc,
            txn_type,
            signed.magnitude,
            currency,
            output_description,
            txn_id,
        ),
    );
    assert(seq_views(transactions@) =~= before + seq![transactions@.last()@]);
    Ok(true)
}

pub fn parse_interest<A: Copy>(
    parser: &IbkrCsvParser,
    section: &str,
    headers: &HeaderRegistry,
    row: &Vec<String>,
    nums: &Vec<Option<Amount<A>>>,
    transactions: &mut Vec<Transaction<A>>,
) -> (r: Result<bool, IbkrError>)
    ensures
        handled(
            result_view(r),
            section@ == "Interest"@,
            section@,
            headers.view_entries(),
            |keys: Seq<Seq<char>>|
                cash_body(
                    CashKind::Interest,
                    parser.account_id_checking@,
                    keys,
                    row_views(row@),
                    opt_amount_views(nums@),
                ),
            seq_views(old(transactions)@),
            seq_views(final(transactions)@),
        ),
{
    if !same(section, "Interest") {
        return Ok(false);
    }
    let header = header_of(headers, section)?;
    let currency = field_interest_currency(header, row);
    let date_raw = field_interest_date_raw(header, row);
    let description = field_interest_description(header, row);
    let amount_raw = field_interest_amount_raw(header, row);
    if field_interest_skip_row(currency.as_str(), date_raw.as_str()) {
        assert(seq_views(transactions@) =~= seq_views(transactions@) + Seq::<TransactionV<A>>::empty());
        return Ok(true);
    }
    let date = match parse_yyyy_mm_dd(date_raw.as_str()) {
        Some(d) => d,
        None => {
            return Err(IbkrError::BadDate { section: owned(section), value: date_raw });
        },
    };
    let signed = match num_at(header, nums, "Amount") {
        Some(a) => a,
        None => {
            return Err(IbkrError::BadAmount { section: owned(section), value: amount_raw });
        },
    };
    let (txn_type, from_acc, to_acc) = cashflow_to_txn(
        parser.account_id_checking.as_str(),
        signed.sign,
    );
    let output_description = field_interest_output_description(description.as_str());
    let txn_id = build_txn_id(
        "IBKR-INT",
        &date,
        signed.magnitude_fixed8.as_str(),
        currency.as_str(),
        output_description.as_str(),
        date_raw.as_str(),
    );
    let ghost before = seq_views(transactions@);
    transactions.push(
        build_transaction_value(
            &date,
            from_acc,
            to_acc,
            txn_type,
            signed.magnitude,
            currency,
            output_description,
            txn_id,
        ),
    );
    assert(seq_views(transactions@) =~= before + seq![transactions@.last()@]);
    Ok(true)
}

pub fn parse_withholding_tax<A: Copy>(
    parser: &IbkrCsvParser,
    section: &str,
    headers: &HeaderRegistry,
    row: &Vec<String>,
    nums: &Vec<Option<Amount<A>>>,
    transactions: &mut Vec<Transaction<A>>,
) -> (r: Result<bool, IbkrError>)
    ensures
        handled(
            result_view(r),
            section@ == "Withholding Tax"@,
            section@,
            headers.view_entries(),
            |keys: Seq<Seq<char>>|
                cash_body(
                    CashKind::WithholdingTax,
                    parser.account_id_checking@,
                    keys,
                    row_views(row@),
                    opt_amount_views(nums@),
                ),
            seq_views(old(transactions)@),
            seq_views(final(transactions)@),
        ),
{
    if !same(section, "Withholding Tax") {
        return Ok(false);
    }
    let header = header_of(headers, section)?;
    let currency = field_wht_currency(header, row);
    let date_raw = field_wht_date_raw(header, row);
    let description = field_wht_description(header, row);
    let amount_raw = field_wht_amount_raw(header, row);
    if field_wht_skip_row(currency.as_str(), date_raw.as_str()) {
        assert(seq_views(transactions@) =~= seq_views(transactions@) + Seq::<TransactionV<A>>::empty());
        return Ok(true);
    }
    let date = match parse_yyyy_mm_dd(date_raw.as_str()) {
        Some(d) => d,
        None => {
            return Err(IbkrError::BadDate { section: owned(section), value: date_raw });
        },
    };
    let signed = match num_at(header, nums, "Amount") {
        Some(a) => a,
        None => {
            return Err(IbkrError::BadAmount { section: owned(section), value: amount_raw });
        },
    };
    let normalized = field_wht_normalized_signed_amount(signed.sign);
    let (txn_type, from_acc, to_acc) = cashflow_to_txn(
        parser.account_id_checking.as_str(),
        normalized,
    );
    let output_description = field_wht_output_description(description.as_str());
    let txn_id = build_txn_id(
        "IBKR-WHT",
        &date,
        signed.magnitude_fixed8.as_str(),
        currency.as_str(),
        output_description.as_str(),
        date_raw.as_str(),
    );
    let ghost before = seq_views(transactions@);
    transactions.push(
        build_transaction_value(
            &date,
            from_acc,
            to_acc,
            txn_type,
            signed.magnitude,
            currency,
            output_description,
            txn_id,
        ),
    );
    assert(seq_views(transactions@) =~= before + seq![transactions@.last()@]);
    Ok(true)
}

pub fn parse_trades<A: Copy>(
    parser: &IbkrCsvParser,
    section: &str,
    headers: &HeaderRegistry,
    row: &Vec<String>,
    nums: &Vec<Option<Amount<A>>>,
    transactions: &mut Vec<Transaction<A>>,
) -> (r: Result<bool, IbkrError>)
    ensures
        handled(
            result_view(r),
            section@ == "Trades"@,
            section@,
            headers.view_entries(),
            |keys: Seq<Seq<char>>|
                trade_body(
                    parser.account_id_checking@,
                    parser.account_id_savings@,
                    keys,
                    row_views(row@),
                    opt_amount_views(nums@),
                ),
            seq_views(old(transactions)@),
            seq_views(final(transactions)@),
        ),
{
    if !same(section, "Trades") {
        return Ok(false);
    }
    let header = header_of(headers, section)?;
    let currency = field_trade_currency(header, row);
    let symbol = field_trade_symbol(header, row);
    let date_time_raw = field_trade_date_time_raw(header, row);
    let quantity_raw = field_trade_quantity_raw(header, row);
    let price_raw = field_trade_price_raw(header, row);
    let date = match parse_ibkr_datetime_date(date_time_raw.as_str()) {
        Some(d) => d,
        None => {
            return Err(IbkrError::BadDate { section: owned(section), value: date_time_raw });
        },
    };
    let proceeds = match num_at(header, nums, "Proceeds") {
        Some(p) => {
            if p.sign.is_nonzero() {
                p
            } else {
                assert(seq_views(transactions@) =~= seq_views(transactions@)
                    + Seq::<TransactionV<A>>::empty());
                return Ok(true);
            }
        },
        None => {
            assert(seq_views(transactions@) =~= seq_views(transactions@)
                + Seq::<TransactionV<A>>::empty());
            return Ok(true);
        },
    };
    let (txn_type, from_acc, to_acc) = field_trade_transfer_direction(parser, proceeds.sign);
    let output_description = field_trade_output_description(
        symbol.as_str(),
        quantity_raw.as_str(),
        price_raw.as_str(),
    );
    let txn_id = build_txn_id(
        "IBKR-TRD",
        &date,
        proceeds.magnitude_fixed8.as_str(),
        currency.as_str(),
        output_description.as_str(),
        date_time_raw.as_str(),
    );
    let ghost before = seq_views(transactions@);
    transactions.push(
        build_transaction_value(
            &date,
            from_acc,
            to_acc,
            txn_type,
            proceeds.magnitude,
            currency.clone(),
            output_description,
            txn_id,
        ),
    );
    let ghost main = transactions@.last()@;
    match num_at(header, nums, "Comm/Fee") {
        Some(fee) => {
            if fee.sign.is_nonzero() {
                let fee_description = field_trade_fee_description(symbol.as_str());
                let fee_txn_id = build_txn_id(
                    "IBKR-TRFEE",
                    &date,
                    fee.magnitude_fixed8.as_str(),
                    currency.as_str(),
                    fee_description.as_str(),
                    date_time_raw.as_str(),
                );
                transactions.push(
                    build_transaction_value(
                        &date,
                        parser.account_id_savings.clone(),
                        owned("EXTERNAL_PAYEE"),
                        owned("expense"),
                        fee.magnitude,
                        currency,
                        fee_description,
                        fee_txn_id,
                    ),
                );
                assert(seq_views(transactions@) =~= before + seq![main, transactions@.last()@]);
            } else {
                assert(seq_views(transactions@) =~= before + seq![main]);
            }
        },
        None => {
            assert(seq_views(transactions@) =~= before + seq![main]);
        },
    }
    Ok(true)
}

pub fn parse_corporate_actions<A: Copy>(
    parser: &IbkrCsvParser,
    section: &str,
    headers: &HeaderRegistry,
    row: &Vec<String>,
    nums: &Vec<Option<Amount<A>>>,
    transactions: &mut Vec<Transaction<A>>,
) -> (r: Result<bool, IbkrError>)
    ensures
        handled(
            result_view(r),
            section@ == "Corporate Actions"@,
            section@,
            headers.view_entries(),
            |keys: Seq<Seq<char>>|
                corporate_body(
                    parser.account_id_checking@,
                    keys,
                    row_views(row@),
                    opt_amount_views(nums@),
                ),
            seq_views(old(transactions)@),
            seq_views(final(transactions)@),
        ),
{
    if !same(section, "Corporate Actions") {
        return Ok(false);
    }
    let header = header_of(headers, section)?;
    let currency = field_corp_currency(header, row);
    let date_time_raw = field_corp_date_time_raw(header, row);
    let report_date_raw = field_corp_report_date_raw(header, row);
    let description = field_corp_description(header, row);
    if field_corp_skip_row(currency.as_str()) {
        assert(seq_views(transactions@) =~= seq_views(transactions@) + Seq::<TransactionV<A>>::empty());
        return Ok(true);
    }
    let proceeds = match num_at(header, nums, "Proceeds") {
        Some(p) => {
            if p.sign.is_nonzero() {
                p
            } else {
                assert(seq_views(transactions@) =~= seq_views(transactions@)
                    + Seq::<TransactionV<A>>::empty());
                return Ok(true);
            }
        },
        None => {
            assert(seq_views(transactions@) =~= seq_views(transactions@)
                + Seq::<TransactionV<A>>::empty());
            return Ok(true);
        },
    };
    let date = match parse_ibkr_datetime_date(date_time_raw.as_str()) {
        Some(d) => d,
        None => match parse_yyyy_mm_dd(report_date_raw.as_str()) {
            Some(d) => d,
            None => {
                return Err(IbkrError::BadDate { section: owned(section), value: date_time_raw });
            },
        },
    };
    let (txn_type, from_acc, to_acc) = cashflow_to_txn(
        parser.account_id_checking.as_str(),
        proceeds.sign,
    );
    let output_description = field_corp_output_description(description.as_str());
    let txn_id = build_txn_id(
        "IBKR-CA",
        &date,
        proceeds.magnitude_fixed8.as_str(),
        currency.as_str(),
        output_description.as_str(),
        date_time_raw.as_str(),
    );
    let ghost before = seq_views(transactions@);
    transactions.push(
        build_transaction_value(
            &date,
            from_acc,
            to_acc,
            txn_type,
            proceeds.magnitude,
            currency,
            output_description,
            txn_id,
        ),
    );
    assert(seq_views(transactions@) =~= before + seq![transactions@.last()@]);
    Ok(true)
}

/// Reads a data row of any transaction section: `Ok(false)` when the
/// section holds no transactions.
pub fn parse_transaction_row<A: Copy>(
    parser: &IbkrCsvParser,
    section: &str,
    headers: &HeaderRegistry,
    row: &Vec<String>,
    nums: &Vec<Option<Amount<A>>>,
    transactions: &mut Vec<Transaction<A>>,
) -> (r: Result<bool, IbkrError>)
    ensures
        match transaction_row_spec(
            parser.account_id_checking@,
            parser.account_id_savings@,
            section@,
            headers.view_entries(),
            row_views(row@),
            opt_amount_views(nums@),
        ) {
            None => r == Ok::<bool, IbkrError>(false) && seq_views(final(transactions)@)
                == seq_views(old(transactions)@),
            Some(Ok(ts)) => r == Ok::<bool, IbkrError>(true) && seq_views(final(transactions)@)
                == seq_views(old(transactions)@) + ts,
            Some(Err(e)) => result_view(r) == Err::<bool, IbkrErrorV>(e),
        },
{
    if parse_deposits_and_withdrawals(parser, section, headers, row, nums, transactions)? {
        return Ok(true);
    }
    if parse_fees(parser, section, headers, row, nums, transactions)? {
        return Ok(true);
    }
    if parse_interest(parser, section, headers, row, nums, transactions)? {
        return Ok(true);
    }
    if parse_withholding_tax(parser, section, headers, row, nums, transactions)? {
        return Ok(true);
    }
    if parse_trades(parser, section, headers, row, nums, transactions)? {
        return Ok(true);
    }
    if parse_corporate_actions(parser, section, headers, row, nums, transactions)? {
        return Ok(true);
    }
    Ok(false)
}

/// A row of a cash section that is read (not skipped, with a date and an
/// amount) gives one transaction of the row's amount. Deposits, withdrawals
/// and interest keep the sign of the amount: a positive amount is income,
/// paid by an external payer into the checking account, a negative one an
/// expense from the checking account to an external payee. Fees and
/// withholding tax are money out whatever their sign: any nonzero amount is
/// an expense from the checking account to an external payee.
pub proof fn lemma_cash_row_direction<A>(
    k: CashKind,
    checking: Seq<char>,
    keys: Seq<Seq<char>>,
    row: Seq<Seq<char>>,
    nums: Seq<Option<AmountV<A>>>,
    a: AmountV<A>,
)
    requires
        !cash_skip(k, field_spec(keys, row, "Currency"@), field_spec(keys, row, date_column(k))),
        ymd_spec(field_spec(keys, row, date_column(k))) is Some,
        num_spec(keys, nums, "Amount"@) == Some(a),
    ensures
        cash_body(k, checking, keys, row, nums) is Ok,
        cash_body(k, checking, keys, row, nums)->Ok_0.len() == 1,
        ({
            let t = cash_body(k, checking, keys, row, nums)->Ok_0[0];
            &&& t.amount == a.magnitude
            &&& (k == CashKind::Interest || k == CashKind::DepositsWithdrawals) && a.sign
                == Sign::Positive ==> t.transaction_type == "income"@ && t.from_account_id
                == "EXTERNAL_PAYER"@ && t.to_account_id == checking
            &&& (k == CashKind::Interest || k == CashKind::DepositsWithdrawals) && a.sign
                == Sign::Negative ==> t.transaction_type == "expense"@ && t.from_account_id
                == checking && t.to_account_id == "EXTERNAL_PAYEE"@
            &&& (k == CashKind::Fees || k == CashKind::WithholdingTax) && a.sign.nonzero()
                ==> t.transaction_type == "expense"@ && t.from_account_id == checking
                && t.to_account_id == "EXTERNAL_PAYEE"@
        }),
{
}

/// A dated trade without nonzero proceeds books nothing.
pub proof fn lemma_trade_without_proceeds<A>(
    checking: Seq<char>,
    savings: Seq<char>,
    keys: Seq<Seq<char>>,
    row: Seq<Seq<char>>,
    nums: Seq<Option<AmountV<A>>>,
)
    requires
        datetime_date_spec(field_spec(keys, row, "Date/Time"@)) is Some,
        !(num_spec(keys, nums, "Proceeds"@) matches Some(p) && p.sign.nonzero()),
    ensures
        trade_body(checking, savings, keys, row, nums) == Ok::<Seq<TransactionV<A>>, IbkrErrorV>(
            Seq::empty(),
        ),
{
}

/// A dated trade with nonzero proceeds moves the proceeds between the two
/// accounts: a sale (positive proceeds) from the trading (savings) account
/// into the cash (checking) account, a purchase the other way. A nonzero
/// commission adds an expense of its magnitude from the trading account to
/// an external payee.
pub proof fn lemma_trade_row_direction<A>(
    checking: Seq<char>,
    savings: Seq<char>,
    keys: Seq<Seq<char>>,
    row: Seq<Seq<char>>,
    nums: Seq<Option<AmountV<A>>>,
    p: AmountV<A>,
)
    requires
        datetime_date_spec(field_spec(keys, row, "Date/Time"@)) is Some,
        num_spec(keys, nums, "Proceeds"@) == Some(p),
        p.sign.nonzero(),
    ensures
        trade_body(checking, savings, keys, row, nums) is Ok,
        ({
            let ts = trade_body(checking, savings, keys, row, nums)->Ok_0;
            let t = ts[0];
            let fee = num_spec(keys, nums, "Comm/Fee"@);
            let charged = fee is Some && fee->0.sign.nonzero();
            &&& ts.len() == (if charged {
                2int
            } else {
                1int
            })
            &&& t.transaction_type == "transfer"@
            &&& t.amount == p.magnitude
            &&& p.sign == Sign::Positive ==> t.from_account_id == savings && t.to_account_id == checking
            &&& p.sign == Sign::Negative ==> t.from_account_id == checking && t.to_account_id == savings
            &&& charged ==> ts[1].transaction_type == "expense"@ && ts[1].from_account_id == savings
                && ts[1].to_account_id == "EXTERNAL_PAYEE"@ && ts[1].amount == fee->0.magnitude
        }),
{
}

/// A corporate action with a currency, a date and nonzero proceeds is one
/// cash flow on the checking account: positive proceeds are income from an
/// external payer, negative ones an expense to an external payee.
pub proof fn lemma_corporate_action_direction<A>(
    checking: Seq<char>,
    keys: Seq<Seq<char>>,
    row: Seq<Seq<char>>,
    nums: Seq<Option<AmountV<A>>>,
    p: AmountV<A>,
)
    requires
        field_spec(keys, row, "Currency"@).len() > 0,
        num_spec(keys, nums, "Proceeds"@) == Some(p),
        p.sign.nonzero(),
        corporate_body(checking, keys, row, nums) is Ok,
    ensures
        ({
            let ts = corporate_body(checking, keys, row, nums)->Ok_0;
            &&& ts.len() == 1
            &&& ts[0].amount == p.magnitude
            &&& p.sign == Sign::Positive ==> ts[0].transaction_type == "income"@
                && ts[0].from_account_id == "EXTERNAL_PAYER"@ && ts[0].to_account_id == checking
            &&& p.sign == Sign::Negative ==> ts[0].transaction_type == "expense"@
                && ts[0].from_account_id == checking && ts[0].to_account_id == "EXTERNAL_PAYEE"@
        }),
{
}

} // verus!
