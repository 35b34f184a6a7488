//! Revolut rows to transactions, with the accounts they use.
//!
//! A row is what the CSV reader deserialized from one line of the export;
//! its amounts arrive parsed (see [`crate::money`]).
use vstd::prelude::*;

use super::RevolutCsvParser;
use crate::dates::{chrono_date, chrono_datetime_date, iso_text, parse_date_fmt, parse_datetime_date_fmt, Date};
use crate::idset::{add_once, lemma_add_once, push_unique};
use crate::hashing::{hex_spec, prefixed_digest_id, sha256, utf8};
use crate::money::{Amount, AmountV, Sign};
use crate::records::{build_transaction_value, opt_view, seq_views, txn_v, Transaction, TransactionV};
use crate::text::{
    concat, contains, contains_spec, decimal, decimal_string, owned, same, starts_with, to_lowercase,
    trim, trim_spec, unicode_lower,
};

verus! {

broadcast use vstd::string::group_string_axioms;

/// One deserialized line of a Revolut export.
pub struct RevolutRow<A> {
    pub revolut_type: Option<String>,
    pub product: Option<String>,
    pub started_date: Option<String>,
    pub completed_date: Option<String>,
    pub description: Option<String>,
    pub amount: Amount<A>,
    pub fee: Option<Amount<A>>,
    pub currency: String,
    pub state: Option<String>,
    pub balance: Option<A>,
}

pub struct RevolutRowV<A> {
    pub revolut_type: Option<Seq<char>>,
    pub product: Option<Seq<char>>,
    pub started_date: Option<Seq<char>>,
    pub completed_date: Option<Seq<char>>,
    pub description: Option<Seq<char>>,
    pub amount: AmountV<A>,
    pub fee: Option<AmountV<A>>,
    pub currency: Seq<char>,
    pub state: Option<Seq<char>>,
    pub balance: Option<A>,
}

impl<A> View for RevolutRow<A> {
    type V = RevolutRowV<A>;

    open spec fn view(&self) -> RevolutRowV<A> {
        RevolutRowV {
            revolut_type: opt_view(self.revolut_type),
            product: opt_view(self.product),
            started_date: opt_view(self.started_date),
            completed_date: opt_view(self.completed_date),
            description: opt_view(self.description),
            amount: self.amount@,
            fee: match self.fee {
                Some(f) => Some(f@),
                None => None,
            },
            currency: self.currency@,
            state: opt_view(self.state),
            balance: self.balance,
        }
    }
}

/// Why a row that should be imported was refused.
pub enum RevolutError {
    /// The reader could not deserialize line `row` (counted from 1).
    Deserialize { row: usize, message: String },
    /// Line `row` has neither a completed nor a started date.
    MissingDate { row: usize },
    /// The date of line `row` has neither accepted format.
    UnrecognizedDate { row: usize, raw: String },
}

pub enum RevolutErrorV {
    Deserialize { row: nat, message: Seq<char> },
    MissingDate { row: nat },
    UnrecognizedDate { row: nat, raw: Seq<char> },
}

impl View for RevolutError {
    type V = RevolutErrorV;

    open spec fn view(&self) -> RevolutErrorV {
        match self {
            RevolutError::Deserialize { row, message } => RevolutErrorV::Deserialize {
                row: *row as nat,
                message: message@,
            },
            RevolutError::MissingDate { row } => RevolutErrorV::MissingDate { row: *row as nat },
            RevolutError::UnrecognizedDate { row, raw } => RevolutErrorV::UnrecognizedDate {
                row: *row as nat,
                raw: raw@,
            },
        }
    }
}

pub open spec fn or_empty(o: Option<Seq<char>>) -> Seq<char> {
    match o {
        Some(s) => s,
        None => Seq::empty(),
    }
}

// ---------------------------------------------------------------------------
// Classification
// ---------------------------------------------------------------------------

pub open spec fn by_sign(sign: Sign) -> Seq<char> {
    if sign.lt_zero() {
        "expense"@
    } else {
        "income"@
    }
}

/// The transaction type of a row. Transfers are classified by the wording
/// of their description; everything else (exchanges included) by the sign of
/// the amount.
pub open spec fn infer_type_spec(sign: Sign, revolut_type: Option<Seq<char>>, description: Seq<char>) -> Seq<
    char,
> {
    let d = description;
    if contains_spec(unicode_lower(or_empty(revolut_type)), "transfer"@) {
        if "Transfer to "@.is_prefix_of(d) {
            "expense"@
        } else if "To "@.is_prefix_of(d) && !contains_spec(d, "To pocket"@) {
            "expense"@
        } else if "Transfer from "@.is_prefix_of(d) {
            "income"@
        } else if "Payment from "@.is_prefix_of(d) && !contains_spec(d, "From pocket"@) {
            "income"@
        } else if contains_spec(d, "To pocket"@) || contains_spec(d, "Pocket Withdrawal"@) {
            "internal_transfer"@
        } else {
            by_sign(sign)
        }
    } else {
        by_sign(sign)
    }
}

fn by_sign_exec(sign: Sign) -> (out: String)
    ensures
        out@ == by_sign(sign),
{
    if sign.is_negative() {
        owned("expense")
    } else {
        owned("income")
    }
}

fn opt_or_empty(o: &Option<String>) -> (out: String)
    ensures
        out@ == or_empty(opt_view(*o)),
{
    match o {
        Some(s) => s.clone(),
        None => String::new(),
    }
}

pub fn infer_type(sign: Sign, revolut_type: &Option<String>, description: &str) -> (out: String)
    ensures
        out@ == infer_type_spec(sign, opt_view(*revolut_type), description@),
{
    let raw = opt_or_empty(revolut_type);
    let rt = to_lowercase(raw.as_str());
    if contains(rt.as_str(), "transfer") {
        if starts_with(description, "Transfer to ") {
            owned("expense")
        } else if starts_with(description, "To ") && !contains(description, "To pocket") {
            owned("expense")
        } else if starts_with(description, "Transfer from ") {
            owned("income")
        } else if starts_with(description, "Payment from ") && !contains(description, "From pocket") {
            owned("income")
        } else if contains(description, "To pocket") || contains(description, "Pocket Withdrawal") {
            owned("internal_transfer")
        } else {
            by_sign_exec(sign)
        }
    } else if contains(rt.as_str(), "exchange") {
        by_sign_exec(sign)
    } else {
        by_sign_exec(sign)
    }
}

/// `(from, to)` of a row booked on `account`. Currency exchanges stay on the
/// account; pocket transfers move between the current and savings accounts;
/// other flows go to or come from an external party.
pub open spec fn determine_accounts_spec(
    account: Seq<char>,
    txn_type: Seq<char>,
    sign: Sign,
    description: Seq<char>,
    current: Seq<char>,
    savings: Seq<char>,
) -> (Seq<char>, Seq<char>) {
    if contains_spec(unicode_lower(description), "exchanged"@) {
        (account, account)
    } else if txn_type == "internal_transfer"@ {
        if contains_spec(description, "To pocket"@) {
            if sign.gt_zero() {
                if account == savings {
                    (current, savings)
                } else {
                    (account, savings)
                }
            } else if account == current {
                (current, savings)
            } else {
                (savings, account)
            }
        } else if contains_spec(description, "Pocket Withdrawal"@) {
            if sign.lt_zero() {
                if account == savings {
                    (savings, current)
                } else {
                    (account, current)
                }
            } else if account == current {
                (savings, current)
            } else {
                (savings, account)
            }
        } else if sign.lt_zero() {
            (account, "INTERNAL_DESTINATION"@)
        } else {
            ("INTERNAL_SOURCE"@, account)
        }
    } else if txn_type == "expense"@ {
        (account, "EXTERNAL_PAYEE"@)
    } else if txn_type == "income"@ {
        ("EXTERNAL_PAYER"@, account)
    } else if txn_type == "fx"@ {
        if sign.lt_zero() {
            (account, "FX_EXCHANGE"@)
        } else {
            ("FX_EXCHANGE"@, account)
        }
    } else if sign.lt_zero() {
        (account, "EXTERNAL_PAYEE"@)
    } else {
        ("EXTERNAL_PAYER"@, account)
    }
}

fn pair(a: &str, b: &str) -> (r: (String, String))
    ensures
        r.0@ == a@,
        r.1@ == b@,
{
    (owned(a), owned(b))
}

pub fn determine_accounts(
    account_id: &str,
    txn_type: &str,
    sign: Sign,
    description: &str,
    current_account: &str,
    savings_account: &str,
) -> (r: (String, String))
    ensures
        (r.0@, r.1@) == determine_accounts_spec(
            account_id@,
            txn_type@,
            sign,
            description@,
            current_account@,
            savings_account@,
        ),
{
    let lowered = to_lowercase(description);
    if contains(lowered.as_str(), "exchanged") {
        return pair(account_id, account_id);
    }
    if same(txn_type, "internal_transfer") {
        if contains(description, "To pocket") {
            if sign.is_positive() {
                if same(account_id, savings_account) {
                    pair(current_account, savings_account)
                } else {
                    pair(account_id, savings_account)
                }
            } else if same(account_id, current_account) {
                pair(current_account, savings_account)
            } else {
                pair(savings_account, account_id)
            }
        } else if contains(description, "Pocket Withdrawal") {
            if sign.is_negative() {
                if same(account_id, savings_account) {
                    pair(savings_account, current_account)
                } else {
                    pair(account_id, current_account)
                }
            } else if same(account_id, current_account) {
                pair(savings_account, current_account)
            } else {
                pair(savings_account, account_id)
            }
        } else if sign.is_negative() {
            pair(account_id, "INTERNAL_DESTINATION")
        } else {
            pair("INTERNAL_SOURCE", account_id)
        }
    } else if same(txn_type, "expense") {
        pair(account_id, "EXTERNAL_PAYEE")
    } else if same(txn_type, "income") {
        pair("EXTERNAL_PAYER", account_id)
    } else if same(txn_type, "fx") {
        if sign.is_negative() {
            pair(account_id, "FX_EXCHANGE")
        } else {
            pair("FX_EXCHANGE", account_id)
        }
    } else if sign.is_negative() {
        pair(account_id, "EXTERNAL_PAYEE")
    } else {
        pair("EXTERNAL_PAYER", account_id)
    }
}

/// Whatever the type, the row's own account is one end of the flow.
pub proof fn lemma_flow_touches_row_account(
    account: Seq<char>,
    txn_type: Seq<char>,
    sign: Sign,
    description: Seq<char>,
    current: Seq<char>,
    savings: Seq<char>,
)
    ensures
        ({
            let (from, to) = determine_accounts_spec(account, txn_type, sign, description, current, savings);
            from == account || to == account
        }),
{
}

// ---------------------------------------------------------------------------
// Dates and identifiers
// ---------------------------------------------------------------------------

/// Why no date could be read from a row.
pub enum DateProblem {
    Missing,
    Unrecognized(String),
}

pub enum DateProblemV {
    Missing,
    Unrecognized(Seq<char>),
}

/// The completed date, else the started date, read as
/// `%Y-%m-%d %H:%M:%S` or else as `%Y-%m-%d`.
pub open spec fn row_date_spec(completed: Option<Seq<char>>, started: Option<Seq<char>>) -> Result<
    Date,
    DateProblemV,
> {
    let raw = match completed {
        Some(c) => Some(c),
        None => started,
    };
    match raw {
        None => Err(DateProblemV::Missing),
        Some(r) => match chrono_datetime_date(r, "%Y-%m-%d %H:%M:%S"@) {
            Some(d) => Ok(d),
            None => match chrono_date(r, "%Y-%m-%d"@) {
                Some(d) => Ok(d),
                None => Err(DateProblemV::Unrecognized(r)),
            },
        },
    }
}

pub fn row_date(completed: &Option<String>, started: &Option<String>) -> (r: Result<Date, DateProblem>)
    ensures
        match (r, row_date_spec(opt_view(*completed), opt_view(*started))) {
            (Ok(d), Ok(e)) => d == e,
            (Err(DateProblem::Missing), Err(DateProblemV::Missing)) => true,
            (Err(DateProblem::Unrecognized(a)), Err(DateProblemV::Unrecognized(b))) => a@ == b,
            _ => false,
        },
{
    let raw = match completed {
        Some(c) => c,
        None => match started {
            Some(s) => s,
            None => {
                return Err(DateProblem::Missing);
            },
        },
    };
    if let Some(d) = parse_datetime_date_fmt(raw.as_str(), "%Y-%m-%d %H:%M:%S") {
        return Ok(d);
    }
    if let Some(d) = parse_date_fmt(raw.as_str(), "%Y-%m-%d") {
        return Ok(d);
    }
    Err(DateProblem::Unrecognized(raw.clone()))
}

/// The text hashed into a Revolut transaction identifier.
pub open spec fn revolut_seed(
    account: Seq<char>,
    date: Date,
    amount_text: Seq<char>,
    currency: Seq<char>,
    description: Seq<char>,
    row_number: nat,
) -> Seq<char> {
    account + "|"@ + iso_text(date) + "|"@ + amount_text + "|"@ + currency + "|"@ + trim_spec(
        description,
    ) + "|"@ + decimal(row_number)
}

/// `"REVOLUT-<24 hex digits of SHA-256(seed)>"`.
pub open spec fn revolut_txn_id_spec(
    account: Seq<char>,
    date: Date,
    amount_text: Seq<char>,
    currency: Seq<char>,
    description: Seq<char>,
    row_number: nat,
) -> Seq<char> {
    "REVOLUT"@ + "-"@ + hex_spec(
        sha256(utf8(revolut_seed(account, date, amount_text, currency, description, row_number))).take(
            12,
        ),
    )
}

/// Identifier of a row's transaction; `amount_text` is the amount with eight
/// decimals.
pub fn field_txn_id(
    account_id: &str,
    date: &Date,
    amount_text: &str,
    currency: &str,
    description: &str,
    row_number: usize,
) -> (out: String)
    ensures
        out@ == revolut_txn_id_spec(
            account_id@,
            *date,
            amount_text@,
            currency@,
            description@,
            row_number as nat,
        ),
{
    let mut seed = owned(account_id);
    seed.append("|");
    seed.append(crate::dates::iso_date(date).as_str());
    seed.append("|");
    seed.append(amount_text);
    seed.append("|");
    seed.append(currency);
    seed.append("|");
    seed.append(trim(description).as_str());
    seed.append("|");
    seed.append(decimal_string(row_number).as_str());
    prefixed_digest_id("REVOLUT", seed.as_str(), 12)
}

// ---------------------------------------------------------------------------
// Rows
// ---------------------------------------------------------------------------

/// What the importer has produced so far: the transactions and the accounts
/// they used, each account listed once, in order of first use.
pub type RevolutAcc<A> = (Seq<TransactionV<A>>, Seq<Seq<char>>);

pub open spec fn row_account(product: Option<Seq<char>>, current: Seq<char>, savings: Seq<char>) -> Seq<
    char,
> {
    if product == Some("Savings"@) {
        savings
    } else {
        current
    }
}

pub open spec fn fee_applies<A>(fee: Option<AmountV<A>>) -> bool {
    match fee {
        Some(f) => f.sign != Sign::Zero,
        None => false,
    }
}

/// The effect of line `row_number` (counted from 1) on what was produced.
pub open spec fn row_step<A>(
    current: Seq<char>,
    savings: Seq<char>,
    only_completed: bool,
    acc: RevolutAcc<A>,
    row: RevolutRowV<A>,
    row_number: nat,
) -> Result<RevolutAcc<A>, RevolutErrorV> {
    if only_completed && or_empty(row.state) != "COMPLETED"@ {
        Ok(acc)
    } else {
        match row_date_spec(row.completed_date, row.started_date) {
            Err(DateProblemV::Missing) => Err(RevolutErrorV::MissingDate { row: row_number }),
            Err(DateProblemV::Unrecognized(raw)) => Err(
                RevolutErrorV::UnrecognizedDate { row: row_number, raw },
            ),
            Ok(date) => {
                let description = or_empty(row.description);
                let account = row_account(row.product, current, savings);
                let ty = infer_type_spec(row.amount.sign, row.revolut_type, description);
                let (from, to) = determine_accounts_spec(
                    account,
                    ty,
                    row.amount.sign,
                    description,
                    current,
                    savings,
                );
                let used1 = if from == current || to == current {
                    add_once(acc.1, current)
                } else {
                    acc.1
                };
                let used2 = if from == savings || to == savings {
                    add_once(used1, savings)
                } else {
                    used1
                };
                let main = txn_v(
                    date,
                    from,
                    to,
                    ty,
                    row.amount.magnitude,
                    row.currency,
                    description,
                    revolut_txn_id_spec(
                        account,
                        date,
                        row.amount.fixed8,
                        row.currency,
                        description,
                        row_number,
                    ),
                );
                let txns = acc.0.push(main);
                let txns = if fee_applies(row.fee) {
                    let fee = row.fee->0;
                    txns.push(
                        txn_v(
                            date,
                            account,
                            "EXTERNAL_PAYEE"@,
                            "expense"@,
                            fee.magnitude,
                            row.currency,
                            "Fees: "@ + description,
                            revolut_txn_id_spec(
                                account,
                                date,
                                fee.fixed8,
                                row.currency,
                                "FEE|"@ + description,
                                row_number,
                            ),
                        ),
                    )
                } else {
                    txns
                };
                Ok((txns, used2))
            },
        }
    }
}

pub open spec fn row_result_views<A>(rows: Seq<Result<RevolutRow<A>, String>>) -> Seq<
    Result<RevolutRowV<A>, Seq<char>>,
> {
    rows.map_values(
        |r: Result<RevolutRow<A>, String>|
            match r {
                Ok(row) => Ok(row@),
                Err(m) => Err(m@),
            },
    )
}

/// The first `n` lines, processed in order; the first failing line ends the
/// import.
pub open spec fn run_rows<A>(
    current: Seq<char>,
    savings: Seq<char>,
    only_completed: bool,
    rows: Seq<Result<RevolutRowV<A>, Seq<char>>>,
    n: int,
) -> Result<RevolutAcc<A>, RevolutErrorV>
    decreases n,
{
    if n <= 0 {
        Ok((Seq::empty(), Seq::empty()))
    } else {
        match run_rows(current, savings, only_completed, rows, n - 1) {
            Err(e) => Err(e),
            Ok(acc) => match rows[n - 1] {
                Err(m) => Err(RevolutErrorV::Deserialize { row: n as nat, message: m }),
                Ok(row) => row_step(current, savings, only_completed, acc, row, n as nat),
            },
        }
    }
}

impl RevolutCsvParser {
    fn process_row<A: Copy>(
        &self,
        row: &RevolutRow<A>,
        row_number: usize,
        txns: &mut Vec<Transaction<A>>,
        used: &mut Vec<String>,
    ) -> (r: Result<(), RevolutError>)
        ensures
            match row_step(
                self.account_id_current@,
                self.account_id_savings@,
                self.only_completed,
                (seq_views(old(txns)@), crate::text::views(old(used)@)),
                row@,
                row_number as nat,
            ) {
                Ok(acc) => r is Ok && acc == (
                    seq_views(final(txns)@),
                    crate::text::views(final(used)@),
                ),
                Err(e) => r matches Err(x) && x@ == e,
            },
    {
        proof {
            reveal_strlit("COMPLETED");
        }
        if self.only_completed {
            let completed = match &row.state {
                Some(s) => same(s.as_str(), "COMPLETED"),
                None => false,
            };
            if !completed {
                return Ok(());
            }
        }
        let date = match row_date(&row.completed_date, &row.started_date) {
            Ok(d) => d,
            Err(DateProblem::Missing) => {
                return Err(RevolutError::MissingDate { row: row_number });
            },
            Err(DateProblem::Unrecognized(raw)) => {
                return Err(RevolutError::UnrecognizedDate { row: row_number, raw });
            },
        };
        let description = opt_or_empty(&row.description);
        let is_savings = match &row.product {
            Some(p) => same(p.as_str(), "Savings"),
            None => false,
        };
        let account_id = if is_savings {
            self.account_id_savings.clone()
        } else {
            self.account_id_current.clone()
        };
        let sign = row.amount.sign;
        let txn_type = infer_type(sign, &row.revolut_type, description.as_str());
        let (from_account_id, to_account_id) = determine_accounts(
            account_id.as_str(),
            txn_type.as_str(),
            sign,
            description.as_str(),
            self.account_id_current.as_str(),
            self.account_id_savings.as_str(),
        );
        if same(from_account_id.as_str(), self.account_id_current.as_str()) || same(
            to_account_id.as_str(),
            self.account_id_current.as_str(),
        ) {
            push_unique(used, &self.account_id_current);
        }
        if same(from_account_id.as_str(), self.account_id_savings.as_str()) || same(
            to_account_id.as_str(),
            self.account_id_savings.as_str(),
        ) {
            push_unique(used, &self.account_id_savings);
        }
        let txn_id = field_txn_id(
            account_id.as_str(),
            &date,
            row.amount.fixed8.as_str(),
            row.currency.as_str(),
            description.as_str(),
            row_number,
        );
        let ghost before = seq_views(txns@);
        txns.push(
            build_transaction_value(
                &date,
                from_account_id,
                to_account_id,
                txn_type,
                row.amount.magnitude,
                row.currency.clone(),
                description.clone(),
                txn_id,
            ),
        );
        assert(seq_views(txns@) =~= before.push(seq_views(txns@).last()));
        match &row.fee {
            Some(fee) => {
                let charged = match fee.sign {
                    Sign::Zero => false,
                    _ => true,
                };
                if charged {
                    let fee_description = concat("Fees: ", description.as_str());
                    let fee_key = concat("FEE|", description.as_str());
                    let fee_txn_id = field_txn_id(
                        account_id.as_str(),
                        &date,
                        fee.fixed8.as_str(),
                        row.currency.as_str(),
                        fee_key.as_str(),
                        row_number,
                    );
                    let ghost before_fee = seq_views(txns@);
                    txns.push(
                        build_transaction_value(
                            &date,
                            account_id,
                            owned("EXTERNAL_PAYEE"),
                            owned("expense"),
                            fee.magnitude,
                            row.currency.clone(),
                            fee_description,
                            fee_txn_id,
                        ),
                    );
                    assert(seq_views(txns@) =~= before_fee.push(seq_views(txns@).last()));
                }
            },
            None => {},
        }
        Ok(())
    }

    /// The transactions of the deserialized lines of an export, and the
    /// accounts they use. `rows[i]` is line `i + 1` or the reader's message
    /// for it.
    pub fn parse_rows<A: Copy>(&self, rows: &Vec<Result<RevolutRow<A>, String>>) -> (r: Result<
        (Vec<Transaction<A>>, Vec<String>),
        RevolutError,
    >)
        ensures
            match run_rows(
                self.account_id_current@,
                self.account_id_savings@,
                self.only_completed,
                row_result_views(rows@),
                rows@.len() as int,
            ) {
                Ok(acc) => r matches Ok(out) && acc == (
                    seq_views(out.0@),
                    crate::text::views(out.1@),
                ),
                Err(e) => r matches Err(x) && x@ == e,
            },
    {
        let mut txns: Vec<Transaction<A>> = Vec::new();
        let mut used: Vec<String> = Vec::new();
        let mut i: usize = 0;
        assert(seq_views(txns@) =~= Seq::<TransactionV<A>>::empty());
        assert(crate::text::views(used@) =~= Seq::<Seq<char>>::empty());
        while i < rows.len()
            invariant
                i <= rows.len(),
                run_rows(
                    self.account_id_current@,
                    self.account_id_savings@,
                    self.only_completed,
                    row_result_views(rows@),
                    i as int,
                ) == Ok::<RevolutAcc<A>, RevolutErrorV>(
                    (seq_views(txns@), crate::text::views(used@)),
                ),
            decreases rows.len() - i,
        {
            match &rows[i] {
                Err(m) => {
                    proof {
                        lemma_run_err_stays(
                            self.account_id_current@,
                            self.account_id_savings@,
                            self.only_completed,
                            row_result_views(rows@),
                            i as int + 1,
                            rows@.len() as int,
                        );
                    }
                    return Err(RevolutError::Deserialize { row: i + 1, message: m.clone() });
                },
                Ok(row) => {
                    match self.process_row(row, i + 1, &mut txns, &mut used) {
                        Ok(()) => {},
                        Err(e) => {
                            proof {
                                lemma_run_err_stays(
                                    self.account_id_current@,
                                    self.account_id_savings@,
                                    self.only_completed,
                                    row_result_views(rows@),
                                    i as int + 1,
                                    rows@.len() as int,
                                );
                            }
                            return Err(e);
                        },
                    }
                },
            }
            i = i + 1;
        }
        Ok((txns, used))
    }
}

/// Once a line fails, the import fails with that line's error.
proof fn lemma_run_err_stays<A>(
    current: Seq<char>,
    savings: Seq<char>,
    only_completed: bool,
    rows: Seq<Result<RevolutRowV<A>, Seq<char>>>,
    k: int,
    n: int,
)
    requires
        1 <= k <= n,
        run_rows(current, savings, only_completed, rows, k) is Err,
    ensures
        run_rows(current, savings, only_completed, rows, n) == run_rows(
            current,
            savings,
            only_completed,
            rows,
            k,
        ),
    decreases n - k,
{
    if n > k {
        lemma_run_err_stays(current, savings, only_completed, rows, k, n - 1);
    }
}

/// Free-standing form of [`RevolutCsvParser::parse_rows`].
pub fn parse_transactions<A: Copy>(
    parser: &RevolutCsvParser,
    rows: &Vec<Result<RevolutRow<A>, String>>,
) -> (r: Result<(Vec<Transaction<A>>, Vec<String>), RevolutError>)
    ensures
        match run_rows(
            parser.account_id_current@,
            parser.account_id_savings@,
            parser.only_completed,
            row_result_views(rows@),
            rows@.len() as int,
        ) {
            Ok(acc) => r matches Ok(out) && acc == (seq_views(out.0@), crate::text::views(out.1@)),
            Err(e) => r matches Err(x) && x@ == e,
        },
{
    parser.parse_rows(rows)
}


// ---------------------------------------------------------------------------
// What the used accounts are
// ---------------------------------------------------------------------------

/// Some transaction moves money from or to `x`.
pub open spec fn touches<A>(txns: Seq<TransactionV<A>>, x: Seq<char>) -> bool {
    exists|i: int|
        0 <= i < txns.len() && ((#[trigger] txns[i]).from_account_id == x || txns[i].to_account_id
            == x)
}

/// The used accounts are listed once each, and are exactly those of the two
/// parser accounts that some transaction moves money from or to.
pub open spec fn used_exactly<A>(acc: RevolutAcc<A>, current: Seq<char>, savings: Seq<char>) -> bool {
    &&& acc.1.no_duplicates()
    &&& forall|x: Seq<char>|
        #![trigger acc.1.contains(x)]
        acc.1.contains(x) <==> ((x == current || x == savings) && touches(acc.0, x))
}

proof fn lemma_touches_push<A>(txns: Seq<TransactionV<A>>, t: TransactionV<A>, x: Seq<char>)
    ensures
        touches(txns.push(t), x) <==> (touches(txns, x) || t.from_account_id == x
            || t.to_account_id == x),
{
    let s = txns.push(t);
    if touches(s, x) {
        let i = choose|i: int|
            0 <= i < s.len() && ((#[trigger] s[i]).from_account_id == x || s[i].to_account_id == x);
        if i < txns.len() {
            assert(txns[i] == s[i]);
        }
    }
    if touches(txns, x) {
        let i = choose|i: int|
            0 <= i < txns.len() && ((#[trigger] txns[i]).from_account_id == x
                || txns[i].to_account_id == x);
        assert(s[i] == txns[i]);
    }
    if t.from_account_id == x || t.to_account_id == x {
        assert(s[txns.len() as int] == t);
    }
}

proof fn lemma_row_step_keeps_used_exactly<A>(
    current: Seq<char>,
    savings: Seq<char>,
    only_completed: bool,
    acc: RevolutAcc<A>,
    row: RevolutRowV<A>,
    n: nat,
)
    requires
        used_exactly(acc, current, savings),
        current != "EXTERNAL_PAYEE"@,
        savings != "EXTERNAL_PAYEE"@,
        row_step(current, savings, only_completed, acc, row, n) is Ok,
    ensures
        used_exactly(row_step(current, savings, only_completed, acc, row, n)->Ok_0, current, savings),
{
    if only_completed && or_empty(row.state) != "COMPLETED"@ {
    } else {
        let date = row_date_spec(row.completed_date, row.started_date)->Ok_0;
        let description = or_empty(row.description);
        let account = row_account(row.product, current, savings);
        let ty = infer_type_spec(row.amount.sign, row.revolut_type, description);
        let (from, to) = determine_accounts_spec(account, ty, row.amount.sign, description, current, savings);
        lemma_flow_touches_row_account(account, ty, row.amount.sign, description, current, savings);
        let used1 = if from == current || to == current {
            add_once(acc.1, current)
        } else {
            acc.1
        };
        lemma_add_once(acc.1, current);
        lemma_add_once(used1, savings);
        let next = row_step(current, savings, only_completed, acc, row, n)->Ok_0;
        let main = next.0[acc.0.len() as int];
        assert forall|x: Seq<char>| #![trigger next.1.contains(x)]
            next.1.contains(x) <==> ((x == current || x == savings) && touches(next.0, x)) by {
            lemma_touches_push(acc.0, main, x);
            if fee_applies(row.fee) {
                let fee_txn = next.0.last();
                assert(next.0 =~= acc.0.push(main).push(fee_txn));
                lemma_touches_push(acc.0.push(main), fee_txn, x);
            } else {
                assert(next.0 =~= acc.0.push(main));
            }
            assert(acc.1.contains(x) ==> used1.contains(x));
        }
    }
}

/// The accounts an import reports as used are listed once each and are
/// exactly those of the parser's two accounts that some produced transaction
/// (a row's flow or its fee) moves money from or to.
pub proof fn lemma_used_accounts_are_those_touched<A>(
    current: Seq<char>,
    savings: Seq<char>,
    only_completed: bool,
    rows: Seq<Result<RevolutRowV<A>, Seq<char>>>,
    n: int,
)
    requires
        current != "EXTERNAL_PAYEE"@,
        savings != "EXTERNAL_PAYEE"@,
        run_rows(current, savings, only_completed, rows, n) is Ok,
    ensures
        used_exactly(run_rows(current, savings, only_completed, rows, n)->Ok_0, current, savings),
    decreases n,
{
    if n <= 0 {
        let acc = run_rows(current, savings, only_completed, rows, n)->Ok_0;
        assert(acc.1 =~= Seq::<Seq<char>>::empty());
        assert forall|x: Seq<char>| #![trigger acc.1.contains(x)]
            acc.1.contains(x) <==> ((x == current || x == savings) && touches(acc.0, x)) by {
            assert(!touches(acc.0, x));
        }
    } else {
        lemma_used_accounts_are_those_touched(current, savings, only_completed, rows, n - 1);
        let acc = run_rows(current, savings, only_completed, rows, n - 1)->Ok_0;
        match rows[n - 1] {
            Err(_) => {},
            Ok(row) => {
                lemma_row_step_keeps_used_exactly(current, savings, only_completed, acc, row, n as nat);
            },
        }
    }
}

// ---------------------------------------------------------------------------
// Which way money moves
// ---------------------------------------------------------------------------

/// The Revolut type names a transfer.
pub open spec fn is_transfer_type(revolut_type: Option<Seq<char>>) -> bool {
    contains_spec(unicode_lower(or_empty(revolut_type)), "transfer"@)
}

/// A transfer "to" someone takes money out of the row's account: it is an
/// expense, paid from that account to an external payee (unless the wording
/// marks a currency exchange, which stays on the account). A transfer
/// "from" someone brings money in: it is income, paid by an external payer
/// into the row's account. The sign of the amount plays no part in either.
pub proof fn lemma_transfer_wording_sets_direction(
    sign: Sign,
    revolut_type: Option<Seq<char>>,
    description: Seq<char>,
    account: Seq<char>,
    current: Seq<char>,
    savings: Seq<char>,
)
    requires
        is_transfer_type(revolut_type),
    ensures
        "Transfer to "@.is_prefix_of(description) ==> infer_type_spec(sign, revolut_type, description)
            == "expense"@,
        "Transfer to "@.is_prefix_of(description) && !contains_spec(unicode_lower(description), "exchanged"@)
            ==> determine_accounts_spec(
            account,
            infer_type_spec(sign, revolut_type, description),
            sign,
            description,
            current,
            savings,
        ) == (account, "EXTERNAL_PAYEE"@),
        "Transfer from "@.is_prefix_of(description) ==> infer_type_spec(sign, revolut_type, description)
            == "income"@,
        "Transfer from "@.is_prefix_of(description) && !contains_spec(unicode_lower(description), "exchanged"@)
            ==> determine_accounts_spec(
            account,
            infer_type_spec(sign, revolut_type, description),
            sign,
            description,
            current,
            savings,
        ) == ("EXTERNAL_PAYER"@, account),
{
    reveal_strlit("expense");
    reveal_strlit("income");
    reveal_strlit("internal_transfer");
    reveal_strlit("Transfer to ");
    reveal_strlit("Transfer from ");
    reveal_strlit("To ");
    assert("expense"@.len() != "internal_transfer"@.len());
    assert("income"@.len() != "internal_transfer"@.len());
    assert("income"@.len() != "expense"@.len());
    if "Transfer from "@.is_prefix_of(description) {
        let p = "Transfer from "@;
        assert(p[9] == description.subrange(0, p.len() as int)[9]);
        assert(description[9] == 'f');
        assert(!"Transfer to "@.is_prefix_of(description)) by {
            if "Transfer to "@.is_prefix_of(description) {
                assert(description[9] == "Transfer to "@[9]);
            }
        }
        assert(!"To "@.is_prefix_of(description)) by {
            if "To "@.is_prefix_of(description) {
                assert(description[1] == "To "@[1]);
                assert(description[1] == "Transfer from "@[1]);
            }
        }
    }
}

/// A row whose amount is negative is typed income only when it is a
/// transfer whose description says the money came from someone ("Transfer
/// from …" or "Payment from …"); every other outgoing amount is an expense
/// or a pocket movement.
pub proof fn lemma_negative_income_needs_incoming_wording(
    sign: Sign,
    revolut_type: Option<Seq<char>>,
    description: Seq<char>,
)
    requires
        sign.lt_zero(),
        infer_type_spec(sign, revolut_type, description) == "income"@,
    ensures
        is_transfer_type(revolut_type),
        "Transfer from "@.is_prefix_of(description) || "Payment from "@.is_prefix_of(description),
{
    reveal_strlit("expense");
    reveal_strlit("income");
    reveal_strlit("internal_transfer");
    assert("expense"@.len() != "income"@.len());
    assert("internal_transfer"@.len() != "income"@.len());
}

/// Outside transfers, the type follows the sign of the amount alone: a
/// negative amount is an expense, any other an income.
pub proof fn lemma_non_transfer_type_follows_sign(
    sign: Sign,
    revolut_type: Option<Seq<char>>,
    description: Seq<char>,
)
    requires
        !is_transfer_type(revolut_type),
    ensures
        sign.lt_zero() ==> infer_type_spec(sign, revolut_type, description) == "expense"@,
        !sign.lt_zero() ==> infer_type_spec(sign, revolut_type, description) == "income"@,
{
}

/// A transfer "To …" someone (not to a pocket) is an expense; a "Payment
/// from …" someone (not from a pocket) is income.
pub proof fn lemma_payment_wording_sets_type(
    sign: Sign,
    revolut_type: Option<Seq<char>>,
    description: Seq<char>,
)
    requires
        is_transfer_type(revolut_type),
    ensures
        "To "@.is_prefix_of(description) && !contains_spec(description, "To pocket"@)
            ==> infer_type_spec(sign, revolut_type, description) == "expense"@,
        "Payment from "@.is_prefix_of(description) && !contains_spec(description, "From pocket"@)
            ==> infer_type_spec(sign, revolut_type, description) == "income"@,
{
    reveal_strlit("Transfer to ");
    reveal_strlit("Transfer from ");
    reveal_strlit("To ");
    reveal_strlit("Payment from ");
    if "Payment from "@.is_prefix_of(description) {
        let p = "Payment from "@;
        assert(p[0] == description.subrange(0, p.len() as int)[0]);
        assert(description[0] == 'P');
        assert(!"Transfer to "@.is_prefix_of(description)) by {
            if "Transfer to "@.is_prefix_of(description) {
                assert(description[0] == "Transfer to "@[0]);
            }
        }
        assert(!"Transfer from "@.is_prefix_of(description)) by {
            if "Transfer from "@.is_prefix_of(description) {
                assert(description[0] == "Transfer from "@[0]);
            }
        }
        assert(!"To "@.is_prefix_of(description)) by {
            if "To "@.is_prefix_of(description) {
                assert(description[0] == "To "@[0]);
            }
        }
    }
}

/// Where a row's money goes, by its type: an expense leaves the row's
/// account for an external payee, income comes into it from an external
/// payer, and a transfer "To pocket" booked on either own account ends in
/// the savings account. A currency exchange stays on the row's account.
pub proof fn lemma_accounts_follow_type(
    account: Seq<char>,
    txn_type: Seq<char>,
    sign: Sign,
    description: Seq<char>,
    current: Seq<char>,
    savings: Seq<char>,
)
    ensures
        contains_spec(unicode_lower(description), "exchanged"@) ==> determine_accounts_spec(
            account,
            txn_type,
            sign,
            description,
            current,
            savings,
        ) == (account, account),
        !contains_spec(unicode_lower(description), "exchanged"@) && txn_type == "expense"@
            ==> determine_accounts_spec(account, txn_type, sign, description, current, savings) == (
            account,
            "EXTERNAL_PAYEE"@,
        ),
        !contains_spec(unicode_lower(description), "exchanged"@) && txn_type == "income"@
            ==> determine_accounts_spec(account, txn_type, sign, description, current, savings) == (
            "EXTERNAL_PAYER"@,
            account,
        ),
        !contains_spec(unicode_lower(description), "exchanged"@) && txn_type == "internal_transfer"@
            && contains_spec(description, "To pocket"@) && (account == current || account == savings)
            ==> determine_accounts_spec(account, txn_type, sign, description, current, savings).1
            == savings,
{
    reveal_strlit("expense");
    reveal_strlit("income");
    reveal_strlit("internal_transfer");
    assert("expense"@.len() != "internal_transfer"@.len());
    assert("income"@.len() != "internal_transfer"@.len());
    assert("income"@.len() != "expense"@.len());
}

/// A row that is read adds its own transaction, of the row's amount, right
/// after what was produced before: a transfer "to" someone booked on the
/// current account (any product but Savings) is an expense from the
/// current account to an external payee, and one booked on Savings an
/// expense from the savings account. A nonzero fee adds one more expense of
/// the fee from the row's account to an external payee.
pub proof fn lemma_read_row_appends_its_transactions<A>(
    current: Seq<char>,
    savings: Seq<char>,
    only_completed: bool,
    acc: RevolutAcc<A>,
    row: RevolutRowV<A>,
    n: nat,
)
    requires
        row_step(current, savings, only_completed, acc, row, n) is Ok,
        !(only_completed && or_empty(row.state) != "COMPLETED"@),
    ensures
        ({
            let next = row_step(current, savings, only_completed, acc, row, n)->Ok_0;
            let t = next.0[acc.0.len() as int];
            let description = or_empty(row.description);
            let account = row_account(row.product, current, savings);
            &&& next.0.len() == acc.0.len() + (if fee_applies(row.fee) {
                2int
            } else {
                1int
            })
            &&& next.0.subrange(0, acc.0.len() as int) == acc.0
            &&& t.amount == row.amount.magnitude
            &&& row.product != Some("Savings"@) ==> account == current
            &&& row.product == Some("Savings"@) ==> account == savings
            &&& is_transfer_type(row.revolut_type) && "Transfer to "@.is_prefix_of(description)
                && !contains_spec(unicode_lower(description), "exchanged"@) ==> t.transaction_type
                == "expense"@ && t.from_account_id == account && t.to_account_id == "EXTERNAL_PAYEE"@
            &&& fee_applies(row.fee) ==> ({
                let f = next.0[acc.0.len() + 1int];
                f.transaction_type == "expense"@ && f.from_account_id == account && f.to_account_id
                    == "EXTERNAL_PAYEE"@ && f.amount == row.fee->0.magnitude
            })
        }),
{
    let description = or_empty(row.description);
    let account = row_account(row.product, current, savings);
    if is_transfer_type(row.revolut_type) {
        lemma_transfer_wording_sets_direction(
            row.amount.sign,
            row.revolut_type,
            description,
            account,
            current,
            savings,
        );
    }
    let next = row_step(current, savings, only_completed, acc, row, n)->Ok_0;
    assert(next.0.subrange(0, acc.0.len() as int) =~= acc.0);
}

} // verus!
