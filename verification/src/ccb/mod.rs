//! China Construction Bank statements (XLS): one sheet with a header row
//! starting with `序号`.
use vstd::prelude::*;

use crate::dates::{chrono_date, date_from_ymd, iso_date, iso_text, parse_date_fmt, valid_ymd, Date};
use crate::hashing::{hex_spec, prefixed_digest_id, sha256, utf8};
use crate::money::{Amount, AmountV, Sign};
use crate::records::{build_transaction_value, seq_views, txn_v, Transaction, TransactionV};
use crate::text::{
    all_digits, digits_number, digits_value, lemma_digits_bound, chars_of, contains, contains_spec, decimal, decimal_string, is_digit, owned, remove_char,
    remove_char_spec, same, trim, trim_spec, views,
};

verus! {

broadcast use vstd::string::group_string_axioms;

/// The CCB importer: one account; by default empty rows are passed over
/// rather than ending the statement.
pub struct CcbXlsParser {
    pub account_id: String,
    pub only_nonempty_rows: bool,
}

impl CcbXlsParser {
    pub fn new(account_id: &str) -> (p: CcbXlsParser)
        ensures
            p.account_id@ == account_id@,
            p.only_nonempty_rows,
    {
        CcbXlsParser { account_id: owned(account_id), only_nonempty_rows: true }
    }

    pub fn with_only_nonempty_rows(self, only_nonempty_rows: bool) -> (p: CcbXlsParser)
        ensures
            p.account_id@ == self.account_id@,
            p.only_nonempty_rows == only_nonempty_rows,
    {
        let mut p = self;
        p.only_nonempty_rows = only_nonempty_rows;
        p
    }
}

/// Every CCB statement is in yuan.
pub open spec fn ccb_currency_spec(currency_raw: Seq<char>) -> Seq<char> {
    "CNY"@
}

pub fn normalize_ccb_currency(currency_raw: &str) -> (out: String)
    ensures
        out@ == ccb_currency_spec(currency_raw@),
{
    if contains(currency_raw, "人民币") {
        owned("CNY")
    } else {
        owned("CNY")
    }
}

// ---------------------------------------------------------------------------
// Dates and amounts
// ---------------------------------------------------------------------------

/// `YYYYMMDD` (which must be a real date), else `YYYY-MM-DD`, after
/// trimming.
pub open spec fn ccb_date_spec(raw: Seq<char>) -> Option<Date> {
    let s = trim_spec(raw);
    if s.len() == 8 && all_digits(s) {
        let y = digits_value(s, 0, 4);
        let m = digits_value(s, 4, 6);
        let d = digits_value(s, 6, 8);
        if valid_ymd(y, m, d) {
            Some(Date { year: y as i32, month: m as u32, day: d as u32 })
        } else {
            None
        }
    } else {
        chrono_date(s, "%Y-%m-%d"@)
    }
}

pub fn parse_ccb_date(raw: &str) -> (r: Option<Date>)
    ensures
        r == ccb_date_spec(raw@),
{
    let s = trim(raw);
    let cs = chars_of(s.as_str());
    let mut all = cs.len() == 8;
    let mut i: usize = 0;
    while all && i < cs.len()
        invariant
            i <= cs.len(),
            cs@ == s@,
            all ==> cs@.len() == 8,
            all ==> forall|k: int| 0 <= k < i ==> is_digit(#[trigger] cs@[k]),
            !all ==> !(cs@.len() == 8 && all_digits(cs@)),
        decreases cs.len() - i, (if all { 1int } else { 0int }),
    {
        if !('0' <= cs[i] && cs[i] <= '9') {
            all = false;
        } else {
            i = i + 1;
        }
    }
    if all {
        proof {
            lemma_digits_bound(cs@, 0, 4);
            lemma_digits_bound(cs@, 4, 6);
            lemma_digits_bound(cs@, 6, 8);
        }
        let y = digits_number(&cs, 0, 4);
        let m = digits_number(&cs, 4, 6);
        let d = digits_number(&cs, 6, 8);
        date_from_ymd(y as i32, m, d)
    } else {
        parse_date_fmt(s.as_str(), "%Y-%m-%d")
    }
}

/// The amount text the caller reads as a number: trimmed, thousands
/// separators removed, trimmed again. An empty text is no amount.
pub open spec fn ccb_amount_text_spec(raw: Seq<char>) -> Seq<char> {
    trim_spec(remove_char_spec(trim_spec(raw), ','))
}

pub fn ccb_amount_text(raw: &str) -> (out: String)
    ensures
        out@ == ccb_amount_text_spec(raw@),
{
    let t = trim(raw);
    let r = remove_char(t.as_str(), ',');
    trim(r.as_str())
}

// ---------------------------------------------------------------------------
// The sheet
// ---------------------------------------------------------------------------

pub open spec fn field(row: Seq<Seq<char>>, i: int) -> Seq<char> {
    if 0 <= i < row.len() {
        row[i]
    } else {
        Seq::empty()
    }
}

fn field_exec(row: &Vec<String>, i: usize) -> (out: String)
    ensures
        out@ == field(views(row@), i as int),
{
    if i < row.len() {
        row[i].clone()
    } else {
        String::new()
    }
}

/// The column of a heading: the last cell of the row that reads `name`
/// once trimmed.
pub open spec fn heading_col(row: Seq<Seq<char>>, name: Seq<char>, n: int) -> Option<int>
    decreases n,
{
    if n <= 0 {
        None
    } else if trim_spec(row[n - 1]) == name && name.len() > 0 {
        Some(n - 1)
    } else {
        heading_col(row, name, n - 1)
    }
}

pub open spec fn col_of(row: Seq<Seq<char>>, name: Seq<char>) -> Option<int> {
    heading_col(row, name, row.len() as int)
}

fn find_heading(row: &Vec<String>, name: &str) -> (r: Option<usize>)
    ensures
        match r {
            Some(k) => col_of(views(row@), name@) == Some(k as int),
            None => col_of(views(row@), name@) is None,
        },
{
    let ghost rv = views(row@);
    let mut k: usize = row.len();
    while k > 0
        invariant
            k <= row.len(),
            rv == views(row@),
            col_of(rv, name@) == heading_col(rv, name@, k as int),
        decreases k,
    {
        let t = trim(row[k - 1].as_str());
        if same(t.as_str(), name) && name.unicode_len() > 0 {
            return Some(k - 1);
        }
        k = k - 1;
    }
    None
}

/// A header row: `序号` first, with date and amount headings.
pub open spec fn is_header_row(row: Seq<Seq<char>>) -> bool {
    trim_spec(field(row, 0)) == "序号"@ && col_of(row, "交易日期"@) is Some && col_of(row, "交易金额"@) is Some
}

/// Index of the first header row among rows `k..`.
pub open spec fn header_row_from(g: Seq<Seq<Seq<char>>>, k: int) -> Option<int>
    decreases g.len() - k,
{
    if k < 0 || k >= g.len() {
        None
    } else if is_header_row(g[k]) {
        Some(k)
    } else {
        header_row_from(g, k + 1)
    }
}

pub open spec fn grid_view(g: Vec<Vec<String>>) -> Seq<Seq<Seq<char>>> {
    g@.map_values(|r: Vec<String>| views(r@))
}

/// Why a statement could not be read.
pub enum CcbError {
    HeaderNotFound,
    MissingColumn { name: String },
    InvalidDate { raw: String },
    InvalidAmount { raw: String },
}

pub enum CcbErrorV {
    HeaderNotFound,
    MissingColumn { name: Seq<char> },
    InvalidDate { raw: Seq<char> },
    InvalidAmount { raw: Seq<char> },
}

impl View for CcbError {
    type V = CcbErrorV;

    open spec fn view(&self) -> CcbErrorV {
        match self {
            CcbError::HeaderNotFound => CcbErrorV::HeaderNotFound,
            CcbError::MissingColumn { name } => CcbErrorV::MissingColumn { name: name@ },
            CcbError::InvalidDate { raw } => CcbErrorV::InvalidDate { raw: raw@ },
            CcbError::InvalidAmount { raw } => CcbErrorV::InvalidAmount { raw: raw@ },
        }
    }
}

/// Where the columns are.
#[derive(Clone, Copy, Debug, PartialEq, Eq, Structural)]
pub struct CcbColumns {
    pub header_row: usize,
    pub seq: usize,
    pub summary: usize,
    pub currency: usize,
    pub date: usize,
    pub amount: usize,
    pub location: Option<usize>,
    pub counterparty: Option<usize>,
}

/// The header row and the columns, or why they are missing.
pub open spec fn columns_spec(g: Seq<Seq<Seq<char>>>) -> Result<CcbColumns, CcbErrorV> {
    match header_row_from(g, 0) {
        None => Err(CcbErrorV::HeaderNotFound),
        Some(h) => {
            let row = g[h];
            if col_of(row, "序号"@) is None {
                Err(CcbErrorV::MissingColumn { name: "序号"@ })
            } else if col_of(row, "摘要"@) is None {
                Err(CcbErrorV::MissingColumn { name: "摘要"@ })
            } else if col_of(row, "币别"@) is None {
                Err(CcbErrorV::MissingColumn { name: "币别"@ })
            } else {
                Ok(
                    CcbColumns {
                        header_row: h as usize,
                        seq: col_of(row, "序号"@)->0 as usize,
                        summary: col_of(row, "摘要"@)->0 as usize,
                        currency: col_of(row, "币别"@)->0 as usize,
                        date: col_of(row, "交易日期"@)->0 as usize,
                        amount: col_of(row, "交易金额"@)->0 as usize,
                        location: match col_of(row, "交易地点/附言"@) {
                            Some(k) => Some(k as usize),
                            None => None,
                        },
                        counterparty: match col_of(row, "对方账号与户名"@) {
                            Some(k) => Some(k as usize),
                            None => None,
                        },
                    },
                )
            }
        },
    }
}

fn required(row: &Vec<String>, name: &str) -> (r: Result<usize, CcbError>)
    ensures
        match r {
            Ok(k) => col_of(views(row@), name@) == Some(k as int),
            Err(e) => col_of(views(row@), name@) is None && e@ == (CcbErrorV::MissingColumn {
                name: name@,
            }),
        },
{
    match find_heading(row, name) {
        Some(k) => Ok(k),
        None => Err(CcbError::MissingColumn { name: owned(name) }),
    }
}

pub fn find_header_row_ccb(g: &Vec<Vec<String>>) -> (r: Result<CcbColumns, CcbError>)
    ensures
        match columns_spec(grid_view(*g)) {
            Ok(c) => r matches Ok(x) && x == c,
            Err(e) => r matches Err(x) && x@ == e,
        },
{
    let ghost gv = grid_view(*g);
    let mut k: usize = 0;
    while k < g.len()
        invariant
            k <= g.len(),
            gv == grid_view(*g),
            header_row_from(gv, 0) == header_row_from(gv, k as int),
        decreases g.len() - k,
    {
        let row = &g[k];
        assert(gv[k as int] == views(row@));
        let first = trim(field_exec(row, 0).as_str());
        if same(first.as_str(), "序号") && find_heading(row, "交易日期").is_some() && find_heading(
            row,
            "交易金额",
        ).is_some() {
            let seq = required(row, "序号")?;
            let summary = required(row, "摘要")?;
            let currency = required(row, "币别")?;
            let date = required(row, "交易日期")?;
            let amount = required(row, "交易金额")?;
            return Ok(
                CcbColumns {
                    header_row: k,
                    seq,
                    summary,
                    currency,
                    date,
                    amount,
                    location: find_heading(row, "交易地点/附言"),
                    counterparty: find_heading(row, "对方账号与户名"),
                },
            );
        }
        k = k + 1;
    }
    Err(CcbError::HeaderNotFound)
}

/// Summary, location (unless masked as `***`) and counterparty, joined by
/// spaces; a stock text when all are empty.
pub open spec fn description_spec(summary: Seq<char>, location: Seq<char>, counterparty: Seq<char>) -> Seq<
    char,
> {
    let parts = (if summary.len() > 0 {
        seq![summary]
    } else {
        Seq::empty()
    }) + (if location.len() > 0 && location != "***"@ {
        seq![location]
    } else {
        Seq::empty()
    }) + (if counterparty.len() > 0 {
        seq![counterparty]
    } else {
        Seq::empty()
    });
    if parts.len() == 0 {
        "CCB transaction"@
    } else {
        crate::text::join_spec(parts, " "@)
    }
}

pub fn field_description(summary: &str, location: &str, counterparty: &str) -> (out: String)
    ensures
        out@ == description_spec(summary@, location@, counterparty@),
{
    let mut parts: Vec<String> = Vec::new();
    if summary.unicode_len() > 0 {
        parts.push(owned(summary));
    }
    if location.unicode_len() > 0 && !same(location, "***") {
        parts.push(owned(location));
    }
    if counterparty.unicode_len() > 0 {
        parts.push(owned(counterparty));
    }
    let ghost expected = (if summary@.len() > 0 {
        seq![summary@]
    } else {
        Seq::<Seq<char>>::empty()
    }) + (if location@.len() > 0 && location@ != "***"@ {
        seq![location@]
    } else {
        Seq::<Seq<char>>::empty()
    }) + (if counterparty@.len() > 0 {
        seq![counterparty@]
    } else {
        Seq::<Seq<char>>::empty()
    });
    assert(views(parts@) =~= expected);
    if parts.len() == 0 {
        owned("CCB transaction")
    } else {
        crate::text::join(&parts, " ")
    }
}

/// `"CCB-<24 hex digits of SHA-256(seed)>"`.
pub open spec fn ccb_txn_id_spec(
    account: Seq<char>,
    date: Date,
    amount_text: Seq<char>,
    currency: Seq<char>,
    description: Seq<char>,
    seq: Seq<char>,
    row_index: nat,
) -> Seq<char> {
    "CCB"@ + "-"@ + hex_spec(
        sha256(
            utf8(
                account + "|"@ + iso_text(date) + "|"@ + amount_text + "|"@ + currency + "|"@
                    + trim_spec(description) + "|"@ + trim_spec(seq) + "|"@ + decimal(row_index),
            ),
        ).take(12),
    )
}

pub fn make_ccb_txn_id(
    account_id: &str,
    date: &Date,
    amount_text: &str,
    currency: &str,
    description: &str,
    seq: &str,
    row_index: usize,
) -> (out: String)
    ensures
        out@ == ccb_txn_id_spec(
            account_id@,
            *date,
            amount_text@,
            currency@,
            description@,
            seq@,
            row_index as nat,
        ),
{
    let mut seed = owned(account_id);
    seed.append("|");
    seed.append(iso_date(date).as_str());
    seed.append("|");
    seed.append(amount_text);
    seed.append("|");
    seed.append(currency);
    seed.append("|");
    seed.append(trim(description).as_str());
    seed.append("|");
    seed.append(trim(seq).as_str());
    seed.append("|");
    seed.append(decimal_string(row_index).as_str());
    prefixed_digest_id("CCB", seed.as_str(), 12)
}

pub open spec fn amount_at<A>(amounts: Seq<Option<AmountV<A>>>, i: int) -> Option<AmountV<A>> {
    if 0 <= i < amounts.len() {
        amounts[i]
    } else {
        None
    }
}

/// What a data row does: `Ok(None)` passes it over, `Err(None)` ends the
/// statement (an empty row when empty rows end it), `Err(Some(e))` fails.
pub open spec fn row_spec<A>(
    account: Seq<char>,
    only_nonempty_rows: bool,
    cols: CcbColumns,
    row: Seq<Seq<char>>,
    amount: Option<AmountV<A>>,
    row_idx: nat,
) -> Result<Option<TransactionV<A>>, Option<CcbErrorV>> {
    let seq = trim_spec(field(row, cols.seq as int));
    let summary = trim_spec(field(row, cols.summary as int));
    let date_raw = trim_spec(field(row, cols.date as int));
    let amount_raw = trim_spec(field(row, cols.amount as int));
    if seq.len() == 0 && summary.len() == 0 && date_raw.len() == 0 && amount_raw.len() == 0 {
        if only_nonempty_rows {
            Ok(None)
        } else {
            Err(None)
        }
    } else if date_raw.len() == 0 || amount_raw.len() == 0 {
        Ok(None)
    } else {
        match ccb_date_spec(date_raw) {
            None => Err(Some(CcbErrorV::InvalidDate { raw: date_raw })),
            Some(date) => if ccb_amount_text_spec(amount_raw).len() == 0 || amount is None {
                Err(Some(CcbErrorV::InvalidAmount { raw: amount_raw }))
            } else {
                let a = amount->0;
                let expense = a.sign.lt_zero();
                let location = match cols.location {
                    Some(i) => trim_spec(field(row, i as int)),
                    None => Seq::empty(),
                };
                let counterparty = match cols.counterparty {
                    Some(i) => trim_spec(field(row, i as int)),
                    None => Seq::empty(),
                };
                let description = description_spec(summary, location, counterparty);
                Ok(
                    Some(
                        txn_v(
                            date,
                            if expense {
                                account
                            } else {
                                "EXTERNAL_PAYER"@
                            },
                            if expense {
                                "EXTERNAL_PAYEE"@
                            } else {
                                account
                            },
                            if expense {
                                "expense"@
                            } else {
                                "income"@
                            },
                            a.magnitude,
                            ccb_currency_spec(trim_spec(field(row, cols.currency as int))),
                            description,
                            ccb_txn_id_spec(
                                account,
                                date,
                                a.magnitude_fixed8,
                                "CNY"@,
                                description,
                                seq,
                                row_idx + 1,
                            ),
                        ),
                    ),
                )
            },
        }
    }
}

/// Rows from just below the header up to row `n`: the transactions so far
/// and whether the statement ended, or the error.
pub open spec fn rows_spec<A>(
    account: Seq<char>,
    only_nonempty_rows: bool,
    cols: CcbColumns,
    g: Seq<Seq<Seq<char>>>,
    amounts: Seq<Option<AmountV<A>>>,
    n: int,
) -> Result<(Seq<TransactionV<A>>, bool), CcbErrorV>
    decreases n,
{
    if n <= cols.header_row + 1 {
        Ok((Seq::empty(), false))
    } else {
        match rows_spec(account, only_nonempty_rows, cols, g, amounts, n - 1) {
            Err(e) => Err(e),
            Ok((ts, true)) => Ok((ts, true)),
            Ok((ts, false)) => match row_spec(
                account,
                only_nonempty_rows,
                cols,
                g[n - 1],
                amount_at(amounts, n - 1),
                (n - 1) as nat,
            ) {
                Ok(None) => Ok((ts, false)),
                Ok(Some(t)) => Ok((ts.push(t), false)),
                Err(None) => Ok((ts, true)),
                Err(Some(e)) => Err(e),
            },
        }
    }
}

/// The transactions of a statement sheet.
pub open spec fn statement_spec<A>(
    account: Seq<char>,
    only_nonempty_rows: bool,
    g: Seq<Seq<Seq<char>>>,
    amounts: Seq<Option<AmountV<A>>>,
) -> Result<Seq<TransactionV<A>>, CcbErrorV> {
    match columns_spec(g) {
        Err(e) => Err(e),
        Ok(cols) => match rows_spec(account, only_nonempty_rows, cols, g, amounts, g.len() as int) {
            Err(e) => Err(e),
            Ok((ts, _)) => Ok(ts),
        },
    }
}

fn data_row<A: Copy>(
    parser: &CcbXlsParser,
    cols: &CcbColumns,
    row: &Vec<String>,
    amount: &Option<Amount<A>>,
    row_idx: usize,
) -> (out: Result<Option<Transaction<A>>, Option<CcbError>>)
    requires
        row_idx < usize::MAX,
    ensures
        match row_spec(
            parser.account_id@,
            parser.only_nonempty_rows,
            *cols,
            views(row@),
            match amount {
                Some(a) => Some(a@),
                None => None,
            },
            row_idx as nat,
        ) {
            Ok(None) => out matches Ok(None),
            Ok(Some(t)) => out matches Ok(Some(x)) && x@ == t,
            Err(None) => out matches Err(None),
            Err(Some(e)) => out matches Err(Some(x)) && x@ == e,
        },
{
    let seq = trim(field_exec(row, cols.seq).as_str());
    let summary = trim(field_exec(row, cols.summary).as_str());
    let date_raw = trim(field_exec(row, cols.date).as_str());
    let amount_raw = trim(field_exec(row, cols.amount).as_str());
    if seq.unicode_len() == 0 && summary.unicode_len() == 0 && date_raw.unicode_len() == 0
        && amount_raw.unicode_len() == 0 {
        if parser.only_nonempty_rows {
            return Ok(None);
        }
        return Err(None);
    }
    if date_raw.unicode_len() == 0 || amount_raw.unicode_len() == 0 {
        return Ok(None);
    }
    let date = match parse_ccb_date(date_raw.as_str()) {
        Some(d) => d,
        None => {
            return Err(Some(CcbError::InvalidDate { raw: date_raw }));
        },
    };
    let a = match amount {
        Some(a) => {
            if ccb_amount_text(amount_raw.as_str()).unicode_len() == 0 {
                return Err(Some(CcbError::InvalidAmount { raw: amount_raw }));
            }
            a
        },
        None => {
            return Err(Some(CcbError::InvalidAmount { raw: amount_raw }));
        },
    };
    let expense = a.sign.is_negative();
    let location = match cols.location {
        Some(i) => trim(field_exec(row, i).as_str()),
        None => String::new(),
    };
    let counterparty = match cols.counterparty {
        Some(i) => trim(field_exec(row, i).as_str()),
        None => String::new(),
    };
    let description = field_description(summary.as_str(), location.as_str(), counterparty.as_str());
    let currency = normalize_ccb_currency(trim(field_exec(row, cols.currency).as_str()).as_str());
    let txn_id = make_ccb_txn_id(
        parser.account_id.as_str(),
        &date,
        a.magnitude_fixed8.as_str(),
        "CNY",
        description.as_str(),
        seq.as_str(),
        row_idx + 1,
    );
    let (from, to, ty) = if expense {
        (parser.account_id.clone(), owned("EXTERNAL_PAYEE"), owned("expense"))
    } else {
        (owned("EXTERNAL_PAYER"), parser.account_id.clone(), owned("income"))
    };
    Ok(Some(build_transaction_value(&date, from, to, ty, a.magnitude, currency, description, txn_id)))
}

proof fn lemma_rows_err_stays<A>(
    account: Seq<char>,
    only_nonempty_rows: bool,
    cols: CcbColumns,
    g: Seq<Seq<Seq<char>>>,
    amounts: Seq<Option<AmountV<A>>>,
    k: int,
    n: int,
)
    requires
        k <= n,
        rows_spec(account, only_nonempty_rows, cols, g, amounts, k) is Err || rows_spec(
            account,
            only_nonempty_rows,
            cols,
            g,
            amounts,
            k,
        ) matches Ok((_, true)),
    ensures
        rows_spec(account, only_nonempty_rows, cols, g, amounts, n) == rows_spec(
            account,
            only_nonempty_rows,
            cols,
            g,
            amounts,
            k,
        ),
    decreases n - k,
{
    if n > k {
        lemma_rows_err_stays(account, only_nonempty_rows, cols, g, amounts, k, n - 1);
    }
}

/// The transactions of a statement sheet: `cells` is its text by row and
/// `amounts[r]` the number the caller read from row `r`'s amount cell
/// ([`ccb_amount_text`]), `None` when it does not read as one.
pub fn parse_statement<A: Copy>(
    parser: &CcbXlsParser,
    cells: &Vec<Vec<String>>,
    amounts: &Vec<Option<Amount<A>>>,
) -> (out: Result<Vec<Transaction<A>>, CcbError>)
    ensures
        match statement_spec(
            parser.account_id@,
            parser.only_nonempty_rows,
            grid_view(*cells),
            crate::money::opt_amount_views(amounts@),
        ) {
            Ok(ts) => out matches Ok(v) && seq_views(v@) == ts,
            Err(e) => out matches Err(x) && x@ == e,
        },
{
    let ghost gv = grid_view(*cells);
    let ghost am = crate::money::opt_amount_views(amounts@);
    let cols = find_header_row_ccb(cells)?;
    let mut out: Vec<Transaction<A>> = Vec::new();
    assert(seq_views(out@) =~= Seq::<TransactionV<A>>::empty());
    if cols.header_row >= cells.len() {
        return Ok(out);
    }
    let mut r: usize = cols.header_row + 1;
    while r < cells.len()
        invariant_except_break
            cols.header_row + 1 <= r <= cells.len(),
            gv == grid_view(*cells),
            am == crate::money::opt_amount_views(amounts@),
            columns_spec(gv) == Ok::<CcbColumns, CcbErrorV>(cols),
            rows_spec(parser.account_id@, parser.only_nonempty_rows, cols, gv, am, r as int) == Ok::<
                (Seq<TransactionV<A>>, bool),
                CcbErrorV,
            >((seq_views(out@), false)),
        ensures
            rows_spec(parser.account_id@, parser.only_nonempty_rows, cols, gv, am, cells@.len() as int)
                == Ok::<(Seq<TransactionV<A>>, bool), CcbErrorV>((seq_views(out@), (r < cells.len()))),
        decreases cells.len() - r,
    {
        assert(gv[r as int] == views(cells@[r as int]@));
        let none: Option<Amount<A>> = None;
        let amount = if r < amounts.len() {
            &amounts[r]
        } else {
            &none
        };
        match data_row(parser, &cols, &cells[r], amount, r) {
            Ok(None) => {},
            Ok(Some(t)) => {
                let ghost before = seq_views(out@);
                out.push(t);
                assert(seq_views(out@) =~= before.push(t@));
            },
            Err(None) => {
                proof {
                    lemma_rows_err_stays(
                        parser.account_id@,
                        parser.only_nonempty_rows,
                        cols,
                        gv,
                        am,
                        r as int + 1,
                        cells@.len() as int,
                    );
                }
                break;
            },
            Err(Some(e)) => {
                proof {
                    lemma_rows_err_stays(
                        parser.account_id@,
                        parser.only_nonempty_rows,
                        cols,
                        gv,
                        am,
                        r as int + 1,
                        cells@.len() as int,
                    );
                }
                return Err(e);
            },
        }
        r = r + 1;
    }
    Ok(out)
}

/// A statement row read into a transaction carries the row's amount by its
/// magnitude, and its sign decides the direction: a negative amount is an
/// expense from the card account to an external payee, any other amount is
/// income from an external payer into the card account.
pub proof fn lemma_row_direction_follows_sign<A>(
    account: Seq<char>,
    only_nonempty_rows: bool,
    cols: CcbColumns,
    row: Seq<Seq<char>>,
    amount: Option<AmountV<A>>,
    row_idx: nat,
    t: TransactionV<A>,
)
    requires
        row_spec(account, only_nonempty_rows, cols, row, amount, row_idx) == Ok::<
            Option<TransactionV<A>>,
            Option<CcbErrorV>,
        >(Some(t)),
    ensures
        amount is Some,
        t.amount == amount->0.magnitude,
        amount->0.sign.lt_zero() ==> t.transaction_type == "expense"@ && t.from_account_id
            == account && t.to_account_id == "EXTERNAL_PAYEE"@,
        !amount->0.sign.lt_zero() ==> t.transaction_type == "income"@ && t.from_account_id
            == "EXTERNAL_PAYER"@ && t.to_account_id == account,
{
}

} // verus!
