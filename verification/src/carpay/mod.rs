//! CarPay card statements (XLSX): one sheet per card or period, each with a
//! header row naming `Kontonummer`, `Datum` and `Belopp`.
pub mod inspect;

use vstd::prelude::*;

use crate::dates::{chrono_date, chrono_datetime_date, iso_date, iso_text, parse_date_fmt, parse_datetime_date_fmt, Date};
use crate::hashing::{hex_spec, prefixed_digest_id, sha256, utf8};
use crate::money::{Amount, AmountV, Sign};
use crate::records::{build_transaction_value, opt_view, seq_views, txn_v, Position, Transaction, TransactionV};
use crate::text::{
    collapse_whitespace, collapse_ws, concat, concat3, decimal, decimal_string, join, join_spec,
    owned, same, trim, trim_spec, views,
};

verus! {

broadcast use vstd::string::group_string_axioms;

/// The CarPay importer: one card account in one currency.
pub struct CarPayXlsxParser {
    pub account_id: String,
    pub currency: String,
}

impl CarPayXlsxParser {
    pub fn new(account_id: &str) -> (p: CarPayXlsxParser)
        ensures
            p.account_id@ == account_id@,
            p.currency@ == "SEK"@,
    {
        CarPayXlsxParser { account_id: owned(account_id), currency: owned("SEK") }
    }

    pub fn with_currency(self, currency: &str) -> (p: CarPayXlsxParser)
        ensures
            p.account_id@ == self.account_id@,
            p.currency@ == currency@,
    {
        let mut p = self;
        p.currency = owned(currency);
        p
    }
}

/// CarPay statements list no positions yet.
pub fn create_positions<A>() -> (v: Vec<Position<A>>)
    ensures
        v@.len() == 0,
{
    Vec::new()
}

/// CarPay statements list no positions yet.
pub fn map_position_from_row<A>() -> (r: Option<Position<A>>)
    ensures
        r is None,
{
    None
}

/// How a cell gives a date: a number is a spreadsheet serial (the caller
/// converts it; `None` when it is not finite), text is read as a date.
pub enum DateSource {
    Missing,
    Serial(Option<Date>),
    Text(String),
}

pub enum DateSourceV {
    Missing,
    Serial(Option<Date>),
    Text(Seq<char>),
}

/// What the reader gave for a cell: its text (`None` when empty), how it
/// gives a date, the amount it gives (`None` when it gives none), and
/// whether that amount is negligible (below `1e-9` in magnitude).
pub struct CarPayCell<A> {
    pub text: Option<String>,
    pub date: DateSource,
    pub amount: Option<Amount<A>>,
    pub negligible: bool,
}

pub struct CarPayCellV<A> {
    pub text: Option<Seq<char>>,
    pub date: DateSourceV,
    pub amount: Option<AmountV<A>>,
    pub negligible: bool,
}

impl<A> View for CarPayCell<A> {
    type V = CarPayCellV<A>;

    open spec fn view(&self) -> CarPayCellV<A> {
        CarPayCellV {
            text: opt_view(self.text),
            date: match self.date {
                DateSource::Missing => DateSourceV::Missing,
                DateSource::Serial(d) => DateSourceV::Serial(d),
                DateSource::Text(s) => DateSourceV::Text(s@),
            },
            amount: match self.amount {
                Some(a) => Some(a@),
                None => None,
            },
            negligible: self.negligible,
        }
    }
}

pub type CellRows<A> = Vec<Vec<CarPayCell<A>>>;

pub open spec fn rows_view<A>(rows: Seq<Vec<CarPayCell<A>>>) -> Seq<Seq<CarPayCellV<A>>> {
    rows.map_values(|r: Vec<CarPayCell<A>>| r@.map_values(|c: CarPayCell<A>| c@))
}

pub open spec fn missing_cell<A>() -> CarPayCellV<A> {
    CarPayCellV { text: None, date: DateSourceV::Missing, amount: None, negligible: false }
}

pub open spec fn cell<A>(row: Seq<CarPayCellV<A>>, i: int) -> CarPayCellV<A> {
    if 0 <= i < row.len() {
        row[i]
    } else {
        missing_cell()
    }
}

/// A cell's text, trimmed (empty when there is none).
pub open spec fn cell_text<A>(row: Seq<CarPayCellV<A>>, i: int) -> Seq<char> {
    match cell(row, i).text {
        Some(t) => trim_spec(t),
        None => Seq::empty(),
    }
}

fn cell_text_exec<A>(row: &Vec<CarPayCell<A>>, i: usize) -> (out: String)
    ensures
        out@ == cell_text(row@.map_values(|c: CarPayCell<A>| c@), i as int),
{
    if i < row.len() {
        match &row[i].text {
            Some(t) => trim(t.as_str()),
            None => String::new(),
        }
    } else {
        String::new()
    }
}

// ---------------------------------------------------------------------------
// Dates
// ---------------------------------------------------------------------------

/// A date written out: `%Y-%m-%d %H:%M:%S`, else `%Y-%m-%d`, after trimming.
pub open spec fn date_string_spec(s: Seq<char>) -> Option<Date> {
    let t = trim_spec(s);
    if t.len() == 0 {
        None
    } else if chrono_datetime_date(t, "%Y-%m-%d %H:%M:%S"@) is Some {
        chrono_datetime_date(t, "%Y-%m-%d %H:%M:%S"@)
    } else {
        chrono_date(t, "%Y-%m-%d"@)
    }
}

pub fn parse_date_string(s: &str) -> (r: Option<Date>)
    ensures
        r == date_string_spec(s@),
{
    let t = trim(s);
    if t.unicode_len() == 0 {
        return None;
    }
    if let Some(d) = parse_datetime_date_fmt(t.as_str(), "%Y-%m-%d %H:%M:%S") {
        return Some(d);
    }
    parse_date_fmt(t.as_str(), "%Y-%m-%d")
}

pub open spec fn cell_date_spec(source: DateSourceV) -> Option<Date> {
    match source {
        DateSourceV::Missing => None,
        DateSourceV::Serial(d) => d,
        DateSourceV::Text(s) => date_string_spec(s),
    }
}

pub fn parse_excel_date(source: &DateSource) -> (r: Option<Date>)
    ensures
        r == cell_date_spec(
            match source {
                DateSource::Missing => DateSourceV::Missing,
                DateSource::Serial(d) => DateSourceV::Serial(*d),
                DateSource::Text(s) => DateSourceV::Text(s@),
            },
        ),
{
    match source {
        DateSource::Missing => None,
        DateSource::Serial(d) => *d,
        DateSource::Text(s) => parse_date_string(s.as_str()),
    }
}

// ---------------------------------------------------------------------------
// Header
// ---------------------------------------------------------------------------

/// The column of a heading: the last cell whose trimmed text reads `name`.
pub open spec fn heading_col<A>(row: Seq<CarPayCellV<A>>, name: Seq<char>, n: int) -> Option<int>
    decreases n,
{
    if n <= 0 {
        None
    } else if name.len() > 0 && cell_text(row, n - 1) == name {
        Some(n - 1)
    } else {
        heading_col(row, name, n - 1)
    }
}

pub open spec fn col_of<A>(row: Seq<CarPayCellV<A>>, name: Seq<char>) -> Option<int> {
    heading_col(row, name, row.len() as int)
}

fn find_heading<A>(row: &Vec<CarPayCell<A>>, name: &str) -> (r: Option<usize>)
    ensures
        match r {
            Some(k) => col_of(row@.map_values(|c: CarPayCell<A>| c@), name@) == Some(k as int),
            None => col_of(row@.map_values(|c: CarPayCell<A>| c@), name@) is None,
        },
{
    let ghost rv = row@.map_values(|c: CarPayCell<A>| c@);
    let mut k: usize = row.len();
    while k > 0
        invariant
            k <= row.len(),
            rv == row@.map_values(|c: CarPayCell<A>| c@),
            col_of(rv, name@) == heading_col(rv, name@, k as int),
        decreases k,
    {
        let t = cell_text_exec(row, k - 1);
        if name.unicode_len() > 0 && same(t.as_str(), name) {
            return Some(k - 1);
        }
        k = k - 1;
    }
    None
}

/// Where the columns are.
#[derive(Clone, Copy, Debug, PartialEq, Eq, Structural)]
pub struct HeaderColumns {
    pub header_row: usize,
    pub date: usize,
    pub amount: usize,
    pub reference: Option<usize>,
    pub merchant: Option<usize>,
    pub varuslag: Option<usize>,
    pub card: Option<usize>,
    pub cardtext: Option<usize>,
}

pub open spec fn opt_col(c: Option<int>) -> Option<usize> {
    match c {
        Some(k) => Some(k as usize),
        None => None,
    }
}

/// The columns of the first row that names the account, date and amount
/// headings.
pub open spec fn header_from<A>(rows: Seq<Seq<CarPayCellV<A>>>, k: int) -> Option<HeaderColumns>
    decreases rows.len() - k,
{
    if k < 0 || k >= rows.len() {
        None
    } else {
        let row = rows[k];
        if col_of(row, "Kontonummer"@) is Some && col_of(row, "Datum"@) is Some && col_of(row, "Belopp"@) is Some {
            Some(
                HeaderColumns {
                    header_row: k as usize,
                    date: col_of(row, "Datum"@)->0 as usize,
                    amount: col_of(row, "Belopp"@)->0 as usize,
                    reference: opt_col(col_of(row, "Referens"@)),
                    merchant: opt_col(col_of(row, "Försäljningsställe"@)),
                    varuslag: opt_col(col_of(row, "Varuslag"@)),
                    card: opt_col(col_of(row, "Kort"@)),
                    cardtext: opt_col(col_of(row, "Korttext"@)),
                },
            )
        } else {
            header_from(rows, k + 1)
        }
    }
}

pub fn find_header_row<A>(rows: &CellRows<A>) -> (r: Option<HeaderColumns>)
    ensures
        r == header_from(rows_view(rows@), 0),
{
    let ghost rv = rows_view(rows@);
    let mut k: usize = 0;
    while k < rows.len()
        invariant
            k <= rows.len(),
            rv == rows_view(rows@),
            header_from(rv, 0) == header_from(rv, k as int),
        decreases rows.len() - k,
    {
        let row = &rows[k];
        assert(rv[k as int] == row@.map_values(|c: CarPayCell<A>| c@));
        let konto = find_heading(row, "Kontonummer");
        let datum = find_heading(row, "Datum");
        let belopp = find_heading(row, "Belopp");
        if konto.is_some() && datum.is_some() && belopp.is_some() {
            let date = match datum {
                Some(d) => d,
                None => {
                    return None;
                },
            };
            let amount = match belopp {
                Some(b) => b,
                None => {
                    return None;
                },
            };
            return Some(
                HeaderColumns {
                    header_row: k,
                    date,
                    amount,
                    reference: find_heading(row, "Referens"),
                    merchant: find_heading(row, "Försäljningsställe"),
                    varuslag: find_heading(row, "Varuslag"),
                    card: find_heading(row, "Kort"),
                    cardtext: find_heading(row, "Korttext"),
                },
            );
        }
        k = k + 1;
    }
    None
}

// ---------------------------------------------------------------------------
// Rows
// ---------------------------------------------------------------------------

/// Runs of white space collapsed to single spaces.
pub open spec fn trim_midspaces_spec(s: Seq<char>) -> Seq<char> {
    collapse_ws(s)
}

pub fn trim_midspaces(s: &str) -> (out: String)
    ensures
        out@ == trim_midspaces_spec(s@),
{
    collapse_whitespace(s)
}

pub open spec fn opt_text<A>(row: Seq<CarPayCellV<A>>, col: Option<usize>) -> Seq<char> {
    match col {
        Some(i) => cell_text(row, i as int),
        None => Seq::empty(),
    }
}

/// Merchant, kind of goods, sheet, reference, card and holder, joined by
/// spaces; a stock text naming the sheet when all are empty.
pub open spec fn description_spec<A>(row: Seq<CarPayCellV<A>>, cols: HeaderColumns, sheet: Seq<char>) -> Seq<
    char,
> {
    let reference = opt_text(row, cols.reference);
    let merchant = opt_text(row, cols.merchant);
    let varuslag = opt_text(row, cols.varuslag);
    let card = opt_text(row, cols.card);
    let cardtext = opt_text(row, cols.cardtext);
    let parts = (if merchant.len() > 0 {
        seq![trim_midspaces_spec(merchant)]
    } else {
        Seq::empty()
    }) + (if varuslag.len() > 0 {
        seq![trim_midspaces_spec(varuslag)]
    } else {
        Seq::empty()
    }) + (if sheet.len() > 0 {
        seq!["["@ + sheet + "]"@]
    } else {
        Seq::empty()
    }) + (if reference.len() > 0 {
        seq!["ref="@ + trim_spec(reference)]
    } else {
        Seq::empty()
    }) + (if card.len() > 0 {
        seq!["card="@ + trim_spec(card)]
    } else {
        Seq::empty()
    }) + (if cardtext.len() > 0 {
        seq!["holder="@ + trim_midspaces_spec(cardtext)]
    } else {
        Seq::empty()
    });
    if parts.len() == 0 {
        "CarPay transaction ["@ + sheet + "]"@
    } else {
        join_spec(parts, " "@)
    }
}

fn opt_text_exec<A>(row: &Vec<CarPayCell<A>>, col: Option<usize>) -> (out: String)
    ensures
        out@ == opt_text(row@.map_values(|c: CarPayCell<A>| c@), col),
{
    match col {
        Some(i) => cell_text_exec(row, i),
        None => String::new(),
    }
}

fn push_part(parts: &mut Vec<String>, cond: bool, part: String)
    ensures
        views(final(parts)@) == views(old(parts)@) + (if cond {
            seq![part@]
        } else {
            Seq::<Seq<char>>::empty()
        }),
{
    let ghost before = views(parts@);
    if cond {
        parts.push(part);
        assert(views(parts@) =~= before + seq![part@]);
    } else {
        assert(views(parts@) =~= before + Seq::<Seq<char>>::empty());
    }
}

pub fn field_description<A>(row: &Vec<CarPayCell<A>>, cols: &HeaderColumns, sheet_name: &str) -> (out:
    String)
    ensures
        out@ == description_spec(row@.map_values(|c: CarPayCell<A>| c@), *cols, sheet_name@),
{
    let reference = opt_text_exec(row, cols.reference);
    let merchant = opt_text_exec(row, cols.merchant);
    let varuslag = opt_text_exec(row, cols.varuslag);
    let card = opt_text_exec(row, cols.card);
    let cardtext = opt_text_exec(row, cols.cardtext);
    let mut parts: Vec<String> = Vec::new();
    assert(views(parts@) =~= Seq::<Seq<char>>::empty());
    push_part(&mut parts, merchant.unicode_len() > 0, trim_midspaces(merchant.as_str()));
    push_part(&mut parts, varuslag.unicode_len() > 0, trim_midspaces(varuslag.as_str()));
    push_part(&mut parts, sheet_name.unicode_len() > 0, concat3("[", sheet_name, "]"));
    push_part(&mut parts, reference.unicode_len() > 0, concat("ref=", trim(reference.as_str()).as_str()));
    push_part(&mut parts, card.unicode_len() > 0, concat("card=", trim(card.as_str()).as_str()));
    push_part(
        &mut parts,
        cardtext.unicode_len() > 0,
        concat("holder=", trim_midspaces(cardtext.as_str()).as_str()),
    );
    if parts.len() == 0 {
        concat3("CarPay transaction [", sheet_name, "]")
    } else {
        join(&parts, " ")
    }
}

/// `"CARPAY-<24 hex digits of SHA-256(seed)>"`.
pub open spec fn carpay_txn_id_spec(
    account: Seq<char>,
    date: Date,
    amount_text: Seq<char>,
    currency: Seq<char>,
    description: Seq<char>,
    sheet: Seq<char>,
    row_number: nat,
) -> Seq<char> {
    "CARPAY"@ + "-"@ + hex_spec(
        sha256(
            utf8(
                account + "|"@ + iso_text(date) + "|"@ + amount_text + "|"@ + currency + "|"@
                    + trim_spec(description) + "|"@ + trim_spec(sheet) + "|"@ + decimal(row_number),
            ),
        ).take(12),
    )
}

pub fn make_txn_id(
    account_id: &str,
    date: &Date,
    amount_text: &str,
    currency: &str,
    description: &str,
    sheet: &str,
    row_index: usize,
) -> (out: String)
    ensures
        out@ == carpay_txn_id_spec(
            account_id@,
            *date,
            amount_text@,
            currency@,
            description@,
            sheet@,
            row_index as nat,
        ),
{
    let mut seed = owned(account_id);
    seed.append("|");
    seed.append(iso_date(date).as_str());
    seed.append("|");
    seed.append(amount_text);
    seed.append("|");
    seed.append(currency);
    seed.append("|");
    seed.append(trim(description).as_str());
    seed.append("|");
    seed.append(trim(sheet).as_str());
    seed.append("|");
    seed.append(decimal_string(row_index).as_str());
    prefixed_digest_id("CARPAY", seed.as_str(), 12)
}

/// Why a statement could not be read: the sheet and the row (counting from
/// 1) of the offending cell.
pub enum CarPayError {
    InvalidDate { sheet: String, row: usize },
    InvalidAmount { sheet: String, row: usize },
}

pub enum CarPayErrorV {
    InvalidDate { sheet: Seq<char>, row: nat },
    InvalidAmount { sheet: Seq<char>, row: nat },
}

impl View for CarPayError {
    type V = CarPayErrorV;

    open spec fn view(&self) -> CarPayErrorV {
        match self {
            CarPayError::InvalidDate { sheet, row } => CarPayErrorV::InvalidDate {
                sheet: sheet@,
                row: *row as nat,
            },
            CarPayError::InvalidAmount { sheet, row } => CarPayErrorV::InvalidAmount {
                sheet: sheet@,
                row: *row as nat,
            },
        }
    }
}

/// The transaction of data row `row_idx` of a sheet, `None` when the row is
/// passed over (empty, or a negligible amount), or the error that stops the
/// statement. Positive amounts are card purchases.
pub open spec fn row_spec<A>(
    account: Seq<char>,
    currency: Seq<char>,
    cols: HeaderColumns,
    sheet: Seq<char>,
    row: Seq<CarPayCellV<A>>,
    row_idx: nat,
) -> Result<Option<TransactionV<A>>, CarPayErrorV> {
    let empty = cell_text(row, cols.date as int).len() == 0 && cell_text(row, cols.amount as int).len()
        == 0;
    match cell_date_spec(cell(row, cols.date as int).date) {
        None => if empty {
            Ok(None)
        } else {
            Err(CarPayErrorV::InvalidDate { sheet, row: row_idx + 1 })
        },
        Some(date) => match cell(row, cols.amount as int).amount {
            None => if empty {
                Ok(None)
            } else {
                Err(CarPayErrorV::InvalidAmount { sheet, row: row_idx + 1 })
            },
            Some(a) => if cell(row, cols.amount as int).negligible {
                Ok(None)
            } else {
                let expense = a.sign.gt_zero();
                let description = description_spec(row, cols, sheet);
                Ok(
                    Some(
                        txn_v(
                            date,
                            if expense {
                                account
                            } else {
                                "EXTERNAL_PAYER"@
                            },
                            if expense {
                                "EXTERNAL_PAYEE"@
                            } else {
                                account
                            },
                            if expense {
                                "expense"@
                            } else {
                                "income"@
                            },
                            a.magnitude,
                            currency,
                            description,
                            carpay_txn_id_spec(
                                account,
                                date,
                                a.magnitude_fixed8,
                                currency,
                                description,
                                sheet,
                                row_idx + 1,
                            ),
                        ),
                    ),
                )
            },
        },
    }
}

/// Data rows of a sheet from just below the header up to row `n`.
pub open spec fn sheet_rows_spec<A>(
    account: Seq<char>,
    currency: Seq<char>,
    cols: HeaderColumns,
    sheet: Seq<char>,
    rows: Seq<Seq<CarPayCellV<A>>>,
    n: int,
) -> Result<Seq<TransactionV<A>>, CarPayErrorV>
    decreases n,
{
    if n <= cols.header_row + 1 {
        Ok(Seq::empty())
    } else {
        match sheet_rows_spec(account, currency, cols, sheet, rows, n - 1) {
            Err(e) => Err(e),
            Ok(prev) => match row_spec(account, currency, cols, sheet, rows[n - 1], (n - 1) as nat) {
                Err(e) => Err(e),
                Ok(None) => Ok(prev),
                Ok(Some(t)) => Ok(prev.push(t)),
            },
        }
    }
}

/// A sheet: nothing without a header row; else its data rows.
pub open spec fn sheet_spec<A>(
    account: Seq<char>,
    currency: Seq<char>,
    sheet: Seq<char>,
    rows: Seq<Seq<CarPayCellV<A>>>,
) -> Result<Seq<TransactionV<A>>, CarPayErrorV> {
    match header_from(rows, 0) {
        None => Ok(Seq::empty()),
        Some(cols) => sheet_rows_spec(account, currency, cols, sheet, rows, rows.len() as int),
    }
}

fn data_row<A: Copy>(
    parser: &CarPayXlsxParser,
    cols: &HeaderColumns,
    sheet_name: &String,
    row: &Vec<CarPayCell<A>>,
    row_idx: usize,
) -> (out: Result<Option<Transaction<A>>, CarPayError>)
    requires
        row_idx < usize::MAX,
    ensures
        match row_spec(
            parser.account_id@,
            parser.currency@,
            *cols,
            sheet_name@,
            row@.map_values(|c: CarPayCell<A>| c@),
            row_idx as nat,
        ) {
            Ok(None) => out matches Ok(None),
            Ok(Some(t)) => out matches Ok(Some(x)) && x@ == t,
            Err(e) => out matches Err(x) && x@ == e,
        },
{
    let empty = cell_text_exec(row, cols.date).unicode_len() == 0 && cell_text_exec(
        row,
        cols.amount,
    ).unicode_len() == 0;
    let date_source = if cols.date < row.len() {
        parse_excel_date(&row[cols.date].date)
    } else {
        None
    };
    let date = match date_source {
        Some(d) => d,
        None => {
            if empty {
                return Ok(None);
            }
            return Err(CarPayError::InvalidDate { sheet: sheet_name.clone(), row: row_idx + 1 });
        },
    };
    if cols.amount >= row.len() {
        if empty {
            return Ok(None);
        }
        return Err(CarPayError::InvalidAmount { sheet: sheet_name.clone(), row: row_idx + 1 });
    }
    let amount_cell = &row[cols.amount];
    let a = match &amount_cell.amount {
        Some(a) => a,
        None => {
            if empty {
                return Ok(None);
            }
            return Err(CarPayError::InvalidAmount { sheet: sheet_name.clone(), row: row_idx + 1 });
        },
    };
    if amount_cell.negligible {
        return Ok(None);
    }
    let expense = a.sign.is_positive();
    let description = field_description(row, cols, sheet_name.as_str());
    let txn_id = make_txn_id(
        parser.account_id.as_str(),
        &date,
        a.magnitude_fixed8.as_str(),
        parser.currency.as_str(),
        description.as_str(),
        sheet_name.as_str(),
        row_idx + 1,
    );
    let (from, to, ty) = if expense {
        (parser.account_id.clone(), owned("EXTERNAL_PAYEE"), owned("expense"))
    } else {
        (owned("EXTERNAL_PAYER"), parser.account_id.clone(), owned("income"))
    };
    Ok(
        Some(
            build_transaction_value(
                &date,
                from,
                to,
                ty,
                a.magnitude,
                parser.currency.clone(),
                description,
                txn_id,
            ),
        ),
    )
}

proof fn lemma_sheet_err_stays<A>(
    account: Seq<char>,
    currency: Seq<char>,
    cols: HeaderColumns,
    sheet: Seq<char>,
    rows: Seq<Seq<CarPayCellV<A>>>,
    k: int,
    n: int,
)
    requires
        k <= n,
        sheet_rows_spec(account, currency, cols, sheet, rows, k) is Err,
    ensures
        sheet_rows_spec(account, currency, cols, sheet, rows, n) == sheet_rows_spec(
            account,
            currency,
            cols,
            sheet,
            rows,
            k,
        ),
    decreases n - k,
{
    if n > k {
        lemma_sheet_err_stays(account, currency, cols, sheet, rows, k, n - 1);
    }
}

/// The transactions of one sheet: `rows` is what the reader gave for its
/// cells, row by row.
pub fn parse_sheet<A: Copy>(parser: &CarPayXlsxParser, sheet_name: &String, rows: &CellRows<A>) -> (out:
    Result<Vec<Transaction<A>>, CarPayError>)
    ensures
        match sheet_spec(parser.account_id@, parser.currency@, sheet_name@, rows_view(rows@)) {
            Ok(ts) => out matches Ok(v) && seq_views(v@) == ts,
            Err(e) => out matches Err(x) && x@ == e,
        },
{
    let ghost rv = rows_view(rows@);
    let mut out: Vec<Transaction<A>> = Vec::new();
    assert(seq_views(out@) =~= Seq::<TransactionV<A>>::empty());
    let cols = match find_header_row(rows) {
        Some(c) => c,
        None => {
            return Ok(out);
        },
    };
    if cols.header_row >= rows.len() {
        return Ok(out);
    }
    let mut r: usize = cols.header_row + 1;
    while r < rows.len()
        invariant
            cols.header_row + 1 <= r <= rows.len(),
            rv == rows_view(rows@),
            header_from(rv, 0) == Some(cols),
            sheet_rows_spec(parser.account_id@, parser.currency@, cols, sheet_name@, rv, r as int) == Ok::<
                Seq<TransactionV<A>>,
                CarPayErrorV,
            >(seq_views(out@)),
        decreases rows.len() - r,
    {
        assert(rv[r as int] == rows@[r as int]@.map_values(|c: CarPayCell<A>| c@));
        match data_row(parser, &cols, sheet_name, &rows[r], r) {
            Ok(None) => {},
            Ok(Some(t)) => {
                let ghost before = seq_views(out@);
                out.push(t);
                assert(seq_views(out@) =~= before.push(t@));
            },
            Err(e) => {
                proof {
                    lemma_sheet_err_stays(
                        parser.account_id@,
                        parser.currency@,
                        cols,
                        sheet_name@,
                        rv,
                        r as int + 1,
                        rv.len() as int,
                    );
                }
                return Err(e);
            },
        }
        r = r + 1;
    }
    Ok(out)
}

/// The sheets of a workbook in order (`None` rows for a sheet the reader
/// could not read); the first failing sheet ends the statement.
pub open spec fn workbook_spec<A>(
    account: Seq<char>,
    currency: Seq<char>,
    sheets: Seq<(Seq<char>, Option<Seq<Seq<CarPayCellV<A>>>>)>,
    n: int,
) -> Result<Seq<TransactionV<A>>, CarPayErrorV>
    decreases n,
{
    if n <= 0 {
        Ok(Seq::empty())
    } else {
        match workbook_spec(account, currency, sheets, n - 1) {
            Err(e) => Err(e),
            Ok(prev) => match sheets[n - 1].1 {
                None => Ok(prev),
                Some(rows) => match sheet_spec(account, currency, sheets[n - 1].0, rows) {
                    Err(e) => Err(e),
                    Ok(ts) => Ok(prev + ts),
                },
            },
        }
    }
}

pub open spec fn sheets_view<A>(sheets: Seq<(String, Option<CellRows<A>>)>) -> Seq<
    (Seq<char>, Option<Seq<Seq<CarPayCellV<A>>>>),
> {
    sheets.map_values(
        |s: (String, Option<CellRows<A>>)|
            (
                s.0@,
                match s.1 {
                    Some(rows) => Some(rows_view(rows@)),
                    None => None,
                },
            ),
    )
}

proof fn lemma_workbook_err_stays<A>(
    account: Seq<char>,
    currency: Seq<char>,
    sheets: Seq<(Seq<char>, Option<Seq<Seq<CarPayCellV<A>>>>)>,
    k: int,
    n: int,
)
    requires
        k <= n,
        workbook_spec(account, currency, sheets, k) is Err,
    ensures
        workbook_spec(account, currency, sheets, n) == workbook_spec(account, currency, sheets, k),
    decreases n - k,
{
    if n > k {
        lemma_workbook_err_stays(account, currency, sheets, k, n - 1);
    }
}

/// The transactions of a workbook's sheets.
pub fn parse_sheets<A: Copy>(parser: &CarPayXlsxParser, sheets: &Vec<(String, Option<CellRows<A>>)>) -> (out:
    Result<Vec<Transaction<A>>, CarPayError>)
    ensures
        match workbook_spec(parser.account_id@, parser.currency@, sheets_view(sheets@), sheets@.len() as int) {
            Ok(ts) => out matches Ok(v) && seq_views(v@) == ts,
            Err(e) => out matches Err(x) && x@ == e,
        },
{
    let ghost sv = sheets_view(sheets@);
    let mut all: Vec<Transaction<A>> = Vec::new();
    let mut k: usize = 0;
    assert(seq_views(all@) =~= Seq::<TransactionV<A>>::empty());
    while k < sheets.len()
        invariant
            k <= sheets.len(),
            sv == sheets_view(sheets@),
            workbook_spec(parser.account_id@, parser.currency@, sv, k as int) == Ok::<
                Seq<TransactionV<A>>,
                CarPayErrorV,
            >(seq_views(all@)),
        decreases sheets.len() - k,
    {
        match &sheets[k].1 {
            None => {},
            Some(rows) => {
                match parse_sheet(parser, &sheets[k].0, rows) {
                    Ok(mut ts) => {
                        let ghost before = seq_views(all@);
                        let ghost added = seq_views(ts@);
                        all.append(&mut ts);
                        assert(seq_views(all@) =~= before + added);
                    },
                    Err(e) => {
                        proof {
                            lemma_workbook_err_stays(
                                parser.account_id@,
                                parser.currency@,
                                sv,
                                k as int + 1,
                                sv.len() as int,
                            );
                        }
                        return Err(e);
                    },
                }
            },
        }
        k = k + 1;
    }
    Ok(all)
}

/// A card statement row read into a transaction carries the amount's
/// magnitude, and a positive amount (a charge) is an expense from the card
/// account to an external payee; any other amount (a payment or refund) is
/// income from an external payer into the card account.
pub proof fn lemma_row_direction_follows_sign<A>(
    account: Seq<char>,
    currency: Seq<char>,
    cols: HeaderColumns,
    sheet: Seq<char>,
    row: Seq<CarPayCellV<A>>,
    row_idx: nat,
    t: TransactionV<A>,
)
    requires
        row_spec(account, currency, cols, sheet, row, row_idx) == Ok::<
            Option<TransactionV<A>>,
            CarPayErrorV,
        >(Some(t)),
    ensures
        cell(row, cols.amount as int).amount is Some,
        ({
            let a = cell(row, cols.amount as int).amount->0;
            &&& t.amount == a.magnitude
            &&& a.sign.gt_zero() ==> t.transaction_type == "expense"@ && t.from_account_id == account
                && t.to_account_id == "EXTERNAL_PAYEE"@
            &&& !a.sign.gt_zero() ==> t.transaction_type == "income"@ && t.from_account_id
                == "EXTERNAL_PAYER"@ && t.to_account_id == account
        }),
{
}

} // verus!
