//! Intesa Sanpaolo movement sheets ("lista operazioni") to transactions.
use vstd::prelude::*;

use super::common::{
    cell_at, date_or_serial_spec, determine_transaction_type, direction_spec, force_expense_spec,
    get_cell, get_numbers, grid_view, intesa_force_expense, make_txn_id, number_grid_view,
    numbers_at, parse_date_or_serial, sheet_views, txn_id_spec, CellNumbers, CellNumbersV, Grid,
    IntesaSheet, NumberGrid,
};
use super::IntesaSanpaoloParser;
use crate::dates::{iso_text, Date};
use crate::money::{Amount, AmountV, Sign};
use crate::records::{build_transaction_value, opt_view, seq_views, txn_v, Transaction, TransactionV};
use crate::text::{
    concat3, contains, contains_spec, owned, same, to_lowercase, trim, trim_spec, unicode_lower,
};

verus! {

broadcast use vstd::string::group_string_axioms;

/// Where the columns of a movement sheet are, as found in its header row.
#[derive(Clone, Copy, Debug, PartialEq, Eq, Structural)]
pub struct HeaderMapping {
    pub header_row: Option<usize>,
    pub data_col: Option<usize>,
    pub operazione_col: Option<usize>,
    pub dettagli_col: Option<usize>,
    pub conto_col: Option<usize>,
    pub valuta_col: Option<usize>,
    pub importo_col: Option<usize>,
    pub data_valuta_col: Option<usize>,
    pub descrizione_col: Option<usize>,
    pub accrediti_col: Option<usize>,
    pub addebiti_col: Option<usize>,
}

pub open spec fn empty_mapping() -> HeaderMapping {
    HeaderMapping {
        header_row: None,
        data_col: None,
        operazione_col: None,
        dettagli_col: None,
        conto_col: None,
        valuta_col: None,
        importo_col: None,
        data_valuta_col: None,
        descrizione_col: None,
        accrediti_col: None,
        addebiti_col: None,
    }
}

/// `slot` if already set, else `Some(col)` when `hit`.
pub open spec fn first_hit(slot: Option<usize>, hit: bool, col: usize) -> Option<usize> {
    if hit && slot is None {
        Some(col)
    } else {
        slot
    }
}

/// The mapping after reading the (lower-cased) header cell at `(row, col)`:
/// each column is taken from the first cell that names it.
pub open spec fn register_spec(m: HeaderMapping, row: usize, col: usize, text: Seq<char>) -> HeaderMapping {
    let is_date = (text == "data"@ || text == "data contabile"@) && m.data_col is None;
    HeaderMapping {
        header_row: if is_date {
            Some(row)
        } else {
            m.header_row
        },
        data_col: if is_date {
            Some(col)
        } else {
            m.data_col
        },
        data_valuta_col: first_hit(m.data_valuta_col, text == "data valuta"@, col),
        operazione_col: first_hit(m.operazione_col, text == "operazione"@, col),
        descrizione_col: first_hit(m.descrizione_col, text == "descrizione"@, col),
        dettagli_col: first_hit(
            m.dettagli_col,
            text == "dettagli"@ || text == "descrizione estesa"@,
            col,
        ),
        conto_col: first_hit(
            m.conto_col,
            contains_spec(text, "conto"@) || contains_spec(text, "carta"@) || text
                == "effettuata tramite:"@,
            col,
        ),
        valuta_col: first_hit(m.valuta_col, text == "valuta"@, col),
        importo_col: first_hit(m.importo_col, text == "importo"@, col),
        accrediti_col: first_hit(m.accrediti_col, text == "accrediti"@, col),
        addebiti_col: first_hit(m.addebiti_col, text == "addebiti"@, col),
    }
}

/// The mapping after reading the header cells `(row, col, text)` in order.
pub open spec fn register_all(m: HeaderMapping, cells: Seq<(usize, usize, Seq<char>)>) -> HeaderMapping
    decreases cells.len(),
{
    if cells.len() == 0 {
        m
    } else {
        let (r, c, t) = cells.last();
        register_spec(register_all(m, cells.drop_last()), r, c, t)
    }
}

/// Column field `k` of a mapping: 0 date, 1 operation, 2 details, 3 account
/// or card, 4 currency, 5 amount, 6 value date, 7 description, 8 credits,
/// 9 debits.
pub open spec fn column_field(m: HeaderMapping, k: int) -> Option<usize> {
    if k == 0 {
        m.data_col
    } else if k == 1 {
        m.operazione_col
    } else if k == 2 {
        m.dettagli_col
    } else if k == 3 {
        m.conto_col
    } else if k == 4 {
        m.valuta_col
    } else if k == 5 {
        m.importo_col
    } else if k == 6 {
        m.data_valuta_col
    } else if k == 7 {
        m.descrizione_col
    } else if k == 8 {
        m.accrediti_col
    } else {
        m.addebiti_col
    }
}

/// Whether a (lower-cased) header text names column field `k`.
pub open spec fn names_field(k: int, text: Seq<char>) -> bool {
    if k == 0 {
        text == "data"@ || text == "data contabile"@
    } else if k == 1 {
        text == "operazione"@
    } else if k == 2 {
        text == "dettagli"@ || text == "descrizione estesa"@
    } else if k == 3 {
        contains_spec(text, "conto"@) || contains_spec(text, "carta"@) || text
            == "effettuata tramite:"@
    } else if k == 4 {
        text == "valuta"@
    } else if k == 5 {
        text == "importo"@
    } else if k == 6 {
        text == "data valuta"@
    } else if k == 7 {
        text == "descrizione"@
    } else if k == 8 {
        text == "accrediti"@
    } else {
        text == "addebiti"@
    }
}

/// The first of `cells` whose text names field `k`.
pub open spec fn first_naming(cells: Seq<(usize, usize, Seq<char>)>, k: int) -> Option<(usize, usize)>
    decreases cells.len(),
{
    if cells.len() == 0 {
        None
    } else {
        match first_naming(cells.drop_last(), k) {
            Some(x) => Some(x),
            None => if names_field(k, cells.last().2) {
                Some((cells.last().0, cells.last().1))
            } else {
                None
            },
        }
    }
}

/// Over any series of header cells read into the empty mapping, each column
/// field holds the column of the first cell whose text names it (none when
/// no cell does), and the header row is the row of the first cell naming the
/// date: the first match wins and a later one never overwrites it.
pub proof fn lemma_first_header_wins(cells: Seq<(usize, usize, Seq<char>)>)
    ensures
        forall|k: int|
            0 <= k < 10 ==> #[trigger] column_field(register_all(empty_mapping(), cells), k) == (
            match first_naming(cells, k) {
                Some((_, c)) => Some(c),
                None => None,
            }),
        register_all(empty_mapping(), cells).header_row == (match first_naming(cells, 0) {
            Some((r, _)) => Some(r),
            None => None,
        }),
        register_all(empty_mapping(), cells).header_row is None <==> register_all(
            empty_mapping(),
            cells,
        ).data_col is None,
    decreases cells.len(),
{
    if cells.len() > 0 {
        lemma_first_header_wins(cells.drop_last());
        let prev = register_all(empty_mapping(), cells.drop_last());
        let (r, c, t) = cells.last();
        assert forall|k: int| 0 <= k < 10 implies #[trigger] column_field(
            register_spec(prev, r, c, t),
            k,
        ) == (if names_field(k, t) && column_field(prev, k) is None {
            Some(c)
        } else {
            column_field(prev, k)
        }) by {}
        assert forall|k: int|
            0 <= k < 10 implies #[trigger] column_field(register_all(empty_mapping(), cells), k) == (
            match first_naming(cells, k) {
                Some((_, c)) => Some(c),
                None => None,
            }) by {
            assert(column_field(prev, k) == (match first_naming(cells.drop_last(), k) {
                Some((_, c)) => Some(c),
                None => None,
            }));
        }
    }
}

/// A column field, once set, keeps its value over every further header cell.
pub proof fn lemma_header_fields_stay(m: HeaderMapping, cells: Seq<(usize, usize, Seq<char>)>, k: int)
    requires
        0 <= k < 10,
        column_field(m, k) is Some,
    ensures
        column_field(register_all(m, cells), k) == column_field(m, k),
        m.data_col is Some ==> register_all(m, cells).header_row == m.header_row,
    decreases cells.len(),
{
    if cells.len() > 0 {
        lemma_header_fields_stay(m, cells.drop_last(), k);
        if m.data_col is Some {
            lemma_header_fields_stay(m, cells.drop_last(), 0);
        }
    }
}

/// A date column, a description column and an amount (or credit and debit)
/// column.
pub open spec fn complete_spec(m: HeaderMapping) -> bool {
    m.data_col is Some && (m.operazione_col is Some || m.descrizione_col is Some) && (
    m.importo_col is Some || (m.accrediti_col is Some && m.addebiti_col is Some))
}

/// The mapping used for the rows: the description column stands in for a
/// missing operation column.
pub open spec fn finished_mapping(m: HeaderMapping) -> HeaderMapping {
    if m.operazione_col is None && m.descrizione_col is Some {
        HeaderMapping { operazione_col: m.descrizione_col, ..m }
    } else {
        m
    }
}

/// Rows can be read: a date column on a header row, and an amount (or
/// credit and debit) column.
pub open spec fn parsable_spec(m: HeaderMapping) -> bool {
    m.data_col is Some && m.header_row is Some && (m.importo_col is Some || (m.accrediti_col is Some
        && m.addebiti_col is Some))
}

fn hit(slot: Option<usize>, cond: bool, col: usize) -> (r: Option<usize>)
    ensures
        r == first_hit(slot, cond, col),
{
    if cond && slot.is_none() {
        Some(col)
    } else {
        slot
    }
}

impl HeaderMapping {
    pub fn new() -> (m: HeaderMapping)
        ensures
            m == empty_mapping(),
    {
        HeaderMapping {
            header_row: None,
            data_col: None,
            operazione_col: None,
            dettagli_col: None,
            conto_col: None,
            valuta_col: None,
            importo_col: None,
            data_valuta_col: None,
            descrizione_col: None,
            accrediti_col: None,
            addebiti_col: None,
        }
    }

    pub fn register_header(&mut self, row_idx: usize, col_idx: usize, text: &str)
        ensures
            *final(self) == register_spec(*old(self), row_idx, col_idx, text@),
    {
        let is_date = (same(text, "data") || same(text, "data contabile")) && self.data_col.is_none();
        if is_date {
            self.data_col = Some(col_idx);
            self.header_row = Some(row_idx);
        }
        self.data_valuta_col = hit(self.data_valuta_col, same(text, "data valuta"), col_idx);
        self.operazione_col = hit(self.operazione_col, same(text, "operazione"), col_idx);
        self.descrizione_col = hit(self.descrizione_col, same(text, "descrizione"), col_idx);
        self.dettagli_col = hit(
            self.dettagli_col,
            same(text, "dettagli") || same(text, "descrizione estesa"),
            col_idx,
        );
        self.conto_col = hit(
            self.conto_col,
            contains(text, "conto") || contains(text, "carta") || same(text, "effettuata tramite:"),
            col_idx,
        );
        self.valuta_col = hit(self.valuta_col, same(text, "valuta"), col_idx);
        self.importo_col = hit(self.importo_col, same(text, "importo"), col_idx);
        self.accrediti_col = hit(self.accrediti_col, same(text, "accrediti"), col_idx);
        self.addebiti_col = hit(self.addebiti_col, same(text, "addebiti"), col_idx);
    }

    pub fn is_complete(&self) -> (r: bool)
        ensures
            r == complete_spec(*self),
    {
        self.data_col.is_some() && (self.operazione_col.is_some() || self.descrizione_col.is_some())
            && (self.importo_col.is_some() || (self.accrediti_col.is_some()
            && self.addebiti_col.is_some()))
    }

    /// Fills the operation column from the description column when needed,
    /// and tells whether rows can be read.
    pub fn can_parse(&mut self) -> (r: bool)
        ensures
            *final(self) == finished_mapping(*old(self)),
            r == parsable_spec(*final(self)),
    {
        if self.operazione_col.is_none() && self.descrizione_col.is_some() {
            self.operazione_col = self.descrizione_col;
        }
        if self.data_col.is_none() || self.header_row.is_none() {
            return false;
        }
        self.importo_col.is_some() || (self.accrediti_col.is_some() && self.addebiti_col.is_some())
    }
}

/// The first `n` cells of row `r`, lower-cased, registered in turn.
pub open spec fn register_row(m: HeaderMapping, g: Seq<Seq<Seq<char>>>, r: int, n: int) -> HeaderMapping
    decreases n,
{
    if n <= 0 {
        m
    } else {
        register_spec(register_row(m, g, r, n - 1), r as usize, (n - 1) as usize, unicode_lower(g[r][n - 1]))
    }
}

/// Rows `0..k` of the header area, stopping after the first row that
/// completes the mapping.
pub open spec fn scan_header_rows(g: Seq<Seq<Seq<char>>>, k: int) -> (HeaderMapping, bool)
    decreases k,
{
    if k <= 0 {
        (empty_mapping(), false)
    } else {
        let (m, done) = scan_header_rows(g, k - 1);
        if done {
            (m, true)
        } else {
            let m2 = register_row(m, g, k - 1, g[k - 1].len() as int);
            (m2, complete_spec(m2))
        }
    }
}

pub open spec fn min(a: int, b: int) -> int {
    if a < b {
        a
    } else {
        b
    }
}

/// The mapping read from the first thirty rows.
pub open spec fn sheet_mapping(g: Seq<Seq<Seq<char>>>) -> HeaderMapping {
    finished_mapping(scan_header_rows(g, min(g.len() as int, 30)).0)
}

fn scan_headers(g: &Grid) -> (m: HeaderMapping)
    ensures
        m == scan_header_rows(grid_view(*g), min(g@.len() as int, 30)).0,
{
    let ghost gv = grid_view(*g);
    let limit: usize = if g.len() < 30 {
        g.len()
    } else {
        30
    };
    let mut m = HeaderMapping::new();
    let mut r: usize = 0;
    while r < limit
        invariant_except_break
            r <= limit <= g.len(),
            gv == grid_view(*g),
            scan_header_rows(gv, r as int) == (m, false),
        ensures
            scan_header_rows(gv, limit as int).0 == m,
        decreases limit - r,
    {
        let ghost start = m;
        let mut c: usize = 0;
        while c < g[r].len()
            invariant
                r < limit <= g.len(),
                c <= g@[r as int]@.len(),
                gv == grid_view(*g),
                m == register_row(start, gv, r as int, c as int),
            decreases g@[r as int].len() - c,
        {
            let text = to_lowercase(g[r][c].as_str());
            m.register_header(r, c, text.as_str());
            c = c + 1;
        }
        r = r + 1;
        if m.is_complete() {
            proof {
                lemma_scan_done_stays(gv, r as int, limit as int);
            }
            break;
        }
    }
    m
}

proof fn lemma_scan_done_stays(g: Seq<Seq<Seq<char>>>, k: int, n: int)
    requires
        0 < k <= n,
        scan_header_rows(g, k).1,
    ensures
        scan_header_rows(g, n) == scan_header_rows(g, k),
    decreases n - k,
{
    if n > k {
        lemma_scan_done_stays(g, k, n - 1);
    }
}

// ---------------------------------------------------------------------------
// Rows
// ---------------------------------------------------------------------------

/// Why a movement sheet could not be read. `row` counts from 0.
pub enum IntesaError {
    /// The amount of a movement is missing or does not read as a number.
    Amount { row: usize },
    /// The date of a movement does not read as a date.
    Date { row: usize, text: String },
}

pub enum IntesaErrorV {
    Amount { row: nat },
    Date { row: nat, text: Seq<char> },
}

impl View for IntesaError {
    type V = IntesaErrorV;

    open spec fn view(&self) -> IntesaErrorV {
        match self {
            IntesaError::Amount { row } => IntesaErrorV::Amount { row: *row as nat },
            IntesaError::Date { row, text } => IntesaErrorV::Date { row: *row as nat, text: text@ },
        }
    }
}

/// How a movement's amount compares with zero, and its magnitude.
pub struct RowAmount<A> {
    pub sign: Sign,
    pub magnitude: A,
    pub magnitude_fixed8: Seq<char>,
}

pub open spec fn negated(s: Sign) -> Sign {
    match s {
        Sign::Negative => Sign::Positive,
        Sign::Positive => Sign::Negative,
        _ => s,
    }
}

pub open spec fn row_amount_of<A>(a: AmountV<A>) -> RowAmount<A> {
    RowAmount { sign: a.sign, magnitude: a.magnitude, magnitude_fixed8: a.magnitude_fixed8 }
}

pub open spec fn trimmed_cell(g: Seq<Seq<Seq<char>>>, r: int, c: Option<usize>) -> Seq<char> {
    match c {
        Some(col) => match cell_at(g, r, col as int) {
            Some(t) => trim_spec(t),
            None => Seq::empty(),
        },
        None => Seq::empty(),
    }
}

/// The amount of row `r`: the amount column when there is one (it must hold
/// a number), else the credit column when filled, else the debit column
/// negated.
pub open spec fn row_amount_spec<A>(
    g: Seq<Seq<Seq<char>>>,
    nums: Seq<Seq<CellNumbersV<A>>>,
    m: HeaderMapping,
    r: int,
) -> Option<RowAmount<A>> {
    match m.importo_col {
        Some(col) => match cell_at(g, r, col as int) {
            None => None,
            Some(t) => if trim_spec(t).len() == 0 {
                None
            } else {
                match numbers_at(nums, r, col as int).amount {
                    Some(a) => Some(row_amount_of(a)),
                    None => None,
                }
            },
        },
        None => {
            let credit = trimmed_cell(g, r, m.accrediti_col);
            let debit = trimmed_cell(g, r, m.addebiti_col);
            if credit.len() == 0 && debit.len() == 0 {
                None
            } else if credit.len() > 0 {
                match numbers_at(nums, r, m.accrediti_col->0 as int).amount {
                    Some(a) => Some(row_amount_of(a)),
                    None => None,
                }
            } else {
                match numbers_at(nums, r, m.addebiti_col->0 as int).amount {
                    Some(a) => Some(
                        RowAmount {
                            sign: negated(a.sign),
                            magnitude: a.magnitude,
                            magnitude_fixed8: a.magnitude_fixed8,
                        },
                    ),
                    None => None,
                }
            }
        },
    }
}

/// The operation text and the details, joined by ` - `; a stock text when
/// both are empty.
pub open spec fn description_spec(g: Seq<Seq<Seq<char>>>, m: HeaderMapping, r: int) -> Seq<char> {
    let op = trimmed_cell(g, r, m.operazione_col);
    let det = trimmed_cell(g, r, m.dettagli_col);
    if op.len() > 0 && det.len() > 0 {
        op + " - "@ + det
    } else if op.len() > 0 {
        op
    } else if det.len() > 0 {
        det
    } else {
        "Intesa Sanpaolo transaction"@
    }
}

pub open spec fn currency_spec(g: Seq<Seq<Seq<char>>>, m: HeaderMapping, r: int) -> Seq<char> {
    let v = trimmed_cell(g, r, m.valuta_col);
    if m.valuta_col is Some && v.len() > 0 {
        v
    } else {
        "EUR"@
    }
}

/// Securities movements (by the account column, or by the description when
/// there is an account column) belong to the trading account.
pub open spec fn account_spec(
    checking: Seq<char>,
    trading: Seq<char>,
    g: Seq<Seq<Seq<char>>>,
    m: HeaderMapping,
    r: int,
    description: Seq<char>,
) -> Seq<char> {
    match m.conto_col {
        Some(col) => {
            let conto = unicode_lower(
                match cell_at(g, r, col as int) {
                    Some(t) => t,
                    None => Seq::empty(),
                },
            );
            let d = unicode_lower(description);
            if contains_spec(conto, "deposito"@) || contains_spec(conto, "amministrato"@)
                || contains_spec(d, "titoli"@) || contains_spec(d, "cedole"@) || contains_spec(
                d,
                "compravendita"@,
            ) {
                trading
            } else {
                checking
            }
        },
        None => checking,
    }
}

/// The transaction a data row gives, `None` for a row that is skipped (no
/// date cell, an empty date or a balance line), or the error that stops the
/// sheet.
pub open spec fn movement_row_spec<A>(
    checking: Seq<char>,
    trading: Seq<char>,
    g: Seq<Seq<Seq<char>>>,
    nums: Seq<Seq<CellNumbersV<A>>>,
    m: HeaderMapping,
    r: int,
) -> Result<Option<TransactionV<A>>, IntesaErrorV> {
    let data_col = m.data_col->0 as int;
    match cell_at(g, r, data_col) {
        None => Ok(None),
        Some(cell) => {
            let date_text = trim_spec(cell);
            if date_text.len() == 0 || contains_spec(unicode_lower(date_text), "saldo"@) {
                Ok(None)
            } else {
                match row_amount_spec(g, nums, m, r) {
                    None => Err(IntesaErrorV::Amount { row: r as nat }),
                    Some(amount) => match date_or_serial_spec(
                        date_text,
                        numbers_at(nums, r, data_col).serial_floor,
                    ) {
                        None => Err(IntesaErrorV::Date { row: r as nat, text: date_text }),
                        Some(date) => {
                            let description = description_spec(g, m, r);
                            let currency = currency_spec(g, m, r);
                            let account = account_spec(checking, trading, g, m, r, description);
                            let (ty0, from0, to0) = direction_spec(account, amount.sign);
                            let forced = force_expense_spec(description);
                            let ty = if forced {
                                "expense"@
                            } else {
                                ty0
                            };
                            let from = if forced || ty == "expense"@ {
                                checking
                            } else {
                                from0
                            };
                            let to = if forced || ty == "expense"@ {
                                "EXTERNAL_PAYEE"@
                            } else {
                                to0
                            };
                            Ok(
                                Some(
                                    txn_v(
                                        date,
                                        from,
                                        to,
                                        ty,
                                        amount.magnitude,
                                        currency,
                                        description,
                                        txn_id_spec(
                                            "INTESA"@,
                                            date,
                                            amount.magnitude_fixed8,
                                            currency,
                                            description,
                                        ),
                                    ),
                                ),
                            )
                        },
                    },
                }
            }
        }
    }
}

/// Data rows from just below the header up to (not including) row `n`.
pub open spec fn movement_rows<A>(
    checking: Seq<char>,
    trading: Seq<char>,
    g: Seq<Seq<Seq<char>>>,
    nums: Seq<Seq<CellNumbersV<A>>>,
    m: HeaderMapping,
    n: int,
) -> Result<Seq<TransactionV<A>>, IntesaErrorV>
    decreases n,
{
    let first = m.header_row->0 + 1;
    if n <= first {
        Ok(Seq::empty())
    } else {
        match movement_rows(checking, trading, g, nums, m, n - 1) {
            Err(e) => Err(e),
            Ok(prev) => match movement_row_spec(checking, trading, g, nums, m, n - 1) {
                Err(e) => Err(e),
                Ok(None) => Ok(prev),
                Ok(Some(t)) => Ok(prev.push(t)),
            },
        }
    }
}

/// A movement sheet: no transactions when no usable header is found in its
/// first thirty rows; else every data row below the header, in order.
pub open spec fn movement_sheet_spec<A>(
    checking: Seq<char>,
    trading: Seq<char>,
    g: Seq<Seq<Seq<char>>>,
    nums: Seq<Seq<CellNumbersV<A>>>,
) -> Result<Seq<TransactionV<A>>, IntesaErrorV> {
    let m = sheet_mapping(g);
    if !parsable_spec(m) {
        Ok(Seq::empty())
    } else {
        movement_rows(checking, trading, g, nums, m, g.len() as int)
    }
}

fn trimmed_cell_exec(g: &Grid, r: usize, c: Option<usize>) -> (out: String)
    ensures
        out@ == trimmed_cell(grid_view(*g), r as int, c),
{
    match c {
        Some(col) => match get_cell(g, r, col) {
            Some(t) => trim(t.as_str()),
            None => String::new(),
        },
        None => String::new(),
    }
}

fn row_amount<A: Copy>(g: &Grid, nums: &NumberGrid<A>, m: &HeaderMapping, r: usize) -> (out: Option<
    (Sign, A, String),
>)
    ensures
        match row_amount_spec(grid_view(*g), number_grid_view(*nums), *m, r as int) {
            Some(a) => out matches Some(x) && x.0 == a.sign && x.1 == a.magnitude && x.2@
                == a.magnitude_fixed8,
            None => out is None,
        },
{
    match m.importo_col {
        Some(col) => match get_cell(g, r, col) {
            None => None,
            Some(t) => {
                let tt = trim(t.as_str());
                if tt.unicode_len() == 0 {
                    None
                } else {
                    match get_numbers(nums, r, col).amount {
                        Some(a) => Some((a.sign, a.magnitude, a.magnitude_fixed8)),
                        None => None,
                    }
                }
            },
        },
        None => {
            let credit = trimmed_cell_exec(g, r, m.accrediti_col);
            let debit = trimmed_cell_exec(g, r, m.addebiti_col);
            if credit.unicode_len() == 0 && debit.unicode_len() == 0 {
                None
            } else if credit.unicode_len() > 0 {
                let col = match m.accrediti_col {
                    Some(c) => c,
                    None => {
                        return None;
                    },
                };
                match get_numbers(nums, r, col).amount {
                    Some(a) => Some((a.sign, a.magnitude, a.magnitude_fixed8)),
                    None => None,
                }
            } else {
                let col = match m.addebiti_col {
                    Some(c) => c,
                    None => {
                        return None;
                    },
                };
                match get_numbers(nums, r, col).amount {
                    Some(a) => {
                        let s = match a.sign {
                            Sign::Negative => Sign::Positive,
                            Sign::Positive => Sign::Negative,
                            other => other,
                        };
                        Some((s, a.magnitude, a.magnitude_fixed8))
                    },
                    None => None,
                }
            }
        },
    }
}

/// The description of row `r`.
pub fn field_description(g: &Grid, r: usize, m: &HeaderMapping) -> (out: String)
    ensures
        out@ == description_spec(grid_view(*g), *m, r as int),
{
    let op = trimmed_cell_exec(g, r, m.operazione_col);
    let det = trimmed_cell_exec(g, r, m.dettagli_col);
    if op.unicode_len() > 0 && det.unicode_len() > 0 {
        concat3(op.as_str(), " - ", det.as_str())
    } else if op.unicode_len() > 0 {
        op
    } else if det.unicode_len() > 0 {
        det
    } else {
        owned("Intesa Sanpaolo transaction")
    }
}

/// The currency of row `r`.
pub fn field_currency(g: &Grid, r: usize, m: &HeaderMapping) -> (out: String)
    ensures
        out@ == currency_spec(grid_view(*g), *m, r as int),
{
    let v = trimmed_cell_exec(g, r, m.valuta_col);
    if m.valuta_col.is_some() && v.unicode_len() > 0 {
        v
    } else {
        owned("EUR")
    }
}

fn field_account_id(
    parser: &IntesaSanpaoloParser,
    g: &Grid,
    r: usize,
    m: &HeaderMapping,
    description: &str,
) -> (out: String)
    ensures
        out@ == account_spec(
            parser.account_id_checking@,
            parser.account_id_trading@,
            grid_view(*g),
            *m,
            r as int,
            description@,
        ),
{
    match m.conto_col {
        Some(col) => {
            let raw = match get_cell(g, r, col) {
                Some(t) => t,
                None => String::new(),
            };
            let conto = to_lowercase(raw.as_str());
            let d = to_lowercase(description);
            if contains(conto.as_str(), "deposito") || contains(conto.as_str(), "amministrato")
                || contains(d.as_str(), "titoli") || contains(d.as_str(), "cedole") || contains(
                d.as_str(),
                "compravendita",
            ) {
                parser.account_id_trading.clone()
            } else {
                parser.account_id_checking.clone()
            }
        },
        None => parser.account_id_checking.clone(),
    }
}

fn movement_row<A: Copy>(
    parser: &IntesaSanpaoloParser,
    g: &Grid,
    nums: &NumberGrid<A>,
    m: &HeaderMapping,
    r: usize,
) -> (out: Result<Option<Transaction<A>>, IntesaError>)
    requires
        m.data_col is Some,
    ensures
        match movement_row_spec(
            parser.account_id_checking@,
            parser.account_id_trading@,
            grid_view(*g),
            number_grid_view(*nums),
            *m,
            r as int,
        ) {
            Ok(None) => out matches Ok(None),
            Ok(Some(t)) => out matches Ok(Some(x)) && x@ == t,
            Err(e) => out matches Err(x) && x@ == e,
        },
{
    let data_col = match m.data_col {
        Some(c) => c,
        None => {
            return Ok(None);
        },
    };
    let cell = match get_cell(g, r, data_col) {
        Some(c) => c,
        None => {
            return Ok(None);
        },
    };
    let date_text = trim(cell.as_str());
    if date_text.unicode_len() == 0 || contains(to_lowercase(date_text.as_str()).as_str(), "saldo") {
        return Ok(None);
    }
    let (sign, magnitude, magnitude_text) = match row_amount(g, nums, m, r) {
        Some(a) => a,
        None => {
            return Err(IntesaError::Amount { row: r });
        },
    };
    let serial = get_numbers(nums, r, data_col).serial_floor;
    let date = match parse_date_or_serial(date_text.as_str(), serial) {
        Some(d) => d,
        None => {
            return Err(IntesaError::Date { row: r, text: date_text });
        },
    };
    let description = field_description(g, r, m);
    let currency = field_currency(g, r, m);
    let account_id = field_account_id(parser, g, r, m, description.as_str());
    let (ty0, from0, to0) = determine_transaction_type(account_id.as_str(), sign);
    let forced = intesa_force_expense(description.as_str());
    let txn_type = if forced {
        owned("expense")
    } else {
        ty0
    };
    let is_expense = forced || same(txn_type.as_str(), "expense");
    let from_account_id = if is_expense {
        parser.account_id_checking.clone()
    } else {
        from0
    };
    let to_account_id = if is_expense {
        owned("EXTERNAL_PAYEE")
    } else {
        to0
    };
    let txn_id = make_txn_id(
        "INTESA",
        &date,
        magnitude_text.as_str(),
        currency.as_str(),
        description.as_str(),
    );
    Ok(
        Some(
            build_transaction_value(
                &date,
                from_account_id,
                to_account_id,
                txn_type,
                magnitude,
                currency,
                description,
                txn_id,
            ),
        ),
    )
}

proof fn lemma_rows_err_stays<A>(
    checking: Seq<char>,
    trading: Seq<char>,
    g: Seq<Seq<Seq<char>>>,
    nums: Seq<Seq<CellNumbersV<A>>>,
    m: HeaderMapping,
    k: int,
    n: int,
)
    requires
        k <= n,
        movement_rows(checking, trading, g, nums, m, k) is Err,
    ensures
        movement_rows(checking, trading, g, nums, m, n) == movement_rows(
            checking,
            trading,
            g,
            nums,
            m,
            k,
        ),
    decreases n - k,
{
    if n > k {
        lemma_rows_err_stays(checking, trading, g, nums, m, k, n - 1);
    }
}

/// The transactions of one movement sheet: `cells` is its text by row,
/// `nums` what was parsed from each cell.
pub fn parse_transaction_sheet<A: Copy>(
    parser: &IntesaSanpaoloParser,
    cells: &Grid,
    nums: &NumberGrid<A>,
) -> (out: Result<Vec<Transaction<A>>, IntesaError>)
    ensures
        match movement_sheet_spec(
            parser.account_id_checking@,
            parser.account_id_trading@,
            grid_view(*cells),
            number_grid_view(*nums),
        ) {
            Ok(ts) => out matches Ok(v) && seq_views(v@) == ts,
            Err(e) => out matches Err(x) && x@ == e,
        },
{
    let ghost gv = grid_view(*cells);
    let ghost nv = number_grid_view(*nums);
    let ghost checking = parser.account_id_checking@;
    let ghost trading = parser.account_id_trading@;
    let mut transactions: Vec<Transaction<A>> = Vec::new();
    let mut mapping = scan_headers(cells);
    if !mapping.can_parse() {
        assert(seq_views(transactions@) =~= Seq::<TransactionV<A>>::empty());
        return Ok(transactions);
    }
    let header_row = match mapping.header_row {
        Some(h) => h,
        None => {
            return Ok(transactions);
        },
    };
    if header_row >= cells.len() {
        assert(seq_views(transactions@) =~= Seq::<TransactionV<A>>::empty());
        return Ok(transactions);
    }
    let mut r: usize = header_row + 1;
    assert(seq_views(transactions@) =~= Seq::<TransactionV<A>>::empty());
    while r < cells.len()
        invariant
            header_row + 1 <= r <= cells.len(),
            mapping.header_row == Some(header_row),
            mapping.data_col is Some,
            parsable_spec(mapping),
            mapping == sheet_mapping(gv),
            gv == grid_view(*cells),
            nv == number_grid_view(*nums),
            checking == parser.account_id_checking@,
            trading == parser.account_id_trading@,
            movement_rows(checking, trading, gv, nv, mapping, r as int) == Ok::<
                Seq<TransactionV<A>>,
                IntesaErrorV,
            >(seq_views(transactions@)),
        decreases cells.len() - r,
    {
        match movement_row(parser, cells, nums, &mapping, r) {
            Ok(None) => {},
            Ok(Some(t)) => {
                let ghost before = seq_views(transactions@);
                transactions.push(t);
                assert(seq_views(transactions@) =~= before.push(t@));
            },
            Err(e) => {
                proof {
                    lemma_rows_err_stays(checking, trading, gv, nv, mapping, r as int + 1, gv.len() as int);
                }
                return Err(e);
            },
        }
        r = r + 1;
    }
    Ok(transactions)
}

} // verus!

verus! {

/// The movements of the first `n` sheets (unreadable sheets give none); the
/// first sheet that fails ends the parse.
pub open spec fn movement_sheets<A>(
    checking: Seq<char>,
    trading: Seq<char>,
    sheets: Seq<Option<(Seq<Seq<Seq<char>>>, Seq<Seq<CellNumbersV<A>>>)>>,
    n: int,
) -> Result<Seq<TransactionV<A>>, IntesaErrorV>
    decreases n,
{
    if n <= 0 {
        Ok(Seq::empty())
    } else {
        match movement_sheets(checking, trading, sheets, n - 1) {
            Err(e) => Err(e),
            Ok(prev) => match sheets[n - 1] {
                None => Ok(prev),
                Some((g, nums)) => match movement_sheet_spec(checking, trading, g, nums) {
                    Err(e) => Err(e),
                    Ok(ts) => Ok(prev + ts),
                },
            },
        }
    }
}

proof fn lemma_sheets_err_stays<A>(
    checking: Seq<char>,
    trading: Seq<char>,
    sheets: Seq<Option<(Seq<Seq<Seq<char>>>, Seq<Seq<CellNumbersV<A>>>)>>,
    k: int,
    n: int,
)
    requires
        k <= n,
        movement_sheets(checking, trading, sheets, k) is Err,
    ensures
        movement_sheets(checking, trading, sheets, n) == movement_sheets(checking, trading, sheets, k),
    decreases n - k,
{
    if n > k {
        lemma_sheets_err_stays(checking, trading, sheets, k, n - 1);
    }
}

/// The movements of every readable sheet, in order.
pub fn parse_transactions<A: Copy>(
    parser: &IntesaSanpaoloParser,
    sheets: &Vec<Option<IntesaSheet<A>>>,
) -> (out: Result<Vec<Transaction<A>>, IntesaError>)
    ensures
        match movement_sheets(
            parser.account_id_checking@,
            parser.account_id_trading@,
            sheet_views(sheets@),
            sheets@.len() as int,
        ) {
            Ok(ts) => out matches Ok(v) && seq_views(v@) == ts,
            Err(e) => out matches Err(x) && x@ == e,
        },
{
    let ghost sv = sheet_views(sheets@);
    let mut all: Vec<Transaction<A>> = Vec::new();
    let mut k: usize = 0;
    assert(seq_views(all@) =~= Seq::<TransactionV<A>>::empty());
    while k < sheets.len()
        invariant
            k <= sheets.len(),
            sv == sheet_views(sheets@),
            movement_sheets(parser.account_id_checking@, parser.account_id_trading@, sv, k as int)
                == Ok::<Seq<TransactionV<A>>, IntesaErrorV>(seq_views(all@)),
        decreases sheets.len() - k,
    {
        match &sheets[k] {
            None => {},
            Some(sheet) => {
                match parse_transaction_sheet(parser, &sheet.cells, &sheet.nums) {
                    Ok(mut ts) => {
                        let ghost before = seq_views(all@);
                        let ghost added = seq_views(ts@);
                        all.append(&mut ts);
                        assert(seq_views(all@) =~= before + added);
                    },
                    Err(e) => {
                        proof {
                            lemma_sheets_err_stays(
                                parser.account_id_checking@,
                                parser.account_id_trading@,
                                sv,
                                k as int + 1,
                                sheets@.len() as int,
                            );
                        }
                        return Err(e);
                    },
                }
            },
        }
        k = k + 1;
    }
    Ok(all)
}

/// On a sheet with separate credit (Accrediti) and debit (Addebiti) columns,
/// a row with only the debit filled is money out: its amount is the debit
/// with the sign turned, so a positive debit gives a negative amount of the
/// same magnitude. A row with the credit filled keeps the credit's sign.
pub proof fn lemma_debit_column_turns_sign<A>(
    g: Seq<Seq<Seq<char>>>,
    nums: Seq<Seq<CellNumbersV<A>>>,
    m: HeaderMapping,
    r: int,
)
    requires
        m.importo_col is None,
    ensures
        trimmed_cell(g, r, m.accrediti_col).len() == 0 && trimmed_cell(g, r, m.addebiti_col).len() > 0
            && numbers_at(nums, r, m.addebiti_col->0 as int).amount is Some ==> ({
            let a = numbers_at(nums, r, m.addebiti_col->0 as int).amount->0;
            row_amount_spec(g, nums, m, r) matches Some(x) && x.magnitude == a.magnitude && (a.sign
                == Sign::Positive ==> x.sign == Sign::Negative) && (a.sign == Sign::Negative
                ==> x.sign == Sign::Positive)
        }),
        trimmed_cell(g, r, m.accrediti_col).len() > 0 && numbers_at(
            nums,
            r,
            m.accrediti_col->0 as int,
        ).amount is Some ==> ({
            let a = numbers_at(nums, r, m.accrediti_col->0 as int).amount->0;
            row_amount_spec(g, nums, m, r) matches Some(x) && x.magnitude == a.magnitude && x.sign
                == a.sign
        }),
{
}

/// A movement booked from a positive debit (Addebiti) alone is an expense
/// paid from the checking account to an external payee; one booked from a
/// positive credit (Accrediti) is income paid by an external payer into the
/// row's account, unless its description marks a fee, charge or tax.
pub proof fn lemma_debit_is_expense_credit_is_income<A>(
    checking: Seq<char>,
    trading: Seq<char>,
    g: Seq<Seq<Seq<char>>>,
    nums: Seq<Seq<CellNumbersV<A>>>,
    m: HeaderMapping,
    r: int,
    t: TransactionV<A>,
)
    requires
        m.importo_col is None,
        movement_row_spec(checking, trading, g, nums, m, r) == Ok::<Option<TransactionV<A>>, IntesaErrorV>(Some(t)),
    ensures
        ({
            let d = numbers_at(nums, r, m.addebiti_col->0 as int).amount;
            trimmed_cell(g, r, m.accrediti_col).len() == 0 && trimmed_cell(g, r, m.addebiti_col).len()
                > 0 && d is Some && d->0.sign == Sign::Positive ==> t.transaction_type == "expense"@
                && t.from_account_id == checking && t.to_account_id == "EXTERNAL_PAYEE"@ && t.amount
                == d->0.magnitude
        }),
        ({
            let c = numbers_at(nums, r, m.accrediti_col->0 as int).amount;
            let description = description_spec(g, m, r);
            trimmed_cell(g, r, m.accrediti_col).len() > 0 && c is Some && c->0.sign == Sign::Positive
                && !force_expense_spec(description) ==> t.transaction_type == "income"@
                && t.from_account_id == "EXTERNAL_PAYER"@ && t.to_account_id == account_spec(
                checking,
                trading,
                g,
                m,
                r,
                description,
            ) && t.amount == c->0.magnitude
        }),
{
    reveal_strlit("expense");
    reveal_strlit("income");
    assert("expense"@.len() != "income"@.len());
    lemma_debit_column_turns_sign(g, nums, m, r);
}

/// A movement row is money out exactly when its amount is not zero or more
/// (negative, or not a number) or its description marks a fee, charge or
/// tax (canone, spese, imposta): then it is an expense from the checking account to an external payee. Otherwise
/// it is income from an external payer into the row's account. Where there
/// is a single amount column (Importo), the amount keeps that column's sign.
pub proof fn lemma_movement_direction<A>(
    checking: Seq<char>,
    trading: Seq<char>,
    g: Seq<Seq<Seq<char>>>,
    nums: Seq<Seq<CellNumbersV<A>>>,
    m: HeaderMapping,
    r: int,
    t: TransactionV<A>,
)
    requires
        movement_row_spec(checking, trading, g, nums, m, r) == Ok::<Option<TransactionV<A>>, IntesaErrorV>(Some(t)),
    ensures
        row_amount_spec(g, nums, m, r) is Some,
        ({
            let amount = row_amount_spec(g, nums, m, r)->0;
            let description = description_spec(g, m, r);
            &&& t.amount == amount.magnitude
            &&& !amount.sign.ge_zero() || force_expense_spec(description) ==> t.transaction_type
                == "expense"@ && t.from_account_id == checking && t.to_account_id == "EXTERNAL_PAYEE"@
            &&& amount.sign.ge_zero() && !force_expense_spec(description) ==> t.transaction_type
                == "income"@ && t.from_account_id == "EXTERNAL_PAYER"@ && t.to_account_id
                == account_spec(checking, trading, g, m, r, description)
        }),
        m.importo_col matches Some(col) ==> (numbers_at(nums, r, col as int).amount matches Some(a)
            ==> row_amount_spec(g, nums, m, r)->0.sign == a.sign),
{
    reveal_strlit("expense");
    reveal_strlit("income");
    assert("expense"@.len() != "income"@.len());
}

} // verus!
