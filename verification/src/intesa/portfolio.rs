//! Intesa Sanpaolo portfolio sheets ("patrimonio") to instruments and
//! positions.
use vstd::prelude::*;

use super::common::{
    cell_at, date_or_serial_spec, get_cell, get_numbers, grid_view, is_portfolio_date_header,
    is_portfolio_date_header_spec, number_grid_view, numbers_at, parse_date_or_serial, sheet_views,
    CellNumbersV, Grid, IntesaSheet, NumberGrid,
};
use super::transactions::min;
use super::instruments::{holding_instrument, map_instrument_from_row, PortfolioRowData};
use super::IntesaSanpaoloParser;
use crate::dates::{iso_date, iso_text, Date};
use crate::hashing::{hex_spec, prefixed_digest_id, sha256, utf8};
use crate::money::{Amount, AmountV, Sign};
use crate::records::{seq_views, Instrument, InstrumentV, Position, PositionV};
use crate::text::{
    chars_of, concat, concat3, contains, contains_spec, lemma_trim_idempotent, owned, same,
    to_lowercase, trim, trim_spec, unicode_lower, TrimSet,
};

verus! {

broadcast use vstd::string::group_string_axioms;

// ---------------------------------------------------------------------------
// The statement date
// ---------------------------------------------------------------------------

/// Chronological order of dates.
pub open spec fn date_lt(a: Date, b: Date) -> bool {
    a.year < b.year || (a.year == b.year && (a.month < b.month || (a.month == b.month && a.day
        < b.day)))
}

fn date_less(a: &Date, b: &Date) -> (r: bool)
    ensures
        r == date_lt(*a, *b),
{
    a.year < b.year || (a.year == b.year && (a.month < b.month || (a.month == b.month && a.day
        < b.day)))
}

/// The date in column G of row `r`, if it reads as one.
pub open spec fn column_g_date<A>(g: Seq<Seq<Seq<char>>>, nums: Seq<Seq<CellNumbersV<A>>>, r: int) -> Option<
    Date,
> {
    match cell_at(g, r, 6) {
        Some(t) => date_or_serial_spec(t, numbers_at(nums, r, 6).serial_floor),
        None => None,
    }
}

/// The column G dates of the first `n` rows that fall in 2020..=2035.
pub open spec fn column_g_dates<A>(g: Seq<Seq<Seq<char>>>, nums: Seq<Seq<CellNumbersV<A>>>, n: int) -> Seq<
    Date,
>
    decreases n,
{
    if n <= 0 {
        Seq::empty()
    } else {
        let prev = column_g_dates(g, nums, n - 1);
        match column_g_date(g, nums, n - 1) {
            Some(d) => if 2020 <= d.year <= 2035 {
                prev.push(d)
            } else {
                prev
            },
            None => prev,
        }
    }
}

/// How often `d` occurs among the first `n` of `ds`.
pub open spec fn occurrences(ds: Seq<Date>, d: Date, n: int) -> nat
    decreases n,
{
    if n <= 0 {
        0
    } else {
        occurrences(ds, d, n - 1) + if ds[n - 1] == d {
            1nat
        } else {
            0nat
        }
    }
}

/// `a` ranks above `b` among `ds`: more occurrences, or as many and later.
pub open spec fn ranks_above(ds: Seq<Date>, a: Date, b: Date) -> bool {
    let ca = occurrences(ds, a, ds.len() as int);
    let cb = occurrences(ds, b, ds.len() as int);
    ca > cb || (ca == cb && date_lt(b, a))
}

/// The best-ranked of the first `n` of `ds`.
pub open spec fn most_frequent(ds: Seq<Date>, n: int) -> Option<Date>
    decreases n,
{
    if n <= 0 {
        None
    } else {
        match most_frequent(ds, n - 1) {
            None => Some(ds[n - 1]),
            Some(b) => if ranks_above(ds, ds[n - 1], b) {
                Some(ds[n - 1])
            } else {
                Some(b)
            },
        }
    }
}

/// The first date among the cells of rows `0..10` (row by row) that falls in
/// 2020..=2030, scanning from row `r`, cell `c`.
pub open spec fn first_top_date<A>(
    g: Seq<Seq<Seq<char>>>,
    nums: Seq<Seq<CellNumbersV<A>>>,
    r: int,
    c: int,
) -> Option<Date>
    decreases 10 - r, g[r].len() - c,
{
    if r < 0 || r >= 10 || r >= g.len() {
        None
    } else if c < 0 || c >= g[r].len() {
        first_top_date(g, nums, r + 1, 0)
    } else {
        match date_or_serial_spec(g[r][c], numbers_at(nums, r, c).serial_floor) {
            Some(d) => if 2020 <= d.year <= 2030 {
                Some(d)
            } else {
                first_top_date(g, nums, r, c + 1)
            },
            None => first_top_date(g, nums, r, c + 1),
        }
    }
}

/// The statement date of a portfolio sheet: the most frequent column G date,
/// else the first plausible date near the top.
pub open spec fn portfolio_date_spec<A>(g: Seq<Seq<Seq<char>>>, nums: Seq<Seq<CellNumbersV<A>>>) -> Option<
    Date,
> {
    let ds = column_g_dates(g, nums, g.len() as int);
    match most_frequent(ds, ds.len() as int) {
        Some(d) => Some(d),
        None => first_top_date(g, nums, 0, 0),
    }
}

fn count_date(ds: &Vec<Date>, d: &Date) -> (n: usize)
    ensures
        n == occurrences(ds@, *d, ds@.len() as int),
{
    let mut n: usize = 0;
    let mut k: usize = 0;
    while k < ds.len()
        invariant
            k <= ds.len(),
            n == occurrences(ds@, *d, k as int),
            n <= k,
        decreases ds.len() - k,
    {
        if ds[k] == *d {
            n = n + 1;
        }
        k = k + 1;
    }
    n
}

pub fn extract_portfolio_date_from_column_g<A: Copy>(g: &Grid, nums: &NumberGrid<A>) -> (r: Option<Date>)
    ensures
        ({
            let ds = column_g_dates(grid_view(*g), number_grid_view(*nums), g@.len() as int);
            r == most_frequent(ds, ds.len() as int)
        }),
{
    let ghost gv = grid_view(*g);
    let ghost nv = number_grid_view(*nums);
    let mut ds: Vec<Date> = Vec::new();
    let mut r: usize = 0;
    while r < g.len()
        invariant
            r <= g.len(),
            gv == grid_view(*g),
            nv == number_grid_view(*nums),
            ds@ == column_g_dates(gv, nv, r as int),
        decreases g.len() - r,
    {
        if let Some(t) = get_cell(g, r, 6) {
            let serial = get_numbers(nums, r, 6).serial_floor;
            if let Some(d) = parse_date_or_serial(t.as_str(), serial) {
                if 2020 <= d.year && d.year <= 2035 {
                    ds.push(d);
                }
            }
        }
        r = r + 1;
    }
    let mut best: Option<Date> = None;
    let mut best_count: usize = 0;
    let mut k: usize = 0;
    while k < ds.len()
        invariant
            k <= ds.len(),
            best == most_frequent(ds@, k as int),
            best matches Some(b) ==> best_count == occurrences(ds@, b, ds@.len() as int),
        decreases ds.len() - k,
    {
        let d = ds[k];
        let c = count_date(&ds, &d);
        match best {
            None => {
                best = Some(d);
                best_count = c;
            },
            Some(b) => {
                if c > best_count || (c == best_count && date_less(&b, &d)) {
                    best = Some(d);
                    best_count = c;
                }
            },
        }
        k = k + 1;
    }
    best
}

pub fn extract_portfolio_date<A: Copy>(g: &Grid, nums: &NumberGrid<A>) -> (r: Option<Date>)
    ensures
        r == portfolio_date_spec(grid_view(*g), number_grid_view(*nums)),
{
    if let Some(d) = extract_portfolio_date_from_column_g(g, nums) {
        return Some(d);
    }
    let ghost gv = grid_view(*g);
    let ghost nv = number_grid_view(*nums);
    let ghost ds = column_g_dates(gv, nv, g@.len() as int);
    assert(most_frequent(ds, ds.len() as int) is None);
    let mut r: usize = 0;
    while r < g.len() && r < 10
        invariant
            ds == column_g_dates(gv, nv, g@.len() as int),
            most_frequent(ds, ds.len() as int) is None,
            r <= g.len(),
            r <= 10,
            gv == grid_view(*g),
            nv == number_grid_view(*nums),
            first_top_date(gv, nv, 0, 0) == first_top_date(gv, nv, r as int, 0),
        decreases 10 - r,
    {
        let mut c: usize = 0;
        while c < g[r].len()
            invariant
                ds == column_g_dates(gv, nv, g@.len() as int),
                most_frequent(ds, ds.len() as int) is None,
                r < g.len(),
                r < 10,
                c <= g@[r as int].len(),
                gv == grid_view(*g),
                nv == number_grid_view(*nums),
                first_top_date(gv, nv, 0, 0) == first_top_date(gv, nv, r as int, c as int),
            decreases g@[r as int].len() - c,
        {
            assert(most_frequent(ds, ds.len() as int) is None);
            let serial = get_numbers(nums, r, c).serial_floor;
            assert(gv[r as int][c as int] == g@[r as int][c as int]@);
            if let Some(d) = parse_date_or_serial(g[r][c].as_str(), serial) {
                if 2020 <= d.year && d.year <= 2030 {
                    assert(first_top_date(gv, nv, r as int, c as int) == Some(d));
                    return Some(d);
                }
            }
            c = c + 1;
        }
        r = r + 1;
    }
    None
}

// ---------------------------------------------------------------------------
// Header
// ---------------------------------------------------------------------------

/// Where the columns of a portfolio sheet are.
#[derive(Clone, Copy, Debug, PartialEq, Eq, Structural)]
pub struct PortfolioColumns {
    pub header_row: Option<usize>,
    pub descrizione_col: Option<usize>,
    pub isin_col: Option<usize>,
    pub quantita_col: Option<usize>,
    pub prezzo_carico_col: Option<usize>,
    pub prezzo_mercato_col: Option<usize>,
    pub controvalore_col: Option<usize>,
    pub valore_carico_col: Option<usize>,
    pub as_of_col: Option<usize>,
}

pub open spec fn no_columns() -> PortfolioColumns {
    PortfolioColumns {
        header_row: None,
        descrizione_col: None,
        isin_col: None,
        quantita_col: None,
        prezzo_carico_col: None,
        prezzo_mercato_col: None,
        controvalore_col: None,
        valore_carico_col: None,
        as_of_col: None,
    }
}

pub open spec fn first_of(slot: Option<usize>, hit: bool, col: usize) -> Option<usize> {
    if hit && slot is None {
        Some(col)
    } else {
        slot
    }
}

pub open spec fn last_of(slot: Option<usize>, hit: bool, col: usize) -> Option<usize> {
    if hit {
        Some(col)
    } else {
        slot
    }
}

/// The columns after reading the (lower-cased) heading at `(row, col)`: the
/// ISIN and market value columns are taken from the last cell naming them,
/// the others from the first.
pub open spec fn portfolio_register(p: PortfolioColumns, row: usize, col: usize, text: Seq<char>) -> PortfolioColumns {
    let isin = text == "isin"@;
    PortfolioColumns {
        isin_col: last_of(p.isin_col, isin, col),
        header_row: last_of(p.header_row, isin, row),
        descrizione_col: first_of(p.descrizione_col, text == "descrizione"@, col),
        quantita_col: first_of(p.quantita_col, contains_spec(text, "quantit"@), col),
        prezzo_carico_col: first_of(p.prezzo_carico_col, contains_spec(text, "prezzo medio"@), col),
        prezzo_mercato_col: first_of(p.prezzo_mercato_col, contains_spec(text, "prezzo mercato"@), col),
        controvalore_col: last_of(
            p.controvalore_col,
            text == "controvalore \u{20AC}"@ || (contains_spec(text, "controvalore"@) && !contains_spec(
                text,
                "totale"@,
            )),
            col,
        ),
        valore_carico_col: first_of(p.valore_carico_col, contains_spec(text, "valore carico"@), col),
        as_of_col: first_of(p.as_of_col, is_portfolio_date_header_spec(text), col),
    }
}

pub open spec fn portfolio_register_row(p: PortfolioColumns, g: Seq<Seq<Seq<char>>>, r: int, n: int) -> PortfolioColumns
    decreases n,
{
    if n <= 0 {
        p
    } else {
        portfolio_register(
            portfolio_register_row(p, g, r, n - 1),
            r as usize,
            (n - 1) as usize,
            unicode_lower(g[r][n - 1]),
        )
    }
}

/// Rows `0..k` of the header area, stopping after the first row that yields
/// both the ISIN and the quantity column.
pub open spec fn portfolio_scan(g: Seq<Seq<Seq<char>>>, k: int) -> (PortfolioColumns, bool)
    decreases k,
{
    if k <= 0 {
        (no_columns(), false)
    } else {
        let (p, done) = portfolio_scan(g, k - 1);
        if done {
            (p, true)
        } else {
            let p2 = portfolio_register_row(p, g, k - 1, g[k - 1].len() as int);
            (p2, p2.isin_col is Some && p2.quantita_col is Some)
        }
    }
}

pub open spec fn portfolio_columns_spec(g: Seq<Seq<Seq<char>>>) -> PortfolioColumns {
    portfolio_scan(g, min(g.len() as int, 20)).0
}

fn pick_first(slot: Option<usize>, hit: bool, col: usize) -> (r: Option<usize>)
    ensures
        r == first_of(slot, hit, col),
{
    if hit && slot.is_none() {
        Some(col)
    } else {
        slot
    }
}

fn register_portfolio_heading(p: &mut PortfolioColumns, row: usize, col: usize, text: &str)
    ensures
        *final(p) == portfolio_register(*old(p), row, col, text@),
{
    if same(text, "isin") {
        p.isin_col = Some(col);
        p.header_row = Some(row);
    }
    p.descrizione_col = pick_first(p.descrizione_col, same(text, "descrizione"), col);
    p.quantita_col = pick_first(p.quantita_col, contains(text, "quantit"), col);
    p.prezzo_carico_col = pick_first(p.prezzo_carico_col, contains(text, "prezzo medio"), col);
    p.prezzo_mercato_col = pick_first(p.prezzo_mercato_col, contains(text, "prezzo mercato"), col);
    if same(text, "controvalore \u{20AC}") || (contains(text, "controvalore") && !contains(
        text,
        "totale",
    )) {
        p.controvalore_col = Some(col);
    }
    p.valore_carico_col = pick_first(p.valore_carico_col, contains(text, "valore carico"), col);
    p.as_of_col = pick_first(p.as_of_col, is_portfolio_date_header(text), col);
}

proof fn lemma_portfolio_scan_stays(g: Seq<Seq<Seq<char>>>, k: int, n: int)
    requires
        0 < k <= n,
        portfolio_scan(g, k).1,
    ensures
        portfolio_scan(g, n) == portfolio_scan(g, k),
    decreases n - k,
{
    if n > k {
        lemma_portfolio_scan_stays(g, k, n - 1);
    }
}

fn portfolio_columns(g: &Grid) -> (p: PortfolioColumns)
    ensures
        p == portfolio_columns_spec(grid_view(*g)),
{
    let ghost gv = grid_view(*g);
    let limit: usize = if g.len() < 20 {
        g.len()
    } else {
        20
    };
    let mut p = PortfolioColumns {
        header_row: None,
        descrizione_col: None,
        isin_col: None,
        quantita_col: None,
        prezzo_carico_col: None,
        prezzo_mercato_col: None,
        controvalore_col: None,
        valore_carico_col: None,
        as_of_col: None,
    };
    let mut r: usize = 0;
    while r < limit
        invariant_except_break
            r <= limit <= g.len(),
            gv == grid_view(*g),
            portfolio_scan(gv, r as int) == (p, false),
        ensures
            portfolio_scan(gv, limit as int).0 == p,
        decreases limit - r,
    {
        let ghost start = p;
        let mut c: usize = 0;
        while c < g[r].len()
            invariant
                r < limit <= g.len(),
                c <= g@[r as int]@.len(),
                gv == grid_view(*g),
                p == portfolio_register_row(start, gv, r as int, c as int),
            decreases g@[r as int].len() - c,
        {
            let text = to_lowercase(g[r][c].as_str());
            register_portfolio_heading(&mut p, r, c, text.as_str());
            c = c + 1;
        }
        r = r + 1;
        if p.isin_col.is_some() && p.quantita_col.is_some() {
            proof {
                lemma_portfolio_scan_stays(gv, r as int, limit as int);
            }
            break;
        }
    }
    p
}

// ---------------------------------------------------------------------------
// Holdings
// ---------------------------------------------------------------------------

/// An ISIN-like code: non-empty, starting with an ASCII letter, twelve bytes
/// long in UTF-8.
pub open spec fn isin_like(isin: Seq<char>) -> bool {
    isin.len() > 0 && (('A' <= isin[0] && isin[0] <= 'Z') || ('a' <= isin[0] && isin[0] <= 'z'))
        && utf8(isin).len() == 12
}

/// The value read from column `col` of row `r`, if any.
pub open spec fn value_at<A>(nums: Seq<Seq<CellNumbersV<A>>>, r: int, col: Option<usize>) -> Option<A> {
    match col {
        Some(c) => match numbers_at(nums, r, c as int).amount {
            Some(a) => Some(a.value),
            None => None,
        },
        None => None,
    }
}

/// `"INTESAPOS-<12 hex digits of SHA-256(account|date|instrument)>"`.
pub open spec fn position_id_spec(account: Seq<char>, as_of: Date, instrument_id: Seq<char>) -> Seq<char> {
    "INTESAPOS"@ + "-"@ + hex_spec(
        sha256(utf8(account + "|"@ + iso_text(as_of) + "|"@ + instrument_id)).take(6),
    )
}

/// The date a holding is valued at: its own date cell, else its column G
/// date, else the sheet's date.
pub open spec fn holding_date<A>(
    g: Seq<Seq<Seq<char>>>,
    nums: Seq<Seq<CellNumbersV<A>>>,
    cols: PortfolioColumns,
    r: int,
    sheet_date: Date,
) -> Date {
    let own = match cols.as_of_col {
        Some(c) => match cell_at(g, r, c as int) {
            Some(t) => date_or_serial_spec(t, numbers_at(nums, r, c as int).serial_floor),
            None => None,
        },
        None => None,
    };
    match own {
        Some(d) => d,
        None => match column_g_date(g, nums, r) {
            Some(d) => d,
            None => sheet_date,
        },
    }
}

/// The instrument and position of row `r`, or `None` when the row holds no
/// ISIN-like code or no non-zero quantity. The unrealized result is left for
/// the caller to compute from the market value and the cost basis.
pub open spec fn holding_spec<A>(
    trading: Seq<char>,
    g: Seq<Seq<Seq<char>>>,
    nums: Seq<Seq<CellNumbersV<A>>>,
    cols: PortfolioColumns,
    r: int,
    sheet_date: Date,
) -> Option<(InstrumentV, PositionV<A>)> {
    match cell_at(g, r, cols.isin_col->0 as int) {
        None => None,
        Some(cell) => {
            let isin = trim_spec(cell);
            let quantity = match cols.quantita_col {
                Some(c) => numbers_at(nums, r, c as int).amount,
                None => None,
            };
            if !isin_like(isin) {
                None
            } else if quantity is None || quantity->0.sign == Sign::Zero {
                None
            } else {
                let description = match cols.descrizione_col {
                    Some(c) => match cell_at(g, r, c as int) {
                        Some(t) => trim_spec(t),
                        None => Seq::empty(),
                    },
                    None => Seq::empty(),
                };
                let as_of = holding_date(g, nums, cols, r, sheet_date);
                let instrument_id = "ISIN_"@ + isin;
                Some(
                    (
                        holding_instrument(isin, description),
                        PositionV {
                            position_id: position_id_spec(trading, as_of, instrument_id),
                            source: "Intesa Sanpaolo"@,
                            as_of_date: iso_text(as_of),
                            account_id: trading,
                            instrument_id,
                            quantity: Some(quantity->0.value),
                            currency: Some("EUR"@),
                            cost_price: value_at(nums, r, cols.prezzo_carico_col),
                            cost_basis: value_at(nums, r, cols.valore_carico_col),
                            close_price: value_at(nums, r, cols.prezzo_mercato_col),
                            market_value: value_at(nums, r, cols.controvalore_col),
                            unrealized_pnl: None,
                        },
                    ),
                )
            }
        },
    }
}

/// The holdings of rows from just below the header up to row `n`.
pub open spec fn holdings<A>(
    trading: Seq<char>,
    g: Seq<Seq<Seq<char>>>,
    nums: Seq<Seq<CellNumbersV<A>>>,
    cols: PortfolioColumns,
    sheet_date: Date,
    n: int,
) -> (Seq<InstrumentV>, Seq<PositionV<A>>)
    decreases n,
{
    if n <= cols.header_row->0 + 1 {
        (Seq::empty(), Seq::empty())
    } else {
        let prev = holdings(trading, g, nums, cols, sheet_date, n - 1);
        match holding_spec(trading, g, nums, cols, n - 1, sheet_date) {
            Some((i, p)) => (prev.0.push(i), prev.1.push(p)),
            None => prev,
        }
    }
}

/// A portfolio sheet: nothing when no ISIN heading is found in its first
/// twenty rows; else a holding for each row below the header with an
/// ISIN-like code and a non-zero quantity.
pub open spec fn portfolio_sheet_spec<A>(
    trading: Seq<char>,
    g: Seq<Seq<Seq<char>>>,
    nums: Seq<Seq<CellNumbersV<A>>>,
    fallback: Date,
) -> (Seq<InstrumentV>, Seq<PositionV<A>>) {
    let cols = portfolio_columns_spec(g);
    let sheet_date = match portfolio_date_spec(g, nums) {
        Some(d) => d,
        None => fallback,
    };
    if cols.isin_col is None || cols.header_row is None {
        (Seq::empty(), Seq::empty())
    } else {
        holdings(trading, g, nums, cols, sheet_date, g.len() as int)
    }
}

fn value_at_exec<A: Copy>(nums: &NumberGrid<A>, r: usize, col: Option<usize>) -> (out: Option<A>)
    ensures
        out == value_at(number_grid_view(*nums), r as int, col),
{
    match col {
        Some(c) => match get_numbers(nums, r, c).amount {
            Some(a) => Some(a.value),
            None => None,
        },
        None => None,
    }
}

fn holding_date_exec<A: Copy>(
    g: &Grid,
    nums: &NumberGrid<A>,
    cols: &PortfolioColumns,
    r: usize,
    sheet_date: &Date,
) -> (d: Date)
    ensures
        d == holding_date(grid_view(*g), number_grid_view(*nums), *cols, r as int, *sheet_date),
{
    let own = match cols.as_of_col {
        Some(c) => match get_cell(g, r, c) {
            Some(t) => parse_date_or_serial(t.as_str(), get_numbers(nums, r, c).serial_floor),
            None => None,
        },
        None => None,
    };
    match own {
        Some(d) => d,
        None => {
            let from_g = match get_cell(g, r, 6) {
                Some(t) => parse_date_or_serial(t.as_str(), get_numbers(nums, r, 6).serial_floor),
                None => None,
            };
            match from_g {
                Some(d) => d,
                None => *sheet_date,
            }
        },
    }
}

fn holding<A: Copy>(
    parser: &IntesaSanpaoloParser,
    g: &Grid,
    nums: &NumberGrid<A>,
    cols: &PortfolioColumns,
    r: usize,
    sheet_date: &Date,
) -> (out: Option<(Instrument, Position<A>)>)
    requires
        cols.isin_col is Some,
    ensures
        match holding_spec(
            parser.account_id_trading@,
            grid_view(*g),
            number_grid_view(*nums),
            *cols,
            r as int,
            *sheet_date,
        ) {
            Some((i, p)) => out matches Some(x) && x.0@ == i && x.1@ == p,
            None => out is None,
        },
{
    let isin_col = match cols.isin_col {
        Some(c) => c,
        None => {
            return None;
        },
    };
    let cell = match get_cell(g, r, isin_col) {
        Some(c) => c,
        None => {
            return None;
        },
    };
    let isin = trim(cell.as_str());
    let cs = chars_of(isin.as_str());
    let letter_first = cs.len() > 0 && (('A' <= cs[0] && cs[0] <= 'Z') || ('a' <= cs[0] && cs[0] <= 'z'));
    if !letter_first || isin.as_str().as_bytes().len() != 12 {
        return None;
    }
    let quantity = match cols.quantita_col {
        Some(c) => get_numbers(nums, r, c).amount,
        None => None,
    };
    let q = match quantity {
        Some(a) => match a.sign {
            Sign::Zero => {
                return None;
            },
            _ => a.value,
        },
        None => {
            return None;
        },
    };
    let description = match cols.descrizione_col {
        Some(c) => match get_cell(g, r, c) {
            Some(t) => trim(t.as_str()),
            None => String::new(),
        },
        None => String::new(),
    };
    let as_of = holding_date_exec(g, nums, cols, r, sheet_date);
    let instrument_id = concat("ISIN_", isin.as_str());
    let row = PortfolioRowData { isin: owned(isin.as_str()), description: owned(description.as_str()) };
    proof {
        lemma_trim_idempotent(cell@, TrimSet::Whitespace);
    }
    let instrument = match map_instrument_from_row(&row) {
        Some(i) => i,
        None => {
            return None;
        },
    };
    let mut key = parser.account_id_trading.clone();
    key.append("|");
    key.append(iso_date(&as_of).as_str());
    key.append("|");
    key.append(instrument_id.as_str());
    assert(key@ == parser.account_id_trading@ + "|"@ + iso_text(as_of) + "|"@ + instrument_id@);
    let position_id = prefixed_digest_id("INTESAPOS", key.as_str(), 6);
    assert(position_id@ == position_id_spec(parser.account_id_trading@, as_of, instrument_id@));
    assert(instrument@ == holding_instrument(isin@, description@));
    let position = Position {
        position_id,
        source: owned("Intesa Sanpaolo"),
        as_of_date: iso_date(&as_of),
        account_id: parser.account_id_trading.clone(),
        instrument_id,
        quantity: Some(q),
        currency: Some(owned("EUR")),
        cost_price: value_at_exec(nums, r, cols.prezzo_carico_col),
        cost_basis: value_at_exec(nums, r, cols.valore_carico_col),
        close_price: value_at_exec(nums, r, cols.prezzo_mercato_col),
        market_value: value_at_exec(nums, r, cols.controvalore_col),
        unrealized_pnl: None,
    };
    Some((instrument, position))
}

/// The instruments and positions of one portfolio sheet: `cells` is its
/// text by row, `nums` what was parsed from each cell, `fallback` the date
/// used when the sheet shows none.
pub fn parse_portfolio_sheet<A: Copy>(
    parser: &IntesaSanpaoloParser,
    cells: &Grid,
    nums: &NumberGrid<A>,
    fallback: &Date,
) -> (out: (Vec<Instrument>, Vec<Position<A>>))
    ensures
        portfolio_sheet_spec(
            parser.account_id_trading@,
            grid_view(*cells),
            number_grid_view(*nums),
            *fallback,
        ) == (seq_views(out.0@), seq_views(out.1@)),
{
    let ghost gv = grid_view(*cells);
    let ghost nv = number_grid_view(*nums);
    let ghost trading = parser.account_id_trading@;
    let sheet_date = match extract_portfolio_date(cells, nums) {
        Some(d) => d,
        None => *fallback,
    };
    let cols = portfolio_columns(cells);
    let mut instruments: Vec<Instrument> = Vec::new();
    let mut positions: Vec<Position<A>> = Vec::new();
    assert(seq_views(instruments@) =~= Seq::<InstrumentV>::empty());
    assert(seq_views(positions@) =~= Seq::<PositionV<A>>::empty());
    if cols.isin_col.is_none() {
        return (instruments, positions);
    }
    let header_row = match cols.header_row {
        Some(h) => h,
        None => {
            return (instruments, positions);
        },
    };
    if header_row >= cells.len() {
        return (instruments, positions);
    }
    let mut r: usize = header_row + 1;
    while r < cells.len()
        invariant
            header_row + 1 <= r <= cells.len(),
            cols.header_row == Some(header_row),
            cols.isin_col is Some,
            cols == portfolio_columns_spec(gv),
            gv == grid_view(*cells),
            nv == number_grid_view(*nums),
            trading == parser.account_id_trading@,
            holdings(trading, gv, nv, cols, sheet_date, r as int) == (
                seq_views(instruments@),
                seq_views(positions@),
            ),
        decreases cells.len() - r,
    {
        match holding(parser, cells, nums, &cols, r, &sheet_date) {
            Some((i, p)) => {
                let ghost bi = seq_views(instruments@);
                let ghost bp = seq_views(positions@);
                instruments.push(i);
                positions.push(p);
                assert(seq_views(instruments@) =~= bi.push(i@));
                assert(seq_views(positions@) =~= bp.push(p@));
            },
            None => {},
        }
        r = r + 1;
    }
    (instruments, positions)
}

} // verus!

verus! {

/// The holdings of the first `n` sheets (unreadable sheets give none).
pub open spec fn portfolio_sheets<A>(
    trading: Seq<char>,
    sheets: Seq<Option<(Seq<Seq<Seq<char>>>, Seq<Seq<CellNumbersV<A>>>)>>,
    fallback: Date,
    n: int,
) -> (Seq<InstrumentV>, Seq<PositionV<A>>)
    decreases n,
{
    if n <= 0 {
        (Seq::empty(), Seq::empty())
    } else {
        let prev = portfolio_sheets(trading, sheets, fallback, n - 1);
        match sheets[n - 1] {
            None => prev,
            Some((g, nums)) => {
                let here = portfolio_sheet_spec(trading, g, nums, fallback);
                (prev.0 + here.0, prev.1 + here.1)
            },
        }
    }
}

/// The instruments and positions of every readable sheet, in order.
pub fn parse_portfolio<A: Copy>(
    parser: &IntesaSanpaoloParser,
    sheets: &Vec<Option<IntesaSheet<A>>>,
    fallback: &Date,
) -> (out: (Vec<Instrument>, Vec<Position<A>>))
    ensures
        portfolio_sheets(parser.account_id_trading@, sheet_views(sheets@), *fallback, sheets@.len() as int)
            == (seq_views(out.0@), seq_views(out.1@)),
{
    let ghost sv = sheet_views(sheets@);
    let mut instruments: Vec<Instrument> = Vec::new();
    let mut positions: Vec<Position<A>> = Vec::new();
    let mut k: usize = 0;
    assert(seq_views(instruments@) =~= Seq::<InstrumentV>::empty());
    assert(seq_views(positions@) =~= Seq::<PositionV<A>>::empty());
    while k < sheets.len()
        invariant
            k <= sheets.len(),
            sv == sheet_views(sheets@),
            portfolio_sheets(parser.account_id_trading@, sv, *fallback, k as int) == (
                seq_views(instruments@),
                seq_views(positions@),
            ),
        decreases sheets.len() - k,
    {
        match &sheets[k] {
            None => {},
            Some(sheet) => {
                let (mut is, mut ps) = parse_portfolio_sheet(parser, &sheet.cells, &sheet.nums, fallback);
                let ghost bi = seq_views(instruments@);
                let ghost bp = seq_views(positions@);
                let ghost ai = seq_views(is@);
                let ghost ap = seq_views(ps@);
                instruments.append(&mut is);
                positions.append(&mut ps);
                assert(seq_views(instruments@) =~= bi + ai);
                assert(seq_views(positions@) =~= bp + ap);
            },
        }
        k = k + 1;
    }
    (instruments, positions)
}

/// Each holding's position names the instrument the holding lists, and is
/// booked on the trading account.
pub proof fn lemma_holding_refers_to_its_instrument<A>(
    trading: Seq<char>,
    g: Seq<Seq<Seq<char>>>,
    nums: Seq<Seq<CellNumbersV<A>>>,
    cols: PortfolioColumns,
    r: int,
    sheet_date: Date,
)
    ensures
        holding_spec(trading, g, nums, cols, r, sheet_date) matches Some((i, p)) ==> p.instrument_id
            == i.instrument_id && p.account_id == trading,
{
    match cell_at(g, r, cols.isin_col->0 as int) {
        Some(cell) => lemma_trim_idempotent(cell, TrimSet::Whitespace),
        None => {},
    }
}

} // verus!
