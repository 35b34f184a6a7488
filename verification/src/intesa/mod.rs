//! Intesa Sanpaolo workbooks: account movements and portfolio holdings.
pub mod common;
pub mod instruments;
pub mod portfolio;
pub mod transactions;

use vstd::prelude::*;

use self::common::{grid_view, Grid, INTESA_CHECKING, INTESA_SAVINGS};
use crate::records::{seq_views, Account, AccountV};
use crate::text::{contains, contains_spec, owned, same, to_lowercase, unicode_lower};

verus! {

broadcast use vstd::string::group_string_axioms;

/// What an Intesa Sanpaolo workbook holds.
#[derive(Clone, Copy, Debug, PartialEq, Eq, Structural)]
pub enum FileType {
    Transactions,
    Portfolio,
}

/// The Intesa importer: movements are booked on the checking account,
/// securities on the trading account.
pub struct IntesaSanpaoloParser {
    pub account_id_checking: String,
    pub account_id_trading: String,
}

impl IntesaSanpaoloParser {
    pub fn new() -> (p: IntesaSanpaoloParser)
        ensures
            p.account_id_checking@ == INTESA_CHECKING@,
            p.account_id_trading@ == INTESA_SAVINGS@,
    {
        IntesaSanpaoloParser {
            account_id_checking: owned(INTESA_CHECKING),
            account_id_trading: owned(INTESA_SAVINGS),
        }
    }

    pub fn create_accounts(&self) -> (v: Vec<Account>)
        ensures
            seq_views(v@) == seq![
                intesa_account(self.account_id_checking@),
                intesa_account(self.account_id_trading@),
            ],
    {
        let mut v = Vec::new();
        v.push(intesa_account_record(&self.account_id_checking));
        v.push(intesa_account_record(&self.account_id_trading));
        assert(seq_views(v@) =~= seq![
            intesa_account(self.account_id_checking@),
            intesa_account(self.account_id_trading@),
        ]);
        v
    }
}

pub open spec fn intesa_account(id: Seq<char>) -> AccountV {
    AccountV {
        account_id: id,
        institution: "Intesa Sanpaolo"@,
        country: Some("IT"@),
        iban: None,
        bic: None,
        is_active: true,
    }
}

fn intesa_account_record(id: &String) -> (a: Account)
    ensures
        a@ == intesa_account(id@),
{
    Account {
        account_id: id.clone(),
        institution: owned("Intesa Sanpaolo"),
        country: Some(owned("IT")),
        iban: None,
        bic: None,
        is_active: true,
    }
}

/// The kind of a workbook as its (lower-cased) path tells it, if it does.
pub open spec fn file_type_by_name_spec(path: Seq<char>) -> Option<FileType> {
    let p = unicode_lower(path);
    if contains_spec(p, "patrimonio"@) || contains_spec(p, "portfolio"@) || contains_spec(p, "holdings"@) {
        Some(FileType::Portfolio)
    } else if contains_spec(p, "movimenti"@) || contains_spec(p, "operazioni"@) || contains_spec(
        p,
        "transactions"@,
    ) || contains_spec(p, "intesa_sanpaolo"@) {
        Some(FileType::Transactions)
    } else {
        None
    }
}

pub fn detect_file_type_by_name(path: &str) -> (r: Option<FileType>)
    ensures
        r == file_type_by_name_spec(path@),
{
    let p = to_lowercase(path);
    if contains(p.as_str(), "patrimonio") || contains(p.as_str(), "portfolio") || contains(
        p.as_str(),
        "holdings",
    ) {
        Some(FileType::Portfolio)
    } else if contains(p.as_str(), "movimenti") || contains(p.as_str(), "operazioni") || contains(
        p.as_str(),
        "transactions",
    ) || contains(p.as_str(), "intesa_sanpaolo") {
        Some(FileType::Transactions)
    } else {
        None
    }
}

/// The kind the first sheet whose (lower-cased) name tells it gives.
pub open spec fn file_type_by_sheet_names(names: Seq<Seq<char>>, n: int) -> Option<FileType>
    decreases n,
{
    if n <= 0 {
        None
    } else {
        match file_type_by_sheet_names(names, n - 1) {
            Some(t) => Some(t),
            None => {
                let l = unicode_lower(names[n - 1]);
                if contains_spec(l, "lista operazione"@) || contains_spec(l, "movimenti"@) {
                    Some(FileType::Transactions)
                } else if contains_spec(l, "patrimonio"@) || contains_spec(l, "portfolio"@) {
                    Some(FileType::Portfolio)
                } else {
                    None
                }
            },
        }
    }
}

/// What row `r` of the first sheet tells from its cell `c` on: `isin`
/// marks a portfolio; an amount heading (with a date, or near the top) on a
/// row that also has an operation or date heading marks movements.
pub open spec fn row_kind_from(row: Seq<Seq<char>>, r: int, c: int) -> Option<FileType>
    decreases row.len() - c,
{
    if c < 0 || c >= row.len() {
        None
    } else {
        let text = unicode_lower(row[c]);
        if text == "isin"@ {
            Some(FileType::Portfolio)
        } else if contains_spec(text, "importo"@) && (contains_spec(text, "data"@) || r < 3)
            && row_has_operation_heading(row, row.len() as int) {
            Some(FileType::Transactions)
        } else {
            row_kind_from(row, r, c + 1)
        }
    }
}

/// Some of the first `n` cells reads `operazione`-something or `data`.
pub open spec fn row_has_operation_heading(row: Seq<Seq<char>>, n: int) -> bool
    decreases n,
{
    if n <= 0 {
        false
    } else {
        row_has_operation_heading(row, n - 1) || ({
            let t = unicode_lower(row[n - 1]);
            contains_spec(t, "operazione"@) || t == "data"@
        })
    }
}

/// The first of rows `k..15` of the first sheet that tells the kind.
pub open spec fn file_type_by_cells(cells: Seq<Seq<Seq<char>>>, k: int) -> Option<FileType>
    decreases 15 - k,
{
    if k < 0 || k >= 15 || k >= cells.len() {
        None
    } else {
        match row_kind_from(cells[k], k, 0) {
            Some(t) => Some(t),
            None => file_type_by_cells(cells, k + 1),
        }
    }
}

/// The kind a workbook's sheet names, then its first sheet's cells, tell;
/// `None` when neither does.
pub open spec fn file_type_by_content_spec(names: Seq<Seq<char>>, first_sheet: Option<Seq<Seq<Seq<char>>>>) -> Option<
    FileType,
> {
    match file_type_by_sheet_names(names, names.len() as int) {
        Some(t) => Some(t),
        None => match first_sheet {
            Some(cells) => file_type_by_cells(cells, 0),
            None => None,
        },
    }
}

fn has_operation_heading(row: &Vec<String>) -> (r: bool)
    ensures
        r == row_has_operation_heading(row@.map_values(|c: String| c@), row@.len() as int),
{
    let ghost rv = row@.map_values(|c: String| c@);
    let mut k: usize = 0;
    let mut found = false;
    while k < row.len()
        invariant
            k <= row.len(),
            rv == row@.map_values(|c: String| c@),
            found == row_has_operation_heading(rv, k as int),
        decreases row.len() - k,
    {
        let t = to_lowercase(row[k].as_str());
        if contains(t.as_str(), "operazione") || same(t.as_str(), "data") {
            found = true;
        }
        k = k + 1;
    }
    found
}

fn row_kind(row: &Vec<String>, r: usize) -> (out: Option<FileType>)
    ensures
        out == row_kind_from(row@.map_values(|c: String| c@), r as int, 0),
{
    let ghost rv = row@.map_values(|c: String| c@);
    let mut c: usize = 0;
    while c < row.len()
        invariant
            c <= row.len(),
            rv == row@.map_values(|c: String| c@),
            row_kind_from(rv, r as int, 0) == row_kind_from(rv, r as int, c as int),
        decreases row.len() - c,
    {
        let text = to_lowercase(row[c].as_str());
        if same(text.as_str(), "isin") {
            return Some(FileType::Portfolio);
        }
        if contains(text.as_str(), "importo") && (contains(text.as_str(), "data") || r < 3) {
            if has_operation_heading(row) {
                return Some(FileType::Transactions);
            }
        }
        c = c + 1;
    }
    None
}

/// The kind of a workbook from its sheet names and its first sheet's cells
/// (`None` when that sheet could not be read).
pub fn detect_file_type_by_content(sheet_names: &Vec<String>, first_sheet: &Option<Grid>) -> (r: Option<
    FileType,
>)
    ensures
        r == file_type_by_content_spec(
            sheet_names@.map_values(|s: String| s@),
            match first_sheet {
                Some(g) => Some(grid_view(*g)),
                None => None,
            },
        ),
{
    let ghost names = sheet_names@.map_values(|s: String| s@);
    let mut k: usize = 0;
    while k < sheet_names.len()
        invariant
            k <= sheet_names.len(),
            names == sheet_names@.map_values(|s: String| s@),
            file_type_by_sheet_names(names, k as int) is None,
        decreases sheet_names.len() - k,
    {
        let l = to_lowercase(sheet_names[k].as_str());
        if contains(l.as_str(), "lista operazione") || contains(l.as_str(), "movimenti") {
            proof {
                lemma_names_found_stays(names, k as int + 1, names.len() as int);
            }
            return Some(FileType::Transactions);
        }
        if contains(l.as_str(), "patrimonio") || contains(l.as_str(), "portfolio") {
            proof {
                lemma_names_found_stays(names, k as int + 1, names.len() as int);
            }
            return Some(FileType::Portfolio);
        }
        k = k + 1;
    }
    match first_sheet {
        None => None,
        Some(g) => {
            let ghost gv = grid_view(*g);
            assert(file_type_by_content_spec(
                names,
                match first_sheet {
                    Some(x) => Some(grid_view(*x)),
                    None => None,
                },
            ) == file_type_by_cells(gv, 0));
            let mut r: usize = 0;
            while r < g.len() && r < 15
                invariant
                    r <= 15,
                    r <= g.len(),
                    gv == grid_view(*g),
                    file_type_by_cells(gv, 0) == file_type_by_cells(gv, r as int),
                    names == sheet_names@.map_values(|s: String| s@),
                    file_type_by_sheet_names(names, names.len() as int) is None,
                    file_type_by_content_spec(
                        names,
                        match first_sheet {
                            Some(x) => Some(grid_view(*x)),
                            None => None,
                        },
                    ) == file_type_by_cells(gv, 0),
                decreases 15 - r,
            {
                assert(gv[r as int] == g@[r as int]@.map_values(|c: String| c@));
                if let Some(t) = row_kind(&g[r], r) {
                    assert(file_type_by_cells(gv, r as int) == Some(t));
                    assert(file_type_by_sheet_names(names, names.len() as int) is None);
                    return Some(t);
                }
                r = r + 1;
            }
            None
        },
    }
}

proof fn lemma_names_found_stays(names: Seq<Seq<char>>, k: int, n: int)
    requires
        0 < k <= n,
        file_type_by_sheet_names(names, k) is Some,
    ensures
        file_type_by_sheet_names(names, n) == file_type_by_sheet_names(names, k),
    decreases n - k,
{
    if n > k {
        lemma_names_found_stays(names, k, n - 1);
    }
}

} // verus!

verus! {

/// What one workbook gave.
pub struct ParsedIntesa<A> {
    pub transactions: Vec<crate::records::Transaction<A>>,
    pub positions: Vec<crate::records::Position<A>>,
    pub instruments: Vec<crate::records::Instrument>,
    pub file_type: FileType,
}

impl IntesaSanpaoloParser {
    /// Reads a workbook's sheets as the given kind: movements give
    /// transactions only, a portfolio gives instruments and positions only.
    /// `fallback` is the date used for a portfolio that shows none.
    pub fn parse_sheets_with_type<A: Copy>(
        &self,
        sheets: &Vec<Option<self::common::IntesaSheet<A>>>,
        file_type: FileType,
        fallback: &crate::dates::Date,
    ) -> (r: Result<ParsedIntesa<A>, self::transactions::IntesaError>)
        ensures
            match file_type {
                FileType::Transactions => match self::transactions::movement_sheets(
                    self.account_id_checking@,
                    self.account_id_trading@,
                    self::common::sheet_views(sheets@),
                    sheets@.len() as int,
                ) {
                    Ok(ts) => r matches Ok(p) && seq_views(p.transactions@) == ts && p.positions@.len()
                        == 0 && p.instruments@.len() == 0 && p.file_type == file_type,
                    Err(e) => r matches Err(x) && x@ == e,
                },
                FileType::Portfolio => {
                    let (is, ps) = self::portfolio::portfolio_sheets(
                        self.account_id_trading@,
                        self::common::sheet_views(sheets@),
                        *fallback,
                        sheets@.len() as int,
                    );
                    r matches Ok(p) && p.transactions@.len() == 0 && seq_views(p.instruments@) == is
                        && seq_views(p.positions@) == ps && p.file_type == file_type
                },
            },
    {
        match file_type {
            FileType::Transactions => {
                let transactions = self::transactions::parse_transactions(self, sheets)?;
                Ok(ParsedIntesa { transactions, positions: Vec::new(), instruments: Vec::new(), file_type })
            },
            FileType::Portfolio => {
                let (instruments, positions) = self::portfolio::parse_portfolio(self, sheets, fallback);
                Ok(ParsedIntesa { transactions: Vec::new(), positions, instruments, file_type })
            },
        }
    }
}

} // verus!
