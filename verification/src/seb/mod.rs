//! Skandinaviska Enskilda Banken account exports (XLSX): a first sheet with
//! a header row somewhere in its first thirty rows.
use vstd::prelude::*;

use crate::dates::{chrono_date, iso_date, iso_text, parse_date_fmt, Date};
use crate::hashing::{hex_spec, prefixed_digest_id, sha256, utf8};
use crate::money::{Amount, AmountV, Sign};
use crate::records::{build_transaction_value, opt_view, seq_views, txn_v, Account, AccountV, Transaction, TransactionV};
use crate::text::{
    ascii_digits, contains, contains_spec, decimal, decimal_string, digits_of, owned, remove_char,
    remove_char_spec, replace_char, replace_char_spec, same, split_char, split_spec, to_lowercase,
    trim, trim_spec, unicode_lower, views,
};

verus! {

broadcast use vstd::string::group_string_axioms;

/// The SEB importer: a checking and a savings account, with their account
/// numbers (digits only) when known, to recognize transfers between them.
pub struct SebXlsxParser {
    pub account_id_checking: String,
    pub account_id_savings: String,
    pub checking_account_number_digits: Option<String>,
    pub savings_account_number_digits: Option<String>,
}

impl SebXlsxParser {
    pub fn new(checking_account_id: &str, savings_account_id: &str) -> (p: SebXlsxParser)
        ensures
            p.account_id_checking@ == checking_account_id@,
            p.account_id_savings@ == savings_account_id@,
            p.checking_account_number_digits is None,
            p.savings_account_number_digits is None,
    {
        SebXlsxParser {
            account_id_checking: owned(checking_account_id),
            account_id_savings: owned(savings_account_id),
            checking_account_number_digits: None,
            savings_account_number_digits: None,
        }
    }

    pub fn with_account_numbers(self, checking_digits: Option<String>, savings_digits: Option<String>) -> (p:
        SebXlsxParser)
        ensures
            p.account_id_checking@ == self.account_id_checking@,
            p.account_id_savings@ == self.account_id_savings@,
            opt_view(p.checking_account_number_digits) == opt_view(checking_digits),
            opt_view(p.savings_account_number_digits) == opt_view(savings_digits),
    {
        let mut p = self;
        p.checking_account_number_digits = checking_digits;
        p.savings_account_number_digits = savings_digits;
        p
    }

    pub fn create_accounts(&self) -> (v: Vec<Account>)
        ensures
            seq_views(v@) == seq![
                seb_account(self.account_id_checking@),
                seb_account(self.account_id_savings@),
            ],
    {
        let mut v = Vec::new();
        v.push(seb_account_record(&self.account_id_checking));
        v.push(seb_account_record(&self.account_id_savings));
        assert(seq_views(v@) =~= seq![
            seb_account(self.account_id_checking@),
            seb_account(self.account_id_savings@),
        ]);
        v
    }
}

pub open spec fn seb_account(id: Seq<char>) -> AccountV {
    AccountV {
        account_id: id,
        institution: "Skandinaviska Enskilda Banken"@,
        country: Some("SE"@),
        iban: None,
        bic: None,
        is_active: true,
    }
}

fn seb_account_record(id: &String) -> (a: Account)
    ensures
        a@ == seb_account(id@),
{
    Account {
        account_id: id.clone(),
        institution: owned("Skandinaviska Enskilda Banken"),
        country: Some(owned("SE")),
        iban: None,
        bic: None,
        is_active: true,
    }
}

/// Which account a file belongs to, by its (lower-cased) path: savings when
/// the path says so, checking otherwise.
pub open spec fn resolve_account_spec(checking_id: Seq<char>, savings_id: Seq<char>, path: Seq<char>) -> Seq<
    char,
> {
    let l = unicode_lower(path);
    if contains_spec(l, "saving"@) || contains_spec(l, "savings"@) || contains_spec(l, "spark"@) {
        savings_id
    } else {
        checking_id
    }
}

pub fn resolve_account_id(checking_id: &str, savings_id: &str, input_file_path: &str) -> (out: String)
    ensures
        out@ == resolve_account_spec(checking_id@, savings_id@, input_file_path@),
{
    let lower = to_lowercase(input_file_path);
    if contains(lower.as_str(), "saving") || contains(lower.as_str(), "savings") || contains(
        lower.as_str(),
        "spark",
    ) {
        owned(savings_id)
    } else if contains(lower.as_str(), "check") || contains(lower.as_str(), "current") || contains(
        lower.as_str(),
        "privat",
    ) {
        owned(checking_id)
    } else {
        owned(checking_id)
    }
}

/// The ASCII digits of `s`, in order.
pub fn normalize_digits(s: &str) -> (out: String)
    ensures
        out@ == digits_of(s@),
{
    ascii_digits(s)
}

// ---------------------------------------------------------------------------
// Cells
// ---------------------------------------------------------------------------

/// A cell as the workbook reader gives it. Numbers, dates and other values
/// come with their display text; numbers with the date they denote as a
/// spreadsheet serial (`None` when out of range) and their value; text with
/// the amount its [`seb_amount_text`] reads as (`None` when it does not).
pub enum SebCell<A> {
    Empty,
    Text { raw: String, amount: Option<Amount<A>> },
    Number { display: String, date: Option<Date>, amount: Amount<A> },
    DateTime { display: String, date: Option<Date> },
    IsoText { display: String, text: String },
    Other { display: String },
}

pub enum SebCellV<A> {
    Empty,
    Text { raw: Seq<char>, amount: Option<AmountV<A>> },
    Number { display: Seq<char>, date: Option<Date>, amount: AmountV<A> },
    DateTime { display: Seq<char>, date: Option<Date> },
    IsoText { display: Seq<char>, text: Seq<char> },
    Other { display: Seq<char> },
}

impl<A> View for SebCell<A> {
    type V = SebCellV<A>;

    open spec fn view(&self) -> SebCellV<A> {
        match self {
            SebCell::Empty => SebCellV::Empty,
            SebCell::Text { raw, amount } => SebCellV::Text {
                raw: raw@,
                amount: match amount {
                    Some(a) => Some(a@),
                    None => None,
                },
            },
            SebCell::Number { display, date, amount } => SebCellV::Number {
                display: display@,
                date: *date,
                amount: amount@,
            },
            SebCell::DateTime { display, date } => SebCellV::DateTime { display: display@, date: *date },
            SebCell::IsoText { display, text } => SebCellV::IsoText { display: display@, text: text@ },
            SebCell::Other { display } => SebCellV::Other { display: display@ },
        }
    }
}

pub type SebRows<A> = Vec<Vec<SebCell<A>>>;

pub open spec fn row_view<A>(r: Vec<SebCell<A>>) -> Seq<SebCellV<A>> {
    r@.map_values(|c: SebCell<A>| c@)
}

pub open spec fn rows_view<A>(rows: Seq<Vec<SebCell<A>>>) -> Seq<Seq<SebCellV<A>>> {
    rows.map_values(|r: Vec<SebCell<A>>| row_view(r))
}

/// The text a cell displays.
pub open spec fn display_spec<A>(c: SebCellV<A>) -> Seq<char> {
    match c {
        SebCellV::Empty => Seq::empty(),
        SebCellV::Text { raw, .. } => raw,
        SebCellV::Number { display, .. } => display,
        SebCellV::DateTime { display, .. } => display,
        SebCellV::IsoText { display, .. } => display,
        SebCellV::Other { display } => display,
    }
}

fn display<A>(c: &SebCell<A>) -> (out: String)
    ensures
        out@ == display_spec(c@),
{
    match c {
        SebCell::Empty => String::new(),
        SebCell::Text { raw, .. } => raw.clone(),
        SebCell::Number { display, .. } => display.clone(),
        SebCell::DateTime { display, .. } => display.clone(),
        SebCell::IsoText { display, .. } => display.clone(),
        SebCell::Other { display } => display.clone(),
    }
}

/// The amount text the caller reads as a number: spaces and no-break spaces
/// removed, decimal comma made a dot.
pub open spec fn seb_amount_text_spec(raw: Seq<char>) -> Seq<char> {
    replace_char_spec(remove_char_spec(remove_char_spec(raw, ' '), '\u{A0}'), ',', '.')
}

pub fn seb_amount_text(raw: &str) -> (out: String)
    ensures
        out@ == seb_amount_text_spec(raw@),
{
    let a = remove_char(raw, ' ');
    let b = remove_char(a.as_str(), '\u{A0}');
    replace_char(b.as_str(), ',', '.')
}

/// A cell's text: text trimmed, other values as displayed, nothing for an
/// empty cell or a missing one.
pub open spec fn string_cell_spec<A>(row: Seq<SebCellV<A>>, col: int) -> Option<Seq<char>> {
    if col < 0 || col >= row.len() {
        None
    } else {
        match row[col] {
            SebCellV::Empty => None,
            SebCellV::Text { raw, .. } => Some(trim_spec(raw)),
            c => Some(display_spec(c)),
        }
    }
}

pub fn get_string_cell<A>(row: &Vec<SebCell<A>>, col: usize) -> (out: Option<String>)
    ensures
        opt_view(out) == string_cell_spec(row_view(*row), col as int),
{
    if col >= row.len() {
        return None;
    }
    match &row[col] {
        SebCell::Empty => None,
        SebCell::Text { raw, .. } => Some(trim(raw.as_str())),
        c => Some(display(c)),
    }
}

/// The first format of the list that reads the text (untrimmed).
pub open spec fn date_string_spec(s: Seq<char>) -> Option<Date> {
    if chrono_date(s, "%Y-%m-%d"@) is Some {
        chrono_date(s, "%Y-%m-%d"@)
    } else if chrono_date(s, "%Y-%m-%d %H:%M:%S"@) is Some {
        chrono_date(s, "%Y-%m-%d %H:%M:%S"@)
    } else if chrono_date(s, "%d/%m/%Y"@) is Some {
        chrono_date(s, "%d/%m/%Y"@)
    } else if chrono_date(s, "%d.%m.%Y"@) is Some {
        chrono_date(s, "%d.%m.%Y"@)
    } else if chrono_date(s, "%Y/%m/%d"@) is Some {
        chrono_date(s, "%Y/%m/%d"@)
    } else if chrono_date(s, "%d-%m-%Y"@) is Some {
        chrono_date(s, "%d-%m-%Y"@)
    } else {
        chrono_date(s, "%m/%d/%Y"@)
    }
}

pub fn parse_date_string(s: &str) -> (r: Option<Date>)
    ensures
        r == date_string_spec(s@),
{
    if let Some(d) = parse_date_fmt(s, "%Y-%m-%d") {
        return Some(d);
    }
    if let Some(d) = parse_date_fmt(s, "%Y-%m-%d %H:%M:%S") {
        return Some(d);
    }
    if let Some(d) = parse_date_fmt(s, "%d/%m/%Y") {
        return Some(d);
    }
    if let Some(d) = parse_date_fmt(s, "%d.%m.%Y") {
        return Some(d);
    }
    if let Some(d) = parse_date_fmt(s, "%Y/%m/%d") {
        return Some(d);
    }
    if let Some(d) = parse_date_fmt(s, "%d-%m-%Y") {
        return Some(d);
    }
    parse_date_fmt(s, "%m/%d/%Y")
}

/// The date of cell `col`.
pub open spec fn date_cell_spec<A>(row: Seq<SebCellV<A>>, col: int) -> Option<Date> {
    if col < 0 || col >= row.len() {
        None
    } else {
        match row[col] {
            SebCellV::Text { raw, .. } => date_string_spec(raw),
            SebCellV::DateTime { date, .. } => date,
            SebCellV::Number { date, .. } => date,
            SebCellV::IsoText { text, .. } => date_string_spec(text),
            _ => None,
        }
    }
}

pub fn parse_date_cell<A>(row: &Vec<SebCell<A>>, col: usize) -> (r: Option<Date>)
    ensures
        r == date_cell_spec(row_view(*row), col as int),
{
    if col >= row.len() {
        return None;
    }
    match &row[col] {
        SebCell::Text { raw, .. } => parse_date_string(raw.as_str()),
        SebCell::DateTime { date, .. } => *date,
        SebCell::Number { date, .. } => *date,
        SebCell::IsoText { text, .. } => parse_date_string(text.as_str()),
        _ => None,
    }
}

/// The amount of cell `col`.
pub open spec fn amount_cell_spec<A>(row: Seq<SebCellV<A>>, col: int) -> Option<AmountV<A>> {
    if col < 0 || col >= row.len() {
        None
    } else {
        match row[col] {
            SebCellV::Number { amount, .. } => Some(amount),
            SebCellV::Text { amount, .. } => amount,
            _ => None,
        }
    }
}

pub fn parse_amount_cell<A: Copy>(row: &Vec<SebCell<A>>, col: usize) -> (r: Option<Amount<A>>)
    ensures
        match r {
            Some(a) => amount_cell_spec(row_view(*row), col as int) == Some(a@),
            None => amount_cell_spec(row_view(*row), col as int) is None,
        },
{
    if col >= row.len() {
        return None;
    }
    match &row[col] {
        SebCell::Number { amount, .. } => Some(amount.copy()),
        SebCell::Text { amount, .. } => match amount {
            Some(a) => Some(a.copy()),
            None => None,
        },
        _ => None,
    }
}

// ---------------------------------------------------------------------------
// Layout
// ---------------------------------------------------------------------------

pub open spec fn is_date_heading(h: Seq<char>) -> bool {
    contains_spec(h, "booking date"@) || contains_spec(h, "bokföringsdatum"@) || h == "date"@ || h == "datum"@
}

pub open spec fn is_text_heading(h: Seq<char>) -> bool {
    h == "text"@ || contains_spec(h, "description"@) || contains_spec(h, "beskrivning"@) || contains_spec(
        h,
        "transaktion"@,
    )
}

pub open spec fn is_amount_heading(h: Seq<char>) -> bool {
    (h == "amount"@ || contains_spec(h, "belopp"@) || contains_spec(h, "summa"@)) && !contains_spec(
        h,
        "balance"@,
    ) && !contains_spec(h, "saldo"@)
}

pub open spec fn is_currency_heading(h: Seq<char>) -> bool {
    contains_spec(h, "currency"@) || contains_spec(h, "valuta"@)
}

/// The kinds of heading.
#[derive(Clone, Copy, Debug, PartialEq, Eq, Structural)]
pub enum Heading {
    Date,
    Text,
    Amount,
    Currency,
}

pub open spec fn heading_matches(kind: Heading, h: Seq<char>) -> bool {
    match kind {
        Heading::Date => is_date_heading(h),
        Heading::Text => is_text_heading(h),
        Heading::Amount => is_amount_heading(h),
        Heading::Currency => is_currency_heading(h),
    }
}

/// The first cell among the first `n` of a row whose lower-cased text is a
/// heading of the kind.
pub open spec fn first_heading<A>(row: Seq<SebCellV<A>>, kind: Heading, n: int) -> Option<int>
    decreases n,
{
    if n <= 0 {
        None
    } else {
        match first_heading(row, kind, n - 1) {
            Some(k) => Some(k),
            None => if heading_matches(kind, unicode_lower(display_spec(row[n - 1]))) {
                Some(n - 1)
            } else {
                None
            },
        }
    }
}

pub open spec fn heading_col<A>(row: Seq<SebCellV<A>>, kind: Heading) -> Option<int> {
    first_heading(row, kind, row.len() as int)
}

/// Where the columns are.
#[derive(Clone, Copy, Debug, PartialEq, Eq, Structural)]
pub struct SebColumns {
    pub header_row: usize,
    pub date: usize,
    pub description: usize,
    pub amount: usize,
    pub currency: Option<usize>,
}

/// The first of rows `k..30` with date, text and amount headings.
pub open spec fn columns_from<A>(rows: Seq<Seq<SebCellV<A>>>, k: int) -> Option<SebColumns>
    decreases 30 - k,
{
    if k < 0 || k >= 30 || k >= rows.len() {
        None
    } else {
        let row = rows[k];
        match (heading_col(row, Heading::Date), heading_col(row, Heading::Text), heading_col(row, Heading::Amount)) {
            (Some(d), Some(t), Some(a)) => Some(
                SebColumns {
                    header_row: k as usize,
                    date: d as usize,
                    description: t as usize,
                    amount: a as usize,
                    currency: match heading_col(row, Heading::Currency) {
                        Some(c) => Some(c as usize),
                        None => None,
                    },
                },
            ),
            _ => columns_from(rows, k + 1),
        }
    }
}

fn heading_matches_exec(kind: Heading, h: &str) -> (r: bool)
    ensures
        r == heading_matches(kind, h@),
{
    match kind {
        Heading::Date => contains(h, "booking date") || contains(h, "bokföringsdatum") || same(h, "date")
            || same(h, "datum"),
        Heading::Text => same(h, "text") || contains(h, "description") || contains(h, "beskrivning")
            || contains(h, "transaktion"),
        Heading::Amount => (same(h, "amount") || contains(h, "belopp") || contains(h, "summa"))
            && !contains(h, "balance") && !contains(h, "saldo"),
        Heading::Currency => contains(h, "currency") || contains(h, "valuta"),
    }
}

fn find_heading<A>(row: &Vec<SebCell<A>>, kind: Heading) -> (r: Option<usize>)
    ensures
        match r {
            Some(k) => heading_col(row_view(*row), kind) == Some(k as int),
            None => heading_col(row_view(*row), kind) is None,
        },
{
    let ghost rv = row_view(*row);
    let mut k: usize = 0;
    while k < row.len()
        invariant
            k <= row.len(),
            rv == row_view(*row),
            first_heading(rv, kind, k as int) is None,
        decreases row.len() - k,
    {
        let h = to_lowercase(display(&row[k]).as_str());
        if heading_matches_exec(kind, h.as_str()) {
            proof {
                lemma_first_heading_stays(rv, kind, k as int + 1, rv.len() as int);
            }
            return Some(k);
        }
        k = k + 1;
    }
    None
}

proof fn lemma_first_heading_stays<A>(row: Seq<SebCellV<A>>, kind: Heading, k: int, n: int)
    requires
        0 < k <= n,
        first_heading(row, kind, k) is Some,
    ensures
        first_heading(row, kind, n) == first_heading(row, kind, k),
    decreases n - k,
{
    if n > k {
        lemma_first_heading_stays(row, kind, k, n - 1);
    }
}

pub fn find_columns<A>(rows: &SebRows<A>) -> (r: Option<SebColumns>)
    ensures
        r == columns_from(rows_view(rows@), 0),
{
    let ghost rv = rows_view(rows@);
    let mut k: usize = 0;
    while k < rows.len() && k < 30
        invariant
            k <= 30,
            k <= rows.len(),
            rv == rows_view(rows@),
            columns_from(rv, 0) == columns_from(rv, k as int),
        decreases 30 - k,
    {
        let row = &rows[k];
        assert(rv[k as int] == row_view(*row));
        let d = find_heading(row, Heading::Date);
        let t = find_heading(row, Heading::Text);
        let a = find_heading(row, Heading::Amount);
        match (d, t, a) {
            (Some(d), Some(t), Some(a)) => {
                return Some(
                    SebColumns {
                        header_row: k,
                        date: d,
                        description: t,
                        amount: a,
                        currency: find_heading(row, Heading::Currency),
                    },
                );
            },
            _ => {},
        }
        k = k + 1;
    }
    None
}

/// The account number a file names: the digits between the first `(` and
/// the following `)` of the first cell (in the first twenty rows) that has
/// both and at least eight such digits.
pub open spec fn meta_of_text(s: Seq<char>) -> Option<Seq<char>> {
    if s.contains('(') && s.contains(')') {
        let inner = split_spec(split_spec(s, '(')[1], ')')[0];
        if digits_of(inner).len() >= 8 {
            Some(digits_of(inner))
        } else {
            None
        }
    } else {
        None
    }
}

pub open spec fn meta_in_row<A>(row: Seq<SebCellV<A>>, n: int) -> Option<Seq<char>>
    decreases n,
{
    if n <= 0 {
        None
    } else {
        match meta_in_row(row, n - 1) {
            Some(d) => Some(d),
            None => meta_of_text(display_spec(row[n - 1])),
        }
    }
}

pub open spec fn meta_in_rows<A>(rows: Seq<Seq<SebCellV<A>>>, n: int) -> Option<Seq<char>>
    decreases n,
{
    if n <= 0 {
        None
    } else {
        match meta_in_rows(rows, n - 1) {
            Some(d) => Some(d),
            None => meta_in_row(rows[n - 1], rows[n - 1].len() as int),
        }
    }
}

pub open spec fn meta_spec<A>(rows: Seq<Seq<SebCellV<A>>>) -> Option<Seq<char>> {
    meta_in_rows(rows, if rows.len() < 20 { rows.len() as int } else { 20 })
}

fn meta_of_cell(s: &str) -> (r: Option<String>)
    ensures
        opt_view(r) == meta_of_text(s@),
{
    let cs = crate::text::chars_of(s);
    let mut has_open = false;
    let mut has_close = false;
    let mut i: usize = 0;
    while i < cs.len()
        invariant
            i <= cs.len(),
            cs@ == s@,
            has_open == (exists|k: int| 0 <= k < i && cs@[k] == '('),
            has_close == (exists|k: int| 0 <= k < i && cs@[k] == ')'),
        decreases cs.len() - i,
    {
        if cs[i] == '(' {
            has_open = true;
        }
        if cs[i] == ')' {
            has_close = true;
        }
        i = i + 1;
    }
    if !(has_open && has_close) {
        return None;
    }
    let parts = split_char(s, '(');
    proof {
        crate::text::lemma_split_nonempty(s@, '(');
        lemma_split_has_two(s@, '(');
    }
    let after = &parts[1];
    let pieces = split_char(after.as_str(), ')');
    proof {
        crate::text::lemma_split_nonempty(after@, ')');
    }
    let digits = ascii_digits(pieces[0].as_str());
    if digits.unicode_len() >= 8 {
        Some(digits)
    } else {
        None
    }
}

proof fn lemma_split_has_two(s: Seq<char>, sep: char)
    requires
        s.contains(sep),
    ensures
        split_spec(s, sep).len() >= 2,
    decreases s.len(),
{
    crate::text::lemma_split_nonempty(s.drop_last(), sep);
    if s.last() != sep {
        assert(s.drop_last().contains(sep)) by {
            let k = choose|k: int| 0 <= k < s.len() && s[k] == sep;
            assert(s.drop_last()[k] == sep);
        }
        lemma_split_has_two(s.drop_last(), sep);
    }
}

/// The account number the first rows of a file name, if any.
pub fn extract_meta<A>(rows: &SebRows<A>) -> (r: Option<String>)
    ensures
        opt_view(r) == meta_spec(rows_view(rows@)),
{
    let ghost rv = rows_view(rows@);
    let limit: usize = if rows.len() < 20 {
        rows.len()
    } else {
        20
    };
    let mut k: usize = 0;
    while k < limit
        invariant
            k <= limit <= rows.len(),
            limit == (if rows.len() < 20 { rows.len() } else { 20 }),
            rv == rows_view(rows@),
            meta_in_rows(rv, k as int) is None,
        decreases limit - k,
    {
        let row = &rows[k];
        assert(rv[k as int] == row_view(*row));
        let mut c: usize = 0;
        while c < row.len()
            invariant
                c <= row.len(),
                k < limit <= rows.len(),
                limit == (if rows.len() < 20 { rows.len() } else { 20 }),
                rv == rows_view(rows@),
                rv[k as int] == row_view(*row),
                meta_in_rows(rv, k as int) is None,
                meta_in_row(rv[k as int], c as int) is None,
            decreases row.len() - c,
        {
            if let Some(d) = meta_of_cell(display(&row[c]).as_str()) {
                proof {
                    lemma_meta_row_stays(rv[k as int], c as int + 1, rv[k as int].len() as int);
                    lemma_meta_rows_stays(rv, k as int + 1, limit as int);
                }
                return Some(d);
            }
            c = c + 1;
        }
        k = k + 1;
    }
    None
}

proof fn lemma_meta_row_stays<A>(row: Seq<SebCellV<A>>, k: int, n: int)
    requires
        0 < k <= n,
        meta_in_row(row, k) is Some,
    ensures
        meta_in_row(row, n) == meta_in_row(row, k),
    decreases n - k,
{
    if n > k {
        lemma_meta_row_stays(row, k, n - 1);
    }
}

proof fn lemma_meta_rows_stays<A>(rows: Seq<Seq<SebCellV<A>>>, k: int, n: int)
    requires
        0 < k <= n,
        meta_in_rows(rows, k) is Some,
    ensures
        meta_in_rows(rows, n) == meta_in_rows(rows, k),
    decreases n - k,
{
    if n > k {
        lemma_meta_rows_stays(rows, k, n - 1);
    }
}

// ---------------------------------------------------------------------------
// Classification
// ---------------------------------------------------------------------------

/// Transfers and salaries by the wording of the description; the rest by
/// the sign of the amount.
pub open spec fn infer_type_spec(sign: Sign, description: Seq<char>) -> Seq<char> {
    let d = unicode_lower(description);
    if contains_spec(d, "överför"@) || contains_spec(d, "overfor"@) || contains_spec(d, "transfer"@) {
        "internal_transfer"@
    } else if contains_spec(d, "lön"@) || contains_spec(d, "salary"@) || contains_spec(d, "income"@)
        || contains_spec(d, "inkomst"@) {
        "income"@
    } else if sign.lt_zero() {
        "expense"@
    } else {
        "income"@
    }
}

pub fn infer_type(sign: Sign, description: &str) -> (out: String)
    ensures
        out@ == infer_type_spec(sign, description@),
{
    let d = to_lowercase(description);
    if contains(d.as_str(), "överför") || contains(d.as_str(), "overfor") || contains(
        d.as_str(),
        "transfer",
    ) {
        return owned("internal_transfer");
    }
    if contains(d.as_str(), "lön") || contains(d.as_str(), "salary") || contains(d.as_str(), "income")
        || contains(d.as_str(), "inkomst") {
        return owned("income");
    }
    if sign.is_negative() {
        owned("expense")
    } else {
        owned("income")
    }
}

/// The other side of a transfer: the other own account when the
/// description carries its number, else unknown.
pub open spec fn counterpart_spec(
    this_account: Seq<char>,
    description: Seq<char>,
    checking: Seq<char>,
    savings: Seq<char>,
    checking_digits: Option<Seq<char>>,
    savings_digits: Option<Seq<char>>,
) -> Seq<char> {
    let dd = digits_of(description);
    if this_account == checking {
        match savings_digits {
            Some(sd) => if sd.len() > 0 && contains_spec(dd, sd) {
                savings
            } else {
                "INTERNAL_UNKNOWN"@
            },
            None => "INTERNAL_UNKNOWN"@,
        }
    } else if this_account == savings {
        match checking_digits {
            Some(cd) => if cd.len() > 0 && contains_spec(dd, cd) {
                checking
            } else {
                "INTERNAL_UNKNOWN"@
            },
            None => "INTERNAL_UNKNOWN"@,
        }
    } else {
        "INTERNAL_UNKNOWN"@
    }
}

/// `(from, to)` of a row booked on `this_account`.
pub open spec fn determine_accounts_spec(
    this_account: Seq<char>,
    txn_type: Seq<char>,
    sign: Sign,
    description: Seq<char>,
    checking: Seq<char>,
    savings: Seq<char>,
    checking_digits: Option<Seq<char>>,
    savings_digits: Option<Seq<char>>,
) -> (Seq<char>, Seq<char>) {
    if txn_type == "internal_transfer"@ {
        let other = counterpart_spec(
            this_account,
            description,
            checking,
            savings,
            checking_digits,
            savings_digits,
        );
        if sign.lt_zero() {
            (this_account, other)
        } else {
            (other, this_account)
        }
    } else if txn_type == "expense"@ {
        (this_account, "EXTERNAL_PAYEE"@)
    } else if txn_type == "income"@ {
        ("EXTERNAL_PAYER"@, this_account)
    } else if sign.lt_zero() {
        (this_account, "EXTERNAL_PAYEE"@)
    } else {
        ("EXTERNAL_PAYER"@, this_account)
    }
}

fn counterpart(parser: &SebXlsxParser, this_account_id: &str, description: &str) -> (out: String)
    ensures
        out@ == counterpart_spec(
            this_account_id@,
            description@,
            parser.account_id_checking@,
            parser.account_id_savings@,
            opt_view(parser.checking_account_number_digits),
            opt_view(parser.savings_account_number_digits),
        ),
{
    let dd = normalize_digits(description);
    if same(this_account_id, parser.account_id_checking.as_str()) {
        match &parser.savings_account_number_digits {
            Some(sd) => if sd.unicode_len() > 0 && contains(dd.as_str(), sd.as_str()) {
                parser.account_id_savings.clone()
            } else {
                owned("INTERNAL_UNKNOWN")
            },
            None => owned("INTERNAL_UNKNOWN"),
        }
    } else if same(this_account_id, parser.account_id_savings.as_str()) {
        match &parser.checking_account_number_digits {
            Some(cd) => if cd.unicode_len() > 0 && contains(dd.as_str(), cd.as_str()) {
                parser.account_id_checking.clone()
            } else {
                owned("INTERNAL_UNKNOWN")
            },
            None => owned("INTERNAL_UNKNOWN"),
        }
    } else {
        owned("INTERNAL_UNKNOWN")
    }
}

pub fn determine_accounts(
    this_account_id: &str,
    txn_type: &str,
    sign: Sign,
    description: &str,
    parser: &SebXlsxParser,
) -> (r: (String, String))
    ensures
        (r.0@, r.1@) == determine_accounts_spec(
            this_account_id@,
            txn_type@,
            sign,
            description@,
            parser.account_id_checking@,
            parser.account_id_savings@,
            opt_view(parser.checking_account_number_digits),
            opt_view(parser.savings_account_number_digits),
        ),
{
    if same(txn_type, "internal_transfer") {
        let other = counterpart(parser, this_account_id, description);
        if sign.is_negative() {
            (owned(this_account_id), other)
        } else {
            (other, owned(this_account_id))
        }
    } else if same(txn_type, "expense") {
        (owned(this_account_id), owned("EXTERNAL_PAYEE"))
    } else if same(txn_type, "income") {
        (owned("EXTERNAL_PAYER"), owned(this_account_id))
    } else if sign.is_negative() {
        (owned(this_account_id), owned("EXTERNAL_PAYEE"))
    } else {
        (owned("EXTERNAL_PAYER"), owned(this_account_id))
    }
}

/// `"SEB-<24 hex digits of SHA-256(seed)>"`.
pub open spec fn seb_txn_id_spec(
    account: Seq<char>,
    date: Date,
    amount_text: Seq<char>,
    currency: Seq<char>,
    description: Seq<char>,
    row_index: nat,
) -> Seq<char> {
    "SEB"@ + "-"@ + hex_spec(
        sha256(
            utf8(
                account + "|"@ + iso_text(date) + "|"@ + amount_text + "|"@ + currency + "|"@
                    + trim_spec(description) + "|"@ + decimal(row_index),
            ),
        ).take(12),
    )
}

pub fn make_txn_id(
    account_id: &str,
    date: &Date,
    amount_text: &str,
    currency: &str,
    description: &str,
    row_index: usize,
) -> (out: String)
    ensures
        out@ == seb_txn_id_spec(account_id@, *date, amount_text@, currency@, description@, row_index as nat),
{
    let mut seed = owned(account_id);
    seed.append("|");
    seed.append(iso_date(date).as_str());
    seed.append("|");
    seed.append(amount_text);
    seed.append("|");
    seed.append(currency);
    seed.append("|");
    seed.append(trim(description).as_str());
    seed.append("|");
    seed.append(decimal_string(row_index).as_str());
    prefixed_digest_id("SEB", seed.as_str(), 12)
}

// ---------------------------------------------------------------------------
// Rows
// ---------------------------------------------------------------------------

/// Why a file could not be read; rows count from 1.
pub enum SebError {
    NoLayout,
    Date { row: usize },
    Amount { row: usize },
}

pub enum SebErrorV {
    NoLayout,
    Date { row: nat },
    Amount { row: nat },
}

impl View for SebError {
    type V = SebErrorV;

    open spec fn view(&self) -> SebErrorV {
        match self {
            SebError::NoLayout => SebErrorV::NoLayout,
            SebError::Date { row } => SebErrorV::Date { row: *row as nat },
            SebError::Amount { row } => SebErrorV::Amount { row: *row as nat },
        }
    }
}

pub open spec fn is_blank_row<A>(row: Seq<SebCellV<A>>) -> bool {
    forall|i: int| 0 <= i < row.len() ==> (#[trigger] row[i]) is Empty
}

/// The transaction of row `idx` (counting from 0) on `account`, `None` for
/// a blank row, or the error that stops the file.
pub open spec fn row_spec<A>(
    parser_checking: Seq<char>,
    parser_savings: Seq<char>,
    checking_digits: Option<Seq<char>>,
    savings_digits: Option<Seq<char>>,
    account: Seq<char>,
    cols: SebColumns,
    row: Seq<SebCellV<A>>,
    idx: nat,
) -> Result<Option<TransactionV<A>>, SebErrorV> {
    if is_blank_row(row) {
        Ok(None)
    } else {
        match date_cell_spec(row, cols.date as int) {
            None => Err(SebErrorV::Date { row: idx + 1 }),
            Some(date) => {
                let description = match string_cell_spec(row, cols.description as int) {
                    Some(d) => d,
                    None => Seq::empty(),
                };
                match amount_cell_spec(row, cols.amount as int) {
                    None => Err(SebErrorV::Amount { row: idx + 1 }),
                    Some(a) => {
                        let currency = match cols.currency {
                            Some(c) => match string_cell_spec(row, c as int) {
                                Some(v) => v,
                                None => "SEK"@,
                            },
                            None => "SEK"@,
                        };
                        let ty = infer_type_spec(a.sign, description);
                        let (from, to) = determine_accounts_spec(
                            account,
                            ty,
                            a.sign,
                            description,
                            parser_checking,
                            parser_savings,
                            checking_digits,
                            savings_digits,
                        );
                        Ok(
                            Some(
                                txn_v(
                                    date,
                                    from,
                                    to,
                                    ty,
                                    a.magnitude,
                                    currency,
                                    description,
                                    seb_txn_id_spec(account, date, a.fixed8, "SEK"@, description, idx + 1),
                                ),
                            ),
                        )
                    },
                }
            },
        }
    }
}

pub open spec fn rows_spec<A>(
    parser_checking: Seq<char>,
    parser_savings: Seq<char>,
    checking_digits: Option<Seq<char>>,
    savings_digits: Option<Seq<char>>,
    account: Seq<char>,
    cols: SebColumns,
    rows: Seq<Seq<SebCellV<A>>>,
    n: int,
) -> Result<Seq<TransactionV<A>>, SebErrorV>
    decreases n,
{
    if n <= cols.header_row + 1 {
        Ok(Seq::empty())
    } else {
        match rows_spec(
            parser_checking,
            parser_savings,
            checking_digits,
            savings_digits,
            account,
            cols,
            rows,
            n - 1,
        ) {
            Err(e) => Err(e),
            Ok(prev) => match row_spec(
                parser_checking,
                parser_savings,
                checking_digits,
                savings_digits,
                account,
                cols,
                rows[n - 1],
                (n - 1) as nat,
            ) {
                Err(e) => Err(e),
                Ok(None) => Ok(prev),
                Ok(Some(t)) => Ok(prev.push(t)),
            },
        }
    }
}

/// The transactions of a sheet booked on `account`: none for an empty
/// sheet; an error without a recognizable layout; else its rows below the
/// header.
pub open spec fn sheet_spec<A>(
    parser_checking: Seq<char>,
    parser_savings: Seq<char>,
    checking_digits: Option<Seq<char>>,
    savings_digits: Option<Seq<char>>,
    account: Seq<char>,
    rows: Seq<Seq<SebCellV<A>>>,
) -> Result<Seq<TransactionV<A>>, SebErrorV> {
    if rows.len() == 0 {
        Ok(Seq::empty())
    } else {
        match columns_from(rows, 0) {
            None => Err(SebErrorV::NoLayout),
            Some(cols) => rows_spec(
                parser_checking,
                parser_savings,
                checking_digits,
                savings_digits,
                account,
                cols,
                rows,
                rows.len() as int,
            ),
        }
    }
}

fn blank_row<A>(row: &Vec<SebCell<A>>) -> (r: bool)
    ensures
        r == is_blank_row(row_view(*row)),
{
    let mut i: usize = 0;
    while i < row.len()
        invariant
            i <= row.len(),
            forall|k: int| 0 <= k < i ==> (#[trigger] row_view(*row)[k]) is Empty,
        decreases row.len() - i,
    {
        match &row[i] {
            SebCell::Empty => {},
            _ => {
                assert(!(row_view(*row)[i as int] is Empty));
                return false;
            },
        }
        i = i + 1;
    }
    true
}

fn data_row<A: Copy>(
    parser: &SebXlsxParser,
    account_id: &str,
    cols: &SebColumns,
    row: &Vec<SebCell<A>>,
    idx: usize,
) -> (out: Result<Option<Transaction<A>>, SebError>)
    requires
        idx < usize::MAX,
    ensures
        match row_spec(
            parser.account_id_checking@,
            parser.account_id_savings@,
            opt_view(parser.checking_account_number_digits),
            opt_view(parser.savings_account_number_digits),
            account_id@,
            *cols,
            row_view(*row),
            idx as nat,
        ) {
            Ok(None) => out matches Ok(None),
            Ok(Some(t)) => out matches Ok(Some(x)) && x@ == t,
            Err(e) => out matches Err(x) && x@ == e,
        },
{
    if blank_row(row) {
        return Ok(None);
    }
    let date = match parse_date_cell(row, cols.date) {
        Some(d) => d,
        None => {
            return Err(SebError::Date { row: idx + 1 });
        },
    };
    let description = match get_string_cell(row, cols.description) {
        Some(d) => d,
        None => String::new(),
    };
    let a = match parse_amount_cell(row, cols.amount) {
        Some(a) => a,
        None => {
            return Err(SebError::Amount { row: idx + 1 });
        },
    };
    let currency = match cols.currency {
        Some(c) => match get_string_cell(row, c) {
            Some(v) => v,
            None => owned("SEK"),
        },
        None => owned("SEK"),
    };
    let ty = infer_type(a.sign, description.as_str());
    let (from, to) = determine_accounts(account_id, ty.as_str(), a.sign, description.as_str(), parser);
    let txn_id = make_txn_id(account_id, &date, a.fixed8.as_str(), "SEK", description.as_str(), idx + 1);
    Ok(Some(build_transaction_value(&date, from, to, ty, a.magnitude, currency, description, txn_id)))
}

proof fn lemma_rows_err_stays<A>(
    parser_checking: Seq<char>,
    parser_savings: Seq<char>,
    checking_digits: Option<Seq<char>>,
    savings_digits: Option<Seq<char>>,
    account: Seq<char>,
    cols: SebColumns,
    rows: Seq<Seq<SebCellV<A>>>,
    k: int,
    n: int,
)
    requires
        k <= n,
        rows_spec(parser_checking, parser_savings, checking_digits, savings_digits, account, cols, rows, k) is Err,
    ensures
        rows_spec(parser_checking, parser_savings, checking_digits, savings_digits, account, cols, rows, n)
            == rows_spec(
            parser_checking,
            parser_savings,
            checking_digits,
            savings_digits,
            account,
            cols,
            rows,
            k,
        ),
    decreases n - k,
{
    if n > k {
        lemma_rows_err_stays(
            parser_checking,
            parser_savings,
            checking_digits,
            savings_digits,
            account,
            cols,
            rows,
            k,
            n - 1,
        );
    }
}

impl SebXlsxParser {
    /// The transactions of a file's first sheet, booked on `account_id`:
    /// `rows` is what the reader gave for its cells.
    pub fn parse_rows<A: Copy>(&self, rows: &SebRows<A>, account_id: &str) -> (out: Result<
        Vec<Transaction<A>>,
        SebError,
    >)
        ensures
            match sheet_spec(
                self.account_id_checking@,
                self.account_id_savings@,
                opt_view(self.checking_account_number_digits),
                opt_view(self.savings_account_number_digits),
                account_id@,
                rows_view(rows@),
            ) {
                Ok(ts) => out matches Ok(v) && seq_views(v@) == ts,
                Err(e) => out matches Err(x) && x@ == e,
            },
    {
        let ghost rv = rows_view(rows@);
        let mut out: Vec<Transaction<A>> = Vec::new();
        assert(seq_views(out@) =~= Seq::<TransactionV<A>>::empty());
        if rows.len() == 0 {
            return Ok(out);
        }
        let _meta = extract_meta(rows);
        let cols = match find_columns(rows) {
            Some(c) => c,
            None => {
                return Err(SebError::NoLayout);
            },
        };
        if cols.header_row >= rows.len() {
            return Ok(out);
        }
        let mut r: usize = cols.header_row + 1;
        while r < rows.len()
            invariant
                cols.header_row + 1 <= r <= rows.len(),
                rows@.len() > 0,
                rv == rows_view(rows@),
                columns_from(rv, 0) == Some(cols),
                rows_spec(
                    self.account_id_checking@,
                    self.account_id_savings@,
                    opt_view(self.checking_account_number_digits),
                    opt_view(self.savings_account_number_digits),
                    account_id@,
                    cols,
                    rv,
                    r as int,
                ) == Ok::<Seq<TransactionV<A>>, SebErrorV>(seq_views(out@)),
            decreases rows.len() - r,
        {
            assert(rv[r as int] == row_view(rows@[r as int]));
            match data_row(self, account_id, &cols, &rows[r], r) {
                Ok(None) => {},
                Ok(Some(t)) => {
                    let ghost before = seq_views(out@);
                    out.push(t);
                    assert(seq_views(out@) =~= before.push(t@));
                },
                Err(e) => {
                    proof {
                        lemma_rows_err_stays(
                            self.account_id_checking@,
                            self.account_id_savings@,
                            opt_view(self.checking_account_number_digits),
                            opt_view(self.savings_account_number_digits),
                            account_id@,
                            cols,
                            rv,
                            r as int + 1,
                            rv.len() as int,
                        );
                    }
                    return Err(e);
                },
            }
            r = r + 1;
        }
        Ok(out)
    }
}

/// The row's own account is where money leaves when the amount is negative
/// and where it arrives otherwise: a negative row (other than one typed
/// income) is paid from this account, a positive row (other than one typed
/// expense) is paid into it. In particular an internal transfer with a
/// positive amount comes into this account from the other side, and one with
/// a negative amount goes out of it.
pub proof fn lemma_own_account_side_follows_sign(
    this_account: Seq<char>,
    txn_type: Seq<char>,
    sign: Sign,
    description: Seq<char>,
    checking: Seq<char>,
    savings: Seq<char>,
    checking_digits: Option<Seq<char>>,
    savings_digits: Option<Seq<char>>,
)
    ensures
        ({
            let (from, to) = determine_accounts_spec(
                this_account,
                txn_type,
                sign,
                description,
                checking,
                savings,
                checking_digits,
                savings_digits,
            );
            let other = counterpart_spec(
                this_account,
                description,
                checking,
                savings,
                checking_digits,
                savings_digits,
            );
            &&& sign.lt_zero() && txn_type != "income"@ ==> from == this_account
            &&& sign.gt_zero() && txn_type != "expense"@ ==> to == this_account
            &&& txn_type == "internal_transfer"@ && sign.lt_zero() ==> (from, to) == (
                this_account,
                other,
            )
            &&& txn_type == "internal_transfer"@ && !sign.lt_zero() ==> (from, to) == (
                other,
                this_account,
            )
        }),
{
}

/// A transfer on the checking account whose description carries the
/// savings account's number has the savings account as its other side (and
/// the other way round); so an incoming transfer on the checking account
/// runs from savings to checking.
pub proof fn lemma_transfer_between_own_accounts(
    description: Seq<char>,
    sign: Sign,
    checking: Seq<char>,
    savings: Seq<char>,
    checking_digits: Option<Seq<char>>,
    savings_digits: Option<Seq<char>>,
)
    ensures
        savings_digits matches Some(sd) && sd.len() > 0 && contains_spec(digits_of(description), sd)
            ==> counterpart_spec(checking, description, checking, savings, checking_digits, savings_digits)
            == savings,
        savings_digits matches Some(sd) && sd.len() > 0 && contains_spec(digits_of(description), sd)
            && !sign.lt_zero() ==> determine_accounts_spec(
            checking,
            "internal_transfer"@,
            sign,
            description,
            checking,
            savings,
            checking_digits,
            savings_digits,
        ) == (savings, checking),
        checking != savings ==> (checking_digits matches Some(cd) && cd.len() > 0 && contains_spec(
            digits_of(description),
            cd,
        ) ==> counterpart_spec(savings, description, checking, savings, checking_digits, savings_digits)
            == checking),
{
}

/// The description names a transfer (överför, overfor, transfer, in any
/// case).
pub open spec fn names_transfer(description: Seq<char>) -> bool {
    let d = unicode_lower(description);
    contains_spec(d, "överför"@) || contains_spec(d, "overfor"@) || contains_spec(d, "transfer"@)
}

/// The description names an income (lön, salary, income, inkomst, in any
/// case).
pub open spec fn names_income(description: Seq<char>) -> bool {
    let d = unicode_lower(description);
    contains_spec(d, "lön"@) || contains_spec(d, "salary"@) || contains_spec(d, "income"@)
        || contains_spec(d, "inkomst"@)
}

/// Transfers are internal whatever their sign; salaries and other named
/// income are income whatever their sign; every other row is an expense
/// when its amount is negative and income otherwise.
pub proof fn lemma_type_by_wording_then_sign(sign: Sign, description: Seq<char>)
    ensures
        names_transfer(description) ==> infer_type_spec(sign, description) == "internal_transfer"@,
        !names_transfer(description) && names_income(description) ==> infer_type_spec(
            sign,
            description,
        ) == "income"@,
        !names_transfer(description) && !names_income(description) && sign.lt_zero()
            ==> infer_type_spec(sign, description) == "expense"@,
        !names_transfer(description) && !names_income(description) && !sign.lt_zero()
            ==> infer_type_spec(sign, description) == "income"@,
{
}

/// A row read into a transaction carries the row's amount and is booked on
/// the row's account by the sign: a negative amount not named as income
/// leaves the account, a positive amount named as a transfer or not named
/// at all arrives in it. A positive transfer on the checking account whose
/// description carries the savings account's number runs from savings to
/// checking.
pub proof fn lemma_row_books_on_own_account<A>(
    parser_checking: Seq<char>,
    parser_savings: Seq<char>,
    checking_digits: Option<Seq<char>>,
    savings_digits: Option<Seq<char>>,
    account: Seq<char>,
    cols: SebColumns,
    row: Seq<SebCellV<A>>,
    idx: nat,
    t: TransactionV<A>,
)
    requires
        row_spec(
            parser_checking,
            parser_savings,
            checking_digits,
            savings_digits,
            account,
            cols,
            row,
            idx,
        ) == Ok::<Option<TransactionV<A>>, SebErrorV>(Some(t)),
    ensures
        amount_cell_spec(row, cols.amount as int) is Some,
        ({
            let a = amount_cell_spec(row, cols.amount as int)->0;
            let description = match string_cell_spec(row, cols.description as int) {
                Some(d) => d,
                None => Seq::empty(),
            };
            &&& t.amount == a.magnitude
            &&& a.sign.lt_zero() && !(!names_transfer(description) && names_income(description))
                ==> t.from_account_id == account
            &&& a.sign.gt_zero() && (names_transfer(description) || !names_income(description))
                ==> t.to_account_id == account
            &&& names_transfer(description) && a.sign.gt_zero() && account == parser_checking && (
            savings_digits matches Some(sd) && sd.len() > 0 && contains_spec(digits_of(description), sd))
                ==> t.transaction_type == "internal_transfer"@ && t.from_account_id == parser_savings
                && t.to_account_id == parser_checking
        }),
{
    reveal_strlit("expense");
    reveal_strlit("income");
    reveal_strlit("internal_transfer");
    assert("expense"@.len() != "income"@.len());
    assert("expense"@.len() != "internal_transfer"@.len());
    assert("income"@.len() != "internal_transfer"@.len());
}

} // verus!
