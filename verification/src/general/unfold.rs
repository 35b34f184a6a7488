//! Unfolding an input file into named sheets of plain rows (header name to
//! normalized cell text), with the format issues met on the way.
use vstd::prelude::*;

use super::issues::{issue_views, FormatIssue, FormatIssueV, IssueLevel};
use super::normalize::{normalize_text, normalize_text_spec, uniquified, uniquify_headers};
use crate::csvtext::{csv_trimmed_table, read_trimmed_table};
use crate::encoding::{decode_gb18030, gb18030_decode, lossy_text, utf8_lossy, utf8_text};
use crate::records::opt_view;
use crate::text::{concat, decimal, decimal_string, owned, push_char, same, views};

verus! {

broadcast use vstd::string::group_string_axioms;

/// One row: header name to cell text, each name once, in order of first
/// insertion.
pub type Row = Vec<(String, String)>;

pub type RowV = Seq<(Seq<char>, Seq<char>)>;

pub open spec fn row_view(r: Row) -> RowV {
    r@.map_values(|p: (String, String)| (p.0@, p.1@))
}

pub open spec fn row_views(rows: Seq<Row>) -> Seq<RowV> {
    rows.map_values(|r: Row| row_view(r))
}

pub struct UnfoldedSheet {
    pub name: String,
    pub headers: Vec<String>,
    pub rows: Vec<Row>,
}

pub struct UnfoldedSheetV {
    pub name: Seq<char>,
    pub headers: Seq<Seq<char>>,
    pub rows: Seq<RowV>,
}

impl View for UnfoldedSheet {
    type V = UnfoldedSheetV;

    open spec fn view(&self) -> UnfoldedSheetV {
        UnfoldedSheetV { name: self.name@, headers: views(self.headers@), rows: row_views(self.rows@) }
    }
}

pub struct UnfoldedInput {
    pub file_name: String,
    pub file_format: String,
    pub encoding: Option<String>,
    pub sheets: Vec<UnfoldedSheet>,
    pub issues: Vec<FormatIssue>,
}

pub struct UnfoldedInputV {
    pub file_name: Seq<char>,
    pub file_format: Seq<char>,
    pub encoding: Option<Seq<char>>,
    pub sheets: Seq<UnfoldedSheetV>,
    pub issues: Seq<FormatIssueV>,
}

impl View for UnfoldedInput {
    type V = UnfoldedInputV;

    open spec fn view(&self) -> UnfoldedInputV {
        UnfoldedInputV {
            file_name: self.file_name@,
            file_format: self.file_format@,
            encoding: opt_view(self.encoding),
            sheets: self.sheets@.map_values(|s: UnfoldedSheet| s@),
            issues: issue_views(self.issues@),
        }
    }
}

pub open spec fn issue_at(
    level: IssueLevel,
    code: Seq<char>,
    message: Seq<char>,
    file: Option<Seq<char>>,
    sheet: Option<Seq<char>>,
    row: Option<nat>,
) -> FormatIssueV {
    FormatIssueV { level, code, message, file, sheet, row }
}

// ---------------------------------------------------------------------------
// Headers and rows
// ---------------------------------------------------------------------------

/// `col_<k+1>`: the name of the `k`-th column when it has none.
pub open spec fn col_name(k: nat) -> Seq<char> {
    "col_"@ + decimal(k + 1)
}

fn col_name_exec(k: usize) -> (out: String)
    requires
        k < usize::MAX,
    ensures
        out@ == col_name(k as nat),
{
    let digits = decimal_string(k + 1);
    concat("col_", digits.as_str())
}

/// A header cell's name: its normalized text, or `col_<k+1>` when empty.
pub open spec fn header_name(raw: Seq<char>, k: nat) -> Seq<char> {
    let n = normalize_text_spec(raw);
    if n.len() == 0 {
        col_name(k)
    } else {
        n
    }
}

/// The header names, with repeated names made distinct by a counter.
pub open spec fn normalized_headers(raw: Seq<Seq<char>>) -> Seq<Seq<char>> {
    let named = Seq::new(raw.len(), |k: int| header_name(raw[k], k as nat));
    Seq::new(named.len(), |i: int| uniquified(named, i))
}

pub fn normalize_headers(raw: &Vec<String>) -> (out: Vec<String>)
    ensures
        views(out@) == normalized_headers(views(raw@)),
{
    let mut named: Vec<String> = Vec::new();
    let mut k: usize = 0;
    while k < raw.len()
        invariant
            k <= raw.len(),
            named.len() == k,
            forall|j: int| 0 <= j < k ==> #[trigger] named@[j]@ == header_name(raw@[j]@, j as nat),
        decreases raw.len() - k,
    {
        let n = normalize_text(raw[k].as_str());
        if n.unicode_len() == 0 {
            named.push(col_name_exec(k));
        } else {
            named.push(n);
        }
        k = k + 1;
    }
    let ghost named_v = views(named@);
    assert(named_v =~= Seq::new(views(raw@).len(), |k: int| header_name(views(raw@)[k], k as nat)));
    let out = uniquify_headers(named);
    assert(views(out@) =~= normalized_headers(views(raw@)));
    out
}

/// Index of the first pair with key `k`.
pub open spec fn key_index(row: RowV, k: Seq<char>) -> Option<int> {
    if exists|i: int| 0 <= i < row.len() && row[i].0 == k {
        Some(choose|i: int| 0 <= i < row.len() && row[i].0 == k && forall|j: int| 0 <= j < i ==> row[j].0 != k)
    } else {
        None
    }
}

/// Sets the value under `k`, or appends the pair when `k` is new.
pub open spec fn row_insert(row: RowV, k: Seq<char>, v: Seq<char>) -> RowV {
    match key_index(row, k) {
        Some(i) => row.update(i, (k, v)),
        None => row.push((k, v)),
    }
}

fn row_insert_exec(row: &mut Row, k: String, v: String)
    ensures
        row_view(*final(row)) == row_insert(row_view(*old(row)), k@, v@),
{
    let ghost before = row_view(*row);
    let mut i: usize = 0;
    let mut found = false;
    while i < row.len() && !found
        invariant
            i <= row.len(),
            row_view(*row) == before,
            found ==> i < row.len() && before[i as int].0 == k@,
            forall|j: int| 0 <= j < i ==> before[j].0 != k@,
        decreases row.len() - i, (if found { 0int } else { 1int }),
    {
        if same(row[i].0.as_str(), k.as_str()) {
            found = true;
        } else {
            i = i + 1;
        }
    }
    let ghost kv = (k@, v@);
    if found {
        proof {
            let w = choose|w: int|
                0 <= w < before.len() && before[w].0 == k@ && forall|j: int|
                    0 <= j < w ==> before[j].0 != k@;
            assert(w == i as int) by {
                if w < i {
                    assert(before[w].0 != k@);
                } else if w > i {
                    assert(before[i as int].0 == k@);
                }
            }
            assert(key_index(before, k@) == Some(i as int));
        }
        row.set(i, (k, v));
        assert(row_view(*row) =~= before.update(i as int, kv));
    } else {
        row.push((k, v));
        assert(row_view(*row) =~= before.push(kv));
    }
}

/// The key of the `k`-th cell: its header, or `col_<k+1>` past the headers.
pub open spec fn cell_key(headers: Seq<Seq<char>>, k: nat) -> Seq<char> {
    if k < headers.len() {
        headers[k as int]
    } else {
        col_name(k)
    }
}

/// The row object of the first `n` cells.
pub open spec fn row_object(headers: Seq<Seq<char>>, cells: Seq<Seq<char>>, n: int) -> RowV
    decreases n,
{
    if n <= 0 {
        Seq::empty()
    } else {
        row_insert(
            row_object(headers, cells, n - 1),
            cell_key(headers, (n - 1) as nat),
            normalize_text_spec(cells[n - 1]),
        )
    }
}

/// How many of the first `n` cells are non-empty once normalized.
pub open spec fn populated(cells: Seq<Seq<char>>, n: int) -> nat
    decreases n,
{
    if n <= 0 {
        0
    } else {
        populated(cells, n - 1) + if normalize_text_spec(cells[n - 1]).len() > 0 {
            1nat
        } else {
            0nat
        }
    }
}

proof fn lemma_populated_bound(cells: Seq<Seq<char>>, n: int)
    requires
        0 <= n <= cells.len(),
    ensures
        populated(cells, n) <= n,
    decreases n,
{
    if n > 0 {
        lemma_populated_bound(cells, n - 1);
    }
}

/// The row object of a record and how many of its cells are non-empty.
pub fn build_row(headers: &Vec<String>, cells: &Vec<String>) -> (r: (Row, usize))
    ensures
        row_view(r.0) == row_object(views(headers@), views(cells@), cells@.len() as int),
        r.1 == populated(views(cells@), cells@.len() as int),
{
    let mut row: Row = Vec::new();
    let mut count: usize = 0;
    let mut k: usize = 0;
    assert(row_view(row) =~= Seq::<(Seq<char>, Seq<char>)>::empty());
    while k < cells.len()
        invariant
            k <= cells.len(),
            row_view(row) == row_object(views(headers@), views(cells@), k as int),
            count == populated(views(cells@), k as int),
        decreases cells.len() - k,
    {
        proof {
            lemma_populated_bound(views(cells@), k as int);
        }
        let key = if k < headers.len() {
            headers[k].clone()
        } else {
            col_name_exec(k)
        };
        let value = normalize_text(cells[k].as_str());
        if value.unicode_len() > 0 {
            count = count + 1;
        }
        row_insert_exec(&mut row, key, value);
        k = k + 1;
    }
    (row, count)
}

// ---------------------------------------------------------------------------
// CSV
// ---------------------------------------------------------------------------

/// What one delimiter gives: rows, the count of unreadable records, the
/// count of non-empty cells, and the issues noted.
pub type ScanV = (Seq<RowV>, nat, nat, Seq<FormatIssueV>);

/// The first `n` records read under `headers`: rows with a non-empty cell
/// are kept; an empty one among the first three is noted.
pub open spec fn scan_records(
    headers: Seq<Seq<char>>,
    records: Seq<Option<Seq<Seq<char>>>>,
    path: Seq<char>,
    n: int,
) -> ScanV
    decreases n,
{
    if n <= 0 {
        (Seq::empty(), 0, 0, Seq::empty())
    } else {
        let prev = scan_records(headers, records, path, n - 1);
        match records[n - 1] {
            None => (prev.0, prev.1 + 1, prev.2, prev.3),
            Some(cells) => {
                let pop = populated(cells, cells.len() as int);
                if pop > 0 {
                    (
                        prev.0.push(row_object(headers, cells, cells.len() as int)),
                        prev.1,
                        prev.2 + pop,
                        prev.3,
                    )
                } else if n - 1 < 3 {
                    (
                        prev.0,
                        prev.1,
                        prev.2,
                        prev.3.push(
                            issue_at(
                                IssueLevel::Info,
                                "csv_empty_row"@,
                                "Skipped empty row near top of file"@,
                                Some(path),
                                Some("csv"@),
                                Some((n + 1) as nat),
                            ),
                        ),
                    )
                } else {
                    prev
                }
            },
        }
    }
}

pub open spec fn delimiters() -> Seq<char> {
    seq![',', ';', '\t', '|']
}

/// Best reading so far: score, headers, rows, delimiter, and the issues of
/// every reading tried.
pub type BestV = (int, Seq<Seq<char>>, Seq<RowV>, char, Seq<FormatIssueV>);

/// The first `k` delimiters tried in turn: a reading without unreadable
/// records replaces the best one when its score (1000 per header plus one
/// per non-empty cell) is higher.
pub open spec fn best_reading(text: Seq<char>, path: Seq<char>, k: int) -> BestV
    decreases k,
{
    if k <= 0 {
        (0, Seq::empty(), Seq::empty(), ',', Seq::empty())
    } else {
        let prev = best_reading(text, path, k - 1);
        let d = delimiters()[k - 1];
        match csv_trimmed_table(text, d as u8) {
            None => prev,
            Some((raw_headers, records)) => {
                let headers = normalized_headers(raw_headers);
                let scan = scan_records(headers, records, path, records.len() as int);
                let score = (headers.len() * 1000 + scan.2) as int;
                let issues = prev.4 + scan.3;
                if scan.1 == 0 && score > prev.0 {
                    (score, headers, scan.0, d, issues)
                } else {
                    (prev.0, prev.1, prev.2, prev.3, issues)
                }
            },
        }
    }
}

/// Rows, headers, delimiter and issues of the best reading; `None` when no
/// delimiter gives a header.
pub open spec fn parse_csv_rows_spec(text: Seq<char>, path: Seq<char>) -> Option<
    (Seq<RowV>, Seq<Seq<char>>, char, Seq<FormatIssueV>),
> {
    let b = best_reading(text, path, 4);
    if b.1.len() == 0 {
        None
    } else {
        Some((b.2, b.1, b.3, b.4))
    }
}

pub struct CsvRows {
    pub rows: Vec<Row>,
    pub headers: Vec<String>,
    pub delimiter: char,
    pub issues: Vec<FormatIssue>,
}

fn scan_table(
    headers: &Vec<String>,
    records: &Vec<Option<Vec<String>>>,
    path: &str,
    issues: &mut Vec<FormatIssue>,
) -> (r: (Vec<Row>, usize, u128))
    ensures
        ({
            let s = scan_records(
                views(headers@),
                records@.map_values(
                    |o: Option<Vec<String>>|
                        match o {
                            Some(f) => Some(views(f@)),
                            None => None,
                        },
                ),
                path@,
                records@.len() as int,
            );
            &&& row_views(r.0@) == s.0
            &&& r.1 == s.1
            &&& r.2 == s.2
            &&& issue_views(final(issues)@) == issue_views(old(issues)@) + s.3
        }),
{
    let ghost recs = records@.map_values(
        |o: Option<Vec<String>>|
            match o {
                Some(f) => Some(views(f@)),
                None => None,
            },
    );
    let ghost hv = views(headers@);
    let ghost start = issue_views(issues@);
    let mut rows: Vec<Row> = Vec::new();
    let mut errors: usize = 0;
    let mut filled: u128 = 0;
    let mut n: usize = 0;
    assert(row_views(rows@) =~= Seq::<RowV>::empty());
    assert(issue_views(issues@) =~= start + Seq::<FormatIssueV>::empty());
    while n < records.len()
        invariant
            n <= records.len(),
            hv == views(headers@),
            recs == records@.map_values(
                |o: Option<Vec<String>>|
                    match o {
                        Some(f) => Some(views(f@)),
                        None => None,
                    },
            ),
            ({
                let s = scan_records(hv, recs, path@, n as int);
                &&& row_views(rows@) == s.0
                &&& errors == s.1
                &&& filled == s.2
                &&& issue_views(issues@) == start + s.3
            }),
            errors <= n,
            filled <= n * usize::MAX,
        decreases records.len() - n,
    {
        let ghost before_rows = row_views(rows@);
        let ghost before_issues = issue_views(issues@);
        match &records[n] {
            None => {
                errors = errors + 1;
            },
            Some(cells) => {
                let (row, pop) = build_row(headers, cells);
                if pop > 0 {
                    rows.push(row);
                    assert(row_views(rows@) =~= before_rows.push(row_view(row)));
                    assert(pop <= usize::MAX);
                    assert(filled + pop <= (n + 1) * usize::MAX) by (nonlinear_arith)
                        requires
                            filled <= n * usize::MAX,
                            pop <= usize::MAX,
                    ;
                    filled = filled + pop as u128;
                } else if n < 3 {
                    issues.push(
                        FormatIssue {
                            level: IssueLevel::Info,
                            code: owned("csv_empty_row"),
                            message: owned("Skipped empty row near top of file"),
                            file: Some(owned(path)),
                            sheet: Some(owned("csv")),
                            row: Some(n + 2),
                        },
                    );
                    assert(issue_views(issues@) =~= before_issues.push(issue_views(issues@).last()));
                }
            },
        }
        proof {
            assert(filled <= (n + 1) * usize::MAX) by (nonlinear_arith)
                requires
                    filled <= n * usize::MAX || filled <= (n + 1) * usize::MAX,
                    n >= 0,
            ;
        }
        n = n + 1;
    }
    (rows, errors, filled)
}

/// Whether `a + f > ba + bf`, computed without overflow.
fn sum_gt(a: u128, f: u128, ba: u128, bf: u128) -> (r: bool)
    ensures
        r == (a + f > ba + bf),
{
    if a >= ba {
        if f > bf {
            true
        } else {
            a - ba > bf - f
        }
    } else {
        if bf >= f {
            false
        } else {
            f - bf > ba - a
        }
    }
}

/// Tries each delimiter and keeps the best reading; `None` when none gives a
/// header.
pub fn parse_csv_rows(text: &str, path: &str) -> (r: Option<CsvRows>)
    ensures
        match r {
            Some(c) => parse_csv_rows_spec(text@, path@) == Some(
                (row_views(c.rows@), views(c.headers@), c.delimiter, issue_views(c.issues@)),
            ),
            None => parse_csv_rows_spec(text@, path@) is None,
        },
{
    let delims: [char; 4] = [',', ';', '\t', '|'];
    let mut best_rows: Vec<Row> = Vec::new();
    let mut best_headers: Vec<String> = Vec::new();
    let mut best_delimiter = ',';
    let mut best_a: u128 = 0;
    let mut best_f: u128 = 0;
    let mut issues: Vec<FormatIssue> = Vec::new();
    let mut k: usize = 0;
    assert(row_views(best_rows@) =~= Seq::<RowV>::empty());
    assert(views(best_headers@) =~= Seq::<Seq<char>>::empty());
    assert(issue_views(issues@) =~= Seq::<FormatIssueV>::empty());
    while k < 4
        invariant
            k <= 4,
            delims@ == delimiters(),
            ({
                let b = best_reading(text@, path@, k as int);
                &&& best_a + best_f == b.0
                &&& views(best_headers@) == b.1
                &&& row_views(best_rows@) == b.2
                &&& best_delimiter == b.3
                &&& issue_views(issues@) == b.4
            }),
        decreases 4 - k,
    {
        let d = delims[k];
        match read_trimmed_table(text, d as u8) {
            None => {},
            Some((raw_headers, records)) => {
                let headers = normalize_headers(&raw_headers);
                let (rows, errors, filled) = scan_table(&headers, &records, path, &mut issues);
                let a: u128 = (headers.len() as u128) * 1000;
                if errors == 0 && sum_gt(a, filled, best_a, best_f) {
                    best_a = a;
                    best_f = filled;
                    best_rows = rows;
                    best_headers = headers;
                    best_delimiter = d;
                }
            },
        }
        k = k + 1;
    }
    if best_headers.len() == 0 {
        return None;
    }
    Some(CsvRows { rows: best_rows, headers: best_headers, delimiter: best_delimiter, issues })
}

} // verus!

verus! {

// ---------------------------------------------------------------------------
// Decoding CSV bytes
// ---------------------------------------------------------------------------

pub open spec fn csv_issue(level: IssueLevel, code: Seq<char>, message: Seq<char>, path: Seq<char>) -> FormatIssueV {
    issue_at(level, code, message, Some(path), Some("csv"@), None)
}

/// Text, encoding name and the issue noting it: UTF-8 when valid, else
/// GB18030 when that decodes cleanly, else UTF-8 with replacement
/// characters.
pub open spec fn decode_csv_spec(raw: Seq<u8>, path: Seq<char>) -> (Seq<char>, Seq<char>, FormatIssueV) {
    if vstd::utf8::valid_utf8(raw) {
        (
            vstd::utf8::decode_utf8(raw),
            "utf-8"@,
            csv_issue(IssueLevel::Info, "csv_encoding_detected"@, "Decoded as UTF-8"@, path),
        )
    } else if !gb18030_decode(raw).1 {
        (
            gb18030_decode(raw).0,
            "gb18030"@,
            csv_issue(IssueLevel::Warning, "csv_non_utf8_decoded"@, "CSV decoded as GB18030"@, path),
        )
    } else {
        (
            utf8_lossy(raw),
            "utf-8-lossy"@,
            csv_issue(
                IssueLevel::Warning,
                "csv_lossy_decode"@,
                "CSV required lossy UTF-8 decoding; some characters may be corrupted"@,
                path,
            ),
        )
    }
}

fn csv_issue_exec(level: IssueLevel, code: &str, message: &str, path: &str) -> (i: FormatIssue)
    ensures
        i@ == csv_issue(level, code@, message@, path@),
{
    FormatIssue {
        level,
        code: owned(code),
        message: owned(message),
        file: Some(owned(path)),
        sheet: Some(owned("csv")),
        row: None,
    }
}

pub fn decode_csv_text(raw: &[u8], path: &str) -> (r: (String, String, FormatIssue))
    ensures
        (r.0@, r.1@, r.2@) == decode_csv_spec(raw@, path@),
{
    if let Some(text) = utf8_text(raw) {
        return (
            text,
            owned("utf-8"),
            csv_issue_exec(IssueLevel::Info, "csv_encoding_detected", "Decoded as UTF-8", path),
        );
    }
    let (decoded, had_errors) = decode_gb18030(raw);
    if !had_errors {
        return (
            decoded,
            owned("gb18030"),
            csv_issue_exec(IssueLevel::Warning, "csv_non_utf8_decoded", "CSV decoded as GB18030", path),
        );
    }
    (
        lossy_text(raw),
        owned("utf-8-lossy"),
        csv_issue_exec(
            IssueLevel::Warning,
            "csv_lossy_decode",
            "CSV required lossy UTF-8 decoding; some characters may be corrupted",
            path,
        ),
    )
}

// ---------------------------------------------------------------------------
// Whole inputs
// ---------------------------------------------------------------------------

/// Why an input could not be unfolded.
pub enum UnfoldError {
    /// Neither a `.csv` nor an `.xls`/`.xlsx` file.
    UnsupportedFormat { path: String },
    /// No delimiter gives a header row.
    CsvUnreadable { path: String },
}

pub enum UnfoldErrorV {
    UnsupportedFormat { path: Seq<char> },
    CsvUnreadable { path: Seq<char> },
}

impl View for UnfoldError {
    type V = UnfoldErrorV;

    open spec fn view(&self) -> UnfoldErrorV {
        match self {
            UnfoldError::UnsupportedFormat { path } => UnfoldErrorV::UnsupportedFormat { path: path@ },
            UnfoldError::CsvUnreadable { path } => UnfoldErrorV::CsvUnreadable { path: path@ },
        }
    }
}

/// `Detected delimiter '<d>'`.
pub open spec fn delimiter_message(d: char) -> Seq<char> {
    "Detected delimiter '"@ + seq![d] + "'"@
}

/// The unfolded form of a CSV file's bytes.
pub open spec fn unfold_csv_spec(raw: Seq<u8>, path: Seq<char>) -> Result<UnfoldedInputV, UnfoldErrorV> {
    let (text, encoding, decode_issue) = decode_csv_spec(raw, path);
    match parse_csv_rows_spec(text, path) {
        None => Err(UnfoldErrorV::CsvUnreadable { path }),
        Some((rows, headers, delimiter, parse_issues)) => {
            let issues = seq![decode_issue] + parse_issues;
            let issues = if rows.len() == 0 {
                issues.push(csv_issue(IssueLevel::Warning, "empty_csv"@, "CSV has no data rows"@, path))
            } else {
                issues
            };
            let issues = issues.push(
                csv_issue(IssueLevel::Info, "csv_delimiter_detected"@, delimiter_message(delimiter), path),
            );
            Ok(
                UnfoldedInputV {
                    file_name: path,
                    file_format: "csv"@,
                    encoding: Some(encoding),
                    sheets: seq![UnfoldedSheetV { name: "csv"@, headers, rows }],
                    issues,
                },
            )
        },
    }
}

pub fn unfold_csv_bytes(raw: &[u8], path: &str) -> (r: Result<UnfoldedInput, UnfoldError>)
    ensures
        match r {
            Ok(u) => unfold_csv_spec(raw@, path@) == Ok::<UnfoldedInputV, UnfoldErrorV>(u@),
            Err(e) => unfold_csv_spec(raw@, path@) == Err::<UnfoldedInputV, UnfoldErrorV>(e@),
        },
{
    let (text, encoding, decode_issue) = decode_csv_text(raw, path);
    let parsed = match parse_csv_rows(text.as_str(), path) {
        Some(p) => p,
        None => {
            return Err(UnfoldError::CsvUnreadable { path: owned(path) });
        },
    };
    let CsvRows { rows, headers, delimiter, issues: parse_issues } = parsed;
    let mut issues: Vec<FormatIssue> = Vec::new();
    issues.push(decode_issue);
    let mut k: usize = 0;
    while k < parse_issues.len()
        invariant
            k <= parse_issues.len(),
            issue_views(issues@) == seq![decode_issue@] + issue_views(parse_issues@).take(k as int),
        decreases parse_issues.len() - k,
    {
        let ghost before = issue_views(issues@);
        issues.push(parse_issues[k].duplicate());
        assert(issue_views(issues@) =~= before.push(parse_issues@[k as int]@));
        assert(issue_views(parse_issues@).take(k + 1) =~= issue_views(parse_issues@).take(k as int).push(parse_issues@[k as int]@));
        assert(issue_views(issues@) =~= seq![decode_issue@] + issue_views(parse_issues@).take(k + 1));
        k = k + 1;
    }
    assert(issue_views(parse_issues@).take(parse_issues.len() as int) =~= issue_views(parse_issues@));
    let ghost spec_issues = unfold_csv_spec(raw@, path@)->Ok_0.issues;
    let ghost base = issue_views(issues@);
    if rows.len() == 0 {
        issues.push(csv_issue_exec(IssueLevel::Warning, "empty_csv", "CSV has no data rows", path));
        assert(issue_views(issues@) =~= base.push(
            csv_issue(IssueLevel::Warning, "empty_csv"@, "CSV has no data rows"@, path@),
        ));
    }
    let ghost mid = issue_views(issues@);
    let mut message = owned("Detected delimiter '");
    push_char(&mut message, delimiter);
    message.append("'");
    assert(message@ == delimiter_message(delimiter));
    issues.push(csv_issue_exec(IssueLevel::Info, "csv_delimiter_detected", message.as_str(), path));
    assert(issue_views(issues@) =~= mid.push(
        csv_issue(IssueLevel::Info, "csv_delimiter_detected"@, delimiter_message(delimiter), path@),
    ));
    assert(issue_views(issues@) =~= spec_issues);
    let mut sheets: Vec<UnfoldedSheet> = Vec::new();
    sheets.push(UnfoldedSheet { name: owned("csv"), headers, rows });
    let out = UnfoldedInput {
        file_name: owned(path),
        file_format: owned("csv"),
        encoding: Some(encoding),
        sheets,
        issues,
    };
    assert(out@.sheets =~= seq![out@.sheets[0]]);
    Ok(out)
}

} // verus!

verus! {

// ---------------------------------------------------------------------------
// Workbooks
// ---------------------------------------------------------------------------

/// The first `n` data rows of a sheet: rows with a non-empty cell are kept;
/// an empty one among the first three is noted.
pub open spec fn scan_sheet_rows(
    headers: Seq<Seq<char>>,
    rows: Seq<Seq<Seq<char>>>,
    path: Seq<char>,
    sheet: Seq<char>,
    n: int,
) -> (Seq<RowV>, Seq<FormatIssueV>)
    decreases n,
{
    if n <= 0 {
        (Seq::empty(), Seq::empty())
    } else {
        let prev = scan_sheet_rows(headers, rows, path, sheet, n - 1);
        let cells = rows[n - 1];
        if populated(cells, cells.len() as int) > 0 {
            (prev.0.push(row_object(headers, cells, cells.len() as int)), prev.1)
        } else if n - 1 < 3 {
            (
                prev.0,
                prev.1.push(
                    issue_at(
                        IssueLevel::Info,
                        "excel_empty_row"@,
                        "Skipped empty row near top of sheet"@,
                        Some(path),
                        Some(sheet),
                        Some((n + 1) as nat),
                    ),
                ),
            )
        } else {
            prev
        }
    }
}

/// A sheet as the reader delivered it: its name and its rows of cell text,
/// or the reader's message.
pub type SheetInput = (String, Result<Vec<Vec<String>>, String>);

pub type SheetInputV = (Seq<char>, Result<Seq<Seq<Seq<char>>>, Seq<char>>);

pub open spec fn sheet_input_views(v: Seq<SheetInput>) -> Seq<SheetInputV> {
    v.map_values(
        |s: SheetInput|
            (
                s.0@,
                match s.1 {
                    Ok(rows) => Ok(rows@.map_values(|r: Vec<String>| views(r@))),
                    Err(m) => Err(m@),
                },
            ),
    )
}

/// The first `n` sheets: an unreadable one is noted; an empty one is passed
/// over; otherwise its first row names the columns of the others.
pub open spec fn unfold_sheets(sheets: Seq<SheetInputV>, path: Seq<char>, n: int) -> (
    Seq<UnfoldedSheetV>,
    Seq<FormatIssueV>,
)
    decreases n,
{
    if n <= 0 {
        (Seq::empty(), Seq::empty())
    } else {
        let prev = unfold_sheets(sheets, path, n - 1);
        let (name, content) = sheets[n - 1];
        match content {
            Err(message) => (
                prev.0,
                prev.1.push(
                    issue_at(
                        IssueLevel::Warning,
                        "excel_sheet_unreadable"@,
                        "Cannot read sheet '"@ + name + "': "@ + message,
                        Some(path),
                        Some(name),
                        None,
                    ),
                ),
            ),
            Ok(rows) => if rows.len() == 0 {
                prev
            } else {
                let headers = normalized_headers(rows[0]);
                let data = rows.drop_first();
                let scan = scan_sheet_rows(headers, data, path, name, data.len() as int);
                (prev.0.push(UnfoldedSheetV { name, headers, rows: scan.0 }), prev.1 + scan.1)
            },
        }
    }
}

/// The unfolded form of a workbook's sheets.
pub open spec fn unfold_workbook_spec(sheets: Seq<SheetInputV>, path: Seq<char>) -> UnfoldedInputV {
    let (out, issues) = unfold_sheets(sheets, path, sheets.len() as int);
    let issues = if out.len() == 0 {
        issues.push(
            issue_at(
                IssueLevel::Error,
                "excel_no_readable_sheets"@,
                "No readable sheets found in workbook"@,
                Some(path),
                None,
                None,
            ),
        )
    } else {
        issues
    };
    UnfoldedInputV { file_name: path, file_format: "excel"@, encoding: None, sheets: out, issues }
}

fn unfold_sheet_rows(
    headers: &Vec<String>,
    rows: &Vec<Vec<String>>,
    path: &str,
    sheet: &String,
    issues: &mut Vec<FormatIssue>,
) -> (out: Vec<Row>)
    requires
        rows.len() >= 1,
    ensures
        ({
            let data = rows@.map_values(|r: Vec<String>| views(r@)).drop_first();
            let s = scan_sheet_rows(views(headers@), data, path@, sheet@, data.len() as int);
            &&& row_views(out@) == s.0
            &&& issue_views(final(issues)@) == issue_views(old(issues)@) + s.1
        }),
{
    let ghost data = rows@.map_values(|r: Vec<String>| views(r@)).drop_first();
    let ghost start = issue_views(issues@);
    let mut out: Vec<Row> = Vec::new();
    let mut n: usize = 1;
    assert(row_views(out@) =~= Seq::<RowV>::empty());
    assert(issue_views(issues@) =~= start + Seq::<FormatIssueV>::empty());
    while n < rows.len()
        invariant
            1 <= n <= rows.len(),
            data == rows@.map_values(|r: Vec<String>| views(r@)).drop_first(),
            ({
                let s = scan_sheet_rows(views(headers@), data, path@, sheet@, n - 1);
                &&& row_views(out@) == s.0
                &&& issue_views(issues@) == start + s.1
            }),
        decreases rows.len() - n,
    {
        let ghost before_rows = row_views(out@);
        let ghost before_issues = issue_views(issues@);
        assert(data[n - 1] == views(rows@[n as int]@));
        let (row, pop) = build_row(headers, &rows[n]);
        if pop > 0 {
            out.push(row);
            assert(row_views(out@) =~= before_rows.push(row_view(row)));
        } else if n - 1 < 3 {
            issues.push(
                FormatIssue {
                    level: IssueLevel::Info,
                    code: owned("excel_empty_row"),
                    message: owned("Skipped empty row near top of sheet"),
                    file: Some(owned(path)),
                    sheet: Some(sheet.clone()),
                    row: Some(n + 1),
                },
            );
            assert(issue_views(issues@) =~= before_issues.push(issue_views(issues@).last()));
        }
        n = n + 1;
    }
    out
}

/// Unfolds the sheets a workbook reader delivered, in order.
pub fn unfold_workbook(path: &str, sheets: &Vec<SheetInput>) -> (u: UnfoldedInput)
    ensures
        u@ == unfold_workbook_spec(sheet_input_views(sheets@), path@),
{
    let ghost sv = sheet_input_views(sheets@);
    let mut out: Vec<UnfoldedSheet> = Vec::new();
    let mut issues: Vec<FormatIssue> = Vec::new();
    let mut k: usize = 0;
    assert(out@.map_values(|s: UnfoldedSheet| s@) =~= Seq::<UnfoldedSheetV>::empty());
    assert(issue_views(issues@) =~= Seq::<FormatIssueV>::empty());
    while k < sheets.len()
        invariant
            k <= sheets.len(),
            sv == sheet_input_views(sheets@),
            ({
                let s = unfold_sheets(sv, path@, k as int);
                &&& out@.map_values(|s: UnfoldedSheet| s@) == s.0
                &&& issue_views(issues@) == s.1
            }),
        decreases sheets.len() - k,
    {
        let ghost before_out = out@.map_values(|s: UnfoldedSheet| s@);
        let ghost before_issues = issue_views(issues@);
        let name = &sheets[k].0;
        match &sheets[k].1 {
            Err(message) => {
                let mut text = owned("Cannot read sheet '");
                text.append(name.as_str());
                text.append("': ");
                text.append(message.as_str());
                issues.push(
                    FormatIssue {
                        level: IssueLevel::Warning,
                        code: owned("excel_sheet_unreadable"),
                        message: text,
                        file: Some(owned(path)),
                        sheet: Some(name.clone()),
                        row: None,
                    },
                );
                assert(issue_views(issues@) =~= before_issues.push(issue_views(issues@).last()));
            },
            Ok(rows) => {
                if rows.len() > 0 {
                    let headers = normalize_headers(&rows[0]);
                    assert(rows@.map_values(|r: Vec<String>| views(r@))[0] == views(rows@[0]@));
                    let data_rows = unfold_sheet_rows(&headers, rows, path, name, &mut issues);
                    let sheet = UnfoldedSheet { name: name.clone(), headers, rows: data_rows };
                    out.push(sheet);
                    assert(out@.map_values(|s: UnfoldedSheet| s@) =~= before_out.push(out@.last()@));
                }
            },
        }
        k = k + 1;
    }
    assert(sv.len() == sheets.len());
    if out.len() == 0 {
        let ghost before_issues = issue_views(issues@);
        issues.push(
            FormatIssue {
                level: IssueLevel::Error,
                code: owned("excel_no_readable_sheets"),
                message: owned("No readable sheets found in workbook"),
                file: Some(owned(path)),
                sheet: None,
                row: None,
            },
        );
        assert(issue_views(issues@) =~= before_issues.push(issue_views(issues@).last()));
    }
    UnfoldedInput { file_name: owned(path), file_format: owned("excel"), encoding: None, sheets: out, issues }
}

} // verus!

verus! {

/// The extension std's `Path::extension` finds in `path`, as text.
pub uninterp spec fn path_extension(path: Seq<char>) -> Option<Seq<char>>;

/// std `Path::extension` (then `to_str`): names its result.
#[verifier::external_body]
fn extension_of(path: &str) -> (r: Option<String>)
    ensures
        crate::records::opt_view(r) == path_extension(path@),
{
    std::path::Path::new(path).extension().and_then(|s| s.to_str()).map(|s| s.to_string())
}

/// The two kinds of input the importer reads.
#[derive(Clone, Copy, Debug, PartialEq, Eq, Structural)]
pub enum InputKind {
    Csv,
    Excel,
}

/// The kind of an input by its extension, compared ignoring ASCII case.
pub open spec fn input_kind_spec(path: Seq<char>) -> Option<InputKind> {
    let ext = crate::text::ascii_lower(
        match path_extension(path) {
            Some(e) => e,
            None => Seq::empty(),
        },
    );
    if ext == "csv"@ {
        Some(InputKind::Csv)
    } else if ext == "xls"@ || ext == "xlsx"@ {
        Some(InputKind::Excel)
    } else {
        None
    }
}

pub fn input_kind(path: &str) -> (r: Result<InputKind, UnfoldError>)
    ensures
        match r {
            Ok(k) => input_kind_spec(path@) == Some(k),
            Err(e) => input_kind_spec(path@) is None && e@ == (UnfoldErrorV::UnsupportedFormat {
                path: path@,
            }),
        },
{
    let ext = match extension_of(path) {
        Some(e) => crate::text::to_ascii_lower(e.as_str()),
        None => {
            assert(crate::text::ascii_lower(Seq::<char>::empty()) =~= Seq::<char>::empty());
            String::new()
        },
    };
    if same(ext.as_str(), "csv") {
        Ok(InputKind::Csv)
    } else if same(ext.as_str(), "xls") || same(ext.as_str(), "xlsx") {
        Ok(InputKind::Excel)
    } else {
        Err(UnfoldError::UnsupportedFormat { path: owned(path) })
    }
}

} // verus!
