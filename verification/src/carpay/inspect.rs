//! Looking into a CarPay workbook: a preview of a row, and a loose guess at
//! the header row of the card statement.
use vstd::prelude::*;

use crate::records::opt_view;
use crate::text::{
    contains, contains_spec, join, join_spec, owned, replace_char, replace_char_spec, to_lowercase,
    trim, trim_spec, unicode_lower, views,
};

verus! {

broadcast use vstd::string::group_string_axioms;

/// The trimmed text of a cell (an empty cell gives the empty text).
pub open spec fn cell_text(c: Option<Seq<char>>) -> Seq<char> {
    match c {
        Some(t) => trim_spec(t),
        None => Seq::empty(),
    }
}

pub open spec fn row_texts(row: Seq<Option<String>>) -> Seq<Option<Seq<char>>> {
    row.map_values(|c: Option<String>| opt_view(c))
}

/// The trimmed texts of the first `n` cells.
pub open spec fn trimmed_prefix(row: Seq<Option<Seq<char>>>, n: int) -> Seq<Seq<char>>
    decreases n,
{
    if n <= 0 {
        Seq::empty()
    } else {
        trimmed_prefix(row, n - 1).push(cell_text(row[n - 1]))
    }
}

/// `cells` without its trailing empty texts.
pub open spec fn without_trailing_empty(cells: Seq<Seq<char>>) -> Seq<Seq<char>>
    decreases cells.len(),
{
    if cells.len() > 0 && cells.last().len() == 0 {
        without_trailing_empty(cells.drop_last())
    } else {
        cells
    }
}

/// How a row is previewed: its first twelve cells trimmed, without the
/// trailing empty ones; nothing when all of them are empty.
pub open spec fn preview_spec(row: Seq<Option<Seq<char>>>) -> Option<Seq<Seq<char>>> {
    let cells = trimmed_prefix(row, if row.len() < 12 { row.len() as int } else { 12 });
    if some_nonempty(cells) {
        Some(without_trailing_empty(cells))
    } else {
        None
    }
}

/// Some text of `cells` is not empty.
pub open spec fn some_nonempty(cells: Seq<Seq<char>>) -> bool {
    exists|k: int| 0 <= k < cells.len() && (#[trigger] cells[k]).len() > 0
}

proof fn lemma_trimmed_prefix_len(row: Seq<Option<Seq<char>>>, n: int)
    requires
        0 <= n,
    ensures
        trimmed_prefix(row, n).len() == n,
    decreases n,
{
    if n > 0 {
        lemma_trimmed_prefix_len(row, n - 1);
    }
}

/// A row as the preview shows it (`None` for a row with nothing in its
/// first twelve cells).
pub fn preview_row(row: &Vec<Option<String>>) -> (out: Option<Vec<String>>)
    ensures
        match preview_spec(row_texts(row@)) {
            Some(cells) => out matches Some(v) && views(v@) == cells,
            None => out is None,
        },
{
    let ghost rt = row_texts(row@);
    let n: usize = if row.len() < 12 { row.len() } else { 12 };
    let mut cells: Vec<String> = Vec::new();
    let mut any = false;
    let mut i: usize = 0;
    while i < n
        invariant
            i <= n <= row.len(),
            n == (if row.len() < 12 { row.len() } else { 12 }),
            rt == row_texts(row@),
            cells.len() == i,
            views(cells@) == trimmed_prefix(rt, i as int),
            any == some_nonempty(views(cells@)),
        decreases n - i,
    {
        let t = match &row[i] {
            Some(s) => trim(s.as_str()),
            None => String::new(),
        };
        assert(rt[i as int] == opt_view(row@[i as int]));
        let ghost before = views(cells@);
        if t.unicode_len() > 0 {
            any = true;
        }
        cells.push(t);
        proof {
            let after = views(cells@);
            assert(after =~= before.push(t@));
            if some_nonempty(before) {
                let w = choose|k: int| 0 <= k < before.len() && (#[trigger] before[k]).len() > 0;
                assert(after[w] == before[w]);
            }
            if t@.len() > 0 {
                assert(after[i as int] == t@);
            }
            if some_nonempty(after) {
                let w = choose|k: int| 0 <= k < after.len() && (#[trigger] after[k]).len() > 0;
                if w < i {
                    assert(after[w] == before[w]);
                }
            }
        }
        i = i + 1;
    }
    let ghost all = views(cells@);
    proof {
        lemma_trimmed_prefix_len(rt, n as int);
    }
    if !any {
        return None;
    }
    let mut len: usize = cells.len();
    assert(all.take(len as int) =~= all);
    while len > 0 && cells[len - 1].unicode_len() == 0
        invariant
            len <= cells.len(),
            all == views(cells@),
            without_trailing_empty(all.take(len as int)) == without_trailing_empty(all),
        decreases len,
    {
        assert(all.take(len as int).drop_last() =~= all.take(len - 1));
        assert(all.take(len as int).last() == cells@[len - 1]@);
        len = len - 1;
    }
    proof {
        if len > 0 {
            assert(all.take(len as int).last() == cells@[len - 1]@);
        }
    }
    assert(without_trailing_empty(all.take(len as int)) == all.take(len as int));
    let mut out: Vec<String> = Vec::new();
    let mut j: usize = 0;
    while j < len
        invariant
            j <= len <= cells.len(),
            all == views(cells@),
            views(out@) == all.take(j as int),
        decreases len - j,
    {
        let ghost before = views(out@);
        out.push(owned(cells[j].as_str()));
        assert(views(out@) =~= before.push(all[j as int]));
        assert(all.take(j + 1) =~= all.take(j as int).push(all[j as int]));
        j = j + 1;
    }
    Some(out)
}

/// The non-empty trimmed texts of a row, in order.
pub open spec fn headers_of(row: Seq<Option<Seq<char>>>, n: int) -> Seq<Seq<char>>
    decreases n,
{
    if n <= 0 {
        Seq::empty()
    } else {
        let prev = headers_of(row, n - 1);
        let t = cell_text(row[n - 1]);
        if t.len() > 0 {
            prev.push(t)
        } else {
            prev
        }
    }
}

/// The text the header guess looks in: lower-cased, no-break spaces made
/// spaces.
pub open spec fn norm_spec(s: Seq<char>) -> Seq<char> {
    replace_char_spec(unicode_lower(trim_spec(s)), '\u{00A0}', ' ')
}

/// Whether the joined headers look like a statement's: a date and an amount.
pub open spec fn looks_like_statement(headers: Seq<Seq<char>>) -> bool {
    let joined = norm_spec(join_spec(headers, " | "@));
    contains_spec(joined, "datum"@) && (contains_spec(joined, "belopp"@) || contains_spec(
        joined,
        "summa"@,
    ))
}

/// The first of the first `n` rows whose headers look like a statement's.
pub open spec fn loose_header_from(rows: Seq<Seq<Option<Seq<char>>>>, n: int) -> Option<int>
    decreases n,
{
    if n <= 0 {
        None
    } else {
        match loose_header_from(rows, n - 1) {
            Some(r) => Some(r),
            None => {
                let h = headers_of(rows[n - 1], rows[n - 1].len() as int);
                if h.len() > 0 && looks_like_statement(h) {
                    Some(n - 1)
                } else {
                    None
                }
            },
        }
    }
}

pub open spec fn rows_texts(rows: Seq<Vec<Option<String>>>) -> Seq<Seq<Option<Seq<char>>>> {
    rows.map_values(|r: Vec<Option<String>>| row_texts(r@))
}

/// `s.trim().to_lowercase()` with no-break spaces made spaces.
pub fn norm(s: &str) -> (out: String)
    ensures
        out@ == norm_spec(s@),
{
    let t = trim(s);
    let l = to_lowercase(t.as_str());
    replace_char(l.as_str(), '\u{00A0}', ' ')
}

fn headers_of_row(row: &Vec<Option<String>>) -> (out: Vec<String>)
    ensures
        views(out@) == headers_of(row_texts(row@), row@.len() as int),
{
    let ghost rt = row_texts(row@);
    let mut out: Vec<String> = Vec::new();
    let mut i: usize = 0;
    while i < row.len()
        invariant
            i <= row.len(),
            rt == row_texts(row@),
            views(out@) == headers_of(rt, i as int),
        decreases row.len() - i,
    {
        let t = match &row[i] {
            Some(s) => trim(s.as_str()),
            None => String::new(),
        };
        assert(rt[i as int] == opt_view(row@[i as int]));
        if t.unicode_len() > 0 {
            let ghost before = views(out@);
            out.push(t);
            assert(views(out@) =~= before.push(t@));
        }
        i = i + 1;
    }
    out
}

/// The first row whose non-empty cells, joined, name a date (`datum`) and an
/// amount (`belopp` or `summa`): its index and those cells.
pub fn find_header_row_loose(rows: &Vec<Vec<Option<String>>>) -> (out: Option<(usize, Vec<String>)>)
    ensures
        match loose_header_from(rows_texts(rows@), rows@.len() as int) {
            Some(r) => out matches Some(x) && x.0 == r && views(x.1@) == headers_of(
                rows_texts(rows@)[r],
                rows_texts(rows@)[r].len() as int,
            ),
            None => out is None,
        },
{
    let ghost rs = rows_texts(rows@);
    let mut r: usize = 0;
    while r < rows.len()
        invariant
            r <= rows.len(),
            rs == rows_texts(rows@),
            loose_header_from(rs, r as int) is None,
        decreases rows.len() - r,
    {
        assert(rs[r as int] == row_texts(rows@[r as int]@));
        let headers = headers_of_row(&rows[r]);
        if headers.len() > 0 {
            let joined = join(&headers, " | ");
            let n = norm(joined.as_str());
            if contains(n.as_str(), "datum") && (contains(n.as_str(), "belopp") || contains(
                n.as_str(),
                "summa",
            )) {
                proof {
                    lemma_loose_first(rs, r as int + 1, r as int);
                }
                return Some((r, headers));
            }
        }
        r = r + 1;
    }
    None
}

/// A match at `r` with none before it is the first match of every longer
/// prefix.
proof fn lemma_loose_first(rows: Seq<Seq<Option<Seq<char>>>>, n: int, r: int)
    requires
        0 <= r < n <= rows.len(),
        loose_header_from(rows, r) is None,
        loose_header_from(rows, r + 1) == Some(r),
    ensures
        forall|m: int| n <= m <= rows.len() ==> loose_header_from(rows, m) == Some(r),
    decreases rows.len() - n,
{
    if n < rows.len() {
        lemma_loose_first(rows, n + 1, r);
    }
    assert forall|m: int| n <= m <= rows.len() implies loose_header_from(rows, m) == Some(r) by {
        lemma_loose_step(rows, r, m);
    }
}

proof fn lemma_loose_step(rows: Seq<Seq<Option<Seq<char>>>>, r: int, m: int)
    requires
        0 <= r < m <= rows.len(),
        loose_header_from(rows, r + 1) == Some(r),
    ensures
        loose_header_from(rows, m) == Some(r),
    decreases m,
{
    if m > r + 1 {
        lemma_loose_step(rows, r, m - 1);
    }
}

} // verus!
