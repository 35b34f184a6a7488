//! Pieces shared by Intesa Sanpaolo's movement and portfolio sheets: cell
//! values, dates, amounts, flow direction and identifiers.
use chrono::Datelike;
use vstd::prelude::*;

use crate::dates::{chrono_date, iso_date, iso_text, parse_date_fmt, plausible, Date};
use crate::hashing::{hex_spec, prefixed_digest_id, sha256, utf8};
use crate::money::{Amount, AmountV, Sign};
use crate::text::{
    chars_of, contains, contains_spec, owned, push_char, remove_char, remove_char_spec, replace_char,
    replace_char_spec, same, to_lowercase, trim, trim_spec, unicode_lower,
};

verus! {

broadcast use vstd::string::group_string_axioms;

pub const INTESA_CHECKING: &'static str = "INTESA_CHECKING";

pub const INTESA_SAVINGS: &'static str = "INTESA_SAVINGS";

/// What the caller parsed from one cell's text: the amount (the number in
/// the text [`clean_amount_text`] gives, when that text parses) and the
/// spreadsheet serial it denotes (the floor of the number the trimmed text
/// parses as, when it parses).
pub struct CellNumbers<A> {
    pub amount: Option<Amount<A>>,
    pub serial_floor: Option<i64>,
}

pub struct CellNumbersV<A> {
    pub amount: Option<AmountV<A>>,
    pub serial_floor: Option<i64>,
}

impl<A> View for CellNumbers<A> {
    type V = CellNumbersV<A>;

    open spec fn view(&self) -> CellNumbersV<A> {
        CellNumbersV {
            amount: match self.amount {
                Some(a) => Some(a@),
                None => None,
            },
            serial_floor: self.serial_floor,
        }
    }
}

/// A sheet: its cells' text by row, and what was parsed from each cell.
pub type Grid = Vec<Vec<String>>;

pub type NumberGrid<A> = Vec<Vec<CellNumbers<A>>>;

pub open spec fn grid_view(g: Grid) -> Seq<Seq<Seq<char>>> {
    g@.map_values(|r: Vec<String>| r@.map_values(|c: String| c@))
}

pub open spec fn number_grid_view<A>(g: NumberGrid<A>) -> Seq<Seq<CellNumbersV<A>>> {
    g@.map_values(|r: Vec<CellNumbers<A>>| r@.map_values(|c: CellNumbers<A>| c@))
}

pub open spec fn cell_at(g: Seq<Seq<Seq<char>>>, r: int, c: int) -> Option<Seq<char>> {
    if 0 <= r < g.len() && 0 <= c < g[r].len() {
        Some(g[r][c])
    } else {
        None
    }
}

pub open spec fn numbers_at<A>(g: Seq<Seq<CellNumbersV<A>>>, r: int, c: int) -> CellNumbersV<A> {
    if 0 <= r < g.len() && 0 <= c < g[r].len() {
        g[r][c]
    } else {
        CellNumbersV { amount: None, serial_floor: None }
    }
}

pub fn get_cell(g: &Grid, r: usize, c: usize) -> (out: Option<String>)
    ensures
        crate::records::opt_view(out) == cell_at(grid_view(*g), r as int, c as int),
{
    if r < g.len() && c < g[r].len() {
        Some(g[r][c].clone())
    } else {
        None
    }
}

pub fn get_numbers<A: Copy>(g: &NumberGrid<A>, r: usize, c: usize) -> (out: CellNumbers<A>)
    ensures
        out@ == numbers_at(number_grid_view(*g), r as int, c as int),
{
    if r < g.len() && c < g[r].len() {
        let n = &g[r][c];
        CellNumbers {
            amount: match &n.amount {
                Some(a) => Some(a.copy()),
                None => None,
            },
            serial_floor: n.serial_floor,
        }
    } else {
        CellNumbers { amount: None, serial_floor: None }
    }
}

// ---------------------------------------------------------------------------
// Amount text
// ---------------------------------------------------------------------------

/// `s` with every non-overlapping occurrence of `p` removed, scanning from
/// the left (`str::replace(p, "")` for a non-empty `p`).
pub open spec fn remove_all(s: Seq<char>, p: Seq<char>) -> Seq<char>
    decreases s.len(),
{
    if s.len() == 0 || p.len() == 0 {
        s
    } else if p.is_prefix_of(s) {
        remove_all(s.subrange(p.len() as int, s.len() as int), p)
    } else {
        seq![s[0]] + remove_all(s.subrange(1, s.len() as int), p)
    }
}

fn remove_text(s: &str, p: &str) -> (out: String)
    requires
        p@.len() > 0,
    ensures
        out@ == remove_all(s@, p@),
{
    let cs = chars_of(s);
    let ps = chars_of(p);
    let mut out = String::new();
    let mut i: usize = 0;
    assert(cs@.subrange(0, cs@.len() as int) =~= cs@);
    while i < cs.len()
        invariant
            i <= cs.len(),
            cs@ == s@,
            ps@ == p@,
            ps@.len() > 0,
            out@ + remove_all(cs@.subrange(i as int, cs@.len() as int), p@) == remove_all(s@, p@),
        decreases cs.len() - i,
    {
        let ghost rest = cs@.subrange(i as int, cs@.len() as int);
        let mut matches = ps.len() <= cs.len() - i;
        let mut j: usize = 0;
        while matches && j < ps.len()
            invariant
                j <= ps.len(),
                i < cs.len(),
                cs@ == s@,
                ps@ == p@,
                matches ==> i + ps@.len() <= cs@.len(),
                matches ==> forall|k: int| 0 <= k < j ==> cs@[i + k] == ps@[k],
                !matches ==> !p@.is_prefix_of(rest),
                rest == cs@.subrange(i as int, cs@.len() as int),
            decreases ps.len() - j, (if matches { 1int } else { 0int }),
        {
            if cs[i + j] != ps[j] {
                matches = false;
                assert(rest[j as int] != p@[j as int]);
            } else {
                j = j + 1;
            }
        }
        if matches {
            assert(p@.is_prefix_of(rest)) by {
                assert(rest.subrange(0, p@.len() as int) =~= p@);
            }
            assert(rest.subrange(p@.len() as int, rest.len() as int) =~= cs@.subrange(
                i + p@.len(),
                cs@.len() as int,
            ));
            i = i + ps.len();
        } else {
            assert(rest.subrange(1, rest.len() as int) =~= cs@.subrange(i + 1, cs@.len() as int));
            let ghost before = out@;
            push_char(&mut out, cs[i]);
            assert(out@ + remove_all(cs@.subrange(i + 1, cs@.len() as int), p@) =~= before + (seq![
                rest[0],
            ] + remove_all(rest.subrange(1, rest.len() as int), p@)));
            i = i + 1;
        }
    }
    assert(cs@.subrange(cs@.len() as int, cs@.len() as int) =~= Seq::<char>::empty());
    assert(out@ + Seq::<char>::empty() =~= out@);
    out
}

/// The text of an amount ready to be read as a number: trimmed; nothing for
/// an empty cell or a dash; the euro sign, `EUR` and spaces removed; when it
/// has a decimal comma, dots (thousands separators) dropped and the comma
/// made a dot.
pub open spec fn clean_amount_spec(s: Seq<char>) -> Option<Seq<char>> {
    let t = trim_spec(s);
    if t.len() == 0 || t == "-"@ || t == "--"@ {
        None
    } else {
        let c = remove_char_spec(remove_all(remove_char_spec(t, '\u{20AC}'), "EUR"@), ' ');
        if c.contains(',') {
            Some(replace_char_spec(remove_char_spec(c, '.'), ',', '.'))
        } else {
            Some(c)
        }
    }
}

pub fn clean_amount_text(s: &str) -> (out: Option<String>)
    ensures
        crate::records::opt_view(out) == clean_amount_spec(s@),
{
    let t = trim(s);
    if t.unicode_len() == 0 || same(t.as_str(), "-") || same(t.as_str(), "--") {
        return None;
    }
    proof {
        reveal_strlit("EUR");
    }
    let a = remove_char(t.as_str(), '\u{20AC}');
    let b = remove_text(a.as_str(), "EUR");
    let c = remove_char(b.as_str(), ' ');
    let cs = chars_of(c.as_str());
    let mut has_comma = false;
    let mut i: usize = 0;
    while i < cs.len()
        invariant
            i <= cs.len(),
            cs@ == c@,
            has_comma == exists|k: int| 0 <= k < i && cs@[k] == ',',
        decreases cs.len() - i,
    {
        if cs[i] == ',' {
            has_comma = true;
        }
        i = i + 1;
    }
    if has_comma {
        let d = remove_char(c.as_str(), '.');
        Some(replace_char(d.as_str(), ',', '.'))
    } else {
        Some(c)
    }
}

// ---------------------------------------------------------------------------
// Dates
// ---------------------------------------------------------------------------

/// The date chrono's `NaiveDate` `checked_add_signed` gives for `date` plus
/// `days` days, if any.
pub uninterp spec fn chrono_add_days(date: Date, days: i64) -> Option<Date>;

/// chrono `NaiveDate::checked_add_signed` with `TimeDelta::try_days`:
/// names its result.
#[verifier::external_body]
fn add_days(date: &Date, days: i64) -> (out: Option<Date>)
    ensures
        out == chrono_add_days(*date, days),
{
    let base = chrono::NaiveDate::from_ymd_opt(date.year, date.month, date.day)?;
    let d = base.checked_add_signed(chrono::TimeDelta::try_days(days)?)?;
    Some(Date { year: d.year(), month: d.month(), day: d.day() })
}

/// Day-first, then ISO, then dotted: the first format that reads the
/// trimmed text.
pub open spec fn parse_date_spec(s: Seq<char>) -> Option<Date> {
    let t = trim_spec(s);
    if chrono_date(t, "%d/%m/%Y"@) is Some {
        chrono_date(t, "%d/%m/%Y"@)
    } else if chrono_date(t, "%d-%m-%Y"@) is Some {
        chrono_date(t, "%d-%m-%Y"@)
    } else if chrono_date(t, "%Y-%m-%d"@) is Some {
        chrono_date(t, "%Y-%m-%d"@)
    } else {
        chrono_date(t, "%d.%m.%Y"@)
    }
}

pub fn parse_date(s: &str) -> (r: Option<Date>)
    ensures
        r == parse_date_spec(s@),
{
    let t = trim(s);
    if let Some(d) = parse_date_fmt(t.as_str(), "%d/%m/%Y") {
        return Some(d);
    }
    if let Some(d) = parse_date_fmt(t.as_str(), "%d-%m-%Y") {
        return Some(d);
    }
    if let Some(d) = parse_date_fmt(t.as_str(), "%Y-%m-%d") {
        return Some(d);
    }
    parse_date_fmt(t.as_str(), "%d.%m.%Y")
}

pub open spec fn excel_epoch() -> Date {
    Date { year: 1899, month: 12, day: 30 }
}

/// A spreadsheet serial in `1..100000` counts days from 1899-12-30;
/// otherwise the text is read as a date.
pub open spec fn date_or_serial_spec(s: Seq<char>, serial_floor: Option<i64>) -> Option<Date> {
    match serial_floor {
        Some(days) => if 1 <= days <= 99999 && chrono_add_days(excel_epoch(), days) is Some {
            chrono_add_days(excel_epoch(), days)
        } else {
            parse_date_spec(s)
        },
        None => parse_date_spec(s),
    }
}

pub fn parse_date_or_serial(s: &str, serial_floor: Option<i64>) -> (r: Option<Date>)
    ensures
        r == date_or_serial_spec(s@, serial_floor),
{
    if let Some(days) = serial_floor {
        if 1 <= days && days <= 99999 {
            let epoch = Date { year: 1899, month: 12, day: 30 };
            if let Some(d) = add_days(&epoch, days) {
                return Some(d);
            }
        }
    }
    parse_date(s)
}

/// A header that names the valuation date of a portfolio.
pub open spec fn is_portfolio_date_header_spec(text: Seq<char>) -> bool {
    let t = trim_spec(text);
    t == "data"@ || contains_spec(t, "data valoriz"@) || contains_spec(t, "data riferimento"@)
        || contains_spec(t, "as of"@)
}

pub fn is_portfolio_date_header(text: &str) -> (r: bool)
    ensures
        r == is_portfolio_date_header_spec(text@),
{
    let t = trim(text);
    same(t.as_str(), "data") || contains(t.as_str(), "data valoriz") || contains(
        t.as_str(),
        "data riferimento",
    ) || contains(t.as_str(), "as of")
}

// ---------------------------------------------------------------------------
// Direction and identifiers
// ---------------------------------------------------------------------------

/// `(type, from, to)` of a flow on `account`: money in when the amount is
/// not negative.
pub open spec fn direction_spec(account_id: Seq<char>, sign: Sign) -> (Seq<char>, Seq<char>, Seq<char>) {
    if sign.ge_zero() {
        ("income"@, "EXTERNAL_PAYER"@, account_id)
    } else {
        ("expense"@, account_id, "EXTERNAL_PAYEE"@)
    }
}

pub fn determine_transaction_type(account_id: &str, sign: Sign) -> (r: (String, String, String))
    ensures
        (r.0@, r.1@, r.2@) == direction_spec(account_id@, sign),
{
    if sign.is_non_negative() {
        (owned("income"), owned("EXTERNAL_PAYER"), owned(account_id))
    } else {
        (owned("expense"), owned(account_id), owned("EXTERNAL_PAYEE"))
    }
}

/// Fees, charges and taxes are always expenses.
pub open spec fn force_expense_spec(desc: Seq<char>) -> bool {
    let d = unicode_lower(desc);
    contains_spec(d, "canone"@) || contains_spec(d, "spese"@) || contains_spec(d, "imposta"@)
}

pub fn intesa_force_expense(desc: &str) -> (r: bool)
    ensures
        r == force_expense_spec(desc@),
{
    let d = to_lowercase(desc);
    contains(d.as_str(), "canone") || contains(d.as_str(), "spese") || contains(d.as_str(), "imposta")
}

/// The text hashed into a transaction identifier.
pub open spec fn txn_key(
    prefix: Seq<char>,
    date: Date,
    amount_text: Seq<char>,
    currency: Seq<char>,
    description: Seq<char>,
) -> Seq<char> {
    prefix + "|"@ + iso_text(date) + "|"@ + amount_text + "|"@ + trim_spec(currency) + "|"@
        + trim_spec(description)
}

/// `"<prefix>-<24 hex digits of SHA-256(key)>"`.
pub open spec fn txn_id_spec(
    prefix: Seq<char>,
    date: Date,
    amount_text: Seq<char>,
    currency: Seq<char>,
    description: Seq<char>,
) -> Seq<char> {
    prefix + "-"@ + hex_spec(
        sha256(utf8(txn_key(prefix, date, amount_text, currency, description))).take(12),
    )
}

/// Identifier of a transaction; `amount_text` is its magnitude with eight
/// decimals.
pub fn make_txn_id(prefix: &str, date: &Date, amount_text: &str, currency: &str, description: &str) -> (out:
    String)
    ensures
        out@ == txn_id_spec(prefix@, *date, amount_text@, currency@, description@),
{
    let mut key = owned(prefix);
    key.append("|");
    key.append(iso_date(date).as_str());
    key.append("|");
    key.append(amount_text);
    key.append("|");
    key.append(trim(currency).as_str());
    key.append("|");
    key.append(trim(description).as_str());
    prefixed_digest_id(prefix, key.as_str(), 12)
}

/// A sheet of a workbook: the text of its cells by row and what was parsed
/// from each cell.
pub struct IntesaSheet<A> {
    pub cells: Grid,
    pub nums: NumberGrid<A>,
}

pub open spec fn sheet_views<A>(sheets: Seq<Option<IntesaSheet<A>>>) -> Seq<
    Option<(Seq<Seq<Seq<char>>>, Seq<Seq<CellNumbersV<A>>>)>,
> {
    sheets.map_values(
        |s: Option<IntesaSheet<A>>|
            match s {
                Some(sh) => Some((grid_view(sh.cells), number_grid_view(sh.nums))),
                None => None,
            },
    )
}

} // verus!
