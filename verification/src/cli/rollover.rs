//! Rolling a monthly file over to the next month: the next month's label and
//! the name of the file it is written to.
use vstd::prelude::*;

use crate::dates::{date_from_ymd, padded, padded_string, valid_ymd};
use crate::text::{
    chars_of, concat, concat3, decimal, decimal_string, digit_char, digit_value, digits_value, is_digit,
    replace_char, replace_char_spec, split_char, split_spec,
};

verus! {

/// Why a month label could not be rolled over.
pub enum MonthError {
    /// The label is not two parts joined by `-`.
    InvalidFormat { month: String },
    /// The part before `-` is not an `i32`.
    InvalidYear,
    /// The part after `-` is not a `u32`.
    InvalidMonth,
    /// Year and month name no day of the calendar.
    InvalidDate,
}

/// The kind of a [`MonthError`], as contracts speak of it.
pub enum MonthFault {
    Format,
    Year,
    Month,
    Date,
}

pub open spec fn fault_of(e: MonthError) -> MonthFault {
    match e {
        MonthError::InvalidFormat { .. } => MonthFault::Format,
        MonthError::InvalidYear => MonthFault::Year,
        MonthError::InvalidMonth => MonthFault::Month,
        MonthError::InvalidDate => MonthFault::Date,
    }
}

impl MonthError {
    /// The error's message.
    pub fn message(&self) -> (out: String)
        ensures
            out@ == message_text(*self),
    {
        proof {
            reveal_strlit("invalid month format: ");
        }
        match self {
            MonthError::InvalidFormat { month } => concat("invalid month format: ", month.as_str()),
            MonthError::InvalidYear => "invalid year in month".to_string(),
            MonthError::InvalidMonth => "invalid month in month".to_string(),
            MonthError::InvalidDate => "invalid date".to_string(),
        }
    }
}

pub open spec fn message_text(e: MonthError) -> Seq<char> {
    match e {
        MonthError::InvalidFormat { month } => "invalid month format: "@ + month@,
        MonthError::InvalidYear => "invalid year in month"@,
        MonthError::InvalidMonth => "invalid month in month"@,
        MonthError::InvalidDate => "invalid date"@,
    }
}

/// The value of a run of decimal digits, as std reads it: at least one digit.
pub open spec fn digits_text(s: Seq<char>) -> Option<int> {
    if s.len() > 0 && forall|i: int| 0 <= i < s.len() ==> is_digit(#[trigger] s[i]) {
        Some(digits_value(s, 0, s.len() as int))
    } else {
        None
    }
}

/// `s.parse::<i32>()`: an optional `+` or `-`, then digits, within range.
pub open spec fn i32_text(s: Seq<char>) -> Option<int> {
    let v = if s.len() > 0 && s[0] == '-' {
        match digits_text(s.drop_first()) {
            Some(n) => Some(-n),
            None => None,
        }
    } else if s.len() > 0 && s[0] == '+' {
        digits_text(s.drop_first())
    } else {
        digits_text(s)
    };
    match v {
        Some(n) => if i32::MIN <= n <= i32::MAX {
            Some(n)
        } else {
            None
        },
        None => None,
    }
}

/// `s.parse::<u32>()`: an optional `+`, then digits, within range.
pub open spec fn u32_text(s: Seq<char>) -> Option<int> {
    let v = if s.len() > 0 && s[0] == '+' {
        digits_text(s.drop_first())
    } else {
        digits_text(s)
    };
    match v {
        Some(n) => if n <= u32::MAX {
            Some(n)
        } else {
            None
        },
        None => None,
    }
}

/// An integer as `Display` writes it.
pub open spec fn signed_text(n: int) -> Seq<char> {
    if n < 0 {
        seq!['-'] + decimal((-n) as nat)
    } else {
        decimal(n as nat)
    }
}

/// `format!("{}-{:02}", year, month)`.
pub open spec fn month_label(year: int, month: int) -> Seq<char> {
    signed_text(year) + seq!['-'] + padded(month as nat, 2)
}

/// Year and month read from a `YYYY-MM` label, or the first fault found.
pub open spec fn month_fields(s: Seq<char>) -> Result<(int, int), MonthFault> {
    let parts = split_spec(s, '-');
    if parts.len() != 2 {
        Err(MonthFault::Format)
    } else {
        match i32_text(parts[0]) {
            None => Err(MonthFault::Year),
            Some(y) => match u32_text(parts[1]) {
                None => Err(MonthFault::Month),
                Some(m) => if valid_ymd(y, m, 1) {
                    Ok((y, m))
                } else {
                    Err(MonthFault::Date)
                },
            },
        }
    }
}

/// The label of the month after the one `s` names.
pub open spec fn next_month_spec(s: Seq<char>) -> Result<Seq<char>, MonthFault> {
    match month_fields(s) {
        Ok((y, m)) => if m == 12 {
            Ok(month_label(y + 1, 1))
        } else {
            Ok(month_label(y, m + 1))
        },
        Err(f) => Err(f),
    }
}

/// The last month of the calendar's range, whose successor the calendar lacks.
pub open spec fn is_last_month(s: Seq<char>) -> bool {
    month_fields(s) == Ok::<(int, int), MonthFault>((262142, 12))
}

proof fn lemma_digits_nonneg(s: Seq<char>, a: int, i: int)
    requires
        0 <= a <= i <= s.len(),
        forall|k: int| a <= k < i ==> is_digit(#[trigger] s[k]),
    ensures
        0 <= digits_value(s, a, i),
    decreases i - a,
{
    if i > a {
        lemma_digits_nonneg(s, a, i - 1);
    }
}

proof fn lemma_digits_grow(s: Seq<char>, a: int, i: int, b: int)
    requires
        0 <= a <= i <= b <= s.len(),
        forall|k: int| a <= k < b ==> is_digit(#[trigger] s[k]),
    ensures
        digits_value(s, a, i) <= digits_value(s, a, b),
    decreases b - i,
{
    if i < b {
        lemma_digits_grow(s, a, i, b - 1);
        lemma_digits_nonneg(s, a, b - 1);
        assert(digits_value(s, a, b) == digits_value(s, a, b - 1) * 10 + digit_value(s[b - 1]));
    }
}

/// The digits `cs[a..]`, read as a number when they are all digits, there is
/// at least one, and the number is at most `limit`.
fn read_digits(cs: &Vec<char>, a: usize, limit: u64) -> (out: Option<u64>)
    requires
        a <= cs.len(),
        limit <= 4294967296,
    ensures
        match out {
            Some(v) => digits_text(cs@.skip(a as int)) == Some(v as int) && v <= limit,
            None => digits_text(cs@.skip(a as int)) is None || digits_text(cs@.skip(a as int))->0
                > limit,
        },
{
    let ghost s = cs@.skip(a as int);
    let n = cs.len();
    if a >= n {
        return None;
    }
    let mut i: usize = a;
    let mut v: u64 = 0;
    let mut ok = true;
    while i < n && ok
        invariant
            a <= i <= n,
            n == cs.len(),
            s == cs@.skip(a as int),
            limit <= 4294967296,
            ok ==> forall|k: int| a <= k < i ==> is_digit(#[trigger] cs@[k]),
            ok ==> v == digits_value(s, 0, i - a),
            ok ==> v <= limit,
            !ok ==> (digits_text(s) is None || digits_text(s)->0 > limit),
        decreases n - i, (if ok { 1int } else { 0int }),
    {
        let c = cs[i];
        if !('0' <= c && c <= '9') {
            ok = false;
            proof {
                assert(!is_digit(s[i - a]));
            }
        } else {
            proof {
                assert forall|k: int| 0 <= k < i + 1 - a implies is_digit(#[trigger] s[k]) by {
                    assert(s[k] == cs@[k + a]);
                }
                assert(digits_value(s, 0, i + 1 - a) == digits_value(s, 0, i - a) * 10 + digit_value(
                    s[i - a],
                ));
            }
            let d = (c as u32 - '0' as u32) as u64;
            let w = v * 10 + d;
            if w > limit {
                ok = false;
                proof {
                    if digits_text(s) is Some {
                        assert forall|k: int| 0 <= k < s.len() implies is_digit(#[trigger] s[k]) by {}
                        lemma_digits_grow(s, 0, i + 1 - a, s.len() as int);
                    }
                }
            } else {
                v = w;
                i = i + 1;
            }
        }
    }
    if ok {
        proof {
            assert forall|k: int| 0 <= k < s.len() implies is_digit(#[trigger] s[k]) by {
                assert(s[k] == cs@[k + a]);
            }
        }
        Some(v)
    } else {
        None
    }
}

/// `s.parse::<i32>()`.
pub fn parse_i32(s: &str) -> (out: Option<i32>)
    ensures
        match out {
            Some(v) => i32_text(s@) == Some(v as int),
            None => i32_text(s@) is None,
        },
{
    let cs = chars_of(s);
    if cs.len() > 0 && cs[0] == '-' {
        assert(cs@.skip(1) =~= s@.drop_first());
        match read_digits(&cs, 1, 2147483648) {
            Some(n) => Some((0i64 - n as i64) as i32),
            None => None,
        }
    } else if cs.len() > 0 && cs[0] == '+' {
        assert(cs@.skip(1) =~= s@.drop_first());
        match read_digits(&cs, 1, 2147483647) {
            Some(n) => Some(n as i32),
            None => None,
        }
    } else {
        assert(cs@.skip(0) =~= s@);
        match read_digits(&cs, 0, 2147483647) {
            Some(n) => Some(n as i32),
            None => None,
        }
    }
}

/// `s.parse::<u32>()`.
pub fn parse_u32(s: &str) -> (out: Option<u32>)
    ensures
        match out {
            Some(v) => u32_text(s@) == Some(v as int),
            None => u32_text(s@) is None,
        },
{
    let cs = chars_of(s);
    if cs.len() > 0 && cs[0] == '+' {
        assert(cs@.skip(1) =~= s@.drop_first());
        match read_digits(&cs, 1, 4294967295) {
            Some(n) => Some(n as u32),
            None => None,
        }
    } else {
        assert(cs@.skip(0) =~= s@);
        match read_digits(&cs, 0, 4294967295) {
            Some(n) => Some(n as u32),
            None => None,
        }
    }
}

/// `format!("{}-{:02}", year, month)`.
pub fn format_month(year: i32, month: u32) -> (out: String)
    requires
        -262143 <= year <= 262143,
        1 <= month <= 12,
    ensures
        out@ == month_label(year as int, month as int),
{
    proof {
        reveal_strlit("-");
    }
    let y = if year < 0 {
        let digits = decimal_string((0 - year) as usize);
        concat("-", digits.as_str())
    } else {
        decimal_string(year as usize)
    };
    let m = padded_string(month, 2);
    concat3(y.as_str(), "-", m.as_str())
}

/// Whether `month_str` names the last month of the calendar's range
/// (`262142-12`), which has no month after it to roll over to.
pub fn is_last_month_label(month_str: &str) -> (r: bool)
    ensures
        r == is_last_month(month_str@),
{
    let parts = split_char(month_str, '-');
    if parts.len() != 2 {
        return false;
    }
    let y = match parse_i32(parts[0].as_str()) {
        Some(y) => y,
        None => return false,
    };
    let m = match parse_u32(parts[1].as_str()) {
        Some(m) => m,
        None => return false,
    };
    if y == 262142 && m == 12 {
        assert(valid_ymd(262142, 12, 1));
        true
    } else {
        false
    }
}

/// The label of the month after `month_str` (`YYYY-MM`), in the same shape.
pub fn next_month_string(month_str: &str) -> (out: Result<String, MonthError>)
    requires
        !is_last_month(month_str@),
    ensures
        match out {
            Ok(t) => next_month_spec(month_str@) == Ok::<Seq<char>, MonthFault>(t@),
            Err(e) => next_month_spec(month_str@) == Err::<Seq<char>, MonthFault>(fault_of(e))
                && (e matches MonthError::InvalidFormat { month } ==> month@ == month_str@),
        },
{
    let parts = split_char(month_str, '-');
    if parts.len() != 2 {
        return Err(MonthError::InvalidFormat { month: month_str.to_string() });
    }
    let y = match parse_i32(parts[0].as_str()) {
        Some(y) => y,
        None => return Err(MonthError::InvalidYear),
    };
    let m = match parse_u32(parts[1].as_str()) {
        Some(m) => m,
        None => return Err(MonthError::InvalidMonth),
    };
    match date_from_ymd(y, m, 1) {
        Some(_) => {},
        None => return Err(MonthError::InvalidDate),
    }
    let next = if m == 12 {
        date_from_ymd(y + 1, 1, 1).unwrap()
    } else {
        date_from_ymd(y, m + 1, 1).unwrap()
    };
    Ok(format_month(next.year, next.month))
}

/// `<next month with '_' for '-'>.json`: the file a rolled-over month is
/// written to, beside its input.
pub fn output_file_name(next_month: &str) -> (out: String)
    ensures
        out@ == replace_char_spec(next_month@, '-', '_') + ".json"@,
{
    let base = replace_char(next_month, '-', '_');
    concat(base.as_str(), ".json")
}

// ---------------------------------------------------------------------------
// A rolled-over label reads back as the month after
// ---------------------------------------------------------------------------

/// The month after `(y, m)`.
pub open spec fn successor(y: int, m: int) -> (int, int) {
    if m == 12 {
        (y + 1, 1)
    } else {
        (y, m + 1)
    }
}

proof fn lemma_split_free(s: Seq<char>, sep: char)
    requires
        !s.contains(sep),
    ensures
        split_spec(s, sep) == seq![s],
    decreases s.len(),
{
    if s.len() == 0 {
        assert(s =~= Seq::<char>::empty());
        assert(split_spec(s, sep) =~= seq![s]);
    } else {
        let init = s.drop_last();
        assert(!init.contains(sep)) by {
            if init.contains(sep) {
                let k = choose|k: int| 0 <= k < init.len() && init[k] == sep;
                assert(s[k] == sep);
            }
        }
        lemma_split_free(init, sep);
        assert(s.last() != sep) by {
            assert(s[s.len() - 1] == s.last());
        }
        assert(init.push(s.last()) =~= s);
    }
}

proof fn lemma_split_two(a: Seq<char>, b: Seq<char>, sep: char)
    requires
        !a.contains(sep),
        !b.contains(sep),
    ensures
        split_spec(a + seq![sep] + b, sep) == seq![a, b],
    decreases b.len(),
{
    let s = a + seq![sep] + b;
    if b.len() == 0 {
        assert(s.drop_last() =~= a);
        assert(s.len() > 0 && s.last() == sep);
        assert(b =~= Seq::<char>::empty());
        lemma_split_free(a, sep);
        assert(split_spec(s, sep) =~= seq![a, b]);
    } else {
        let b0 = b.drop_last();
        assert(!b0.contains(sep)) by {
            if b0.contains(sep) {
                let k = choose|k: int| 0 <= k < b0.len() && b0[k] == sep;
                assert(b[k] == sep);
            }
        }
        lemma_split_two(a, b0, sep);
        assert(s.drop_last() =~= a + seq![sep] + b0);
        assert(s.last() == b.last());
        assert(b.last() != sep) by {
            assert(b[b.len() - 1] == b.last());
        }
        assert(b0.push(b.last()) =~= b);
        assert(split_spec(s, sep) =~= seq![a, b]);
    }
}

proof fn lemma_split_first_free(s: Seq<char>, sep: char)
    ensures
        !split_spec(s, sep)[0].contains(sep),
        split_spec(s, sep).len() >= 1,
    decreases s.len(),
{
    if s.len() > 0 {
        lemma_split_first_free(s.drop_last(), sep);
        let prev = split_spec(s.drop_last(), sep);
        if s.last() != sep && prev.len() == 1 {
            let p = prev[0].push(s.last());
            assert(!p.contains(sep)) by {
                if p.contains(sep) {
                    let k = choose|k: int| 0 <= k < p.len() && p[k] == sep;
                    if k < prev[0].len() {
                        assert(prev[0][k] == sep);
                    }
                }
            }
        }
    }
}

proof fn lemma_digits_same_prefix(s: Seq<char>, t: Seq<char>, b: int)
    requires
        0 <= b <= s.len(),
        b <= t.len(),
        forall|i: int| 0 <= i < b ==> s[i] == t[i],
    ensures
        digits_value(s, 0, b) == digits_value(t, 0, b),
    decreases b,
{
    if b > 0 {
        lemma_digits_same_prefix(s, t, b - 1);
    }
}

proof fn lemma_digit_char(d: nat)
    requires
        d < 10,
    ensures
        is_digit(digit_char(d)),
        digit_value(digit_char(d)) == d,
{
    assert(((d + 48) as u8) as char as int == d + 48);
}

/// `decimal(n)` reads back as `n`: digits only, at least one.
proof fn lemma_decimal_reads(n: nat)
    ensures
        decimal(n).len() >= 1,
        decimal(n).len() == 1 <==> n < 10,
        forall|i: int| 0 <= i < decimal(n).len() ==> is_digit(#[trigger] decimal(n)[i]),
        digits_value(decimal(n), 0, decimal(n).len() as int) == n,
    decreases n,
{
    if n < 10 {
        lemma_digit_char(n);
        assert(digits_value(decimal(n), 0, 0) == 0);
    } else {
        let p = decimal(n / 10);
        lemma_decimal_reads(n / 10);
        lemma_digit_char(n % 10);
        let s = decimal(n);
        assert(s == p.push(digit_char(n % 10)));
        assert forall|i: int| 0 <= i < s.len() implies is_digit(#[trigger] s[i]) by {
            if i < p.len() {
                assert(s[i] == p[i]);
            }
        }
        lemma_digits_same_prefix(s, p, p.len() as int);
        assert(digits_value(s, 0, s.len() as int) == digits_value(s, 0, p.len() as int) * 10 + digit_value(
            s[p.len() as int],
        ));
    }
}

proof fn lemma_no_dash_in_digits(s: Seq<char>)
    requires
        forall|i: int| 0 <= i < s.len() ==> is_digit(#[trigger] s[i]),
    ensures
        !s.contains('-'),
{
    if s.contains('-') {
        let k = choose|k: int| 0 <= k < s.len() && s[k] == '-';
        assert(is_digit(s[k]));
    }
}

/// A two-character zero-padded month reads back as the month.
proof fn lemma_padded_month_reads(m: nat)
    requires
        1 <= m <= 12,
    ensures
        u32_text(padded(m, 2)) == Some(m as int),
        !padded(m, 2).contains('-'),
{
    lemma_decimal_reads(m);
    let d = decimal(m);
    let t = padded(m, 2);
    if m < 10 {
        assert(padded(m, 1) == d);
        assert(t == seq!['0'] + d);
        assert(t.len() == 2);
        assert(t[0] == '0' && t[1] == d[0]);
        assert(is_digit(t[0]) && is_digit(t[1]));
        assert(digits_value(t, 0, 0) == 0);
        assert(digit_value(t[0]) == 0);
        assert(digits_value(t, 0, 1) == 0);
        assert(digits_value(d, 0, 1) == digit_value(d[0]));
        assert(digits_value(t, 0, 2) == m);
        assert forall|i: int| 0 <= i < t.len() implies is_digit(#[trigger] t[i]) by {}
        lemma_no_dash_in_digits(t);
    } else {
        assert(t == d);
        lemma_no_dash_in_digits(t);
    }
    assert(t[0] != '+');
}

proof fn lemma_digits_text_nonneg(x: Seq<char>)
    ensures
        digits_text(x) matches Some(n) ==> n >= 0,
{
    if digits_text(x) is Some {
        lemma_digits_nonneg(x, 0, x.len() as int);
    }
}

/// A non-negative year within range reads back as itself.
proof fn lemma_year_reads(y: nat)
    requires
        y <= 262143,
    ensures
        i32_text(decimal(y)) == Some(y as int),
        !decimal(y).contains('-'),
{
    lemma_decimal_reads(y);
    lemma_no_dash_in_digits(decimal(y));
    assert(decimal(y)[0] != '-' && decimal(y)[0] != '+');
}

/// A label rolled over reads back, field by field, as the month after the
/// one it came from, so it can be rolled over in turn.
pub proof fn lemma_next_label_reads_back(s: Seq<char>)
    requires
        month_fields(s) is Ok,
        !is_last_month(s),
    ensures
        ({
            let (y, m) = month_fields(s)->Ok_0;
            &&& next_month_spec(s) == Ok::<Seq<char>, MonthFault>(
                month_label(successor(y, m).0, successor(y, m).1),
            )
            &&& month_fields(month_label(successor(y, m).0, successor(y, m).1)) == Ok::<
                (int, int),
                MonthFault,
            >(successor(y, m))
        }),
{
    let (y, m) = month_fields(s)->Ok_0;
    let parts = split_spec(s, '-');
    lemma_split_first_free(s, '-');
    assert(parts[0].len() == 0 || parts[0][0] != '-') by {
        if parts[0].len() > 0 && parts[0][0] == '-' {
            assert(parts[0].contains('-'));
        }
    }
    let p0 = parts[0];
    if p0.len() > 0 && p0[0] == '+' {
        lemma_digits_text_nonneg(p0.drop_first());
    } else {
        lemma_digits_text_nonneg(p0);
    }
    assert(y >= 0);
    let (ny, nm) = successor(y, m);
    assert(0 <= ny <= 262142);
    assert(1 <= nm <= 12);
    lemma_year_reads(ny as nat);
    lemma_padded_month_reads(nm as nat);
    let label = month_label(ny, nm);
    assert(signed_text(ny) == decimal(ny as nat));
    assert(label == decimal(ny as nat) + seq!['-'] + padded(nm as nat, 2));
    lemma_split_two(decimal(ny as nat), padded(nm as nat, 2), '-');
    assert(valid_ymd(ny, nm, 1));
}

} // verus!
