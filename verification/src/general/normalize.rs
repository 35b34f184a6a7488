//! Text normalization for the general (AI-assisted) importer: cell text,
//! account identifiers, ISO dates, header names and the JSON object an AI
//! reply carries.
use vstd::prelude::*;

use crate::money::Sign;
use crate::text::{
    ascii_upper_char, chars_of, collapse_whitespace, collapse_ws, concat3, decimal, decimal_string,
    in_set, is_ascii_alnum, is_digit, lead_end, owned, push_char, replace_char, replace_char_spec,
    same, string_of, string_of_range, trail_start, trim_set, trim_with, views, TrimSet,
};

verus! {

broadcast use vstd::string::group_string_axioms;

/// No-break spaces and line breaks become spaces, then runs of white space
/// collapse to single spaces with none at either end.
pub open spec fn normalize_text_spec(input: Seq<char>) -> Seq<char> {
    collapse_ws(
        replace_char_spec(
            replace_char_spec(replace_char_spec(input, '\u{00A0}', ' '), '\r', ' '),
            '\n',
            ' ',
        ),
    )
}

pub fn normalize_text(input: &str) -> (out: String)
    ensures
        out@ == normalize_text_spec(input@),
{
    let a = replace_char(input, '\u{00A0}', ' ');
    let b = replace_char(a.as_str(), '\r', ' ');
    let c = replace_char(b.as_str(), '\n', ' ');
    collapse_whitespace(c.as_str())
}

/// ASCII letters and digits upper-cased; anything else becomes `_`.
pub open spec fn account_char(c: char) -> char {
    if is_ascii_alnum(c) {
        ascii_upper_char(c)
    } else {
        '_'
    }
}

/// The normalized text with every character mapped by [`account_char`], then
/// stripped of leading and trailing `_`.
pub open spec fn normalize_account_id_spec(raw: Seq<char>) -> Seq<char> {
    trim_set(normalize_text_spec(raw).map_values(|c: char| account_char(c)), TrimSet::Only('_'))
}

pub fn normalize_account_id(raw: &str) -> (out: String)
    ensures
        out@ == normalize_account_id_spec(raw@),
{
    let text = normalize_text(raw);
    let cs = chars_of(text.as_str());
    let mut mapped = String::new();
    let mut i: usize = 0;
    while i < cs.len()
        invariant
            i <= cs.len(),
            cs@ == text@,
            mapped@ == cs@.take(i as int).map_values(|c: char| account_char(c)),
        decreases cs.len() - i,
    {
        let c = cs[i];
        let m = if ('0' <= c && c <= '9') || ('A' <= c && c <= 'Z') {
            c
        } else if 'a' <= c && c <= 'z' {
            ((c as u8) - 32) as char
        } else {
            '_'
        };
        push_char(&mut mapped, m);
        assert(cs@.take(i + 1).map_values(|c: char| account_char(c)) =~= cs@.take(
            i as int,
        ).map_values(|c: char| account_char(c)).push(m));
        i = i + 1;
    }
    assert(cs@.take(cs.len() as int) =~= cs@);
    trim_with(mapped.as_str(), TrimSet::Only('_'))
}

/// A normalized account identifier is made of upper-case ASCII letters,
/// digits and `_`, and neither starts nor ends with `_`.
pub proof fn lemma_account_id_shape(raw: Seq<char>)
    ensures
        ({
            let id = normalize_account_id_spec(raw);
            &&& forall|i: int|
                0 <= i < id.len() ==> ({
                    let c = #[trigger] id[i];
                    ('A' <= c && c <= 'Z') || is_digit(c) || c == '_'
                })
            &&& id.len() > 0 ==> id[0] != '_' && id[id.len() - 1] != '_'
        }),
{
    let m = normalize_text_spec(raw).map_values(|c: char| account_char(c));
    let set = TrimSet::Only('_');
    let a = lead_end(m, set, 0);
    crate::text::lemma_lead_end_stops(m, set, 0);
    crate::text::lemma_trail_start_stops(m, set, a, m.len() as int);
    let b = trail_start(m, set, a, m.len() as int);
    let id = m.subrange(a, b);
    assert forall|i: int| 0 <= i < id.len() implies ({
        let c = #[trigger] id[i];
        ('A' <= c && c <= 'Z') || is_digit(c) || c == '_'
    }) by {
        assert(id[i] == m[a + i]);
        let c = normalize_text_spec(raw)[a + i];
        assert(m[a + i] == account_char(c));
    }
}

/// Ten characters shaped `DDDD-DD-DD` with ASCII digits. (Such text is ASCII,
/// so its ten characters are ten bytes.)
pub open spec fn iso_date_shape(date: Seq<char>) -> bool {
    date.len() == 10 && forall|i: int|
        0 <= i < 10 ==> if i == 4 || i == 7 {
            #[trigger] date[i] == '-'
        } else {
            is_digit(date[i])
        }
}

pub fn looks_like_iso_date(date: &str) -> (r: bool)
    ensures
        r == iso_date_shape(date@),
{
    let cs = chars_of(date);
    if cs.len() != 10 {
        return false;
    }
    let mut i: usize = 0;
    while i < 10
        invariant
            i <= 10,
            cs@ == date@,
            cs@.len() == 10,
            forall|k: int|
                0 <= k < i ==> if k == 4 || k == 7 {
                    #[trigger] cs@[k] == '-'
                } else {
                    is_digit(cs@[k])
                },
        decreases 10 - i,
    {
        let c = cs[i];
        let ok = if i == 4 || i == 7 {
            c == '-'
        } else {
            '0' <= c && c <= '9'
        };
        if !ok {
            assert(!(if i == 4 || i == 7 {
                date@[i as int] == '-'
            } else {
                is_digit(date@[i as int])
            }));
            return false;
        }
        i = i + 1;
    }
    true
}

/// The type assumed when none is given: `expense` for an amount that is not
/// negative, `income` otherwise (a `NaN` amount included).
pub open spec fn type_from_sign(sign: Sign) -> Seq<char> {
    if sign.ge_zero() {
        "expense"@
    } else {
        "income"@
    }
}

pub fn infer_type_from_amount(sign: Sign) -> (out: String)
    ensures
        out@ == type_from_sign(sign),
{
    if sign.is_non_negative() {
        owned("expense")
    } else {
        owned("income")
    }
}

pub open spec fn default_from_spec(parser_account_id: Seq<char>, tx_type: Seq<char>) -> Seq<char> {
    if tx_type == "income"@ {
        "EXTERNAL_PAYER"@
    } else {
        parser_account_id
    }
}

pub open spec fn default_to_spec(parser_account_id: Seq<char>, tx_type: Seq<char>) -> Seq<char> {
    if tx_type == "income"@ {
        parser_account_id
    } else {
        "EXTERNAL_PAYEE"@
    }
}

/// Source account when the AI named none: the payer for income, else the
/// parser's account.
pub fn default_from_account(parser_account_id: &str, tx_type: &str) -> (out: String)
    ensures
        out@ == default_from_spec(parser_account_id@, tx_type@),
{
    if same(tx_type, "income") {
        owned("EXTERNAL_PAYER")
    } else {
        owned(parser_account_id)
    }
}

/// Destination account when the AI named none: the parser's account for
/// income, else the payee.
pub fn default_to_account(parser_account_id: &str, tx_type: &str) -> (out: String)
    ensures
        out@ == default_to_spec(parser_account_id@, tx_type@),
{
    if same(tx_type, "income") {
        owned(parser_account_id)
    } else {
        owned("EXTERNAL_PAYEE")
    }
}

/// How many of the first `k` headers equal `x`.
pub open spec fn count_eq(h: Seq<Seq<char>>, x: Seq<char>, k: int) -> nat
    decreases k,
{
    if k <= 0 {
        0
    } else {
        count_eq(h, x, k - 1) + if h[k - 1] == x {
            1nat
        } else {
            0nat
        }
    }
}

/// The `n`-th occurrence of a header (counting from 1) keeps its name for
/// `n == 1` and becomes `<name>_<n>` after.
pub open spec fn uniquified(h: Seq<Seq<char>>, i: int) -> Seq<char> {
    let n = count_eq(h, h[i], i + 1);
    if n == 1 {
        h[i]
    } else {
        h[i] + "_"@ + decimal(n)
    }
}

proof fn lemma_count_bound(h: Seq<Seq<char>>, x: Seq<char>, k: int)
    requires
        0 <= k <= h.len(),
    ensures
        count_eq(h, x, k) <= k,
    decreases k,
{
    if k > 0 {
        lemma_count_bound(h, x, k - 1);
    }
}

pub fn uniquify_headers(headers: Vec<String>) -> (out: Vec<String>)
    ensures
        out.len() == headers.len(),
        forall|i: int| 0 <= i < out.len() ==> #[trigger] out[i]@ == uniquified(views(headers@), i),
{
    let ghost h = views(headers@);
    let mut out: Vec<String> = Vec::new();
    let mut i: usize = 0;
    while i < headers.len()
        invariant
            i <= headers.len(),
            h == views(headers@),
            out.len() == i,
            forall|k: int| 0 <= k < i ==> #[trigger] out[k]@ == uniquified(h, k),
        decreases headers.len() - i,
    {
        let mut n: usize = 0;
        let mut j: usize = 0;
        while j <= i
            invariant
                j <= i + 1,
                i < headers.len(),
                h == views(headers@),
                n == count_eq(h, h[i as int], j as int),
            decreases i + 1 - j,
        {
            proof {
                lemma_count_bound(h, h[i as int], j as int);
            }
            if same(headers[j].as_str(), headers[i].as_str()) {
                n = n + 1;
            }
            j = j + 1;
        }
        let name = if n == 1 {
            headers[i].clone()
        } else {
            let digits = decimal_string(n);
            concat3(headers[i].as_str(), "_", digits.as_str())
        };
        out.push(name);
        i = i + 1;
    }
    out
}

/// Scan of a JSON object that started at `{`: position `i`, nesting `depth`,
/// inside a string literal or not, after a backslash in a string or not.
/// Gives the index just past the `}` that closes the object.
pub open spec fn json_scan(s: Seq<char>, i: int, depth: int, in_string: bool, escaped: bool) -> Option<
    int,
>
    decreases s.len() - i,
{
    if i < 0 || i >= s.len() {
        None
    } else if escaped {
        json_scan(s, i + 1, depth, in_string, false)
    } else {
        let c = s[i];
        if c == '\\' && in_string {
            json_scan(s, i + 1, depth, in_string, true)
        } else if c == '"' {
            json_scan(s, i + 1, depth, !in_string, false)
        } else if c == '{' && !in_string {
            json_scan(s, i + 1, depth + 1, in_string, false)
        } else if c == '}' && !in_string {
            if depth - 1 == 0 {
                Some(i + 1)
            } else {
                json_scan(s, i + 1, depth - 1, in_string, false)
            }
        } else {
            json_scan(s, i + 1, depth, in_string, false)
        }
    }
}

/// Index of the first `c` in `s`.
pub open spec fn first_index(s: Seq<char>, c: char) -> Option<int> {
    if exists|i: int| 0 <= i < s.len() && s[i] == c {
        Some(choose|i: int| 0 <= i < s.len() && s[i] == c && forall|j: int| 0 <= j < i ==> s[j] != c)
    } else {
        None
    }
}

/// From the first `{` to the `}` that balances it, braces inside string
/// literals not counted.
pub open spec fn first_json_object_spec(text: Seq<char>) -> Option<Seq<char>> {
    match first_index(text, '{') {
        None => None,
        Some(start) => match json_scan(text, start, 0, false, false) {
            Some(end) => Some(text.subrange(start, end)),
            None => None,
        },
    }
}

pub fn extract_first_json_object(text: &str) -> (r: Option<String>)
    ensures
        match r {
            Some(o) => first_json_object_spec(text@) == Some(o@),
            None => first_json_object_spec(text@) is None,
        },
{
    let cs = chars_of(text);
    let mut start: usize = 0;
    while start < cs.len() && cs[start] != '{'
        invariant
            start <= cs.len(),
            cs@ == text@,
            forall|j: int| 0 <= j < start ==> cs@[j] != '{',
        decreases cs.len() - start,
    {
        start = start + 1;
    }
    if start == cs.len() {
        return None;
    }
    proof {
        assert(cs@[start as int] == '{');
        let w = choose|i: int|
            0 <= i < cs@.len() && cs@[i] == '{' && forall|j: int| 0 <= j < i ==> cs@[j] != '{';
        assert(w == start) by {
            if w < start {
                assert(cs@[w] != '{');
            } else if w > start {
                assert(cs@[start as int] != '{');
            }
        }
        assert(first_index(text@, '{') == Some(start as int));
    }
    let mut depth: usize = 0;
    let mut in_string = false;
    let mut escaped = false;
    let mut i: usize = start;
    while i < cs.len()
        invariant
            start <= i <= cs.len(),
            cs@ == text@,
            cs@[start as int] == '{',
            first_index(text@, '{') == Some(start as int),
            json_scan(cs@, start as int, 0, false, false) == json_scan(
                cs@,
                i as int,
                depth as int,
                in_string,
                escaped,
            ),
            (i == start && depth == 0 && !in_string && !escaped) || (i > start && depth >= 1),
            depth <= i - start,
        decreases cs.len() - i,
    {
        let c = cs[i];
        if escaped {
            escaped = false;
        } else if c == '\\' && in_string {
            escaped = true;
        } else if c == '"' {
            in_string = !in_string;
        } else if c == '{' && !in_string {
            depth = depth + 1;
        } else if c == '}' && !in_string {
            if depth == 1 {
                assert(json_scan(cs@, i as int, depth as int, in_string, escaped) == Some(
                    i as int + 1,
                ));
                assert(first_index(text@, '{') == Some(start as int));
                return Some(string_of_range(&cs, start, i + 1));
            }
            depth = depth - 1;
        }
        i = i + 1;
    }
    None
}

/// Where a statement gives no type, a positive (or zero) amount is taken as
/// money spent and a negative one as money received. Where it gives no
/// accounts, income comes from an external payer into the parser's account
/// and anything else leaves the parser's account for an external payee.
pub proof fn lemma_defaults_follow_type(sign: Sign, parser_account_id: Seq<char>, tx_type: Seq<char>)
    ensures
        sign.ge_zero() ==> type_from_sign(sign) == "expense"@,
        sign.lt_zero() ==> type_from_sign(sign) == "income"@,
        tx_type == "income"@ ==> default_from_spec(parser_account_id, tx_type) == "EXTERNAL_PAYER"@
            && default_to_spec(parser_account_id, tx_type) == parser_account_id,
        tx_type != "income"@ ==> default_from_spec(parser_account_id, tx_type) == parser_account_id
            && default_to_spec(parser_account_id, tx_type) == "EXTERNAL_PAYEE"@,
{
}

} // verus!
