//! Character-level text primitives shared by every importer: trimming,
//! case folding, substring search, whitespace collapsing and decimal
//! rendering of counters.
use vstd::prelude::*;

verus! {

broadcast use vstd::string::group_string_axioms;

// ---------------------------------------------------------------------------
// Specifications
// ---------------------------------------------------------------------------

/// Unicode `White_Space`, the property behind `char::is_whitespace`.
pub open spec fn is_ws(c: char) -> bool {
    ||| c == '\t' || c == '\n' || c == '\x0B' || c == '\x0C' || c == '\r' || c == ' '
    ||| c == '\u{85}' || c == '\u{A0}' || c == '\u{1680}'
    ||| ('\u{2000}' <= c && c <= '\u{200A}')
    ||| c == '\u{2028}' || c == '\u{2029}' || c == '\u{202F}' || c == '\u{205F}' || c == '\u{3000}'
}

/// A set of characters that trimming removes.
pub enum TrimSet {
    Whitespace,
    Only(char),
}

pub open spec fn in_set(set: TrimSet, c: char) -> bool {
    match set {
        TrimSet::Whitespace => is_ws(c),
        TrimSet::Only(x) => c == x,
    }
}

/// End of the run of `set` characters that starts at `i`.
pub open spec fn lead_end(s: Seq<char>, set: TrimSet, i: int) -> int
    decreases s.len() - i,
{
    if 0 <= i < s.len() && in_set(set, s[i]) {
        lead_end(s, set, i + 1)
    } else {
        i
    }
}

/// Start of the run of `set` characters that ends at `j`, not going below `lo`.
pub open spec fn trail_start(s: Seq<char>, set: TrimSet, lo: int, j: int) -> int
    decreases j - lo,
{
    if lo < j <= s.len() && in_set(set, s[j - 1]) {
        trail_start(s, set, lo, j - 1)
    } else {
        j
    }
}

/// `s` without its leading and trailing characters of `set`.
pub open spec fn trim_set(s: Seq<char>, set: TrimSet) -> Seq<char> {
    let a = lead_end(s, set, 0);
    s.subrange(a, trail_start(s, set, a, s.len() as int))
}

/// `str::trim`: no leading or trailing white space.
pub open spec fn trim_spec(s: Seq<char>) -> Seq<char> {
    trim_set(s, TrimSet::Whitespace)
}

/// `s` without its trailing characters of `set`.
pub open spec fn trim_end_set(s: Seq<char>, set: TrimSet) -> Seq<char> {
    s.subrange(0, trail_start(s, set, 0, s.len() as int))
}

/// `p` occurs in `s` starting at index `i`.
pub open spec fn occurs_at(s: Seq<char>, p: Seq<char>, i: int) -> bool {
    0 <= i && i + p.len() <= s.len() && s.subrange(i, i + p.len()) == p
}

/// `str::contains` with a string pattern.
pub open spec fn contains_spec(s: Seq<char>, p: Seq<char>) -> bool {
    exists|i: int| #[trigger] occurs_at(s, p, i)
}

/// Index of the first occurrence of `p` in `s`.
pub open spec fn is_first_occurrence(s: Seq<char>, p: Seq<char>, i: int) -> bool {
    occurs_at(s, p, i) && forall|j: int| 0 <= j < i ==> !#[trigger] occurs_at(s, p, j)
}

pub open spec fn ascii_lower_char(c: char) -> char {
    if 'A' <= c && c <= 'Z' {
        (((c as u8) + 32) as u8) as char
    } else {
        c
    }
}

pub open spec fn ascii_upper_char(c: char) -> char {
    if 'a' <= c && c <= 'z' {
        (((c as u8) - 32) as u8) as char
    } else {
        c
    }
}

pub open spec fn ascii_lower(s: Seq<char>) -> Seq<char> {
    Seq::new(s.len(), |i: int| ascii_lower_char(s[i]))
}

pub open spec fn ascii_upper(s: Seq<char>) -> Seq<char> {
    Seq::new(s.len(), |i: int| ascii_upper_char(s[i]))
}

pub open spec fn is_ascii_chars(s: Seq<char>) -> bool {
    forall|i: int| 0 <= i < s.len() ==> (#[trigger] s[i] as u32) < 128
}

/// `str::eq_ignore_ascii_case`.
pub open spec fn eq_ignore_ascii_case_spec(a: Seq<char>, b: Seq<char>) -> bool {
    ascii_lower(a) == ascii_lower(b)
}

pub open spec fn is_digit(c: char) -> bool {
    '0' <= c && c <= '9'
}

pub open spec fn is_ascii_alnum(c: char) -> bool {
    is_digit(c) || ('a' <= c && c <= 'z') || ('A' <= c && c <= 'Z')
}

/// State of the left-to-right scan that joins the white-space separated
/// words of `s` with single spaces: the text built so far, and whether a
/// separator is owed before the next word.
pub open spec fn collapse_state(s: Seq<char>) -> (Seq<char>, bool)
    decreases s.len(),
{
    if s.len() == 0 {
        (Seq::empty(), false)
    } else {
        let prev = collapse_state(s.drop_last());
        let c = s.last();
        if is_ws(c) {
            (prev.0, prev.0.len() > 0)
        } else if prev.1 {
            (prev.0.push(' ').push(c), false)
        } else {
            (prev.0.push(c), false)
        }
    }
}

/// `s.split_whitespace().collect::<Vec<_>>().join(" ")`.
pub open spec fn collapse_ws(s: Seq<char>) -> Seq<char> {
    collapse_state(s).0
}

/// Decimal digits of `n`, most significant first, without leading zeros.
pub open spec fn decimal(n: nat) -> Seq<char>
    decreases n,
{
    if n < 10 {
        seq![digit_char(n)]
    } else {
        decimal(n / 10).push(digit_char(n % 10))
    }
}

pub open spec fn digit_char(d: nat) -> char {
    ((d + 48) as u8) as char
}

pub open spec fn digit_value(c: char) -> int {
    (c as int) - ('0' as int)
}

/// The number the decimal digits `s[a..b]` write.
pub open spec fn digits_value(s: Seq<char>, a: int, b: int) -> int
    decreases b - a,
{
    if b <= a {
        0
    } else {
        digits_value(s, a, b - 1) * 10 + digit_value(s[b - 1])
    }
}

pub open spec fn all_digits(s: Seq<char>) -> bool {
    forall|i: int| 0 <= i < s.len() ==> is_digit(#[trigger] s[i])
}

/// `s` with every occurrence of `from` replaced by `to`.
pub open spec fn replace_char_spec(s: Seq<char>, from: char, to: char) -> Seq<char> {
    Seq::new(s.len(), |i: int| if s[i] == from { to } else { s[i] })
}

/// The characters of `s` that are ASCII digits, in order.
pub open spec fn digits_of(s: Seq<char>) -> Seq<char> {
    s.filter(|c: char| is_digit(c))
}

/// `s` with every occurrence of `c` removed.
pub open spec fn remove_char_spec(s: Seq<char>, c: char) -> Seq<char> {
    s.filter(|x: char| x != c)
}

/// Repeatedly strips the suffix `p` (the behaviour of `trim_end_matches` with a
/// non-empty string pattern).
pub open spec fn strip_suffix_all(s: Seq<char>, p: Seq<char>) -> Seq<char>
    decreases s.len(),
{
    if p.len() > 0 && p.len() <= s.len() && s.subrange(s.len() - p.len(), s.len() as int) == p {
        strip_suffix_all(s.subrange(0, s.len() - p.len()), p)
    } else {
        s
    }
}

/// Pieces of `s` between occurrences of `sep` (the behaviour of `str::split`
/// with a character pattern).
pub open spec fn split_spec(s: Seq<char>, sep: char) -> Seq<Seq<char>>
    decreases s.len(),
{
    if s.len() == 0 {
        seq![Seq::empty()]
    } else {
        let prev = split_spec(s.drop_last(), sep);
        if s.last() == sep {
            prev.push(Seq::empty())
        } else {
            prev.update(prev.len() - 1, prev.last().push(s.last()))
        }
    }
}

// ---------------------------------------------------------------------------
// Proof helpers
// ---------------------------------------------------------------------------

pub proof fn lemma_split_nonempty(s: Seq<char>, sep: char)
    ensures
        split_spec(s, sep).len() >= 1,
    decreases s.len(),
{
    if s.len() > 0 {
        lemma_split_nonempty(s.drop_last(), sep);
    }
}

proof fn lemma_lead_end_bounds(s: Seq<char>, set: TrimSet, i: int)
    requires
        0 <= i <= s.len(),
    ensures
        i <= lead_end(s, set, i) <= s.len(),
    decreases s.len() - i,
{
    if i < s.len() && in_set(set, s[i]) {
        lemma_lead_end_bounds(s, set, i + 1);
    }
}

proof fn lemma_trail_start_bounds(s: Seq<char>, set: TrimSet, lo: int, j: int)
    requires
        0 <= lo <= j <= s.len(),
    ensures
        lo <= trail_start(s, set, lo, j) <= j,
    decreases j - lo,
{
    if lo < j && in_set(set, s[j - 1]) {
        lemma_trail_start_bounds(s, set, lo, j - 1);
    }
}

pub proof fn lemma_lead_end_stops(s: Seq<char>, set: TrimSet, i: int)
    requires
        0 <= i <= s.len(),
    ensures
        i <= lead_end(s, set, i) <= s.len(),
        lead_end(s, set, i) < s.len() ==> !in_set(set, s[lead_end(s, set, i)]),
    decreases s.len() - i,
{
    if i < s.len() && in_set(set, s[i]) {
        lemma_lead_end_stops(s, set, i + 1);
    }
}

pub proof fn lemma_trail_start_stops(s: Seq<char>, set: TrimSet, lo: int, j: int)
    requires
        0 <= lo <= j <= s.len(),
    ensures
        lo <= trail_start(s, set, lo, j) <= j,
        trail_start(s, set, lo, j) > lo ==> !in_set(set, s[trail_start(s, set, lo, j) - 1]),
    decreases j - lo,
{
    if lo < j && in_set(set, s[j - 1]) {
        lemma_trail_start_stops(s, set, lo, j - 1);
    }
}

/// Trimming twice trims no more than trimming once.
pub proof fn lemma_trim_idempotent(s: Seq<char>, set: TrimSet)
    ensures
        trim_set(trim_set(s, set), set) == trim_set(s, set),
{
    let a = lead_end(s, set, 0);
    lemma_lead_end_stops(s, set, 0);
    lemma_trail_start_stops(s, set, a, s.len() as int);
    let b = trail_start(s, set, a, s.len() as int);
    let t = s.subrange(a, b);
    if t.len() > 0 {
        assert(t[0] == s[a]);
        assert(lead_end(t, set, 0) == 0);
        assert(t[t.len() - 1] == s[b - 1]);
        assert(trail_start(t, set, 0, t.len() as int) == t.len());
    } else {
        assert(lead_end(t, set, 0) == 0);
        assert(trail_start(t, set, 0, 0) == 0);
    }
    assert(t.subrange(0, t.len() as int) =~= t);
}

// ---------------------------------------------------------------------------
// Executable primitives
// ---------------------------------------------------------------------------

/// Appends one character to a string (std `String::push`).
#[verifier::external_body]
pub(crate) fn push_char(s: &mut String, c: char)
    ensures
        final(s)@ == old(s)@.push(c),
{
    s.push(c);
}

/// The characters of a string slice, in order.
pub fn chars_of(s: &str) -> (out: Vec<char>)
    ensures
        out@ == s@,
{
    let mut out: Vec<char> = Vec::new();
    for c in it: s.chars()
        invariant
            out@ == it.seq().take(it.index()),
            it.seq() == s@,
    {
        out.push(c);
    }
    out
}

/// Builds a string from characters `cs[from..to]`.
pub fn string_of_range(cs: &Vec<char>, from: usize, to: usize) -> (out: String)
    requires
        from <= to <= cs.len(),
    ensures
        out@ == cs@.subrange(from as int, to as int),
{
    let mut out = String::new();
    let mut i: usize = from;
    while i < to
        invariant
            from <= i <= to <= cs.len(),
            out@ == cs@.subrange(from as int, i as int),
        decreases to - i,
    {
        push_char(&mut out, cs[i]);
        assert(cs@.subrange(from as int, i + 1) == cs@.subrange(from as int, i as int).push(
            cs@[i as int],
        ));
        i = i + 1;
    }
    out
}

/// Builds a string from a sequence of characters.
pub fn string_of(cs: &Vec<char>) -> (out: String)
    ensures
        out@ == cs@,
{
    let out = string_of_range(cs, 0, cs.len());
    assert(cs@.subrange(0, cs.len() as int) == cs@);
    out
}

/// Owned copy of a string slice.
pub fn owned(s: &str) -> (out: String)
    ensures
        out@ == s@,
{
    s.to_string()
}

/// `a` followed by `b`.
pub fn concat(a: &str, b: &str) -> (out: String)
    ensures
        out@ == a@ + b@,
{
    let mut out = a.to_string();
    out.append(b);
    out
}

/// `a`, `b` and `c` one after the other.
pub fn concat3(a: &str, b: &str, c: &str) -> (out: String)
    ensures
        out@ == a@ + b@ + c@,
{
    let mut out = a.to_string();
    out.append(b);
    out.append(c);
    out
}

/// Exact equality of two string slices.
pub fn same(a: &str, b: &str) -> (r: bool)
    ensures
        r == (a@ == b@),
{
    let x = a.to_string();
    let y = b.to_string();
    x == y
}

/// `char::is_whitespace`.
pub fn is_whitespace(c: char) -> (r: bool)
    ensures
        r == is_ws(c),
{
    c == '\t' || c == '\n' || c == '\x0B' || c == '\x0C' || c == '\r' || c == ' ' || c == '\u{85}'
        || c == '\u{A0}' || c == '\u{1680}' || ('\u{2000}' <= c && c <= '\u{200A}') || c
        == '\u{2028}' || c == '\u{2029}' || c == '\u{202F}' || c == '\u{205F}' || c == '\u{3000}'
}

fn in_set_exec(set: &TrimSet, c: char) -> (r: bool)
    ensures
        r == in_set(*set, c),
{
    match set {
        TrimSet::Whitespace => is_whitespace(c),
        TrimSet::Only(x) => c == *x,
    }
}

/// Bounds `(a, b)` such that `cs[a..b]` is `cs` trimmed of `set`.
fn trim_bounds(cs: &Vec<char>, set: &TrimSet) -> (r: (usize, usize))
    ensures
        r.0 == lead_end(cs@, *set, 0),
        r.1 == trail_start(cs@, *set, r.0 as int, cs@.len() as int),
        r.0 <= r.1 <= cs.len(),
{
    let mut a: usize = 0;
    while a < cs.len() && in_set_exec(set, cs[a])
        invariant
            a <= cs.len(),
            lead_end(cs@, *set, 0) == lead_end(cs@, *set, a as int),
        decreases cs.len() - a,
    {
        a = a + 1;
    }
    let mut b: usize = cs.len();
    while b > a && in_set_exec(set, cs[b - 1])
        invariant
            a <= b <= cs.len(),
            trail_start(cs@, *set, a as int, cs@.len() as int) == trail_start(
                cs@,
                *set,
                a as int,
                b as int,
            ),
        decreases b - a,
    {
        b = b - 1;
    }
    (a, b)
}

/// `s` without its leading and trailing characters of `set`.
pub fn trim_with(s: &str, set: TrimSet) -> (out: String)
    ensures
        out@ == trim_set(s@, set),
{
    let cs = chars_of(s);
    let (a, b) = trim_bounds(&cs, &set);
    string_of_range(&cs, a, b)
}

/// `str::trim`.
pub fn trim(s: &str) -> (out: String)
    ensures
        out@ == trim_spec(s@),
{
    trim_with(s, TrimSet::Whitespace)
}

/// `s` without its trailing characters of `set`.
pub fn trim_end_with(s: &str, set: TrimSet) -> (out: String)
    ensures
        out@ == trim_end_set(s@, set),
{
    let cs = chars_of(s);
    let mut b: usize = cs.len();
    while b > 0 && in_set_exec(&set, cs[b - 1])
        invariant
            b <= cs.len(),
            trail_start(cs@, set, 0, cs@.len() as int) == trail_start(cs@, set, 0, b as int),
        decreases b,
    {
        b = b - 1;
    }
    string_of_range(&cs, 0, b)
}

/// `str::is_empty` on the character view.
pub fn is_blank(s: &str) -> (r: bool)
    ensures
        r == (s@.len() == 0),
{
    s.is_empty()
}

/// Whether `p` occurs in `s` at position `i`.
fn occurs_at_exec(s: &Vec<char>, p: &Vec<char>, i: usize) -> (r: bool)
    requires
        i + p.len() <= s.len(),
    ensures
        r == occurs_at(s@, p@, i as int),
{
    let mut k: usize = 0;
    while k < p.len()
        invariant
            k <= p.len(),
            i + p.len() <= s.len(),
            forall|t: int| 0 <= t < k ==> s@[i + t] == p@[t],
        decreases p.len() - k,
    {
        if s[i + k] != p[k] {
            assert(s@.subrange(i as int, i + p.len())[k as int] != p@[k as int]);
            return false;
        }
        k = k + 1;
    }
    assert(s@.subrange(i as int, i + p.len()) =~= p@);
    true
}

/// Index of the first occurrence of `p` in `s`, on character views.
pub fn find_chars(s: &Vec<char>, p: &Vec<char>) -> (r: Option<usize>)
    ensures
        match r {
            Some(i) => is_first_occurrence(s@, p@, i as int),
            None => !contains_spec(s@, p@),
        },
{
    if p.len() > s.len() {
        assert forall|j: int| !#[trigger] occurs_at(s@, p@, j) by {}
        return None;
    }
    let last: usize = s.len() - p.len();
    let mut i: usize = 0;
    while i <= last
        invariant
            p.len() <= s.len(),
            last == s.len() - p.len(),
            i <= last + 1,
            forall|j: int| 0 <= j < i ==> !#[trigger] occurs_at(s@, p@, j),
        decreases last + 1 - i,
    {
        if occurs_at_exec(s, p, i) {
            return Some(i);
        }
        if i == last {
            assert forall|j: int| !#[trigger] occurs_at(s@, p@, j) by {
                if 0 <= j < i {
                }
            }
            return None;
        }
        i = i + 1;
    }
    assert forall|j: int| !#[trigger] occurs_at(s@, p@, j) by {
        if 0 <= j < i {
        }
    }
    None
}

/// `str::find` with a string pattern, counted in characters.
pub fn find(s: &str, p: &str) -> (r: Option<usize>)
    ensures
        match r {
            Some(i) => is_first_occurrence(s@, p@, i as int),
            None => !contains_spec(s@, p@),
        },
{
    let cs = chars_of(s);
    let ps = chars_of(p);
    find_chars(&cs, &ps)
}

/// `str::contains` with a string pattern.
pub fn contains(s: &str, p: &str) -> (r: bool)
    ensures
        r == contains_spec(s@, p@),
{
    match find(s, p) {
        Some(_) => true,
        None => false,
    }
}

/// `str::starts_with` with a string pattern.
pub fn starts_with(s: &str, p: &str) -> (r: bool)
    ensures
        r == p@.is_prefix_of(s@),
{
    let cs = chars_of(s);
    let ps = chars_of(p);
    if ps.len() > cs.len() {
        return false;
    }
    let r = occurs_at_exec(&cs, &ps, 0);
    r
}

/// `str::ends_with` with a string pattern.
pub fn ends_with(s: &str, p: &str) -> (r: bool)
    ensures
        r == p@.is_suffix_of(s@),
{
    let cs = chars_of(s);
    let ps = chars_of(p);
    if ps.len() > cs.len() {
        return false;
    }
    let r = occurs_at_exec(&cs, &ps, cs.len() - ps.len());
    r
}

/// `str::to_ascii_lowercase`.
pub fn to_ascii_lower(s: &str) -> (out: String)
    ensures
        out@ == ascii_lower(s@),
{
    let cs = chars_of(s);
    let mut out = String::new();
    let mut i: usize = 0;
    while i < cs.len()
        invariant
            i <= cs.len(),
            cs@ == s@,
            out@ == ascii_lower(cs@.take(i as int)),
        decreases cs.len() - i,
    {
        let c = cs[i];
        let l = if 'A' <= c && c <= 'Z' {
            ((c as u8) + 32) as char
        } else {
            c
        };
        push_char(&mut out, l);
        assert(ascii_lower(cs@.take(i + 1)) =~= ascii_lower(cs@.take(i as int)).push(l));
        i = i + 1;
    }
    assert(cs@.take(cs.len() as int) =~= cs@);
    out
}

/// `str::to_ascii_uppercase`.
pub fn to_ascii_upper(s: &str) -> (out: String)
    ensures
        out@ == ascii_upper(s@),
{
    let cs = chars_of(s);
    let mut out = String::new();
    let mut i: usize = 0;
    while i < cs.len()
        invariant
            i <= cs.len(),
            cs@ == s@,
            out@ == ascii_upper(cs@.take(i as int)),
        decreases cs.len() - i,
    {
        let c = cs[i];
        let u = if 'a' <= c && c <= 'z' {
            ((c as u8) - 32) as char
        } else {
            c
        };
        push_char(&mut out, u);
        assert(ascii_upper(cs@.take(i + 1)) =~= ascii_upper(cs@.take(i as int)).push(u));
        i = i + 1;
    }
    assert(cs@.take(cs.len() as int) =~= cs@);
    out
}

/// `str::eq_ignore_ascii_case`.
pub fn eq_ignore_ascii_case(a: &str, b: &str) -> (r: bool)
    ensures
        r == eq_ignore_ascii_case_spec(a@, b@),
{
    let x = to_ascii_lower(a);
    let y = to_ascii_lower(b);
    x == y
}

/// `s.split_whitespace().collect::<Vec<_>>().join(" ")`: the words of `s`
/// separated by single spaces.
pub fn collapse_whitespace(s: &str) -> (out: String)
    ensures
        out@ == collapse_ws(s@),
{
    let cs = chars_of(s);
    let mut out = String::new();
    let mut pending = false;
    let mut has_any = false;
    let mut i: usize = 0;
    while i < cs.len()
        invariant
            i <= cs.len(),
            cs@ == s@,
            (out@, pending) == collapse_state(cs@.take(i as int)),
            has_any == (out@.len() > 0),
        decreases cs.len() - i,
    {
        let c = cs[i];
        assert(cs@.take(i + 1).drop_last() == cs@.take(i as int));
        if is_whitespace(c) {
            pending = has_any;
        } else {
            if pending {
                push_char(&mut out, ' ');
            }
            push_char(&mut out, c);
            pending = false;
            has_any = true;
        }
        i = i + 1;
    }
    assert(cs@.take(cs.len() as int) =~= cs@);
    out
}

/// Decimal rendering of a count (`usize::to_string`).
pub fn decimal_string(n: usize) -> (out: String)
    ensures
        out@ == decimal(n as nat),
    decreases n,
{
    let d = ((n % 10) as u8 + 48) as char;
    if n < 10 {
        let mut out = String::new();
        push_char(&mut out, d);
        out
    } else {
        let mut out = decimal_string(n / 10);
        push_char(&mut out, d);
        out
    }
}

/// `s` with every `from` replaced by `to` (`str::replace` with characters).
pub fn replace_char(s: &str, from: char, to: char) -> (out: String)
    ensures
        out@ == replace_char_spec(s@, from, to),
{
    let cs = chars_of(s);
    let mut out = String::new();
    let mut i: usize = 0;
    while i < cs.len()
        invariant
            i <= cs.len(),
            cs@ == s@,
            out@ == replace_char_spec(cs@.take(i as int), from, to),
        decreases cs.len() - i,
    {
        let c = if cs[i] == from {
            to
        } else {
            cs[i]
        };
        push_char(&mut out, c);
        assert(replace_char_spec(cs@.take(i + 1), from, to) =~= replace_char_spec(
            cs@.take(i as int),
            from,
            to,
        ).push(c));
        i = i + 1;
    }
    assert(cs@.take(cs.len() as int) =~= cs@);
    out
}

/// `s` without any occurrence of `c` (`str::replace(c, "")`).
pub fn remove_char(s: &str, c: char) -> (out: String)
    ensures
        out@ == remove_char_spec(s@, c),
{
    let cs = chars_of(s);
    let mut out = String::new();
    let mut i: usize = 0;
    while i < cs.len()
        invariant
            i <= cs.len(),
            cs@ == s@,
            out@ == remove_char_spec(cs@.take(i as int), c),
        decreases cs.len() - i,
    {
        assert(cs@.take(i + 1).drop_last() =~= cs@.take(i as int));
        proof {
            reveal(Seq::filter);
        }
        if cs[i] != c {
            push_char(&mut out, cs[i]);
        }
        i = i + 1;
    }
    assert(cs@.take(cs.len() as int) =~= cs@);
    out
}

/// The ASCII digits of `s`, in order.
pub fn ascii_digits(s: &str) -> (out: String)
    ensures
        out@ == digits_of(s@),
{
    let cs = chars_of(s);
    let mut out = String::new();
    let mut i: usize = 0;
    while i < cs.len()
        invariant
            i <= cs.len(),
            cs@ == s@,
            out@ == digits_of(cs@.take(i as int)),
        decreases cs.len() - i,
    {
        assert(cs@.take(i + 1).drop_last() =~= cs@.take(i as int));
        proof {
            reveal(Seq::filter);
        }
        if '0' <= cs[i] && cs[i] <= '9' {
            push_char(&mut out, cs[i]);
        }
        i = i + 1;
    }
    assert(cs@.take(cs.len() as int) =~= cs@);
    out
}

/// `s.trim_end_matches(p)` for a non-empty string pattern `p`.
pub fn strip_suffixes(s: &str, p: &str) -> (out: String)
    ensures
        out@ == strip_suffix_all(s@, p@),
{
    let cs = chars_of(s);
    let ps = chars_of(p);
    let mut end: usize = cs.len();
    assert(cs@.subrange(0, end as int) =~= cs@);
    while ps.len() > 0 && ps.len() <= end && occurs_at_exec(&cs, &ps, end - ps.len())
        invariant
            end <= cs.len(),
            cs@ == s@,
            ps@ == p@,
            strip_suffix_all(s@, p@) == strip_suffix_all(cs@.subrange(0, end as int), p@),
        decreases end,
    {
        assert(cs@.subrange(0, end as int).subrange(end - ps.len(), end as int) =~= cs@.subrange(
            end - ps.len(),
            end as int,
        ));
        assert(cs@.subrange(0, end as int).subrange(0, end - ps.len()) =~= cs@.subrange(
            0,
            end - ps.len(),
        ));
        end = end - ps.len();
    }
    proof {
        let t = cs@.subrange(0, end as int);
        if ps.len() > 0 && ps.len() <= end {
            assert(t.subrange(t.len() - p@.len(), t.len() as int) =~= cs@.subrange(
                end - ps.len(),
                end as int,
            ));
        }
    }
    string_of_range(&cs, 0, end)
}

/// Pieces of `s` separated by `sep` (`str::split` with a character).
pub fn split_char(s: &str, sep: char) -> (out: Vec<String>)
    ensures
        out.len() == split_spec(s@, sep).len(),
        forall|k: int| 0 <= k < out.len() ==> #[trigger] out[k]@ == split_spec(s@, sep)[k],
{
    let cs = chars_of(s);
    let mut parts: Vec<String> = Vec::new();
    let mut cur: Vec<char> = Vec::new();
    let mut i: usize = 0;
    proof {
        assert(cs@.take(0) =~= Seq::<char>::empty());
    }
    while i < cs.len()
        invariant
            i <= cs.len(),
            cs@ == s@,
            parts.len() + 1 == split_spec(cs@.take(i as int), sep).len(),
            forall|k: int|
                0 <= k < parts.len() ==> #[trigger] parts[k]@ == split_spec(
                    cs@.take(i as int),
                    sep,
                )[k],
            cur@ == split_spec(cs@.take(i as int), sep).last(),
        decreases cs.len() - i,
    {
        let ghost before = split_spec(cs@.take(i as int), sep);
        assert(cs@.take(i + 1).drop_last() =~= cs@.take(i as int));
        assert(cs@.take(i + 1).last() == cs@[i as int]);
        if cs[i] == sep {
            let piece = string_of(&cur);
            parts.push(piece);
            cur = Vec::new();
            assert(cur@ =~= Seq::<char>::empty());
        } else {
            cur.push(cs[i]);
        }
        i = i + 1;
    }
    proof {
        lemma_split_nonempty(cs@, sep);
        assert(cs@.take(cs.len() as int) =~= cs@);
    }
    let last = string_of(&cur);
    parts.push(last);
    parts
}

/// Lower-case mapping of Unicode, as `str::to_lowercase` computes it.
pub uninterp spec fn unicode_lower(s: Seq<char>) -> Seq<char>;

/// Upper-case mapping of Unicode, as `str::to_uppercase` computes it.
pub uninterp spec fn unicode_upper(s: Seq<char>) -> Seq<char>;

/// std `str::to_lowercase`. The contract names the result, and states that on
/// ASCII text it is the ASCII lower-casing (std documents the mapping as the
/// Unicode `Lowercase` property, which on ASCII only changes `A`..`Z`).
#[verifier::external_body]
pub(crate) fn to_lowercase(s: &str) -> (out: String)
    ensures
        out@ == unicode_lower(s@),
        is_ascii_chars(s@) ==> out@ == ascii_lower(s@),
{
    s.to_lowercase()
}

/// std `str::to_uppercase`. The contract names the result, and states that on
/// ASCII text it is the ASCII upper-casing.
#[verifier::external_body]
pub(crate) fn to_uppercase(s: &str) -> (out: String)
    ensures
        out@ == unicode_upper(s@),
        is_ascii_chars(s@) ==> out@ == ascii_upper(s@),
{
    s.to_uppercase()
}

/// The pieces of `parts` separated by `sep` (`slice::join`).
pub open spec fn join_spec(parts: Seq<Seq<char>>, sep: Seq<char>) -> Seq<char>
    decreases parts.len(),
{
    if parts.len() == 0 {
        Seq::empty()
    } else if parts.len() == 1 {
        parts[0]
    } else {
        join_spec(parts.drop_last(), sep) + sep + parts.last()
    }
}

pub open spec fn views(v: Seq<String>) -> Seq<Seq<char>> {
    v.map_values(|x: String| x@)
}

/// `parts.join(sep)`.
pub fn join(parts: &Vec<String>, sep: &str) -> (out: String)
    ensures
        out@ == join_spec(views(parts@), sep@),
{
    let mut out = String::new();
    let mut i: usize = 0;
    while i < parts.len()
        invariant
            i <= parts.len(),
            out@ == join_spec(views(parts@).take(i as int), sep@),
        decreases parts.len() - i,
    {
        assert(views(parts@).take(i + 1).drop_last() =~= views(parts@).take(i as int));
        if i > 0 {
            out.append(sep);
        } else {
            assert(views(parts@).take(1) =~= seq![parts[0]@]);
        }
        out.append(parts[i].as_str());
        i = i + 1;
    }
    assert(views(parts@).take(parts.len() as int) =~= views(parts@));
    out
}

pub open spec fn pow10(k: int) -> int
    decreases k,
{
    if k <= 0 {
        1
    } else {
        10 * pow10(k - 1)
    }
}

pub proof fn lemma_digits_bound(s: Seq<char>, a: int, b: int)
    requires
        0 <= a <= b <= s.len(),
        forall|i: int| a <= i < b ==> is_digit(#[trigger] s[i]),
    ensures
        0 <= digits_value(s, a, b) < pow10(b - a),
        b - a <= 4 ==> digits_value(s, a, b) < 10000,
        b - a <= 2 ==> digits_value(s, a, b) < 100,
    decreases b - a,
{
    if b > a {
        lemma_digits_bound(s, a, b - 1);
        let v = digits_value(s, a, b - 1);
        let p = pow10(b - 1 - a);
        let d = digit_value(s[b - 1]);
        assert(0 <= d <= 9);
        assert(v * 10 + d < 10 * p) by (nonlinear_arith)
            requires
                0 <= v < p,
                0 <= d <= 9,
        ;
        assert(0 <= v * 10 + d) by (nonlinear_arith)
            requires
                0 <= v,
                0 <= d,
        ;
    }
    reveal_with_fuel(pow10, 5);
    assert(pow10(4) == 10000);
    assert(pow10(2) == 100);
    if b - a <= 4 {
        lemma_pow10_mono(b - a, 4);
    }
    if b - a <= 2 {
        lemma_pow10_mono(b - a, 2);
    }
}

proof fn lemma_pow10_mono(i: int, j: int)
    requires
        0 <= i <= j,
    ensures
        pow10(i) <= pow10(j),
    decreases j - i,
{
    if i < j {
        lemma_pow10_mono(i, j - 1);
        lemma_pow10_pos(j - 1);
    }
}

proof fn lemma_pow10_pos(k: int)
    ensures
        pow10(k) >= 1,
    decreases k,
{
    if k > 0 {
        lemma_pow10_pos(k - 1);
    }
}

pub fn digits_number(cs: &Vec<char>, a: usize, b: usize) -> (n: u32)
    requires
        a <= b <= cs.len(),
        b - a <= 4,
        forall|i: int| a <= i < b ==> is_digit(#[trigger] cs@[i]),
    ensures
        n as int == digits_value(cs@, a as int, b as int),
{
    let mut n: u32 = 0;
    let mut k: usize = a;
    while k < b
        invariant
            a <= k <= b <= cs.len(),
            b - a <= 4,
            forall|i: int| a <= i < b ==> is_digit(#[trigger] cs@[i]),
            n as int == digits_value(cs@, a as int, k as int),
        decreases b - k,
    {
        proof {
            lemma_digits_bound(cs@, a as int, k as int + 1);
        }
        let d = (cs[k] as u32) - ('0' as u32);
        n = n * 10 + d;
        k = k + 1;
    }
    n
}

/// Lexicographic order of texts by code point (the order of `String`, whose
/// UTF-8 bytes compare as their code points do).
pub open spec fn text_lt(a: Seq<char>, b: Seq<char>) -> bool
    decreases a.len(),
{
    if a.len() == 0 {
        b.len() > 0
    } else if b.len() == 0 {
        false
    } else if a[0] != b[0] {
        (a[0] as u32) < (b[0] as u32)
    } else {
        text_lt(a.drop_first(), b.drop_first())
    }
}

pub proof fn lemma_text_lt_irreflexive(a: Seq<char>)
    ensures
        !text_lt(a, a),
    decreases a.len(),
{
    if a.len() > 0 {
        lemma_text_lt_irreflexive(a.drop_first());
    }
}

pub proof fn lemma_text_lt_total(a: Seq<char>, b: Seq<char>)
    ensures
        a == b || text_lt(a, b) || text_lt(b, a),
    decreases a.len(),
{
    if a.len() > 0 && b.len() > 0 && a[0] == b[0] {
        lemma_text_lt_total(a.drop_first(), b.drop_first());
        if a.drop_first() == b.drop_first() {
            assert(a =~= seq![a[0]] + a.drop_first());
            assert(b =~= seq![b[0]] + b.drop_first());
        }
    } else if a.len() == 0 && b.len() == 0 {
        assert(a =~= b);
    } else if a.len() > 0 && b.len() > 0 {
        vstd::utf8::char_u32_cast(a[0], a[0] as u32);
        vstd::utf8::char_u32_cast(b[0], b[0] as u32);
        assert((a[0] as u32) != (b[0] as u32));
    }
}

pub proof fn lemma_text_lt_transitive(a: Seq<char>, b: Seq<char>, c: Seq<char>)
    requires
        text_lt(a, b),
        text_lt(b, c),
    ensures
        text_lt(a, c),
    decreases a.len(),
{
    if a.len() > 0 && b.len() > 0 && c.len() > 0 && a[0] == b[0] && b[0] == c[0] {
        lemma_text_lt_transitive(a.drop_first(), b.drop_first(), c.drop_first());
    }
}

pub fn text_less(a: &str, b: &str) -> (r: bool)
    ensures
        r == text_lt(a@, b@),
{
    let x = chars_of(a);
    let y = chars_of(b);
    let mut i: usize = 0;
    assert(x@.subrange(0, x@.len() as int) =~= x@);
    assert(y@.subrange(0, y@.len() as int) =~= y@);
    while i < x.len() && i < y.len() && x[i] == y[i]
        invariant
            i <= x.len(),
            i <= y.len(),
            x@ == a@,
            y@ == b@,
            text_lt(a@, b@) == text_lt(x@.subrange(i as int, x@.len() as int), y@.subrange(i as int, y@.len() as int)),
        decreases x.len() - i,
    {
        let ghost sx = x@.subrange(i as int, x@.len() as int);
        let ghost sy = y@.subrange(i as int, y@.len() as int);
        assert(sx.drop_first() =~= x@.subrange(i + 1, x@.len() as int));
        assert(sy.drop_first() =~= y@.subrange(i + 1, y@.len() as int));
        i = i + 1;
    }
    let ghost sx = x@.subrange(i as int, x@.len() as int);
    let ghost sy = y@.subrange(i as int, y@.len() as int);
    if i == x.len() {
        assert(sx.len() == 0);
        i < y.len()
    } else if i == y.len() {
        assert(sy.len() == 0);
        false
    } else {
        assert(sx[0] == x@[i as int] && sy[0] == y@[i as int]);
        assert(x@[i as int] != y@[i as int]);
        assert(text_lt(sx, sy) == ((sx[0] as u32) < (sy[0] as u32)));
        (x[i] as u32) < (y[i] as u32)
    }
}

} // verus!
