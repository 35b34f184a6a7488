//! Basic validation of a monthly database file against the settings.
use vstd::prelude::*;

use crate::text::{decimal, decimal_string, owned, same, views};

verus! {

broadcast use vstd::string::group_string_axioms;

/// Errors and warnings found in one file.
pub struct Report {
    pub errors: Vec<String>,
    pub warnings: Vec<String>,
}

impl Report {
    pub fn new() -> (r: Report)
        ensures
            r.errors@.len() == 0,
            r.warnings@.len() == 0,
    {
        Report { errors: Vec::new(), warnings: Vec::new() }
    }

    pub fn error(&mut self, msg: String)
        ensures
            views(final(self).errors@) == views(old(self).errors@).push(msg@),
            final(self).warnings@ == old(self).warnings@,
    {
        let ghost before = views(self.errors@);
        self.errors.push(msg);
        assert(views(self.errors@) =~= before.push(msg@));
    }

    pub fn warn(&mut self, msg: String)
        ensures
            views(final(self).warnings@) == views(old(self).warnings@).push(msg@),
            final(self).errors@ == old(self).errors@,
    {
        let ghost before = views(self.warnings@);
        self.warnings.push(msg);
        assert(views(self.warnings@) =~= before.push(msg@));
    }

    pub fn has_errors(&self) -> (r: bool)
        ensures
            r == (self.errors@.len() > 0),
    {
        self.errors.len() > 0
    }
}

/// The settings the validation uses.
pub struct ValidationSettings {
    pub base_currency: String,
    pub assets: Vec<String>,
    pub liabilities: Vec<String>,
    pub transaction_user_categories: Vec<String>,
}

/// A rate of `fx_rates`: its currency and, when it is a number, how it is
/// displayed and whether it differs from 1 by more than `1e-6`.
pub struct FxEntry {
    pub currency: String,
    pub rate: Option<FxRate>,
}

pub struct FxRate {
    pub display: String,
    pub far_from_one: bool,
}

/// The fields of an entry the validation reads: its type and currency when
/// they are text, and whether its balance and its amount are numbers.
pub struct EntryFields {
    pub kind: Option<String>,
    pub currency: Option<String>,
    pub has_balance: bool,
    pub has_amount: bool,
}

/// A monthly file as the validation sees it. For each list: `None` when
/// the key is missing or not of the right kind. For the two spellings of
/// the cash-flow key: `None` when the key is missing, `Some(None)` when it
/// holds no array.
pub struct MonthFile {
    pub month: Option<String>,
    pub fx_rates: Option<Vec<FxEntry>>,
    pub net_worth_entries: Option<Vec<EntryFields>>,
    pub cash_flow_dash: Option<Option<Vec<EntryFields>>>,
    pub cash_flow_underscore: Option<Option<Vec<EntryFields>>>,
    pub hicp_numeric: bool,
}

pub struct FxEntryV {
    pub currency: Seq<char>,
    pub rate: Option<(Seq<char>, bool)>,
}

pub struct EntryV {
    pub kind: Seq<char>,
    pub currency: Seq<char>,
    pub has_balance: bool,
    pub has_amount: bool,
}

pub open spec fn fx_view(v: Seq<FxEntry>) -> Seq<FxEntryV> {
    v.map_values(
        |e: FxEntry|
            FxEntryV {
                currency: e.currency@,
                rate: match e.rate {
                    Some(r) => Some((r.display@, r.far_from_one)),
                    None => None,
                },
            },
    )
}

pub open spec fn text_or_empty(o: Option<String>) -> Seq<char> {
    match o {
        Some(s) => s@,
        None => Seq::empty(),
    }
}

pub open spec fn entries_view(v: Seq<EntryFields>) -> Seq<EntryV> {
    v.map_values(
        |e: EntryFields|
            EntryV {
                kind: text_or_empty(e.kind),
                currency: text_or_empty(e.currency),
                has_balance: e.has_balance,
                has_amount: e.has_amount,
            },
    )
}

/// The value `regex` gives for `Regex::new(pattern).is_match(text)`.
pub uninterp spec fn regex_matches(pattern: Seq<char>, text: Seq<char>) -> bool;

pub open spec fn month_pattern() -> Seq<char> {
    "^\\d{4}-\\d{2}$"@
}

/// Four ASCII digits, a dash, two ASCII digits.
pub open spec fn ascii_month_shape(s: Seq<char>) -> bool {
    s.len() == 7 && s[4] == '-' && forall|i: int|
        0 <= i < 7 && i != 4 ==> crate::text::is_digit(#[trigger] s[i])
}

/// regex `Regex::new(pattern)` then `is_match(text)`, for the month
/// pattern: names the result. By the regex syntax (`\d` is a Unicode
/// decimal digit, `^` and `$` anchor at the ends), ASCII `YYYY-MM` text
/// matches and matching text is seven characters with a dash fifth.
#[verifier::external_body]
fn regex_is_match(pattern: &str, text: &str) -> (r: bool)
    requires
        pattern@ == month_pattern(),
    ensures
        r == regex_matches(pattern@, text@),
        ascii_month_shape(text@) ==> r,
        r ==> text@.len() == 7 && text@[4] == '-',
{
    regex::Regex::new(pattern).unwrap().is_match(text)
}

pub open spec fn has_key(fx: Seq<FxEntryV>, c: Seq<char>) -> bool {
    exists|i: int| 0 <= i < fx.len() && (#[trigger] fx[i]).currency == c
}

/// The first rate listed under currency `c`.
pub open spec fn rate_of(fx: Seq<FxEntryV>, c: Seq<char>, n: int) -> Option<(Seq<char>, bool)>
    decreases n,
{
    if n <= 0 {
        None
    } else if fx[fx.len() - n].currency == c {
        fx[fx.len() - n].rate
    } else {
        rate_of(fx, c, n - 1)
    }
}

/// Messages: errors then warnings, each in the order found.
pub type Messages = (Seq<Seq<char>>, Seq<Seq<char>>);

pub open spec fn quoted(label: Seq<char>, i: nat, middle: Seq<char>, value: Seq<char>, end: Seq<char>) -> Seq<char> {
    label + "["@ + decimal(i) + "]"@ + middle + "'"@ + value + "'"@ + end
}

/// What entry `i` of `net_worth_entries` adds.
pub open spec fn net_worth_entry_messages(
    e: EntryV,
    i: nat,
    valid_types: Seq<Seq<char>>,
    fx: Option<Seq<FxEntryV>>,
    m: Messages,
) -> Messages {
    let w = if !valid_types.contains(e.kind) {
        m.1.push(
            quoted(
                "net_worth_entries"@,
                i,
                " has unknown type "@,
                e.kind,
                " (not listed in settings account_categories)"@,
            ),
        )
    } else {
        m.1
    };
    let errs = if !e.has_balance {
        m.0.push("net_worth_entries["@ + decimal(i) + "] missing 'balance'"@)
    } else {
        m.0
    };
    let errs = match fx {
        Some(map) => if !has_key(map, e.currency) {
            errs.push(quoted("net_worth_entries"@, i, " currency "@, e.currency, " not found in fx_rates"@))
        } else {
            errs
        },
        None => errs,
    };
    (errs, w)
}

/// What entry `i` of the cash-flow entries adds.
pub open spec fn cash_flow_entry_messages(
    e: EntryV,
    i: nat,
    user_types: Seq<Seq<char>>,
    fx: Option<Seq<FxEntryV>>,
    m: Messages,
) -> Messages {
    let w = if !user_types.contains(e.kind) {
        m.1.push(
            quoted(
                "cash-flow-entries"@,
                i,
                " has user type "@,
                e.kind,
                " not in settings.transaction_user_categories"@,
            ),
        )
    } else {
        m.1
    };
    let errs = if !e.has_amount {
        m.0.push("cash-flow-entries["@ + decimal(i) + "] missing 'amount'"@)
    } else {
        m.0
    };
    let errs = match fx {
        Some(map) => if !has_key(map, e.currency) {
            errs.push(quoted("cash-flow-entries"@, i, " currency "@, e.currency, " not found in fx_rates"@))
        } else {
            errs
        },
        None => errs,
    };
    (errs, w)
}

pub open spec fn net_worth_messages(
    es: Seq<EntryV>,
    valid_types: Seq<Seq<char>>,
    fx: Option<Seq<FxEntryV>>,
    m: Messages,
    n: int,
) -> Messages
    decreases n,
{
    if n <= 0 {
        m
    } else {
        net_worth_entry_messages(
            es[n - 1],
            (n - 1) as nat,
            valid_types,
            fx,
            net_worth_messages(es, valid_types, fx, m, n - 1),
        )
    }
}

pub open spec fn cash_flow_messages(
    es: Seq<EntryV>,
    user_types: Seq<Seq<char>>,
    fx: Option<Seq<FxEntryV>>,
    m: Messages,
    n: int,
) -> Messages
    decreases n,
{
    if n <= 0 {
        m
    } else {
        cash_flow_entry_messages(
            es[n - 1],
            (n - 1) as nat,
            user_types,
            fx,
            cash_flow_messages(es, user_types, fx, m, n - 1),
        )
    }
}

/// The cash-flow entries: under `cash-flow-entries` when that key exists
/// (none when it holds no array), else under `cash_flow_entries`.
pub open spec fn cash_flow_entries_of(
    dash: Option<Option<Seq<EntryV>>>,
    underscore: Option<Option<Seq<EntryV>>>,
) -> Option<Seq<EntryV>> {
    match dash {
        Some(d) => d,
        None => match underscore {
            Some(u) => u,
            None => None,
        },
    }
}

/// The month's error: one when the month does not match `YYYY-MM`.
pub open spec fn month_errors(month: Seq<char>) -> Seq<Seq<char>> {
    if !regex_matches(month_pattern(), month) {
        seq!["invalid month format '"@ + month + "', expected YYYY-MM"@]
    } else {
        Seq::empty()
    }
}

/// What the rates add after the errors `errs`.
pub open spec fn rates_messages(errs: Seq<Seq<char>>, base: Seq<char>, fx: Option<Seq<FxEntryV>>) -> Messages {
    match fx {
        None => (errs.push("missing 'fx_rates' object"@), Seq::empty()),
        Some(map) => if !has_key(map, base) {
            (errs.push("fx_rates missing base currency '"@ + base + "'"@), Seq::empty())
        } else {
            match rate_of(map, base, map.len() as int) {
                Some((display, far)) => if far {
                    (errs, seq!["base currency '"@ + base + "' rate is "@ + display + ", expected 1.0"@])
                } else {
                    (errs, Seq::empty())
                },
                None => (errs, Seq::empty()),
            }
        },
    }
}

/// What the month and the rates add.
pub open spec fn header_messages(month: Seq<char>, base: Seq<char>, fx: Option<Seq<FxEntryV>>) -> Messages {
    rates_messages(month_errors(month), base, fx)
}

/// What the entries and the index add to the messages `m`.
pub open spec fn entry_messages(
    m: Messages,
    fx: Option<Seq<FxEntryV>>,
    net_worth: Option<Seq<EntryV>>,
    cash_flow: Option<Seq<EntryV>>,
    hicp_numeric: bool,
    valid_types: Seq<Seq<char>>,
    user_types: Seq<Seq<char>>,
) -> Messages {
    let m = match net_worth {
        Some(es) => net_worth_messages(es, valid_types, fx, m, es.len() as int),
        None => (m.0, m.1.push("missing or non-array 'net_worth_entries'"@)),
    };
    let m = match cash_flow {
        Some(es) => cash_flow_messages(es, user_types, fx, m, es.len() as int),
        None => m,
    };
    if !hicp_numeric {
        (m.0, m.1.push("missing or non-numeric 'hicp'"@))
    } else {
        m
    }
}

/// All messages for a file.
pub open spec fn validate_spec(
    month: Seq<char>,
    fx: Option<Seq<FxEntryV>>,
    net_worth: Option<Seq<EntryV>>,
    cash_flow: Option<Seq<EntryV>>,
    hicp_numeric: bool,
    base: Seq<char>,
    valid_types: Seq<Seq<char>>,
    user_types: Seq<Seq<char>>,
) -> Messages {
    entry_messages(
        header_messages(month, base, fx),
        fx,
        net_worth,
        cash_flow,
        hicp_numeric,
        valid_types,
        user_types,
    )
}

pub open spec fn opt_entries(o: Option<Vec<EntryFields>>) -> Option<Seq<EntryV>> {
    match o {
        Some(v) => Some(entries_view(v@)),
        None => None,
    }
}

pub open spec fn opt_opt_entries(o: Option<Option<Vec<EntryFields>>>) -> Option<Option<Seq<EntryV>>> {
    match o {
        Some(inner) => Some(opt_entries(inner)),
        None => None,
    }
}

pub open spec fn file_messages(f: MonthFile, s: ValidationSettings) -> Messages {
    validate_spec(
        text_or_empty(f.month),
        match f.fx_rates {
            Some(v) => Some(fx_view(v@)),
            None => None,
        },
        opt_entries(f.net_worth_entries),
        cash_flow_entries_of(opt_opt_entries(f.cash_flow_dash), opt_opt_entries(f.cash_flow_underscore)),
        f.hicp_numeric,
        s.base_currency@,
        views(s.assets@) + views(s.liabilities@),
        views(s.transaction_user_categories@),
    )
}

/// The messages of a file other than its month's error: those of the rates,
/// the entries and the index, in order.
pub open spec fn other_messages(f: MonthFile, s: ValidationSettings) -> Messages {
    let fx = match f.fx_rates {
        Some(v) => Some(fx_view(v@)),
        None => None,
    };
    entry_messages(
        rates_messages(Seq::empty(), s.base_currency@, fx),
        fx,
        opt_entries(f.net_worth_entries),
        cash_flow_entries_of(opt_opt_entries(f.cash_flow_dash), opt_opt_entries(f.cash_flow_underscore)),
        f.hicp_numeric,
        views(s.assets@) + views(s.liabilities@),
        views(s.transaction_user_categories@),
    )
}

proof fn lemma_net_worth_prefix(
    es: Seq<EntryV>,
    vt: Seq<Seq<char>>,
    fx: Option<Seq<FxEntryV>>,
    p: Seq<Seq<char>>,
    m: Messages,
    n: int,
)
    ensures
        net_worth_messages(es, vt, fx, (p + m.0, m.1), n) == (
            p + net_worth_messages(es, vt, fx, m, n).0,
            net_worth_messages(es, vt, fx, m, n).1,
        ),
    decreases n,
{
    if n > 0 {
        lemma_net_worth_prefix(es, vt, fx, p, m, n - 1);
        let prev = net_worth_messages(es, vt, fx, m, n - 1);
        let e = es[n - 1];
        let i = (n - 1) as nat;
        let a = "net_worth_entries["@ + decimal(i) + "] missing 'balance'"@;
        let b = quoted("net_worth_entries"@, i, " currency "@, e.currency, " not found in fx_rates"@);
        assert((p + prev.0).push(a) =~= p + prev.0.push(a));
        assert((p + prev.0).push(b) =~= p + prev.0.push(b));
        assert((p + prev.0).push(a).push(b) =~= p + prev.0.push(a).push(b));
    }
}

proof fn lemma_cash_flow_prefix(
    es: Seq<EntryV>,
    ut: Seq<Seq<char>>,
    fx: Option<Seq<FxEntryV>>,
    p: Seq<Seq<char>>,
    m: Messages,
    n: int,
)
    ensures
        cash_flow_messages(es, ut, fx, (p + m.0, m.1), n) == (
            p + cash_flow_messages(es, ut, fx, m, n).0,
            cash_flow_messages(es, ut, fx, m, n).1,
        ),
    decreases n,
{
    if n > 0 {
        lemma_cash_flow_prefix(es, ut, fx, p, m, n - 1);
        let prev = cash_flow_messages(es, ut, fx, m, n - 1);
        let e = es[n - 1];
        let i = (n - 1) as nat;
        let a = "cash-flow-entries["@ + decimal(i) + "] missing 'amount'"@;
        let b = quoted("cash-flow-entries"@, i, " currency "@, e.currency, " not found in fx_rates"@);
        assert((p + prev.0).push(a) =~= p + prev.0.push(a));
        assert((p + prev.0).push(b) =~= p + prev.0.push(b));
        assert((p + prev.0).push(a).push(b) =~= p + prev.0.push(a).push(b));
    }
}

/// The month's error comes first, before the messages of everything else.
proof fn lemma_month_error_first(f: MonthFile, s: ValidationSettings)
    ensures
        file_messages(f, s).0 == month_errors(text_or_empty(f.month)) + other_messages(f, s).0,
        file_messages(f, s).1 == other_messages(f, s).1,
{
    let p = month_errors(text_or_empty(f.month));
    let fx = match f.fx_rates {
        Some(v) => Some(fx_view(v@)),
        None => None,
    };
    let base = s.base_currency@;
    let r0 = rates_messages(Seq::empty(), base, fx);
    let r1 = rates_messages(p, base, fx);
    assert(p + Seq::<Seq<char>>::empty() =~= p);
    assert(r1.0 =~= p + r0.0) by {
        assert((p + Seq::<Seq<char>>::empty()).push("missing 'fx_rates' object"@) =~= p + Seq::<Seq<char>>::empty().push("missing 'fx_rates' object"@));
        assert(p.push("fx_rates missing base currency '"@ + base + "'"@) =~= p + Seq::<Seq<char>>::empty().push("fx_rates missing base currency '"@ + base + "'"@));
        assert(p.push("missing 'fx_rates' object"@) =~= p + Seq::<Seq<char>>::empty().push("missing 'fx_rates' object"@));
    }
    assert(r1.1 == r0.1);
    let vt = views(s.assets@) + views(s.liabilities@);
    let ut = views(s.transaction_user_categories@);
    let nw = opt_entries(f.net_worth_entries);
    let cf = cash_flow_entries_of(opt_opt_entries(f.cash_flow_dash), opt_opt_entries(f.cash_flow_underscore));
    let m1 = match nw {
        Some(es) => net_worth_messages(es, vt, fx, r0, es.len() as int),
        None => (r0.0, r0.1.push("missing or non-array 'net_worth_entries'"@)),
    };
    let n1 = match nw {
        Some(es) => net_worth_messages(es, vt, fx, r1, es.len() as int),
        None => (r1.0, r1.1.push("missing or non-array 'net_worth_entries'"@)),
    };
    match nw {
        Some(es) => {
            lemma_net_worth_prefix(es, vt, fx, p, r0, es.len() as int);
            assert(r1 == (p + r0.0, r0.1));
        },
        None => {},
    }
    assert(n1 == (p + m1.0, m1.1));
    let m2 = match cf {
        Some(es) => cash_flow_messages(es, ut, fx, m1, es.len() as int),
        None => m1,
    };
    let n2 = match cf {
        Some(es) => cash_flow_messages(es, ut, fx, n1, es.len() as int),
        None => n1,
    };
    match cf {
        Some(es) => {
            lemma_cash_flow_prefix(es, ut, fx, p, m1, es.len() as int);
        },
        None => {},
    }
    assert(n2 == (p + m2.0, m2.1));
}

fn has_key_exec(fx: &Vec<FxEntry>, c: &str) -> (r: bool)
    ensures
        r == has_key(fx_view(fx@), c@),
{
    let ghost fv = fx_view(fx@);
    let mut i: usize = 0;
    while i < fx.len()
        invariant
            i <= fx.len(),
            fv == fx_view(fx@),
            forall|k: int| 0 <= k < i ==> (#[trigger] fv[k]).currency != c@,
        decreases fx.len() - i,
    {
        if same(fx[i].currency.as_str(), c) {
            assert(fv[i as int].currency == c@);
            return true;
        }
        i = i + 1;
    }
    false
}

fn rate_of_exec(fx: &Vec<FxEntry>, c: &str) -> (r: Option<(String, bool)>)
    ensures
        match r {
            Some((d, f)) => rate_of(fx_view(fx@), c@, fx@.len() as int) == Some((d@, f)),
            None => rate_of(fx_view(fx@), c@, fx@.len() as int) is None,
        },
{
    let ghost fv = fx_view(fx@);
    let mut i: usize = 0;
    while i < fx.len()
        invariant
            i <= fx.len(),
            fv == fx_view(fx@),
            rate_of(fv, c@, fv.len() as int) == rate_of(fv, c@, fv.len() - i),
        decreases fx.len() - i,
    {
        if same(fx[i].currency.as_str(), c) {
            return match &fx[i].rate {
                Some(r) => Some((r.display.clone(), r.far_from_one)),
                None => None,
            };
        }
        i = i + 1;
    }
    None
}

fn contains_text(v: &Vec<String>, x: &str) -> (r: bool)
    ensures
        r == views(v@).contains(x@),
{
    let mut i: usize = 0;
    while i < v.len()
        invariant
            i <= v.len(),
            forall|k: int| 0 <= k < i ==> v@[k]@ != x@,
        decreases v.len() - i,
    {
        if same(v[i].as_str(), x) {
            assert(views(v@)[i as int] == x@);
            return true;
        }
        i = i + 1;
    }
    proof {
        if views(v@).contains(x@) {
            let k = choose|k: int| 0 <= k < views(v@).len() && views(v@)[k] == x@;
            assert(v@[k]@ == x@);
        }
    }
    false
}

fn opt_text(o: &Option<String>) -> (out: String)
    ensures
        out@ == text_or_empty(*o),
{
    match o {
        Some(s) => s.clone(),
        None => String::new(),
    }
}

fn quote(label: &str, i: usize, middle: &str, value: &str, end: &str) -> (out: String)
    ensures
        out@ == quoted(label@, i as nat, middle@, value@, end@),
{
    let mut out = owned(label);
    out.append("[");
    out.append(decimal_string(i).as_str());
    out.append("]");
    out.append(middle);
    out.append("'");
    out.append(value);
    out.append("'");
    out.append(end);
    out
}

fn check_net_worth(
    entries: &Vec<EntryFields>,
    valid_types: &Vec<String>,
    fx: &Option<Vec<FxEntry>>,
    rep: &mut Report,
)
    ensures
        (views(final(rep).errors@), views(final(rep).warnings@)) == net_worth_messages(
            entries_view(entries@),
            views(valid_types@),
            match fx {
                Some(v) => Some(fx_view(v@)),
                None => None,
            },
            (views(old(rep).errors@), views(old(rep).warnings@)),
            entries@.len() as int,
        ),
{
    let ghost es = entries_view(entries@);
    let ghost fxv = match fx {
        Some(v) => Some(fx_view(v@)),
        None => None,
    };
    let ghost start = (views(rep.errors@), views(rep.warnings@));
    let mut i: usize = 0;
    while i < entries.len()
        invariant
            i <= entries.len(),
            es == entries_view(entries@),
            fxv == (match fx {
                Some(v) => Some(fx_view(v@)),
                None => None,
            }),
            (views(rep.errors@), views(rep.warnings@)) == net_worth_messages(
                es,
                views(valid_types@),
                fxv,
                start,
                i as int,
            ),
        decreases entries.len() - i,
    {
        let e = &entries[i];
        let t = opt_text(&e.kind);
        let c = opt_text(&e.currency);
        if !contains_text(valid_types, t.as_str()) {
            rep.warn(
                quote(
                    "net_worth_entries",
                    i,
                    " has unknown type ",
                    t.as_str(),
                    " (not listed in settings account_categories)",
                ),
            );
        }
        if !e.has_balance {
            let mut msg = owned("net_worth_entries[");
            msg.append(decimal_string(i).as_str());
            msg.append("] missing 'balance'");
            rep.error(msg);
        }
        match fx {
            Some(map) => {
                if !has_key_exec(map, c.as_str()) {
                    rep.error(quote("net_worth_entries", i, " currency ", c.as_str(), " not found in fx_rates"));
                }
            },
            None => {},
        }
        i = i + 1;
    }
}

fn check_cash_flow(
    entries: &Vec<EntryFields>,
    user_types: &Vec<String>,
    fx: &Option<Vec<FxEntry>>,
    rep: &mut Report,
)
    ensures
        (views(final(rep).errors@), views(final(rep).warnings@)) == cash_flow_messages(
            entries_view(entries@),
            views(user_types@),
            match fx {
                Some(v) => Some(fx_view(v@)),
                None => None,
            },
            (views(old(rep).errors@), views(old(rep).warnings@)),
            entries@.len() as int,
        ),
{
    let ghost es = entries_view(entries@);
    let ghost fxv = match fx {
        Some(v) => Some(fx_view(v@)),
        None => None,
    };
    let ghost start = (views(rep.errors@), views(rep.warnings@));
    let mut i: usize = 0;
    while i < entries.len()
        invariant
            i <= entries.len(),
            es == entries_view(entries@),
            fxv == (match fx {
                Some(v) => Some(fx_view(v@)),
                None => None,
            }),
            (views(rep.errors@), views(rep.warnings@)) == cash_flow_messages(
                es,
                views(user_types@),
                fxv,
                start,
                i as int,
            ),
        decreases entries.len() - i,
    {
        let e = &entries[i];
        let t = opt_text(&e.kind);
        let c = opt_text(&e.currency);
        if !contains_text(user_types, t.as_str()) {
            rep.warn(
                quote(
                    "cash-flow-entries",
                    i,
                    " has user type ",
                    t.as_str(),
                    " not in settings.transaction_user_categories",
                ),
            );
        }
        if !e.has_amount {
            let mut msg = owned("cash-flow-entries[");
            msg.append(decimal_string(i).as_str());
            msg.append("] missing 'amount'");
            rep.error(msg);
        }
        match fx {
            Some(map) => {
                if !has_key_exec(map, c.as_str()) {
                    rep.error(quote("cash-flow-entries", i, " currency ", c.as_str(), " not found in fx_rates"));
                }
            },
            None => {},
        }
        i = i + 1;
    }
}

/// Checks a monthly file: the month's format, the rates (with the base
/// currency at 1), the types and currencies of the entries, and the index.
pub fn validate_month_file(file: &MonthFile, settings: &ValidationSettings) -> (rep: Report)
    ensures
        (views(rep.errors@), views(rep.warnings@)) == file_messages(*file, *settings),
        views(rep.errors@) == month_errors(text_or_empty(file.month)) + other_messages(
            *file,
            *settings,
        ).0,
        ascii_month_shape(text_or_empty(file.month)) ==> views(rep.errors@) == other_messages(
            *file,
            *settings,
        ).0,
        ({
            let m = text_or_empty(file.month);
            !(m.len() == 7 && m[4] == '-') ==> views(rep.errors@)[0] == "invalid month format '"@
                + m + "', expected YYYY-MM"@
        }),
{
    proof {
        lemma_month_error_first(*file, *settings);
    }
    let mut rep = Report::new();
    assert(views(rep.errors@) =~= Seq::<Seq<char>>::empty());
    assert(views(rep.warnings@) =~= Seq::<Seq<char>>::empty());
    let month = opt_text(&file.month);
    let month_ok = regex_is_match("^\\d{4}-\\d{2}$", month.as_str());
    assert(ascii_month_shape(month@) ==> month_errors(month@) =~= Seq::<Seq<char>>::empty());
    assert(!(month@.len() == 7 && month@[4] == '-') ==> month_errors(month@) == seq![
        "invalid month format '"@ + month@ + "', expected YYYY-MM"@,
    ]);
    if !month_ok {
        let mut msg = owned("invalid month format '");
        msg.append(month.as_str());
        msg.append("', expected YYYY-MM");
        rep.error(msg);
    }
    let base = &settings.base_currency;
    match &file.fx_rates {
        None => rep.error(owned("missing 'fx_rates' object")),
        Some(map) => {
            if !has_key_exec(map, base.as_str()) {
                let mut msg = owned("fx_rates missing base currency '");
                msg.append(base.as_str());
                msg.append("'");
                rep.error(msg);
            } else {
                match rate_of_exec(map, base.as_str()) {
                    Some((display, far)) => {
                        if far {
                            let mut msg = owned("base currency '");
                            msg.append(base.as_str());
                            msg.append("' rate is ");
                            msg.append(display.as_str());
                            msg.append(", expected 1.0");
                            rep.warn(msg);
                        }
                    },
                    None => {},
                }
            }
        },
    }
    let mut valid_types: Vec<String> = Vec::new();
    assert(views(settings.assets@).take(0) =~= Seq::<Seq<char>>::empty());
    let mut k: usize = 0;
    while k < settings.assets.len()
        invariant
            k <= settings.assets.len(),
            views(valid_types@) == views(settings.assets@).take(k as int),
        decreases settings.assets.len() - k,
    {
        let ghost before = views(valid_types@);
        valid_types.push(owned(settings.assets[k].as_str()));
        assert(views(valid_types@) =~= before.push(settings.assets@[k as int]@));
        assert(views(settings.assets@).take(k + 1) =~= views(settings.assets@).take(k as int).push(settings.assets@[k as int]@));
        k = k + 1;
    }
    assert(views(settings.assets@).take(settings.assets@.len() as int) =~= views(settings.assets@));
    assert(views(settings.assets@) + views(settings.liabilities@).take(0) =~= views(settings.assets@));
    let mut k: usize = 0;
    while k < settings.liabilities.len()
        invariant
            k <= settings.liabilities.len(),
            views(valid_types@) == views(settings.assets@) + views(settings.liabilities@).take(k as int),
        decreases settings.liabilities.len() - k,
    {
        let ghost before = views(valid_types@);
        valid_types.push(owned(settings.liabilities[k].as_str()));
        assert(views(valid_types@) =~= before.push(settings.liabilities@[k as int]@));
        assert(views(settings.liabilities@).take(k + 1) =~= views(settings.liabilities@).take(k as int).push(settings.liabilities@[k as int]@));
        assert(views(settings.assets@) + views(settings.liabilities@).take(k + 1) =~= (views(settings.assets@) + views(settings.liabilities@).take(k as int)).push(settings.liabilities@[k as int]@));
        k = k + 1;
    }
    assert(views(settings.liabilities@).take(settings.liabilities@.len() as int) =~= views(settings.liabilities@));
    match &file.net_worth_entries {
        Some(entries) => check_net_worth(entries, &valid_types, &file.fx_rates, &mut rep),
        None => rep.warn(owned("missing or non-array 'net_worth_entries'")),
    }
    let cash_flow = match &file.cash_flow_dash {
        Some(d) => d,
        None => match &file.cash_flow_underscore {
            Some(u) => u,
            None => &None,
        },
    };
    match cash_flow {
        Some(entries) => check_cash_flow(entries, &settings.transaction_user_categories, &file.fx_rates, &mut rep),
        None => {},
    }
    if !file.hicp_numeric {
        rep.warn(owned("missing or non-numeric 'hicp'"));
    }
    rep
}

} // verus!
