//! The dashboard's bookkeeping: which files are monthly inputs, how entries
//! fall into the categories of the settings, the order of the months, and
//! which months make up each year. The arithmetic on balances stays with the
//! caller.
use vstd::prelude::*;

use vstd::utf8::{
    decode_utf8, encode_utf8, encode_utf8_decode_utf8, encode_utf8_valid_utf8, is_char_boundary,
};

use crate::cli::rollover::{i32_text, parse_i32};
use crate::text::{
    ascii_lower, eq_ignore_ascii_case, eq_ignore_ascii_case_spec, ends_with, owned,
    text_less, text_lt, to_ascii_lower, views,
};

verus! {

/// The category lists of the settings file.
pub struct SettingsCategories {
    pub assets: Vec<String>,
    pub liabilities: Vec<String>,
    pub positive_cash_flows: Vec<String>,
    pub negative_cash_flows: Vec<String>,
}

/// When the dashboard was made, and from which settings version.
pub struct DashboardMetadata {
    pub generated_at: String,
    pub settings_version: u32,
}

impl DashboardMetadata {
    pub fn new(generated_at: String, settings_version: u32) -> (out: Self)
        ensures
            out.generated_at@ == generated_at@,
            out.settings_version == settings_version,
    {
        DashboardMetadata { generated_at, settings_version }
    }
}

/// The dashboard's metadata as the dashboard service serves it.
pub struct Metadata {
    pub generated_at: String,
}

impl Metadata {
    pub fn new(generated_at: String) -> (out: Self)
        ensures
            out.generated_at@ == generated_at@,
    {
        Metadata { generated_at }
    }
}

/// The first position of `list` that equals `key` ignoring ASCII case.
pub open spec fn first_match(list: Seq<Seq<char>>, key: Seq<char>) -> Option<int>
    decreases list.len(),
{
    if list.len() == 0 {
        None
    } else {
        match first_match(list.drop_last(), key) {
            Some(i) => Some(i),
            None => if eq_ignore_ascii_case_spec(list.last(), key) {
                Some(list.len() - 1)
            } else {
                None
            },
        }
    }
}

/// The first entry of `list` that equals `key` ignoring ASCII case.
pub fn find_category(list: &Vec<String>, key: &str) -> (out: Option<usize>)
    ensures
        match out {
            Some(j) => j < list.len() && first_match(views(list@), key@) == Some(j as int),
            None => first_match(views(list@), key@) is None,
        },
{
    let ghost all = views(list@);
    let mut j: usize = 0;
    while j < list.len()
        invariant
            j <= list.len(),
            all == views(list@),
            first_match(all.take(j as int), key@) is None,
        decreases list.len() - j,
    {
        assert(all.take(j + 1).drop_last() =~= all.take(j as int));
        if eq_ignore_ascii_case(list[j].as_str(), key) {
            assert(first_match(all.take(j + 1), key@) == Some(j as int));
            proof {
                lemma_first_match_prefix(all, key@, j as int + 1);
            }
            return Some(j);
        }
        j = j + 1;
    }
    assert(all.take(j as int) =~= all);
    None
}

/// A match within the first `k` entries is the match of the whole list.
proof fn lemma_first_match_prefix(list: Seq<Seq<char>>, key: Seq<char>, k: int)
    requires
        0 <= k <= list.len(),
        first_match(list.take(k), key) is Some,
    ensures
        first_match(list, key) == first_match(list.take(k), key),
    decreases list.len() - k,
{
    if k < list.len() {
        assert(list.take(k + 1).drop_last() =~= list.take(k));
        lemma_first_match_prefix(list, key, k + 1);
    } else {
        assert(list.take(k) =~= list);
    }
}

/// Where a balance of the given type is counted.
pub enum NetWorthClass {
    /// Under this liability category of the settings.
    Liability { category: String },
    /// Under this asset category of the settings.
    Asset { category: String },
    /// Nowhere: the type is in neither list.
    Unknown,
}

/// Where a cash-flow entry of the given type is counted.
pub enum CashFlowClass {
    Income,
    Expense,
    Ignored,
}

/// The category a net-worth entry of type `kind` is counted under: the first
/// liability category equal to it ignoring ASCII case, else the first such
/// asset category.
pub fn classify_net_worth(cats: &SettingsCategories, kind: &str) -> (out: NetWorthClass)
    ensures
        match first_match(views(cats.liabilities@), ascii_lower(kind@)) {
            Some(i) => out matches NetWorthClass::Liability { category } && category@
                == cats.liabilities@[i]@,
            None => match first_match(views(cats.assets@), ascii_lower(kind@)) {
                Some(i) => out matches NetWorthClass::Asset { category } && category@
                    == cats.assets@[i]@,
                None => out is Unknown,
            },
        },
{
    let lower = to_ascii_lower(kind);
    match find_category(&cats.liabilities, lower.as_str()) {
        Some(i) => {
            let category = owned(cats.liabilities[i].as_str());
            assert(views(cats.liabilities@)[i as int] == cats.liabilities@[i as int]@);
            NetWorthClass::Liability { category }
        },
        None => match find_category(&cats.assets, lower.as_str()) {
            Some(i) => {
                let category = owned(cats.assets[i].as_str());
                assert(views(cats.assets@)[i as int] == cats.assets@[i as int]@);
                NetWorthClass::Asset { category }
            },
            None => {
                NetWorthClass::Unknown
            },
        },
    }
}

/// Whether a cash-flow entry of type `kind` is income (a positive category,
/// ignoring ASCII case), an expense (a negative one) or neither.
pub fn classify_cash_flow(cats: &SettingsCategories, kind: &str) -> (out: CashFlowClass)
    ensures
        out == (if first_match(views(cats.positive_cash_flows@), ascii_lower(kind@)) is Some {
            CashFlowClass::Income
        } else if first_match(views(cats.negative_cash_flows@), ascii_lower(kind@)) is Some {
            CashFlowClass::Expense
        } else {
            CashFlowClass::Ignored
        }),
{
    let lower = to_ascii_lower(kind);
    if find_category(&cats.positive_cash_flows, lower.as_str()).is_some() {
        CashFlowClass::Income
    } else if find_category(&cats.negative_cash_flows, lower.as_str()).is_some() {
        CashFlowClass::Expense
    } else {
        CashFlowClass::Ignored
    }
}

/// Whether a file is read as a month: its name ends in `.json` and is twelve
/// bytes long, as `2025_09.json` is.
pub fn is_month_file_name(name: &str) -> (r: bool)
    ensures
        r == (".json"@.is_suffix_of(name@) && name.len() == 12),
{
    proof {
        reveal_strlit(".json");
    }
    ends_with(name, ".json") && name.len() == 12
}

/// The year a month label starts with: its first four bytes read as an `i32`.
pub open spec fn month_year_spec(month: Seq<char>) -> Option<int> {
    i32_text(decode_utf8(encode_utf8(month).subrange(0, 4)))
}

/// A label whose first four bytes are whole characters.
pub open spec fn has_year_prefix(month: Seq<char>) -> bool {
    encode_utf8(month).len() >= 4 && is_char_boundary(encode_utf8(month), 4)
}

/// `month[0..4].parse::<i32>()`.
pub fn month_year(month: &str) -> (out: Option<i32>)
    requires
        has_year_prefix(month@),
    ensures
        match out {
            Some(y) => month_year_spec(month@) == Some(y as int),
            None => month_year_spec(month@) is None,
        },
{
    proof {
        encode_utf8_valid_utf8(month@);
    }
    let (head, _) = month.split_at(4);
    proof {
        encode_utf8_decode_utf8(head@);
    }
    parse_i32(head)
}

/// `a` is not after `b` in the order of `String`.
pub open spec fn text_le(a: Seq<char>, b: Seq<char>) -> bool {
    !text_lt(b, a)
}

/// `order` lists positions of `keys`, each once, by key and then by position.
pub open spec fn stably_sorted(keys: Seq<Seq<char>>, order: Seq<usize>) -> bool {
    &&& forall|a: int| 0 <= a < order.len() ==> #[trigger] order[a] < keys.len()
    &&& forall|a: int, b: int|
        0 <= a < b < order.len() ==> #[trigger] order[a] != #[trigger] order[b]
    &&& forall|a: int, b: int|
        #![trigger order[a], order[b]]
        0 <= a < b < order.len() ==> text_le(keys[order[a] as int], keys[order[b] as int])
    &&& forall|a: int, b: int|
        #![trigger order[a], order[b]]
        0 <= a < b < order.len() && keys[order[a] as int] == keys[order[b] as int] ==> order[a]
            < order[b]
}

/// The order in which the months are processed: by label, and among equal
/// labels in the order they were read (a stable sort).
pub fn month_order(months: &Vec<String>) -> (order: Vec<usize>)
    ensures
        order.len() == months.len(),
        stably_sorted(views(months@), order@),
{
    let ghost keys = views(months@);
    let mut order: Vec<usize> = Vec::new();
    let mut i: usize = 0;
    while i < months.len()
        invariant
            i <= months.len(),
            keys == views(months@),
            order.len() == i,
            forall|a: int| 0 <= a < order.len() ==> #[trigger] order@[a] < i,
            stably_sorted(keys, order@),
        decreases months.len() - i,
    {
        let mut p: usize = 0;
        while p < order.len() && !text_less(months[i].as_str(), months[order[p]].as_str())
            invariant
                p <= order.len(),
                i < months.len(),
                keys == views(months@),
                forall|a: int| 0 <= a < order.len() ==> #[trigger] order@[a] < i,
                forall|q: int| 0 <= q < p ==> text_le(keys[order@[q] as int], #[trigger] keys[i as int]),
            decreases order.len() - p,
        {
            assert(keys[order@[p as int] as int] == months@[order@[p as int] as int]@);
            p = p + 1;
        }
        let ghost old_order = order@;
        proof {
            if p < old_order.len() {
                assert(text_lt(keys[i as int], keys[old_order[p as int] as int]));
                assert forall|q: int| p <= q < old_order.len() implies text_lt(
                    keys[i as int],
                    #[trigger] keys[old_order[q] as int],
                ) by {
                    if q > p {
                        assert(text_le(keys[old_order[p as int] as int], keys[old_order[q] as int]));
                        lemma_lt_le(keys[i as int], keys[old_order[p as int] as int], keys[old_order[q] as int]);
                    }
                }
            }
        }
        order.insert(p, i);
        proof {
            let s = order@;
            assert(s == old_order.insert(p as int, i));
            assert forall|a: int| 0 <= a < s.len() implies #[trigger] s[a] < i + 1 by {
                if a < p {
                    assert(s[a] == old_order[a]);
                } else if a > p {
                    assert(s[a] == old_order[a - 1]);
                }
            }
            assert forall|a: int, b: int|
                #![trigger s[a], s[b]]
                0 <= a < b < s.len() implies s[a] != s[b] && text_le(
                    keys[s[a] as int],
                    keys[s[b] as int],
                ) && (keys[s[a] as int] == keys[s[b] as int] ==> s[a] < s[b]) by {
                let oa = if a < p { a } else { a - 1 };
                let ob = if b < p { b } else { b - 1 };
                if a != p && b != p {
                    assert(s[a] == old_order[oa]);
                    assert(s[b] == old_order[ob]);
                    assert(oa < ob);
                } else if a == p {
                    assert(s[b] == old_order[ob]);
                    assert(text_lt(keys[i as int], keys[old_order[ob] as int]));
                    lemma_lt_asym(keys[i as int], keys[old_order[ob] as int]);
                    crate::text::lemma_text_lt_irreflexive(keys[i as int]);
                } else {
                    assert(s[a] == old_order[oa]);
                    assert(text_le(keys[old_order[oa] as int], keys[i as int]));
                }
            }
        }
        i = i + 1;
    }
    order
}

proof fn lemma_lt_asym(a: Seq<char>, b: Seq<char>)
    requires
        text_lt(a, b),
    ensures
        !text_lt(b, a),
{
    if text_lt(b, a) {
        crate::text::lemma_text_lt_transitive(a, b, a);
        crate::text::lemma_text_lt_irreflexive(a);
    }
}

proof fn lemma_lt_le(a: Seq<char>, b: Seq<char>, c: Seq<char>)
    requires
        text_lt(a, b),
        text_le(b, c),
    ensures
        text_lt(a, c),
{
    crate::text::lemma_text_lt_total(b, c);
    if b != c {
        crate::text::lemma_text_lt_transitive(a, b, c);
    }
}

/// An `i32` option as an integer option.
pub open spec fn opt_int(o: Option<i32>) -> Option<int> {
    match o {
        Some(v) => Some(v as int),
        None => None,
    }
}

/// Every label starts with four bytes of whole characters.
pub open spec fn all_year_prefixed(months: Seq<String>) -> bool {
    forall|m: int| 0 <= m < months.len() ==> has_year_prefix(#[trigger] months[m]@)
}

/// Some month before `bound` has year `y`.
pub open spec fn occurs(years: Seq<Option<i32>>, bound: int, y: i32) -> bool {
    exists|m: int| 0 <= m < bound && #[trigger] years[m] == Some(y)
}

/// The months of one year, by their positions in the list of months.
pub struct YearGroup {
    pub year: i32,
    pub members: Vec<usize>,
}

/// The years of the months, one group per year that occurs, by year; each
/// group lists, in order, every month whose label starts with that year.
pub open spec fn year_groups_spec(months: Seq<String>, groups: Seq<YearGroup>) -> bool {
    &&& forall|g: int, h: int|
        #![trigger groups[g], groups[h]]
        0 <= g < h < groups.len() ==> groups[g].year < groups[h].year
    &&& forall|g: int| 0 <= g < groups.len() ==> (#[trigger] groups[g]).members@.len() > 0
    &&& forall|g: int, a: int, b: int|
        #![trigger groups[g].members@[a], groups[g].members@[b]]
        0 <= g < groups.len() && 0 <= a < b < groups[g].members@.len() ==> groups[g].members@[a]
            < groups[g].members@[b]
    &&& forall|g: int, a: int|
        #![trigger groups[g].members@[a]]
        0 <= g < groups.len() && 0 <= a < groups[g].members@.len() ==> {
            let m = groups[g].members@[a] as int;
            0 <= m < months.len() && month_year_spec(months[m]@) == Some(groups[g].year as int)
        }
    &&& forall|m: int|
        0 <= m < months.len() && (#[trigger] month_year_spec(months[m]@)) is Some ==> exists|
            g: int,
        |
            0 <= g < groups.len() && month_year_spec(months[m]@) == Some(
                (#[trigger] groups[g]).year as int,
            ) && groups[g].members@.contains(m as usize)
}

/// Groups the months by the year their labels start with.
pub fn yearly_groups(months: &Vec<String>) -> (groups: Vec<YearGroup>)
    requires
        all_year_prefixed(months@),
    ensures
        year_groups_spec(months@, groups@),
{
    let n = months.len();
    let mut years: Vec<Option<i32>> = Vec::new();
    let mut i: usize = 0;
    while i < n
        invariant
            i <= n,
            n == months.len(),
            all_year_prefixed(months@),
            years.len() == i,
            forall|m: int| 0 <= m < i ==> opt_int(#[trigger] years@[m]) == month_year_spec(months@[m]@),
        decreases n - i,
    {
        let y = month_year(months[i].as_str());
        years.push(y);
        i = i + 1;
    }
    let mut ys: Vec<i32> = Vec::new();
    let mut i: usize = 0;
    while i < n
        invariant
            i <= n,
            n == months.len() == years.len(),
            forall|m: int| 0 <= m < n ==> opt_int(#[trigger] years@[m]) == month_year_spec(months@[m]@),
            forall|a: int, b: int| 0 <= a < b < ys.len() ==> #[trigger] ys@[a] < #[trigger] ys@[b],
            forall|a: int| 0 <= a < ys.len() ==> occurs(years@, i as int, #[trigger] ys@[a]),
            forall|m: int| 0 <= m < i && (#[trigger] years@[m]) is Some ==> ys@.contains(years@[m]->0),
        decreases n - i,
    {
        match years[i] {
            Some(y) => {
                let mut p: usize = 0;
                while p < ys.len() && ys[p] < y
                    invariant
                        p <= ys.len(),
                        forall|q: int| 0 <= q < p ==> #[trigger] ys@[q] < y,
                    decreases ys.len() - p,
                {
                    p = p + 1;
                }
                if p < ys.len() && ys[p] == y {
                    assert(ys@[p as int] == years@[i as int]->0);
                } else {
                    let ghost old_ys = ys@;
                    proof {
                        assert forall|q: int| p <= q < old_ys.len() implies y < #[trigger] old_ys[q] by {
                            if q > p {
                                assert(old_ys[p as int] < old_ys[q]);
                            }
                        }
                    }
                    ys.insert(p, y);
                    proof {
                        let s = ys@;
                        assert(s == old_ys.insert(p as int, y));
                        assert forall|a: int, b: int| 0 <= a < b < s.len() implies #[trigger] s[a]
                            < #[trigger] s[b] by {
                            if a < p && b < p {
                                assert(s[a] == old_ys[a] && s[b] == old_ys[b]);
                            } else if a < p && b == p {
                                assert(s[a] == old_ys[a]);
                            } else if a < p {
                                assert(s[a] == old_ys[a] && s[b] == old_ys[b - 1]);
                            } else if a == p {
                                assert(s[b] == old_ys[b - 1]);
                            } else {
                                assert(s[a] == old_ys[a - 1] && s[b] == old_ys[b - 1]);
                            }
                        }
                        assert forall|a: int| 0 <= a < s.len() implies occurs(years@, i + 1, #[trigger] s[a]) by {
                            if a < p {
                                assert(s[a] == old_ys[a]);
                                assert(occurs(years@, i as int, old_ys[a]));
                            } else if a > p {
                                assert(s[a] == old_ys[a - 1]);
                                assert(occurs(years@, i as int, old_ys[a - 1]));
                            } else {
                                assert(years@[i as int] == Some(s[a]));
                            }
                        }
                        assert forall|m: int| 0 <= m < i + 1 && (#[trigger] years@[m]) is Some implies s.contains(
                            years@[m]->0,
                        ) by {
                            if m < i {
                                let k = choose|k: int| 0 <= k < old_ys.len() && old_ys[k] == years@[m]->0;
                                if k < p {
                                    assert(s[k] == old_ys[k]);
                                } else {
                                    assert(s[k + 1] == old_ys[k]);
                                }
                            } else {
                                assert(s[p as int] == y);
                            }
                        }
                    }
                }
            },
            None => {},
        }
        i = i + 1;
    }
    let mut groups: Vec<YearGroup> = Vec::new();
    let mut k: usize = 0;
    while k < ys.len()
        invariant
            k <= ys.len(),
            n == months.len() == years.len(),
            forall|m: int| 0 <= m < n ==> opt_int(#[trigger] years@[m]) == month_year_spec(months@[m]@),
            forall|a: int, b: int| 0 <= a < b < ys.len() ==> #[trigger] ys@[a] < #[trigger] ys@[b],
            forall|a: int| 0 <= a < ys.len() ==> occurs(years@, n as int, #[trigger] ys@[a]),
            forall|m: int| 0 <= m < n && (#[trigger] years@[m]) is Some ==> ys@.contains(years@[m]->0),
            groups.len() == k,
            forall|g: int| 0 <= g < k ==> (#[trigger] groups@[g]).year == ys@[g],
            forall|g: int| 0 <= g < k ==> (#[trigger] groups@[g]).members@.len() > 0,
            forall|g: int, a: int, b: int|
                #![trigger groups@[g].members@[a], groups@[g].members@[b]]
                0 <= g < k && 0 <= a < b < groups@[g].members@.len() ==> groups@[g].members@[a]
                    < groups@[g].members@[b],
            forall|g: int, a: int|
                #![trigger groups@[g].members@[a]]
                0 <= g < k && 0 <= a < groups@[g].members@.len() ==> groups@[g].members@[a] < n
                    && years@[groups@[g].members@[a] as int] == Some(groups@[g].year),
            forall|g: int, m: int|
                0 <= g < k && 0 <= m < n && #[trigger] years@[m] == Some((#[trigger] groups@[g]).year)
                    ==> groups@[g].members@.contains(m as usize),
        decreases ys.len() - k,
    {
        let y = ys[k];
        let mut members: Vec<usize> = Vec::new();
        let mut m: usize = 0;
        while m < n
            invariant
                m <= n,
                n == years.len(),
                forall|a: int, b: int| 0 <= a < b < members.len() ==> #[trigger] members@[a] < #[trigger] members@[b],
                forall|a: int| 0 <= a < members.len() ==> #[trigger] members@[a] < m && years@[members@[a] as int] == Some(y),
                forall|j: int| 0 <= j < m && #[trigger] years@[j] == Some(y) ==> members@.contains(j as usize),
            decreases n - m,
        {
            if years[m] == Some(y) {
                let ghost old_members = members@;
                members.push(m);
                proof {
                    assert forall|j: int| 0 <= j < m + 1 && #[trigger] years@[j] == Some(y) implies members@.contains(j as usize) by {
                        if j < m {
                            let t = choose|t: int| 0 <= t < old_members.len() && old_members[t] == j as usize;
                            assert(members@[t] == j as usize);
                        } else {
                            assert(members@[old_members.len() as int] == m);
                        }
                    }
                }
            }
            m = m + 1;
        }
        proof {
            assert(occurs(years@, n as int, ys@[k as int]));
            let w = choose|w: int| 0 <= w < n && #[trigger] years@[w] == Some(ys@[k as int]);
            assert(members@.contains(w as usize));
        }
        let ghost old_groups = groups@;
        groups.push(YearGroup { year: y, members });
        proof {
            assert forall|g: int| 0 <= g < k + 1 implies #[trigger] groups@[g] == (if g < k { old_groups[g] } else { groups@[k as int] }) by {}
        }
        k = k + 1;
    }
    proof {
        assert forall|m: int|
            0 <= m < months@.len() && (#[trigger] month_year_spec(months@[m]@)) is Some implies exists|g: int|
                0 <= g < groups@.len() && month_year_spec(months@[m]@) == Some((#[trigger] groups@[g]).year as int)
                    && groups@[g].members@.contains(m as usize) by {
            assert(opt_int(years@[m]) == month_year_spec(months@[m]@));
            assert(years@[m] is Some);
            let g = choose|g: int| 0 <= g < ys@.len() && ys@[g] == years@[m]->0;
            assert(groups@[g].year == ys@[g]);
        }
        assert forall|g: int, a: int|
            #![trigger groups@[g].members@[a]]
            0 <= g < groups@.len() && 0 <= a < groups@[g].members@.len() implies {
                let m = groups@[g].members@[a] as int;
                0 <= m < months@.len() && month_year_spec(months@[m]@) == Some(groups@[g].year as int)
            } by {
            let m = groups@[g].members@[a] as int;
            assert(opt_int(years@[m]) == month_year_spec(months@[m]@));
        }
        assert forall|g: int, h: int|
            #![trigger groups@[g], groups@[h]]
            0 <= g < h < groups@.len() implies groups@[g].year < groups@[h].year by {
            assert(ys@[g] < ys@[h]);
        }
    }
    groups
}

/// A category list is searched ignoring ASCII case and the first equal entry
/// wins: the search finds an entry exactly when one equals the key, and
/// no earlier entry does.
pub proof fn lemma_first_match_is_first_equal(list: Seq<Seq<char>>, key: Seq<char>)
    ensures
        first_match(list, key) is Some <==> exists|i: int|
            0 <= i < list.len() && eq_ignore_ascii_case_spec(#[trigger] list[i], key),
        first_match(list, key) matches Some(i) ==> 0 <= i < list.len() && eq_ignore_ascii_case_spec(
            list[i],
            key,
        ) && forall|j: int| 0 <= j < i ==> !eq_ignore_ascii_case_spec(#[trigger] list[j], key),
    decreases list.len(),
{
    if list.len() > 0 {
        let init = list.drop_last();
        lemma_first_match_is_first_equal(init, key);
        assert forall|j: int| 0 <= j < init.len() implies init[j] == list[j] by {}
        if exists|i: int| 0 <= i < list.len() && eq_ignore_ascii_case_spec(#[trigger] list[i], key) {
            let i = choose|i: int| 0 <= i < list.len() && eq_ignore_ascii_case_spec(#[trigger] list[i], key);
            if i < init.len() {
                assert(eq_ignore_ascii_case_spec(init[i], key));
            }
        }
    }
}

} // verus!
