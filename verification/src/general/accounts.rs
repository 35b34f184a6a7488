//! The general importer's settings and the accounts it reports.
use vstd::prelude::*;

use crate::idset::{add_once, lemma_add_once, push_unique};
use crate::records::{seq_views, Account, AccountV};
use crate::text::{owned, views};

verus! {

broadcast use vstd::string::group_string_axioms;

/// The account the statements belong to, its institution, and the currency
/// assumed where a row names none.
pub struct GeneralParser {
    pub account_id: String,
    pub institution: String,
    pub default_currency: String,
}

pub open spec fn or_default(o: Option<Seq<char>>, d: Seq<char>) -> Seq<char> {
    match o {
        Some(s) => s,
        None => d,
    }
}

impl GeneralParser {
    /// The settings as configured, each falling back to its default when
    /// not given.
    pub fn new(account_id: Option<String>, institution: Option<String>, default_currency: Option<String>) -> (p: GeneralParser)
        ensures
            p.account_id@ == or_default(crate::records::opt_view(account_id), "GENERIC_BANK_ACCOUNT"@),
            p.institution@ == or_default(
                crate::records::opt_view(institution),
                "Unknown Financial Institution"@,
            ),
            p.default_currency@ == or_default(crate::records::opt_view(default_currency), "EUR"@),
    {
        GeneralParser {
            account_id: match account_id {
                Some(a) => a,
                None => owned("GENERIC_BANK_ACCOUNT"),
            },
            institution: match institution {
                Some(i) => i,
                None => owned("Unknown Financial Institution"),
            },
            default_currency: match default_currency {
                Some(c) => c,
                None => owned("EUR"),
            },
        }
    }

    pub fn create_accounts(&self) -> (v: Vec<Account>)
        ensures
            seq_views(v@) == seq![general_account(self.account_id@, self.institution@)],
    {
        create_all_accounts(self)
    }

    pub fn create_used_accounts(&self, used_account_ids: &[String]) -> (v: Vec<Account>)
        ensures
            seq_views(v@) == used_general_accounts(
                self.account_id@,
                self.institution@,
                views(used_account_ids@),
            ),
    {
        create_used_accounts(self, used_account_ids)
    }
}

pub open spec fn general_account(id: Seq<char>, institution: Seq<char>) -> AccountV {
    AccountV { account_id: id, institution, country: None, iban: None, bic: None, is_active: true }
}

fn general_account_record(id: &String, institution: &String) -> (a: Account)
    ensures
        a@ == general_account(id@, institution@),
{
    Account {
        account_id: id.clone(),
        institution: institution.clone(),
        country: None,
        iban: None,
        bic: None,
        is_active: true,
    }
}

pub fn create_all_accounts(parser: &GeneralParser) -> (v: Vec<Account>)
    ensures
        seq_views(v@) == seq![general_account(parser.account_id@, parser.institution@)],
{
    let mut v = Vec::new();
    v.push(general_account_record(&parser.account_id, &parser.institution));
    assert(seq_views(v@) =~= seq![general_account(parser.account_id@, parser.institution@)]);
    v
}

/// The first `n` identifiers without repeats, in order of first appearance.
pub open spec fn distinct_prefix(ids: Seq<Seq<char>>, n: int) -> Seq<Seq<char>>
    decreases n,
{
    if n <= 0 {
        Seq::empty()
    } else {
        add_once(distinct_prefix(ids, n - 1), ids[n - 1])
    }
}

pub open spec fn distinct(ids: Seq<Seq<char>>) -> Seq<Seq<char>> {
    distinct_prefix(ids, ids.len() as int)
}

/// One account per distinct identifier, in order of first appearance, all
/// at the parser's institution; the parser's own account when there are no
/// identifiers.
pub open spec fn used_general_accounts(account_id: Seq<char>, institution: Seq<char>, ids: Seq<Seq<char>>) -> Seq<
    AccountV,
> {
    let d = distinct(ids);
    if d.len() == 0 {
        seq![general_account(account_id, institution)]
    } else {
        d.map_values(|id: Seq<char>| general_account(id, institution))
    }
}

proof fn lemma_distinct_prefix(ids: Seq<Seq<char>>, n: int)
    requires
        0 <= n <= ids.len(),
    ensures
        distinct_prefix(ids, n).no_duplicates(),
        forall|x: Seq<char>| #[trigger] distinct_prefix(ids, n).contains(x) <==> ids.take(n).contains(x),
    decreases n,
{
    if n > 0 {
        lemma_distinct_prefix(ids, n - 1);
        lemma_add_once(distinct_prefix(ids, n - 1), ids[n - 1]);
        assert forall|x: Seq<char>| #[trigger] distinct_prefix(ids, n).contains(x) <==> ids.take(n).contains(x) by {
            assert(ids.take(n) =~= ids.take(n - 1).push(ids[n - 1]));
            let t = ids.take(n);
            let u = ids.take(n - 1);
            if t.contains(x) {
                let k = choose|k: int| 0 <= k < t.len() && t[k] == x;
                if k < n - 1 {
                    assert(u[k] == x);
                }
            }
            if u.contains(x) {
                let k = choose|k: int| 0 <= k < u.len() && u[k] == x;
                assert(t[k] == x);
            }
            if x == ids[n - 1] {
                assert(t[n - 1] == x);
            }
            assert(distinct_prefix(ids, n - 1).contains(x) <==> u.contains(x));
            assert(add_once(distinct_prefix(ids, n - 1), ids[n - 1]).contains(x) <==> (distinct_prefix(ids, n - 1).contains(x) || x == ids[n - 1]));
        }
    }
}

/// The reported accounts carry distinct identifiers, one for each distinct
/// identifier given (or just the parser's own account when none is given).
pub proof fn lemma_used_accounts_distinct(account_id: Seq<char>, institution: Seq<char>, ids: Seq<Seq<char>>)
    ensures
        ({
            let accts = used_general_accounts(account_id, institution, ids);
            &&& forall|i: int, j: int|
                0 <= i < j < accts.len() ==> (#[trigger] accts[i]).account_id != (
                #[trigger] accts[j]).account_id
            &&& ids.len() > 0 ==> forall|x: Seq<char>|
                ids.contains(x) <==> exists|i: int|
                    0 <= i < accts.len() && (#[trigger] accts[i]).account_id == x
        }),
{
    lemma_distinct_prefix(ids, ids.len() as int);
    assert(ids.take(ids.len() as int) =~= ids);
    let d = distinct(ids);
    let accts = used_general_accounts(account_id, institution, ids);
    if ids.len() > 0 {
        assert(ids.contains(ids[0]));
        assert(distinct_prefix(ids, ids.len() as int).contains(ids[0]));
        assert(d.contains(ids[0]));
        assert(d.len() > 0);
        assert forall|x: Seq<char>|
            ids.contains(x) <==> exists|i: int|
                0 <= i < accts.len() && (#[trigger] accts[i]).account_id == x by {
            if ids.contains(x) {
                assert(distinct_prefix(ids, ids.len() as int).contains(x));
                let k = choose|k: int| 0 <= k < d.len() && d[k] == x;
                assert(accts[k].account_id == x);
            }
            if exists|i: int| 0 <= i < accts.len() && (#[trigger] accts[i]).account_id == x {
                let i = choose|i: int| 0 <= i < accts.len() && (#[trigger] accts[i]).account_id == x;
                assert(d[i] == x);
                assert(d.contains(x));
                assert(distinct_prefix(ids, ids.len() as int).contains(x));
                assert(ids.take(ids.len() as int).contains(x));
            }
        }
    }
}

pub fn create_used_accounts(parser: &GeneralParser, used_account_ids: &[String]) -> (v: Vec<Account>)
    ensures
        seq_views(v@) == used_general_accounts(
            parser.account_id@,
            parser.institution@,
            views(used_account_ids@),
        ),
{
    let ghost ids = views(used_account_ids@);
    let mut seen: Vec<String> = Vec::new();
    let mut out: Vec<Account> = Vec::new();
    let mut i: usize = 0;
    assert(views(seen@) =~= Seq::<Seq<char>>::empty());
    while i < used_account_ids.len()
        invariant
            i <= used_account_ids.len(),
            ids == views(used_account_ids@),
            views(seen@) == distinct_prefix(ids, i as int),
            seq_views(out@) == views(seen@).map_values(
                |id: Seq<char>| general_account(id, parser.institution@),
            ),
        decreases used_account_ids.len() - i,
    {
        let ghost before_seen = views(seen@);
        let ghost before_out = seq_views(out@);
        let id = &used_account_ids[i];
        let count = seen.len();
        push_unique(&mut seen, id);
        if seen.len() > count {
            out.push(general_account_record(id, &parser.institution));
            assert(views(seen@) =~= before_seen.push(id@));
            assert(seq_views(out@) =~= before_out.push(general_account(id@, parser.institution@)));
            assert(seq_views(out@) =~= views(seen@).map_values(
                |id: Seq<char>| general_account(id, parser.institution@),
            ));
        }
        i = i + 1;
    }
    if out.len() == 0 {
        out.push(general_account_record(&parser.account_id, &parser.institution));
        assert(seq_views(out@) =~= seq![general_account(parser.account_id@, parser.institution@)]);
    }
    out
}

} // verus!
