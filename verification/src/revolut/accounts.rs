//! The Revolut current and savings accounts as records.
use vstd::prelude::*;

use super::RevolutCsvParser;
use crate::records::{seq_views, Account, AccountV};
use crate::text::{owned, same, views};

verus! {

broadcast use vstd::string::group_string_axioms;

pub open spec fn revolut_account(id: Seq<char>) -> AccountV {
    AccountV { account_id: id, institution: "Revolut"@, country: None, iban: None, bic: None, is_active: true }
}

/// The accounts named in `ids`, in order: each identifier that is the current
/// or the savings account gives that account; any other is passed over.
pub open spec fn used_accounts_spec(current: Seq<char>, savings: Seq<char>, ids: Seq<Seq<char>>) -> Seq<
    AccountV,
>
    decreases ids.len(),
{
    if ids.len() == 0 {
        Seq::empty()
    } else {
        let prev = used_accounts_spec(current, savings, ids.drop_last());
        if ids.last() == current {
            prev.push(revolut_account(current))
        } else if ids.last() == savings {
            prev.push(revolut_account(savings))
        } else {
            prev
        }
    }
}

fn revolut_account_record(id: &String) -> (a: Account)
    ensures
        a@ == revolut_account(id@),
{
    Account {
        account_id: id.clone(),
        institution: owned("Revolut"),
        country: None,
        iban: None,
        bic: None,
        is_active: true,
    }
}

/// Both accounts: current first, then savings.
pub fn create_all_accounts(parser: &RevolutCsvParser) -> (v: Vec<Account>)
    ensures
        seq_views(v@) == seq![
            revolut_account(parser.account_id_current@),
            revolut_account(parser.account_id_savings@),
        ],
{
    let mut v = Vec::new();
    v.push(revolut_account_record(&parser.account_id_current));
    v.push(revolut_account_record(&parser.account_id_savings));
    assert(seq_views(v@) =~= seq![
        revolut_account(parser.account_id_current@),
        revolut_account(parser.account_id_savings@),
    ]);
    v
}

pub fn create_used_accounts(parser: &RevolutCsvParser, used_account_ids: &[String]) -> (v: Vec<
    Account,
>)
    ensures
        seq_views(v@) == used_accounts_spec(
            parser.account_id_current@,
            parser.account_id_savings@,
            views(used_account_ids@),
        ),
{
    let mut out: Vec<Account> = Vec::new();
    let mut i: usize = 0;
    while i < used_account_ids.len()
        invariant
            i <= used_account_ids.len(),
            seq_views(out@) == used_accounts_spec(
                parser.account_id_current@,
                parser.account_id_savings@,
                views(used_account_ids@).take(i as int),
            ),
        decreases used_account_ids.len() - i,
    {
        let ghost before = out@;
        let id = &used_account_ids[i];
        assert(views(used_account_ids@).take(i + 1).drop_last() =~= views(used_account_ids@).take(
            i as int,
        ));
        if same(id.as_str(), parser.account_id_current.as_str()) {
            out.push(revolut_account_record(&parser.account_id_current));
            assert(seq_views(out@) =~= seq_views(before).push(
                revolut_account(parser.account_id_current@),
            ));
        } else if same(id.as_str(), parser.account_id_savings.as_str()) {
            out.push(revolut_account_record(&parser.account_id_savings));
            assert(seq_views(out@) =~= seq_views(before).push(
                revolut_account(parser.account_id_savings@),
            ));
        }
        i = i + 1;
    }
    assert(views(used_account_ids@).take(used_account_ids.len() as int) =~= views(
        used_account_ids@,
    ));
    out
}

impl RevolutCsvParser {
    pub fn create_accounts(&self) -> (v: Vec<Account>)
        ensures
            seq_views(v@) == seq![
                revolut_account(self.account_id_current@),
                revolut_account(self.account_id_savings@),
            ],
    {
        create_all_accounts(self)
    }

    pub fn create_used_accounts(&self, used_account_ids: &[String]) -> (v: Vec<Account>)
        ensures
            seq_views(v@) == used_accounts_spec(
                self.account_id_current@,
                self.account_id_savings@,
                views(used_account_ids@),
            ),
    {
        create_used_accounts(self, used_account_ids)
    }
}

} // verus!
