//! Revolut CSV exports: one current account and one savings pocket per
//! customer.
pub mod accounts;
pub mod transactions;

use vstd::prelude::*;

use crate::text::{concat, strip_suffix_all, strip_suffixes};

verus! {

broadcast use vstd::string::group_string_axioms;

/// The Revolut importer and the two accounts it books into.
pub struct RevolutCsvParser {
    pub account_id_current: String,
    pub account_id_savings: String,
    pub only_completed: bool,
}

/// The account stem: the given identifier without trailing `_CURRENT`, then
/// without trailing `_SAVINGS`.
pub open spec fn revolut_base(input: Seq<char>) -> Seq<char> {
    strip_suffix_all(strip_suffix_all(input, "_CURRENT"@), "_SAVINGS"@)
}

impl RevolutCsvParser {
    /// Accepts the stem or either account identifier: both accounts are
    /// derived from the stem.
    pub fn new(account_id: &str) -> (p: RevolutCsvParser)
        ensures
            p.account_id_current@ == revolut_base(account_id@) + "_CURRENT"@,
            p.account_id_savings@ == revolut_base(account_id@) + "_SAVINGS"@,
            p.only_completed,
    {
        let without_current = strip_suffixes(account_id, "_CURRENT");
        let base = strip_suffixes(without_current.as_str(), "_SAVINGS");
        RevolutCsvParser {
            account_id_current: concat(base.as_str(), "_CURRENT"),
            account_id_savings: concat(base.as_str(), "_SAVINGS"),
            only_completed: true,
        }
    }

    pub fn with_only_completed(self, only_completed: bool) -> (p: RevolutCsvParser)
        ensures
            p.account_id_current@ == self.account_id_current@,
            p.account_id_savings@ == self.account_id_savings@,
            p.only_completed == only_completed,
    {
        let mut p = self;
        p.only_completed = only_completed;
        p
    }
}

/// Passing the stem, the current account or the savings account to
/// [`RevolutCsvParser::new`] yields the same accounts, for a stem that itself
/// ends in neither suffix.
pub proof fn lemma_new_accepts_either_variant(base: Seq<char>)
    requires
        !"_CURRENT"@.is_suffix_of(base),
        !"_SAVINGS"@.is_suffix_of(base),
    ensures
        revolut_base(base) == base,
        revolut_base(base + "_CURRENT"@) == base,
        revolut_base(base + "_SAVINGS"@) == base,
{
    reveal_strlit("_CURRENT");
    reveal_strlit("_SAVINGS");
    let c = "_CURRENT"@;
    let s = "_SAVINGS"@;
    assert(strip_suffix_all(base, c) == base);
    assert(strip_suffix_all(base, s) == base);
    let bc = base + c;
    assert(bc.subrange(bc.len() - c.len(), bc.len() as int) =~= c);
    assert(bc.subrange(0, bc.len() - c.len()) =~= base);
    assert(strip_suffix_all(bc, c) == base);
    let bs = base + s;
    assert(bs.subrange(bs.len() - s.len(), bs.len() as int) =~= s);
    assert(bs.subrange(0, bs.len() - s.len()) =~= base);
    assert(bs.subrange(bs.len() - c.len(), bs.len() as int)[1] != c[1]);
    assert(strip_suffix_all(bs, c) == bs);
    assert(strip_suffix_all(bs, s) == base);
}

} // verus!
