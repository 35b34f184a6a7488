//! The rules kept in the database file, and what each request of the rules
//! service does to them: the list is read, changed here, and written back by
//! the caller.
use vstd::prelude::*;

use crate::text::{concat3, owned, same};

verus! {

/// Where the rules service keeps its rules.
pub struct FileRuleRepository {
    pub database_path: String,
}

impl FileRuleRepository {
    pub fn new(database_path: &str) -> (out: Self)
        ensures
            out.database_path@ == database_path@,
    {
        FileRuleRepository { database_path: owned(database_path) }
    }
}

/// One entry of the `rules` array: its `rule_id` string when it has one,
/// whether it reads back as a rule, and the stored value.
pub struct StoredRule<V> {
    pub rule_id: Option<String>,
    pub readable: bool,
    pub value: V,
}

pub struct StoredRuleV<V> {
    pub rule_id: Option<Seq<char>>,
    pub readable: bool,
    pub value: V,
}

impl<V> View for StoredRule<V> {
    type V = StoredRuleV<V>;

    open spec fn view(&self) -> StoredRuleV<V> {
        StoredRuleV {
            rule_id: match self.rule_id {
                Some(s) => Some(s@),
                None => None,
            },
            readable: self.readable,
            value: self.value,
        }
    }
}

pub open spec fn rule_views<V>(rules: Seq<StoredRule<V>>) -> Seq<StoredRuleV<V>> {
    rules.map_values(|r: StoredRule<V>| r@)
}

/// Why a request on the rules failed.
pub enum RuleStoreError {
    /// The database has no `rules` array.
    RulesMissing,
    /// A rule with this id is already stored.
    AlreadyExists { rule_id: String },
    /// No rule with this id is stored.
    NotFound { rule_id: String },
    /// An update names one rule id in its path and another in its body.
    IdMismatch,
}

impl RuleStoreError {
    /// The error's message.
    pub fn message(&self) -> (out: String)
        ensures
            out@ == (match *self {
                RuleStoreError::RulesMissing => "rules array not found"@,
                RuleStoreError::AlreadyExists { rule_id } => "Rule with ID "@ + rule_id@
                    + " already exists"@,
                RuleStoreError::NotFound { rule_id } => "Rule "@ + rule_id@ + " not found"@,
                RuleStoreError::IdMismatch => "Rule ID in path does not match rule ID in body"@,
            }),
    {
        match self {
            RuleStoreError::RulesMissing => owned("rules array not found"),
            RuleStoreError::AlreadyExists { rule_id } => concat3(
                "Rule with ID ",
                rule_id.as_str(),
                " already exists",
            ),
            RuleStoreError::NotFound { rule_id } => concat3("Rule ", rule_id.as_str(), " not found"),
            RuleStoreError::IdMismatch => owned("Rule ID in path does not match rule ID in body"),
        }
    }
}

/// Whether an entry is stored under `id` (and, with `readable_only`, reads
/// as a rule).
pub open spec fn hit<V>(r: StoredRuleV<V>, id: Seq<char>, readable_only: bool) -> bool {
    (!readable_only || r.readable) && r.rule_id == Some(id)
}

/// The first entry `hit` picks out.
pub open spec fn first_hit<V>(rules: Seq<StoredRuleV<V>>, id: Seq<char>, readable_only: bool) -> Option<int>
    decreases rules.len(),
{
    if rules.len() == 0 {
        None
    } else {
        match first_hit(rules.drop_last(), id, readable_only) {
            Some(i) => Some(i),
            None => if hit(rules.last(), id, readable_only) {
                Some(rules.len() - 1)
            } else {
                None
            },
        }
    }
}

/// The first entry whose `rule_id` is `id`.
pub open spec fn position_of<V>(rules: Seq<StoredRuleV<V>>, id: Seq<char>) -> Option<int> {
    first_hit(rules, id, false)
}

/// The first entry that reads as a rule and whose `rule_id` is `id`: the rule
/// a lookup gives back.
pub open spec fn lookup<V>(rules: Seq<StoredRuleV<V>>, id: Seq<char>) -> Option<int> {
    first_hit(rules, id, true)
}

proof fn lemma_first_hit<V>(rules: Seq<StoredRuleV<V>>, id: Seq<char>, ro: bool)
    ensures
        match first_hit(rules, id, ro) {
            Some(p) => 0 <= p < rules.len() && hit(rules[p], id, ro) && forall|j: int|
                0 <= j < p ==> !hit(#[trigger] rules[j], id, ro),
            None => forall|j: int| 0 <= j < rules.len() ==> !hit(#[trigger] rules[j], id, ro),
        },
    decreases rules.len(),
{
    if rules.len() > 0 {
        let init = rules.drop_last();
        lemma_first_hit(init, id, ro);
        assert forall|j: int| 0 <= j < init.len() implies #[trigger] rules[j] == init[j] by {}
    }
}

proof fn lemma_first_unique<V>(rules: Seq<StoredRuleV<V>>, id: Seq<char>, k: int, ro: bool)
    requires
        0 <= k < rules.len(),
        hit(rules[k], id, ro),
        forall|j: int| 0 <= j < k ==> !hit(#[trigger] rules[j], id, ro),
    ensures
        first_hit(rules, id, ro) == Some(k),
{
    lemma_first_hit(rules, id, ro);
    if first_hit(rules, id, ro) is Some {
        let p = first_hit(rules, id, ro)->0;
        if p < k {
            assert(!hit(rules[p], id, ro));
        }
        if p > k {
            assert(!hit(rules[k], id, ro));
        }
    }
}

/// Scans for `id`: among all entries, or among those that read as rules.
fn scan<V>(rules: &Vec<StoredRule<V>>, id: &str, readable_only: bool) -> (out: Option<usize>)
    ensures
        readable_only ==> match out {
            Some(k) => lookup(rule_views(rules@), id@) == Some(k as int),
            None => lookup(rule_views(rules@), id@) is None,
        },
        !readable_only ==> match out {
            Some(k) => position_of(rule_views(rules@), id@) == Some(k as int),
            None => position_of(rule_views(rules@), id@) is None,
        },
        out matches Some(k) ==> k < rules.len(),
{
    let ghost vs = rule_views(rules@);
    let mut i: usize = 0;
    while i < rules.len()
        invariant
            i <= rules.len(),
            vs == rule_views(rules@),
            forall|j: int| 0 <= j < i ==> !hit(#[trigger] vs[j], id@, readable_only),
        decreases rules.len() - i,
    {
        let hit = match &rules[i].rule_id {
            Some(s) => same(s.as_str(), id),
            None => false,
        };
        if hit && (!readable_only || rules[i].readable) {
            proof {
                assert(vs[i as int] == rules@[i as int]@);
                lemma_first_unique(vs, id@, i as int, readable_only);
            }
            return Some(i);
        }
        assert(vs[i as int] == rules@[i as int]@);
        i = i + 1;
    }
    proof {
        lemma_first_hit(vs, id@, readable_only);
        if first_hit(vs, id@, readable_only) is Some {
            let p = first_hit(vs, id@, readable_only)->0;
            assert(!hit(vs[p], id@, readable_only));
        }
    }
    None
}

/// The position of the rule a lookup of `id` gives back.
pub fn find_rule<V>(rules: &Vec<StoredRule<V>>, rule_id: &str) -> (out: Option<usize>)
    ensures
        match out {
            Some(k) => k < rules.len() && lookup(rule_views(rules@), rule_id@) == Some(k as int),
            None => lookup(rule_views(rules@), rule_id@) is None,
        },
{
    scan(rules, rule_id, true)
}

/// The rules after storing a new one under `id`, or the refusal.
pub open spec fn create_spec<V>(rules: Seq<StoredRuleV<V>>, id: Seq<char>, value: V) -> Option<
    Seq<StoredRuleV<V>>,
> {
    if position_of(rules, id) is Some {
        None
    } else {
        Some(rules.push(StoredRuleV { rule_id: Some(id), readable: true, value }))
    }
}

/// The rules after replacing the first one stored under `id`, or the refusal.
pub open spec fn update_spec<V>(rules: Seq<StoredRuleV<V>>, id: Seq<char>, value: V) -> Option<
    Seq<StoredRuleV<V>>,
> {
    match position_of(rules, id) {
        Some(p) => Some(rules.update(p, StoredRuleV { rule_id: Some(id), readable: true, value })),
        None => None,
    }
}

/// The rules after removing the first one stored under `id`, or the refusal.
pub open spec fn delete_spec<V>(rules: Seq<StoredRuleV<V>>, id: Seq<char>) -> Option<
    Seq<StoredRuleV<V>>,
> {
    match position_of(rules, id) {
        Some(p) => Some(rules.remove(p)),
        None => None,
    }
}

/// Stores a new rule under `rule_id`; refused when a rule with that id is
/// already stored, which leaves the rules as they were.
pub fn create_rule<V>(rules: &mut Vec<StoredRule<V>>, rule_id: &str, value: V) -> (out: Result<
    (),
    RuleStoreError,
>)
    ensures
        match create_spec(rule_views(old(rules)@), rule_id@, value) {
            Some(after) => out is Ok && rule_views(final(rules)@) == after,
            None => (out matches Err(RuleStoreError::AlreadyExists { rule_id: r }) && r@ == rule_id@)
                && final(rules)@ == old(rules)@,
        },
{
    match scan(rules, rule_id, false) {
        Some(_) => Err(RuleStoreError::AlreadyExists { rule_id: owned(rule_id) }),
        None => {
            let ghost before = rule_views(rules@);
            rules.push(StoredRule { rule_id: Some(owned(rule_id)), readable: true, value });
            assert(rule_views(rules@) =~= before.push(
                StoredRuleV { rule_id: Some(rule_id@), readable: true, value },
            ));
            Ok(())
        },
    }
}

/// Replaces the first rule stored under `rule_id`; refused when there is none.
pub fn update_rule<V>(rules: &mut Vec<StoredRule<V>>, rule_id: &str, value: V) -> (out: Result<
    (),
    RuleStoreError,
>)
    ensures
        match update_spec(rule_views(old(rules)@), rule_id@, value) {
            Some(after) => out is Ok && rule_views(final(rules)@) == after,
            None => (out matches Err(RuleStoreError::NotFound { rule_id: r }) && r@ == rule_id@)
                && final(rules)@ == old(rules)@,
        },
{
    match scan(rules, rule_id, false) {
        Some(p) => {
            let ghost before = rule_views(rules@);
            rules.set(p, StoredRule { rule_id: Some(owned(rule_id)), readable: true, value });
            assert(rule_views(rules@) =~= before.update(
                p as int,
                StoredRuleV { rule_id: Some(rule_id@), readable: true, value },
            ));
            Ok(())
        },
        None => Err(RuleStoreError::NotFound { rule_id: owned(rule_id) }),
    }
}

/// An update addressed to `path_rule_id` may carry only the rule with that
/// id: any other id in the body refuses the request before the rules are read.
pub fn check_path_id(path_rule_id: &str, body_rule_id: &str) -> (out: Result<(), RuleStoreError>)
    ensures
        path_rule_id@ == body_rule_id@ ==> out is Ok,
        path_rule_id@ != body_rule_id@ ==> out matches Err(RuleStoreError::IdMismatch),
{
    if same(path_rule_id, body_rule_id) {
        Ok(())
    } else {
        Err(RuleStoreError::IdMismatch)
    }
}

/// Removes the first rule stored under `rule_id`; refused when there is none.
pub fn delete_rule<V>(rules: &mut Vec<StoredRule<V>>, rule_id: &str) -> (out: Result<
    (),
    RuleStoreError,
>)
    ensures
        match delete_spec(rule_views(old(rules)@), rule_id@) {
            Some(after) => out is Ok && rule_views(final(rules)@) == after,
            None => (out matches Err(RuleStoreError::NotFound { rule_id: r }) && r@ == rule_id@)
                && final(rules)@ == old(rules)@,
        },
{
    match scan(rules, rule_id, false) {
        Some(p) => {
            let ghost before = rule_views(rules@);
            let _ = rules.remove(p);
            assert(rule_views(rules@) =~= before.remove(p as int));
            Ok(())
        },
        None => Err(RuleStoreError::NotFound { rule_id: owned(rule_id) }),
    }
}

/// After a rule is created under `id`, looking `id` up gives back that rule.
pub proof fn lemma_create_then_lookup<V>(rules: Seq<StoredRuleV<V>>, id: Seq<char>, value: V)
    requires
        create_spec(rules, id, value) is Some,
    ensures
        ({
            let after = create_spec(rules, id, value)->0;
            lookup(after, id) == Some(rules.len() as int) && after[rules.len() as int].value
                == value
        }),
{
    let after = create_spec(rules, id, value)->0;
    lemma_first_hit(rules, id, false);
    assert forall|j: int| 0 <= j < rules.len() implies !hit(#[trigger] after[j], id, true) by {
        assert(after[j] == rules[j]);
        assert(!hit(rules[j], id, false));
    }
    lemma_first_unique(after, id, rules.len() as int, true);
}

/// Creating a rule under an id that is already stored is refused.
pub proof fn lemma_create_twice_refused<V>(rules: Seq<StoredRuleV<V>>, id: Seq<char>, first: V, second: V)
    requires
        create_spec(rules, id, first) is Some,
    ensures
        create_spec(create_spec(rules, id, first)->0, id, second) is None,
{
    let after = create_spec(rules, id, first)->0;
    lemma_first_hit(after, id, false);
    assert(hit(after[rules.len() as int], id, false));
}

/// After the rule under `id` is updated, looking `id` up gives back the new
/// value.
pub proof fn lemma_update_then_lookup<V>(rules: Seq<StoredRuleV<V>>, id: Seq<char>, value: V)
    requires
        update_spec(rules, id, value) is Some,
    ensures
        ({
            let after = update_spec(rules, id, value)->0;
            lookup(after, id) matches Some(k) && after[k].value == value
        }),
{
    lemma_first_hit(rules, id, false);
    let p = position_of(rules, id)->0;
    let after = update_spec(rules, id, value)->0;
    assert forall|j: int| 0 <= j < p implies !hit(#[trigger] after[j], id, true) by {
        assert(after[j] == rules[j]);
        assert(!hit(rules[j], id, false));
    }
    lemma_first_unique(after, id, p, true);
}

/// A create, update or delete under one id leaves what a lookup of any other
/// id gives back, by value, as it was.
pub proof fn lemma_writes_keep_other_rules<V>(
    rules: Seq<StoredRuleV<V>>,
    id: Seq<char>,
    other: Seq<char>,
    value: V,
)
    requires
        id != other,
    ensures
        create_spec(rules, id, value) matches Some(after) ==> same_lookup(rules, after, other),
        update_spec(rules, id, value) matches Some(after) ==> same_lookup(rules, after, other),
        delete_spec(rules, id) matches Some(after) ==> same_lookup(rules, after, other),
{
    lemma_first_hit(rules, id, false);
    if create_spec(rules, id, value) is Some {
        let after = create_spec(rules, id, value)->0;
        assert(after.take(rules.len() as int) =~= rules);
        lemma_lookup_kept(rules, after, other, rules.len() as int, 0);
    }
    if update_spec(rules, id, value) is Some {
        let p = position_of(rules, id)->0;
        let after = update_spec(rules, id, value)->0;
        lemma_lookup_kept(rules, after, other, p, 1);
    }
    if delete_spec(rules, id) is Some {
        let p = position_of(rules, id)->0;
        let after = delete_spec(rules, id)->0;
        lemma_lookup_kept(rules, after, other, p, 2);
    }
}

/// A lookup of `id` gives back the same value in both lists (or nothing in
/// both).
pub open spec fn same_lookup<V>(a: Seq<StoredRuleV<V>>, b: Seq<StoredRuleV<V>>, id: Seq<char>) -> bool {
    match (lookup(a, id), lookup(b, id)) {
        (Some(i), Some(j)) => a[i].value == b[j].value,
        (None, None) => true,
        _ => false,
    }
}

/// `after` is `rules` with position `p` appended to (`how == 0`), replaced by
/// an entry not under `other` (`how == 1`) or removed (`how == 2`).
proof fn lemma_lookup_kept<V>(
    rules: Seq<StoredRuleV<V>>,
    after: Seq<StoredRuleV<V>>,
    other: Seq<char>,
    p: int,
    how: int,
)
    requires
        0 <= p <= rules.len(),
        how == 0 ==> p == rules.len() && after.len() == rules.len() + 1 && after.take(p) == rules,
        how == 1 ==> p < rules.len() && after.len() == rules.len() && forall|j: int|
            0 <= j < rules.len() && j != p ==> after[j] == rules[j],
        how != 2 ==> !hit(after[p], other, true),
        how == 2 ==> p < rules.len() && after == rules.remove(p),
        p < rules.len() ==> !hit(rules[p], other, true),
        0 <= how <= 2,
    ensures
        same_lookup(rules, after, other),
{
    lemma_first_hit(rules, other, true);
    lemma_first_hit(after, other, true);
    // the entry of `after` at `j` is the entry of `rules` at `orig(j)`
    assert forall|j: int| 0 <= j < after.len() && !(how != 2 && j == p) implies {
        let oj = if how == 2 && j >= p { j + 1 } else { j };
        0 <= oj < rules.len() && oj != p && #[trigger] after[j] == rules[oj]
    } by {
        if how == 0 {
            assert(after.take(p)[j] == after[j]);
        }
    }
    if lookup(rules, other) is Some {
        let i = lookup(rules, other)->0;
        let ni = if how == 2 && i > p { i - 1 } else { i };
        assert(i != p);
        assert(after[ni] == rules[i]);
        assert forall|j: int| 0 <= j < ni implies !hit(#[trigger] after[j], other, true) by {
            if !(how != 2 && j == p) {
                let oj = if how == 2 && j >= p { j + 1 } else { j };
                assert(after[j] == rules[oj]);
                assert(!hit(rules[oj], other, true));
            }
        }
        lemma_first_unique(after, other, ni, true);
    } else if lookup(after, other) is Some {
        let k = lookup(after, other)->0;
        assert(!(how != 2 && k == p));
        let ok = if how == 2 && k >= p { k + 1 } else { k };
        assert(after[k] == rules[ok]);
        assert(!hit(rules[ok], other, true));
    }
}

/// A reordering request: rule ids, first the most important.
pub struct ReorderRulesRequest {
    pub rule_ids: Vec<String>,
}

impl ReorderRulesRequest {
    /// The priority each listed rule is given: its position in the list.
    pub fn priorities(&self) -> (out: Vec<(String, i32)>)
        ensures
            out.len() == self.rule_ids.len(),
            forall|k: int|
                0 <= k < out.len() ==> (#[trigger] out@[k]).0@ == self.rule_ids@[k]@ && out@[k].1
                    == k as i32,
    {
        let mut out: Vec<(String, i32)> = Vec::new();
        let mut k: usize = 0;
        while k < self.rule_ids.len()
            invariant
                k <= self.rule_ids.len(),
                out.len() == k,
                forall|j: int|
                    0 <= j < k ==> (#[trigger] out@[j]).0@ == self.rule_ids@[j]@ && out@[j].1
                        == j as i32,
            decreases self.rule_ids.len() - k,
        {
            out.push((owned(self.rule_ids[k].as_str()), k as i32));
            k = k + 1;
        }
        out
    }
}

/// What applying the rules did to one transaction of a batch.
pub struct TransactionRuleResult {
    pub transaction_index: usize,
    pub txn_id: Option<String>,
    pub applied_actions: Vec<String>,
}

impl TransactionRuleResult {
    pub fn new(transaction_index: usize, txn_id: Option<String>, applied_actions: Vec<String>) -> (out:
        Self)
        ensures
            out.transaction_index == transaction_index,
            out.txn_id == txn_id,
            out.applied_actions == applied_actions,
    {
        TransactionRuleResult { transaction_index, txn_id, applied_actions }
    }
}

} // verus!
