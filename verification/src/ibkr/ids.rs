//! Instrument identifiers, symbol aliases and the identifier remapping that
//! follows when two listings of one instrument are merged.
use vstd::prelude::*;

use crate::records::{Instrument, InstrumentV};
use crate::text::{
    concat, concat3, is_blank, owned, replace_char, replace_char_spec, same, split_char,
    split_spec, trim, trim_spec, lemma_trim_idempotent, TrimSet,
};

verus! {

broadcast use vstd::string::group_string_axioms;

/// `None` for a blank text, otherwise the trimmed text.
pub open spec fn null_if_empty_spec(s: Seq<char>) -> Option<Seq<char>> {
    if trim_spec(s).len() == 0 {
        None
    } else {
        Some(trim_spec(s))
    }
}

pub fn null_if_empty_string(s: &str) -> (r: Option<String>)
    ensures
        crate::records::opt_view(r) == null_if_empty_spec(s@),
{
    let text = trim(s);
    if text.as_str().is_empty() {
        None
    } else {
        Some(text)
    }
}

pub open spec fn ascii_alnum(c: char) -> bool {
    ('0' <= c && c <= '9') || ('a' <= c && c <= 'z') || ('A' <= c && c <= 'Z')
}

/// Twelve ASCII letters or digits.
pub open spec fn isin_like(s: Seq<char>) -> bool {
    s.len() == 12 && forall|i: int| 0 <= i < s.len() ==> ascii_alnum(#[trigger] s[i])
}

pub fn looks_like_isin(s: &str) -> (r: bool)
    ensures
        r == isin_like(s@),
{
    let cs = crate::text::chars_of(s);
    if cs.len() != 12 {
        return false;
    }
    let mut i: usize = 0;
    while i < cs.len()
        invariant
            i <= cs.len(),
            cs@ == s@,
            forall|j: int| 0 <= j < i ==> ascii_alnum(#[trigger] cs@[j]),
        decreases cs.len() - i,
    {
        let c = cs[i];
        if !(('0' <= c && c <= '9') || ('a' <= c && c <= 'z') || ('A' <= c && c <= 'Z')) {
            return false;
        }
        i = i + 1;
    }
    true
}

pub open spec fn underscored(s: Seq<char>) -> Seq<char> {
    replace_char_spec(trim_spec(s), ' ', '_')
}

/// Identifier of an instrument: by ISIN when the security id is one, else by
/// contract id, else by category and ticker.
pub open spec fn instrument_id_spec(
    conid: Seq<char>,
    security_id: Seq<char>,
    asset_category: Seq<char>,
    symbol: Seq<char>,
) -> Seq<char> {
    let sid = trim_spec(security_id);
    if isin_like(sid) {
        "IBKR_"@ + sid
    } else if trim_spec(conid).len() > 0 {
        "IBKR_CONID_"@ + trim_spec(conid)
    } else {
        "IBKR_"@ + underscored(asset_category) + "_"@ + underscored(symbol)
    }
}

pub fn build_instrument_id(conid: &str, security_id: &str, asset_category: &str, symbol: &str) -> (out:
    String)
    ensures
        out@ == instrument_id_spec(conid@, security_id@, asset_category@, symbol@),
{
    let sid = trim(security_id);
    if looks_like_isin(sid.as_str()) {
        return concat("IBKR_", sid.as_str());
    }
    let trimmed_conid = trim(conid);
    if !trimmed_conid.as_str().is_empty() {
        return concat("IBKR_CONID_", trimmed_conid.as_str());
    }
    let category = replace_char(trim(asset_category).as_str(), ' ', '_');
    let ticker = replace_char(trim(symbol).as_str(), ' ', '_');
    let mut out = concat3("IBKR_", category.as_str(), "_");
    out.append(ticker.as_str());
    out
}

/// Distinct non-blank trimmed pieces, in order of first appearance.
pub open spec fn aliases_of_pieces(ps: Seq<Seq<char>>) -> Seq<Seq<char>>
    decreases ps.len(),
{
    if ps.len() == 0 {
        Seq::empty()
    } else {
        let prev = aliases_of_pieces(ps.drop_last());
        let t = trim_spec(ps.last());
        if t.len() > 0 && !prev.contains(t) {
            prev.push(t)
        } else {
            prev
        }
    }
}

/// The aliases listed in a comma-separated symbol field.
pub open spec fn aliases_spec(symbol: Seq<char>) -> Seq<Seq<char>> {
    aliases_of_pieces(split_spec(symbol, ','))
}

fn contains_text(v: &Vec<String>, t: &String) -> (r: bool)
    ensures
        r == crate::text::views(v@).contains(t@),
{
    let mut i: usize = 0;
    while i < v.len()
        invariant
            i <= v.len(),
            forall|j: int| 0 <= j < i ==> v@[j]@ != t@,
        decreases v.len() - i,
    {
        if same(v[i].as_str(), t.as_str()) {
            assert(crate::text::views(v@)[i as int] == t@);
            return true;
        }
        i = i + 1;
    }
    proof {
        if crate::text::views(v@).contains(t@) {
            let k = choose|k: int| 0 <= k < v@.len() && crate::text::views(v@)[k] == t@;
            assert(v@[k]@ == t@);
        }
    }
    false
}

pub fn split_symbol_aliases(symbol: &str) -> (out: Vec<String>)
    ensures
        crate::text::views(out@) == aliases_spec(symbol@),
{
    let parts = split_char(symbol, ',');
    let ghost ps = split_spec(symbol@, ',');
    let mut aliases: Vec<String> = Vec::new();
    let mut i: usize = 0;
    while i < parts.len()
        invariant
            i <= parts.len(),
            parts.len() == ps.len(),
            forall|k: int| 0 <= k < parts.len() ==> #[trigger] parts[k]@ == ps[k],
            crate::text::views(aliases@) == aliases_of_pieces(ps.take(i as int)),
        decreases parts.len() - i,
    {
        let alias = trim(parts[i].as_str());
        assert(ps.take(i + 1).drop_last() =~= ps.take(i as int));
        let seen = contains_text(&aliases, &alias);
        if !alias.as_str().is_empty() && !seen {
            let ghost before = aliases@;
            aliases.push(alias);
            assert(crate::text::views(aliases@) =~= crate::text::views(before).push(alias@));
        }
        i = i + 1;
    }
    assert(ps.take(parts.len() as int) =~= ps);
    aliases
}

pub open spec fn primary_symbol_spec(symbol: Seq<char>) -> Seq<char> {
    if aliases_spec(symbol).len() > 0 {
        aliases_spec(symbol)[0]
    } else {
        trim_spec(symbol)
    }
}

/// First alias of the symbol field, or the trimmed field when it lists none.
pub fn primary_symbol(symbol: &str) -> (out: String)
    ensures
        out@ == primary_symbol_spec(symbol@),
{
    let aliases = split_symbol_aliases(symbol);
    if aliases.len() > 0 {
        aliases[0].clone()
    } else {
        trim(symbol)
    }
}

/// A string-keyed table in which a later entry for a key replaces earlier
/// ones (the behaviour of `HashMap::insert`).
pub struct KeyMap {
    pub entries: Vec<(String, String)>,
}

pub open spec fn pair_views(e: Seq<(String, String)>) -> Seq<(Seq<char>, Seq<char>)> {
    e.map_values(|p: (String, String)| (p.0@, p.1@))
}

pub open spec fn map_get_from(e: Seq<(Seq<char>, Seq<char>)>, key: Seq<char>, n: int) -> Option<
    Seq<char>,
>
    decreases n,
{
    if n <= 0 {
        None
    } else if e[n - 1].0 == key {
        Some(e[n - 1].1)
    } else {
        map_get_from(e, key, n - 1)
    }
}

pub open spec fn map_get(e: Seq<(Seq<char>, Seq<char>)>, key: Seq<char>) -> Option<Seq<char>> {
    map_get_from(e, key, e.len() as int)
}

impl KeyMap {
    pub open spec fn view_entries(&self) -> Seq<(Seq<char>, Seq<char>)> {
        pair_views(self.entries@)
    }

    pub fn new() -> (r: KeyMap)
        ensures
            r.view_entries() == Seq::<(Seq<char>, Seq<char>)>::empty(),
    {
        let r = KeyMap { entries: Vec::new() };
        assert(r.view_entries() =~= Seq::<(Seq<char>, Seq<char>)>::empty());
        r
    }

    pub fn get(&self, key: &str) -> (r: Option<String>)
        ensures
            crate::records::opt_view(r) == map_get(self.view_entries(), key@),
    {
        let mut n: usize = self.entries.len();
        while n > 0
            invariant
                n <= self.entries.len(),
                map_get(self.view_entries(), key@) == map_get_from(
                    self.view_entries(),
                    key@,
                    n as int,
                ),
            decreases n,
        {
            if same(self.entries[n - 1].0.as_str(), key) {
                return Some(self.entries[n - 1].1.clone());
            }
            n = n - 1;
        }
        None
    }

    pub fn insert(&mut self, key: String, value: String)
        ensures
            final(self).view_entries() == old(self).view_entries().push((key@, value@)),
    {
        self.entries.push((key, value));
        assert(final(self).view_entries() =~= old(self).view_entries().push((key@, value@)));
    }
}

/// Follows the remapping chain from `id` for at most `fuel` steps: the end of
/// the chain, or `None` when the chain has not ended by then.
pub open spec fn follow(remap: Seq<(Seq<char>, Seq<char>)>, id: Seq<char>, fuel: nat) -> Option<
    Seq<char>,
>
    decreases fuel,
{
    if fuel == 0 {
        None
    } else {
        match map_get(remap, id) {
            None => Some(id),
            Some(next) => if next == id {
                Some(id)
            } else {
                follow(remap, next, (fuel - 1) as nat)
            },
        }
    }
}

/// End of the remapping chain of `id`. A chain that has not ended after one
/// step per table entry revisits an identifier and never ends; it yields
/// `None`.
pub open spec fn resolve_spec(remap: Seq<(Seq<char>, Seq<char>)>, id: Seq<char>) -> Option<
    Seq<char>,
> {
    follow(remap, id, (remap.len() + 1) as nat)
}

/// Follows `remap` from `id` to the identifier it finally stands for; `None`
/// when the chain loops.
pub fn resolve_instrument_id(id: &str, remap: &KeyMap) -> (r: Option<String>)
    ensures
        crate::records::opt_view(r) == resolve_spec(remap.view_entries(), id@),
{
    let mut current = owned(id);
    let mut fuel: usize = remap.entries.len();
    proof {
        assert(remap.view_entries().len() == remap.entries@.len());
    }
    loop
        invariant
            fuel <= remap.entries.len(),
            remap.view_entries().len() == remap.entries@.len(),
            resolve_spec(remap.view_entries(), id@) == follow(
                remap.view_entries(),
                current@,
                (fuel + 1) as nat,
            ),
        decreases fuel,
    {
        match remap.get(current.as_str()) {
            None => {
                return Some(current);
            },
            Some(next) => {
                if same(next.as_str(), current.as_str()) {
                    return Some(current);
                }
                if fuel == 0 {
                    assert(follow(remap.view_entries(), next@, 0) == None::<Seq<char>>);
                    return None;
                }
                current = next;
                fuel = fuel - 1;
            },
        }
    }
}

/// The key under which an instrument is indexed: `"<category>|<symbol>"`.
pub open spec fn index_key(asset_category: Seq<char>, s: Seq<char>) -> Seq<char> {
    asset_category + "|"@ + s
}

/// Outcome of looking up an instrument already seen: `Ok(found)`, or
/// `Err(id)` when the remapping chain from `id` loops.
pub open spec fn lookup_resolved(
    keys: Seq<(Seq<char>, Seq<char>)>,
    remap: Seq<(Seq<char>, Seq<char>)>,
    key: Seq<char>,
) -> Option<Result<Seq<char>, Seq<char>>> {
    match map_get(keys, key) {
        None => None,
        Some(id) => match resolve_spec(remap, id) {
            Some(r) => Some(Ok(r)),
            None => Some(Err(id)),
        },
    }
}

/// The first alias (from index `i`) indexed for this category, else the full
/// symbol.
pub open spec fn existing_from(
    aliases: Seq<Seq<char>>,
    i: int,
    asset_category: Seq<char>,
    symbol: Seq<char>,
    keys: Seq<(Seq<char>, Seq<char>)>,
    remap: Seq<(Seq<char>, Seq<char>)>,
) -> Result<Option<Seq<char>>, Seq<char>>
    decreases aliases.len() - i,
{
    if i >= aliases.len() || i < 0 {
        match lookup_resolved(keys, remap, index_key(asset_category, symbol)) {
            None => Ok(None),
            Some(Ok(r)) => Ok(Some(r)),
            Some(Err(id)) => Err(id),
        }
    } else {
        match lookup_resolved(keys, remap, index_key(asset_category, aliases[i])) {
            None => existing_from(aliases, i + 1, asset_category, symbol, keys, remap),
            Some(Ok(r)) => Ok(Some(r)),
            Some(Err(id)) => Err(id),
        }
    }
}

fn index_key_exec(asset_category: &str, s: &str) -> (out: String)
    ensures
        out@ == index_key(asset_category@, s@),
{
    concat3(asset_category, "|", s)
}

fn lookup_resolved_exec(keys: &KeyMap, remap: &KeyMap, key: &str) -> (r: Option<
    Result<String, String>,
>)
    ensures
        match r {
            None => lookup_resolved(keys.view_entries(), remap.view_entries(), key@) is None,
            Some(Ok(x)) => lookup_resolved(keys.view_entries(), remap.view_entries(), key@)
                == Some(Ok::<Seq<char>, Seq<char>>(x@)),
            Some(Err(x)) => lookup_resolved(keys.view_entries(), remap.view_entries(), key@)
                == Some(Err::<Seq<char>, Seq<char>>(x@)),
        },
{
    match keys.get(key) {
        None => None,
        Some(id) => match resolve_instrument_id(id.as_str(), remap) {
            Some(r) => Some(Ok(r)),
            None => Some(Err(id)),
        },
    }
}

/// Identifier of an instrument already indexed under one of `aliases` (in
/// order) or under the full `symbol`, after remapping; `Err(id)` when the
/// remapping chain from `id` loops.
pub fn find_existing_instrument_id(
    aliases: &Vec<String>,
    asset_category: &str,
    symbol: &str,
    instrument_key_to_id: &KeyMap,
    instrument_id_remap: &KeyMap,
) -> (r: Result<Option<String>, String>)
    ensures
        match r {
            Ok(Some(x)) => existing_from(
                crate::text::views(aliases@),
                0,
                asset_category@,
                symbol@,
                instrument_key_to_id.view_entries(),
                instrument_id_remap.view_entries(),
            ) == Ok::<Option<Seq<char>>, Seq<char>>(Some(x@)),
            Ok(None) => existing_from(
                crate::text::views(aliases@),
                0,
                asset_category@,
                symbol@,
                instrument_key_to_id.view_entries(),
                instrument_id_remap.view_entries(),
            ) == Ok::<Option<Seq<char>>, Seq<char>>(None),
            Err(x) => existing_from(
                crate::text::views(aliases@),
                0,
                asset_category@,
                symbol@,
                instrument_key_to_id.view_entries(),
                instrument_id_remap.view_entries(),
            ) == Err::<Option<Seq<char>>, Seq<char>>(x@),
        },
{
    let ghost al = crate::text::views(aliases@);
    let ghost keys = instrument_key_to_id.view_entries();
    let ghost remap = instrument_id_remap.view_entries();
    let mut i: usize = 0;
    while i < aliases.len()
        invariant
            i <= aliases.len(),
            al == crate::text::views(aliases@),
            keys == instrument_key_to_id.view_entries(),
            remap == instrument_id_remap.view_entries(),
            existing_from(al, 0, asset_category@, symbol@, keys, remap) == existing_from(
                al,
                i as int,
                asset_category@,
                symbol@,
                keys,
                remap,
            ),
        decreases aliases.len() - i,
    {
        let key = index_key_exec(asset_category, aliases[i].as_str());
        match lookup_resolved_exec(instrument_key_to_id, instrument_id_remap, key.as_str()) {
            None => {},
            Some(Ok(x)) => {
                return Ok(Some(x));
            },
            Some(Err(x)) => {
                return Err(x);
            },
        }
        i = i + 1;
    }
    let full = index_key_exec(asset_category, symbol);
    match lookup_resolved_exec(instrument_key_to_id, instrument_id_remap, full.as_str()) {
        None => Ok(None),
        Some(Ok(x)) => Ok(Some(x)),
        Some(Err(x)) => Err(x),
    }
}

/// Indexes `instrument_id` under every alias and under the full symbol.
pub open spec fn indexed(
    keys: Seq<(Seq<char>, Seq<char>)>,
    aliases: Seq<Seq<char>>,
    asset_category: Seq<char>,
    symbol: Seq<char>,
    instrument_id: Seq<char>,
) -> Seq<(Seq<char>, Seq<char>)> {
    keys + aliases.map_values(|a: Seq<char>| (index_key(asset_category, a), instrument_id)) + seq![
        (index_key(asset_category, symbol), instrument_id),
    ]
}

pub fn index_instrument_aliases(
    aliases: &Vec<String>,
    asset_category: &str,
    symbol: &str,
    instrument_id: &str,
    instrument_key_to_id: &mut KeyMap,
)
    ensures
        final(instrument_key_to_id).view_entries() == indexed(
            old(instrument_key_to_id).view_entries(),
            crate::text::views(aliases@),
            asset_category@,
            symbol@,
            instrument_id@,
        ),
{
    let ghost start = instrument_key_to_id.view_entries();
    let ghost al = crate::text::views(aliases@);
    let mut i: usize = 0;
    while i < aliases.len()
        invariant
            i <= aliases.len(),
            al == crate::text::views(aliases@),
            instrument_key_to_id.view_entries() == start + al.take(i as int).map_values(
                |a: Seq<char>| (index_key(asset_category@, a), instrument_id@),
            ),
        decreases aliases.len() - i,
    {
        let key = index_key_exec(asset_category, aliases[i].as_str());
        instrument_key_to_id.insert(key, owned(instrument_id));
        assert(al.take(i + 1).map_values(
            |a: Seq<char>| (index_key(asset_category@, a), instrument_id@),
        ) =~= al.take(i as int).map_values(
            |a: Seq<char>| (index_key(asset_category@, a), instrument_id@),
        ).push((index_key(asset_category@, al[i as int]), instrument_id@)));
        i = i + 1;
    }
    assert(al.take(aliases.len() as int) =~= al);
    let full = index_key_exec(asset_category, symbol);
    instrument_key_to_id.insert(full, owned(instrument_id));
}

/// A field counts when it is present and, being text, not blank.
pub open spec fn filled(f: Option<Seq<char>>) -> bool {
    match f {
        Some(t) => trim_spec(t).len() > 0,
        None => false,
    }
}

/// Number of informative fields among description, security id and type.
pub open spec fn completeness(i: InstrumentV) -> nat {
    (if filled(i.description) {
        1nat
    } else {
        0nat
    }) + (if filled(i.security_id) {
        1nat
    } else {
        0nat
    }) + (if filled(i.instrument_type) {
        1nat
    } else {
        0nat
    })
}

fn filled_exec(f: &Option<String>) -> (r: bool)
    ensures
        r == filled(crate::records::opt_view(*f)),
{
    match f {
        Some(t) => !is_blank(trim(t.as_str()).as_str()),
        None => false,
    }
}

pub fn instrument_completeness_score(inst: &Instrument) -> (r: usize)
    ensures
        r == completeness(inst@),
{
    let mut n: usize = 0;
    if filled_exec(&inst.description) {
        n = n + 1;
    }
    if filled_exec(&inst.security_id) {
        n = n + 1;
    }
    if filled_exec(&inst.instrument_type) {
        n = n + 1;
    }
    n
}

/// Of two listings of one instrument, the incoming one unless it is less
/// complete than the existing one.
pub open spec fn merged_spec(existing: InstrumentV, incoming: InstrumentV) -> InstrumentV {
    if completeness(incoming) >= completeness(existing) {
        incoming
    } else {
        existing
    }
}

pub fn merge_instrument_entries(existing: &Instrument, incoming: &Instrument) -> (r: Instrument)
    ensures
        r@ == merged_spec(existing@, incoming@),
{
    if instrument_completeness_score(incoming) >= instrument_completeness_score(existing) {
        incoming.duplicate()
    } else {
        existing.duplicate()
    }
}

/// Every instrument identifier starts with `IBKR_`.
pub proof fn lemma_instrument_id_prefix(
    conid: Seq<char>,
    security_id: Seq<char>,
    asset_category: Seq<char>,
    symbol: Seq<char>,
)
    ensures
        "IBKR_"@.is_prefix_of(instrument_id_spec(conid, security_id, asset_category, symbol)),
{
    reveal_strlit("IBKR_");
    reveal_strlit("IBKR_CONID_");
    let id = instrument_id_spec(conid, security_id, asset_category, symbol);
    assert(id.take(5) =~= "IBKR_"@);
}

/// The aliases of a symbol field are non-blank, trimmed and pairwise
/// distinct.
pub proof fn lemma_aliases_clean(symbol: Seq<char>)
    ensures
        forall|i: int|
            0 <= i < aliases_spec(symbol).len() ==> (#[trigger] aliases_spec(symbol)[i]).len() > 0
                && trim_spec(aliases_spec(symbol)[i]) == aliases_spec(symbol)[i],
        forall|i: int, j: int|
            0 <= i < j < aliases_spec(symbol).len() ==> #[trigger] aliases_spec(symbol)[i]
                != #[trigger] aliases_spec(symbol)[j],
{
    lemma_pieces_clean(split_spec(symbol, ','));
}

proof fn lemma_pieces_clean(ps: Seq<Seq<char>>)
    ensures
        forall|i: int|
            0 <= i < aliases_of_pieces(ps).len() ==> (#[trigger] aliases_of_pieces(ps)[i]).len() > 0
                && trim_spec(aliases_of_pieces(ps)[i]) == aliases_of_pieces(ps)[i],
        forall|i: int, j: int|
            0 <= i < j < aliases_of_pieces(ps).len() ==> #[trigger] aliases_of_pieces(ps)[i]
                != #[trigger] aliases_of_pieces(ps)[j],
    decreases ps.len(),
{
    if ps.len() > 0 {
        let prev = aliases_of_pieces(ps.drop_last());
        lemma_pieces_clean(ps.drop_last());
        let t = trim_spec(ps.last());
        lemma_trim_idempotent(ps.last(), TrimSet::Whitespace);
        if t.len() > 0 && !prev.contains(t) {
            let cur = prev.push(t);
            assert forall|i: int, j: int| 0 <= i < j < cur.len() implies #[trigger] cur[i] != #[trigger] cur[j] by {
                if j == prev.len() {
                    assert(cur[i] == prev[i]);
                    assert(prev.contains(prev[i]));
                } else {
                    assert(cur[i] == prev[i] && cur[j] == prev[j]);
                }
            }
            assert forall|i: int| 0 <= i < cur.len() implies (#[trigger] cur[i]).len() > 0 && trim_spec(cur[i]) == cur[i] by {
                if i < prev.len() {
                    assert(cur[i] == prev[i]);
                }
            }
        }
    }
}

proof fn lemma_follow_final(remap: Seq<(Seq<char>, Seq<char>)>, id: Seq<char>, fuel: nat)
    ensures
        follow(remap, id, fuel) matches Some(e) ==> (map_get(remap, e) is None || map_get(remap, e)
            == Some(e)),
    decreases fuel,
{
    if fuel > 0 {
        match map_get(remap, id) {
            None => {},
            Some(next) => if next != id {
                lemma_follow_final(remap, next, (fuel - 1) as nat);
            },
        }
    }
}

/// An identifier that a remapping chain ends at is not remapped any further,
/// so resolving it again gives it back.
pub proof fn lemma_resolved_is_final(remap: Seq<(Seq<char>, Seq<char>)>, id: Seq<char>)
    ensures
        resolve_spec(remap, id) matches Some(e) ==> (map_get(remap, e) is None || map_get(remap, e)
            == Some(e)) && resolve_spec(remap, e) == Some(e),
{
    lemma_follow_final(remap, id, (remap.len() + 1) as nat);
}

} // verus!
