//! Rows of the "Open Positions" section, and the repair of position
//! identifiers once instrument listings have been merged.
use vstd::prelude::*;

use super::common::{num_at, num_spec, IbkrCsvParser};
use super::error::{IbkrError, IbkrErrorV};
use super::header::{field_spec, lookup_spec, row_views, HeaderRegistry, SectionHeader};
use super::ids::{
    build_instrument_id, index_key, instrument_id_spec, map_get, null_if_empty_spec,
    null_if_empty_string, resolve_instrument_id, resolve_spec, KeyMap,
};
use crate::dates::{iso_date, iso_text, Date};
use crate::hashing::{hex_spec, prefixed_digest_id, sha256, utf8};
use crate::money::{opt_amount_views, Amount, AmountV};
use crate::records::{opt_view, seq_views, Instrument, InstrumentV, Position, PositionV};
use crate::text::{concat3, owned, same};

verus! {

broadcast use vstd::string::group_string_axioms;

pub open spec fn value_of<A>(a: Option<AmountV<A>>) -> Option<A> {
    match a {
        Some(x) => Some(x.value),
        None => None,
    }
}

fn value_exec<A: Copy>(a: Option<Amount<A>>) -> (r: Option<A>)
    ensures
        r == value_of(match a {
            Some(x) => Some(x@),
            None => None,
        }),
{
    match a {
        Some(x) => Some(x.value),
        None => None,
    }
}

/// The fields of a position row: texts trimmed, numbers as the caller
/// parsed them.
pub struct PositionRowData<A> {
    pub asset_category: String,
    pub currency: String,
    pub symbol: String,
    pub quantity: Option<A>,
    pub cost_price: Option<A>,
    pub cost_basis: Option<A>,
    pub close_price: Option<A>,
    pub market_value: Option<A>,
    pub unrealized_pnl: Option<A>,
}

pub struct PositionRowV<A> {
    pub asset_category: Seq<char>,
    pub currency: Seq<char>,
    pub symbol: Seq<char>,
    pub quantity: Option<A>,
    pub cost_price: Option<A>,
    pub cost_basis: Option<A>,
    pub close_price: Option<A>,
    pub market_value: Option<A>,
    pub unrealized_pnl: Option<A>,
}

impl<A> View for PositionRowData<A> {
    type V = PositionRowV<A>;

    open spec fn view(&self) -> PositionRowV<A> {
        PositionRowV {
            asset_category: self.asset_category@,
            currency: self.currency@,
            symbol: self.symbol@,
            quantity: self.quantity,
            cost_price: self.cost_price,
            cost_basis: self.cost_basis,
            close_price: self.close_price,
            market_value: self.market_value,
            unrealized_pnl: self.unrealized_pnl,
        }
    }
}

pub open spec fn position_row_spec<A>(
    keys: Seq<Seq<char>>,
    row: Seq<Seq<char>>,
    nums: Seq<Option<AmountV<A>>>,
) -> PositionRowV<A> {
    PositionRowV {
        asset_category: field_spec(keys, row, "Asset Category"@),
        currency: field_spec(keys, row, "Currency"@),
        symbol: field_spec(keys, row, "Symbol"@),
        quantity: value_of(num_spec(keys, nums, "Quantity"@)),
        cost_price: value_of(num_spec(keys, nums, "Cost Price"@)),
        cost_basis: value_of(num_spec(keys, nums, "Cost Basis"@)),
        close_price: value_of(num_spec(keys, nums, "Close Price"@)),
        market_value: value_of(num_spec(keys, nums, "Value"@)),
        unrealized_pnl: value_of(num_spec(keys, nums, "Unrealized P/L"@)),
    }
}

impl<A: Copy> PositionRowData<A> {
    pub fn from_row(header: &SectionHeader, row: &Vec<String>, nums: &Vec<Option<Amount<A>>>) -> (r:
        PositionRowData<A>)
        ensures
            r@ == position_row_spec(header.keys_view(), row_views(row@), opt_amount_views(nums@)),
    {
        PositionRowData {
            asset_category: header.field(row, "Asset Category"),
            currency: header.field(row, "Currency"),
            symbol: header.field(row, "Symbol"),
            quantity: value_exec(num_at(header, nums, "Quantity")),
            cost_price: value_exec(num_at(header, nums, "Cost Price")),
            cost_basis: value_exec(num_at(header, nums, "Cost Basis")),
            close_price: value_exec(num_at(header, nums, "Close Price")),
            market_value: value_exec(num_at(header, nums, "Value")),
            unrealized_pnl: value_exec(num_at(header, nums, "Unrealized P/L")),
        }
    }
}

/// The statement end, else the fallback date, else 1970-01-01.
pub open spec fn as_of_spec(statement_end: Option<Date>, fallback: Option<Date>) -> Date {
    match statement_end {
        Some(d) => d,
        None => match fallback {
            Some(d) => d,
            None => Date { year: 1970, month: 1, day: 1 },
        },
    }
}

pub fn field_as_of_date(statement_end: Option<Date>, fallback_statement_date: Option<Date>) -> (r:
    Date)
    ensures
        r == as_of_spec(statement_end, fallback_statement_date),
{
    match statement_end {
        Some(d) => d,
        None => match fallback_statement_date {
            Some(d) => d,
            None => Date { year: 1970, month: 1, day: 1 },
        },
    }
}

/// `"IBKRPOS-<12 hex digits of SHA-256(account|date|instrument)>"`.
pub open spec fn position_id_spec(account: Seq<char>, as_of_iso: Seq<char>, instrument_id: Seq<char>) -> Seq<
    char,
> {
    "IBKRPOS"@ + "-"@ + hex_spec(
        sha256(utf8(account + "|"@ + as_of_iso + "|"@ + instrument_id)).take(6),
    )
}

fn position_id_exec(account: &str, as_of_iso: &str, instrument_id: &str) -> (out: String)
    ensures
        out@ == position_id_spec(account@, as_of_iso@, instrument_id@),
{
    let mut key = concat3(account, "|", as_of_iso);
    key.append("|");
    key.append(instrument_id);
    prefixed_digest_id("IBKRPOS", key.as_str(), 6)
}

pub fn field_position_id(parser: &IbkrCsvParser, as_of_date: &Date, instrument_id: &str) -> (out:
    String)
    ensures
        out@ == position_id_spec(parser.account_id_savings@, iso_text(*as_of_date), instrument_id@),
{
    let d = iso_date(as_of_date);
    position_id_exec(parser.account_id_savings.as_str(), d.as_str(), instrument_id)
}

/// Placeholder listing for an instrument known only from a position.
pub open spec fn placeholder_spec(asset_category: Seq<char>, id: Seq<char>) -> InstrumentV {
    InstrumentV {
        instrument_id: id,
        source: Some("IBKR"@),
        asset_category: null_if_empty_spec(asset_category),
        description: None,
        security_id: None,
        instrument_type: None,
    }
}

/// Identifier of the instrument a position holds, creating a placeholder
/// listing when the category and symbol were never listed.
pub open spec fn position_instrument_spec(
    asset_category: Seq<char>,
    symbol: Seq<char>,
    insts: Seq<InstrumentV>,
    keys: Seq<(Seq<char>, Seq<char>)>,
) -> (Seq<char>, Seq<InstrumentV>, Seq<(Seq<char>, Seq<char>)>) {
    let lookup = index_key(asset_category, symbol);
    match map_get(keys, lookup) {
        Some(id) => (id, insts, keys),
        None => {
            let fb = instrument_id_spec(Seq::empty(), Seq::empty(), asset_category, symbol);
            (fb, insts.push(placeholder_spec(asset_category, fb)), keys.push((lookup, fb)))
        },
    }
}

pub fn field_instrument_id<A>(
    row: &PositionRowData<A>,
    instruments: &mut Vec<Instrument>,
    instrument_key_to_id: &mut KeyMap,
) -> (out: String)
    ensures
        (out@, seq_views(final(instruments)@), final(instrument_key_to_id).view_entries())
            == position_instrument_spec(
            row.asset_category@,
            row.symbol@,
            seq_views(old(instruments)@),
            old(instrument_key_to_id).view_entries(),
        ),
{
    let lookup_key = concat3(row.asset_category.as_str(), "|", row.symbol.as_str());
    if let Some(existing_id) = instrument_key_to_id.get(lookup_key.as_str()) {
        return existing_id;
    }
    proof {
        reveal_strlit("");
    }
    let fallback_id = build_instrument_id("", "", row.asset_category.as_str(), row.symbol.as_str());
    let placeholder = Instrument {
        instrument_id: fallback_id.clone(),
        source: Some(owned("IBKR")),
        asset_category: null_if_empty_string(row.asset_category.as_str()),
        description: None,
        security_id: None,
        instrument_type: None,
    };
    let ghost before = seq_views(instruments@);
    instruments.push(placeholder);
    assert(seq_views(instruments@) =~= before.push(
        placeholder_spec(row.asset_category@, fallback_id@),
    ));
    instrument_key_to_id.insert(lookup_key, fallback_id.clone());
    fallback_id
}

/// The position a row describes (none without a quantity), with the
/// instrument list and index it leaves behind.
pub open spec fn position_step<A>(
    savings: Seq<char>,
    statement_end: Option<Date>,
    fallback: Option<Date>,
    r: PositionRowV<A>,
    insts: Seq<InstrumentV>,
    keys: Seq<(Seq<char>, Seq<char>)>,
) -> Option<(PositionV<A>, Seq<InstrumentV>, Seq<(Seq<char>, Seq<char>)>)> {
    match r.quantity {
        None => None,
        Some(q) => {
            let as_of = as_of_spec(statement_end, fallback);
            let (id, insts2, keys2) = position_instrument_spec(
                r.asset_category,
                r.symbol,
                insts,
                keys,
            );
            Some(
                (
                    PositionV {
                        position_id: position_id_spec(savings, iso_text(as_of), id),
                        source: "IBKR"@,
                        as_of_date: iso_text(as_of),
                        account_id: savings,
                        instrument_id: id,
                        quantity: Some(q),
                        currency: null_if_empty_spec(r.currency),
                        cost_price: r.cost_price,
                        cost_basis: r.cost_basis,
                        close_price: r.close_price,
                        market_value: r.market_value,
                        unrealized_pnl: r.unrealized_pnl,
                    },
                    insts2,
                    keys2,
                ),
            )
        },
    }
}

pub fn map_position_from_row<A: Copy>(
    parser: &IbkrCsvParser,
    row: &PositionRowData<A>,
    statement_end: Option<Date>,
    fallback_statement_date: Option<Date>,
    instruments: &mut Vec<Instrument>,
    instrument_key_to_id: &mut KeyMap,
) -> (r: Option<Position<A>>)
    ensures
        match position_step(
            parser.account_id_savings@,
            statement_end,
            fallback_statement_date,
            row@,
            seq_views(old(instruments)@),
            old(instrument_key_to_id).view_entries(),
        ) {
            None => r is None && seq_views(final(instruments)@) == seq_views(old(instruments)@)
                && final(instrument_key_to_id).view_entries() == old(instrument_key_to_id).view_entries(),
            Some((p, i2, k2)) => r matches Some(x) && x@ == p && seq_views(final(instruments)@)
                == i2 && final(instrument_key_to_id).view_entries() == k2,
        },
{
    let quantity = match row.quantity {
        Some(q) => q,
        None => {
            return None;
        },
    };
    let as_of_date = field_as_of_date(statement_end, fallback_statement_date);
    let instrument_id = field_instrument_id(row, instruments, instrument_key_to_id);
    let position_id = field_position_id(parser, &as_of_date, instrument_id.as_str());
    Some(
        Position {
            position_id,
            source: owned("IBKR"),
            as_of_date: iso_date(&as_of_date),
            account_id: parser.account_id_savings.clone(),
            instrument_id,
            quantity: Some(quantity),
            currency: null_if_empty_string(row.currency.as_str()),
            cost_price: row.cost_price,
            cost_basis: row.cost_basis,
            close_price: row.close_price,
            market_value: row.market_value,
            unrealized_pnl: row.unrealized_pnl,
        },
    )
}

/// Effect of a data row on positions, instruments and the instrument index:
/// `None` for a row of another section.
pub open spec fn position_row_step<A>(
    savings: Seq<char>,
    section: Seq<char>,
    headers: Seq<(Seq<char>, Seq<Seq<char>>)>,
    row: Seq<Seq<char>>,
    nums: Seq<Option<AmountV<A>>>,
    statement_end: Option<Date>,
    fallback: Option<Date>,
    positions: Seq<PositionV<A>>,
    insts: Seq<InstrumentV>,
    keys: Seq<(Seq<char>, Seq<char>)>,
) -> Option<
    Result<(Seq<PositionV<A>>, Seq<InstrumentV>, Seq<(Seq<char>, Seq<char>)>), IbkrErrorV>,
> {
    if section != "Open Positions"@ {
        None
    } else {
        match lookup_spec(headers, section) {
            None => Some(Err(IbkrErrorV::MissingHeader(section))),
            Some(hk) => match position_step(
                savings,
                statement_end,
                fallback,
                position_row_spec(hk, row, nums),
                insts,
                keys,
            ) {
                None => Some(Ok((positions, insts, keys))),
                Some((p, i2, k2)) => Some(Ok((positions.push(p), i2, k2))),
            },
        }
    }
}

pub fn parse_position_row<A: Copy>(
    parser: &IbkrCsvParser,
    section: &str,
    headers: &HeaderRegistry,
    row: &Vec<String>,
    nums: &Vec<Option<Amount<A>>>,
    statement_end: Option<Date>,
    fallback_statement_date: Option<Date>,
    positions: &mut Vec<Position<A>>,
    instruments: &mut Vec<Instrument>,
    instrument_key_to_id: &mut KeyMap,
) -> (r: Result<bool, IbkrError>)
    ensures
        match position_row_step(
            parser.account_id_savings@,
            section@,
            headers.view_entries(),
            row_views(row@),
            opt_amount_views(nums@),
            statement_end,
            fallback_statement_date,
            seq_views(old(positions)@),
            seq_views(old(instruments)@),
            old(instrument_key_to_id).view_entries(),
        ) {
            None => r == Ok::<bool, IbkrError>(false) && seq_views(final(positions)@) == seq_views(old(positions)@) && seq_views(final(instruments)@) == seq_views(old(instruments)@) && final(instrument_key_to_id).view_entries() == old(instrument_key_to_id).view_entries(),
            Some(Ok((p2, i2, k2))) => r == Ok::<bool, IbkrError>(true) && seq_views(final(positions)@) == p2 && seq_views(final(instruments)@) == i2 && final(instrument_key_to_id).view_entries() == k2,
            Some(Err(e)) => r matches Err(x) && x@ == e,
        },
{
    if !same(section, "Open Positions") {
        return Ok(false);
    }
    let header = match headers.find(section) {
        Some(i) => &headers.entries[i].1,
        None => {
            return Err(IbkrError::MissingHeader { section: owned(section) });
        },
    };
    let row_data = PositionRowData::from_row(header, row, nums);
    match map_position_from_row(
        parser,
        &row_data,
        statement_end,
        fallback_statement_date,
        instruments,
        instrument_key_to_id,
    ) {
        Some(position) => {
            let ghost before = seq_views(positions@);
            positions.push(position);
            assert(seq_views(positions@) =~= before.push(positions@.last()@));
        },
        None => {},
    }
    Ok(true)
}

/// A position after remapping its instrument: unchanged when the identifier
/// stays, else with the new identifier and a position identifier computed
/// from it; `Err(id)` when the remapping loops from `id`.
pub open spec fn reconciled<A>(
    p: PositionV<A>,
    savings: Seq<char>,
    remap: Seq<(Seq<char>, Seq<char>)>,
) -> Result<PositionV<A>, Seq<char>> {
    match resolve_spec(remap, p.instrument_id) {
        None => Err(p.instrument_id),
        Some(c) => if c == p.instrument_id {
            Ok(p)
        } else {
            Ok(
                PositionV {
                    instrument_id: c,
                    position_id: position_id_spec(savings, p.as_of_date, c),
                    ..p
                },
            )
        },
    }
}

/// All positions reconciled in order, or the first looping identifier.
pub open spec fn reconciled_all<A>(
    ps: Seq<PositionV<A>>,
    savings: Seq<char>,
    remap: Seq<(Seq<char>, Seq<char>)>,
) -> Result<Seq<PositionV<A>>, Seq<char>>
    decreases ps.len(),
{
    if ps.len() == 0 {
        Ok(Seq::empty())
    } else {
        match reconciled_all(ps.drop_last(), savings, remap) {
            Err(e) => Err(e),
            Ok(prev) => match reconciled(ps.last(), savings, remap) {
                Err(e) => Err(e),
                Ok(q) => Ok(prev.push(q)),
            },
        }
    }
}

pub fn reconcile_position_instrument_ids<A: Copy>(
    positions: &mut Vec<Position<A>>,
    account_id_savings: &str,
    instrument_id_remap: &KeyMap,
) -> (r: Result<(), IbkrError>)
    ensures
        match reconciled_all(
            seq_views(old(positions)@),
            account_id_savings@,
            instrument_id_remap.view_entries(),
        ) {
            Ok(ps) => r is Ok && seq_views(final(positions)@) == ps,
            Err(id) => r matches Err(e) && e@ == IbkrErrorV::InstrumentIdCycle(id),
        },
{
    let ghost start = seq_views(positions@);
    assert(start == seq_views(old(positions)@));
    let ghost remap = instrument_id_remap.view_entries();
    let mut i: usize = 0;
    assert(start.take(0) =~= Seq::<PositionV<A>>::empty());
    assert(seq_views(positions@).take(0) =~= Seq::<PositionV<A>>::empty());
    while i < positions.len()
        invariant
            i <= positions.len(),
            positions@.len() == start.len(),
            start == seq_views(old(positions)@),
            remap == instrument_id_remap.view_entries(),
            reconciled_all(start.take(i as int), account_id_savings@, remap) == Ok::<
                Seq<PositionV<A>>,
                Seq<char>,
            >(seq_views(positions@).take(i as int)),
            forall|k: int| i <= k < positions@.len() ==> #[trigger] positions@[k]@ == start[k],
        decreases positions.len() - i,
    {
        assert(start.take(i + 1).drop_last() =~= start.take(i as int));
        assert(positions@[i as int]@ == start[i as int]);
        let corrected = match resolve_instrument_id(
            positions[i].instrument_id.as_str(),
            instrument_id_remap,
        ) {
            Some(c) => c,
            None => {
                let id = positions[i].instrument_id.clone();
                proof {
                    assert(start.take(i + 1).last() == start[i as int]);
                    assert(positions@[i as int]@ == start[i as int]);
                    assert(reconciled(start[i as int], account_id_savings@, remap) is Err);
                    assert(reconciled_all(start.take(i + 1), account_id_savings@, remap) == Err::<
                        Seq<PositionV<A>>,
                        Seq<char>,
                    >(id@));
                    lemma_reconciled_err_extends(start, (i + 1) as int, account_id_savings@, remap);
                    assert(reconciled_all(start, account_id_savings@, remap) == Err::<
                        Seq<PositionV<A>>,
                        Seq<char>,
                    >(id@));
                }
                return Err(IbkrError::InstrumentIdCycle { id });
            },
        };
        let ghost prefix = seq_views(positions@).take(i as int);
        if !same(corrected.as_str(), positions[i].instrument_id.as_str()) {
            let new_id = position_id_exec(
                account_id_savings,
                positions[i].as_of_date.as_str(),
                corrected.as_str(),
            );
            let ghost before = seq_views(positions@);
            let p = Position {
                position_id: new_id,
                source: positions[i].source.clone(),
                as_of_date: positions[i].as_of_date.clone(),
                account_id: positions[i].account_id.clone(),
                instrument_id: corrected,
                quantity: positions[i].quantity,
                currency: crate::records::clone_opt(&positions[i].currency),
                cost_price: positions[i].cost_price,
                cost_basis: positions[i].cost_basis,
                close_price: positions[i].close_price,
                market_value: positions[i].market_value,
                unrealized_pnl: positions[i].unrealized_pnl,
            };
            positions.set(i, p);
            assert(seq_views(positions@) =~= before.update(i as int, positions@[i as int]@));
        }
        assert(seq_views(positions@).take(i as int) =~= prefix);
        assert(reconciled(start[i as int], account_id_savings@, remap) == Ok::<
            PositionV<A>,
            Seq<char>,
        >(positions@[i as int]@));
        assert(seq_views(positions@).take(i + 1) =~= seq_views(positions@).take(i as int).push(
            positions@[i as int]@,
        ));
        i = i + 1;
    }
    assert(start.take(positions.len() as int) =~= start);
    assert(seq_views(positions@).take(positions.len() as int) =~= seq_views(positions@));
    Ok(())
}

proof fn lemma_reconciled_err_extends<A>(
    ps: Seq<PositionV<A>>,
    n: int,
    savings: Seq<char>,
    remap: Seq<(Seq<char>, Seq<char>)>,
)
    requires
        0 <= n <= ps.len(),
        reconciled_all(ps.take(n), savings, remap) is Err,
    ensures
        reconciled_all(ps, savings, remap) == reconciled_all(ps.take(n), savings, remap),
    decreases ps.len() - n,
{
    if n < ps.len() {
        assert(ps.take(n + 1).drop_last() =~= ps.take(n));
        lemma_reconciled_err_extends(ps, n + 1, savings, remap);
    } else {
        assert(ps.take(n) =~= ps);
    }
}

} // verus!
