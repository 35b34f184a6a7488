//! Rows of the "Financial Instrument Information" section.
use vstd::prelude::*;

use super::error::{IbkrError, IbkrErrorV};
use super::header::{field_spec, row_views, HeaderRegistry, SectionHeader};
use super::header::lookup_spec;
use super::ids::{
    aliases_spec, build_instrument_id, existing_from, find_existing_instrument_id,
    index_instrument_aliases, indexed, instrument_id_spec, merge_instrument_entries, merged_spec,
    null_if_empty_spec, null_if_empty_string, primary_symbol, primary_symbol_spec,
    split_symbol_aliases, KeyMap,
};
use crate::records::{opt_view, seq_views, Instrument, InstrumentV};
use crate::text::{is_blank, owned, same, trim_spec, views};

verus! {

broadcast use vstd::string::group_string_axioms;

/// The fields of an instrument row, trimmed.
pub struct InstrumentRowData {
    pub asset_category: String,
    pub symbol: String,
    pub description: String,
    pub conid: String,
    pub security_id: String,
    pub instrument_type: String,
}

pub struct InstrumentRowV {
    pub asset_category: Seq<char>,
    pub symbol: Seq<char>,
    pub description: Seq<char>,
    pub conid: Seq<char>,
    pub security_id: Seq<char>,
    pub instrument_type: Seq<char>,
}

impl View for InstrumentRowData {
    type V = InstrumentRowV;

    open spec fn view(&self) -> InstrumentRowV {
        InstrumentRowV {
            asset_category: self.asset_category@,
            symbol: self.symbol@,
            description: self.description@,
            conid: self.conid@,
            security_id: self.security_id@,
            instrument_type: self.instrument_type@,
        }
    }
}

pub open spec fn instrument_row_spec(keys: Seq<Seq<char>>, row: Seq<Seq<char>>) -> InstrumentRowV {
    InstrumentRowV {
        asset_category: field_spec(keys, row, "Asset Category"@),
        symbol: field_spec(keys, row, "Symbol"@),
        description: field_spec(keys, row, "Description"@),
        conid: field_spec(keys, row, "Conid"@),
        security_id: field_spec(keys, row, "Security ID"@),
        instrument_type: field_spec(keys, row, "Type"@),
    }
}

impl InstrumentRowData {
    pub fn from_row(header: &SectionHeader, row: &Vec<String>) -> (r: InstrumentRowData)
        ensures
            r@ == instrument_row_spec(header.keys_view(), row_views(row@)),
    {
        InstrumentRowData {
            asset_category: header.field(row, "Asset Category"),
            symbol: header.field(row, "Symbol"),
            description: header.field(row, "Description"),
            conid: header.field(row, "Conid"),
            security_id: header.field(row, "Security ID"),
            instrument_type: header.field(row, "Type"),
        }
    }
}

/// A row that names no symbol, contract id or security id describes nothing.
pub open spec fn empty_row(r: InstrumentRowV) -> bool {
    r.symbol.len() == 0 && r.conid.len() == 0 && r.security_id.len() == 0
}

pub fn field_is_empty_row(row: &InstrumentRowData) -> (b: bool)
    ensures
        b == empty_row(row@),
{
    is_blank(row.symbol.as_str()) && is_blank(row.conid.as_str()) && is_blank(
        row.security_id.as_str(),
    )
}

pub open spec fn row_instrument_id(r: InstrumentRowV) -> Seq<char> {
    instrument_id_spec(r.conid, r.security_id, r.asset_category, primary_symbol_spec(r.symbol))
}

pub fn field_instrument_id(row: &InstrumentRowData) -> (out: String)
    ensures
        out@ == row_instrument_id(row@),
{
    let p = field_primary_symbol(row);
    build_instrument_id(
        field_conid_key(row),
        field_security_id_key(row),
        field_asset_category_key(row),
        p.as_str(),
    )
}

pub fn field_source() -> (out: String)
    ensures
        out@ == "IBKR"@,
{
    owned("IBKR")
}

pub fn field_asset_category(row: &InstrumentRowData) -> (r: Option<String>)
    ensures
        opt_view(r) == null_if_empty_spec(row.asset_category@),
{
    null_if_empty_string(row.asset_category.as_str())
}

pub fn field_description(row: &InstrumentRowData) -> (r: Option<String>)
    ensures
        opt_view(r) == null_if_empty_spec(row.description@),
{
    null_if_empty_string(row.description.as_str())
}

pub fn field_security_id(row: &InstrumentRowData) -> (r: Option<String>)
    ensures
        opt_view(r) == null_if_empty_spec(row.security_id@),
{
    null_if_empty_string(row.security_id.as_str())
}

pub fn field_type(row: &InstrumentRowData) -> (r: Option<String>)
    ensures
        opt_view(r) == null_if_empty_spec(row.instrument_type@),
{
    null_if_empty_string(row.instrument_type.as_str())
}

pub fn field_asset_category_key(row: &InstrumentRowData) -> (r: &str)
    ensures
        r@ == row.asset_category@,
{
    row.asset_category.as_str()
}

pub fn field_symbol_key(row: &InstrumentRowData) -> (r: &str)
    ensures
        r@ == row.symbol@,
{
    row.symbol.as_str()
}

pub fn field_conid_key(row: &InstrumentRowData) -> (r: &str)
    ensures
        r@ == row.conid@,
{
    row.conid.as_str()
}

pub fn field_security_id_key(row: &InstrumentRowData) -> (r: &str)
    ensures
        r@ == row.security_id@,
{
    row.security_id.as_str()
}

pub fn field_primary_symbol(row: &InstrumentRowData) -> (out: String)
    ensures
        out@ == primary_symbol_spec(row.symbol@),
{
    primary_symbol(row.symbol.as_str())
}

pub fn field_symbol_aliases(row: &InstrumentRowData) -> (out: Vec<String>)
    ensures
        views(out@) == aliases_spec(row.symbol@),
{
    split_symbol_aliases(row.symbol.as_str())
}

/// The instrument a row describes.
pub open spec fn instrument_of_row(r: InstrumentRowV) -> InstrumentV {
    InstrumentV {
        instrument_id: row_instrument_id(r),
        source: Some("IBKR"@),
        asset_category: null_if_empty_spec(r.asset_category),
        description: null_if_empty_spec(r.description),
        security_id: null_if_empty_spec(r.security_id),
        instrument_type: null_if_empty_spec(r.instrument_type),
    }
}

pub fn map_instrument_from_row(row: &InstrumentRowData) -> (r: Option<Instrument>)
    ensures
        match r {
            Some(i) => !empty_row(row@) && i@ == instrument_of_row(row@),
            None => empty_row(row@),
        },
{
    if field_is_empty_row(row) {
        return None;
    }
    Some(
        Instrument {
            instrument_id: field_instrument_id(row),
            source: Some(field_source()),
            asset_category: field_asset_category(row),
            description: field_description(row),
            security_id: field_security_id(row),
            instrument_type: field_type(row),
        },
    )
}

/// Index of the first instrument with identifier `id`.
pub open spec fn position_from(insts: Seq<InstrumentV>, id: Seq<char>, i: int) -> Option<int>
    decreases insts.len() - i,
{
    if i < 0 || i >= insts.len() {
        None
    } else if insts[i].instrument_id == id {
        Some(i)
    } else {
        position_from(insts, id, i + 1)
    }
}

pub open spec fn position_of(insts: Seq<InstrumentV>, id: Seq<char>) -> Option<int> {
    position_from(insts, id, 0)
}

proof fn lemma_position_bounds(insts: Seq<InstrumentV>, id: Seq<char>, i: int)
    requires
        0 <= i,
    ensures
        position_from(insts, id, i) matches Some(k) ==> i <= k < insts.len(),
    decreases insts.len() - i,
{
    if 0 <= i < insts.len() && insts[i].instrument_id != id {
        lemma_position_bounds(insts, id, i + 1);
    }
}

fn find_instrument(insts: &Vec<Instrument>, id: &str) -> (r: Option<usize>)
    ensures
        match r {
            Some(k) => position_of(seq_views(insts@), id@) == Some(k as int) && k < insts.len(),
            None => position_of(seq_views(insts@), id@) == None::<int>,
        },
{
    let ghost v = seq_views(insts@);
    let mut i: usize = 0;
    while i < insts.len()
        invariant
            i <= insts.len(),
            v == seq_views(insts@),
            position_of(v, id@) == position_from(v, id@, i as int),
        decreases insts.len() - i,
    {
        if same(insts[i].instrument_id.as_str(), id) {
            return Some(i);
        }
        i = i + 1;
    }
    None
}

pub open spec fn text_or_empty(o: Option<Seq<char>>) -> Seq<char> {
    match o {
        Some(t) => t,
        None => Seq::empty(),
    }
}

/// Identifier of a merged listing, rebuilt from its stored fields (a stored
/// instrument keeps no contract id or symbol, so those count as empty).
pub open spec fn rebuilt_id(m: InstrumentV) -> Seq<char> {
    instrument_id_spec(
        Seq::empty(),
        text_or_empty(m.security_id),
        text_or_empty(m.asset_category),
        primary_symbol_spec(Seq::empty()),
    )
}

pub open spec fn with_id(m: InstrumentV, id: Seq<char>) -> InstrumentV {
    InstrumentV { instrument_id: id, ..m }
}

/// Effect of recording `instrument`: the new list, the new remapping and the
/// identifier the instrument ends up with.
pub open spec fn upsert_spec(
    insts: Seq<InstrumentV>,
    remap: Seq<(Seq<char>, Seq<char>)>,
    instrument: InstrumentV,
    existing_id: Option<Seq<char>>,
    parsed_id: Seq<char>,
) -> (Seq<InstrumentV>, Seq<(Seq<char>, Seq<char>)>, Seq<char>) {
    match existing_id {
        Some(e) => match position_of(insts, e) {
            Some(k) => {
                let merged = merged_spec(insts[k], instrument);
                let new_id = rebuilt_id(merged);
                (
                    insts.update(k, with_id(merged, new_id)),
                    if new_id != e {
                        remap.push((e, new_id))
                    } else {
                        remap
                    },
                    new_id,
                )
            },
            None => (insts.push(instrument), remap, parsed_id),
        },
        None => match position_of(insts, parsed_id) {
            Some(k) => (insts.update(k, merged_spec(insts[k], instrument)), remap, parsed_id),
            None => (insts.push(instrument), remap, parsed_id),
        },
    }
}

fn text_or_empty_exec(o: &Option<String>) -> (r: String)
    ensures
        r@ == text_or_empty(opt_view(*o)),
{
    match o {
        Some(t) => t.clone(),
        None => {
            proof {
                reveal_strlit("");
            }
            owned("")
        },
    }
}

/// Records `instrument`, merging it into the listing it duplicates.
pub fn upsert_instrument(
    instrument: Instrument,
    existing_id: Option<String>,
    parsed_instrument_id: &str,
    instruments: &mut Vec<Instrument>,
    instrument_id_remap: &mut KeyMap,
) -> (out: String)
    ensures
        (seq_views(final(instruments)@), final(instrument_id_remap).view_entries(), out@)
            == upsert_spec(
            seq_views(old(instruments)@),
            old(instrument_id_remap).view_entries(),
            instrument@,
            opt_view(existing_id),
            parsed_instrument_id@,
        ),
{
    let ghost insts0 = seq_views(instruments@);
    proof {
        reveal_strlit("");
    }
    match existing_id {
        Some(existing) => {
            match find_instrument(instruments, existing.as_str()) {
                Some(k) => {
                    let merged = merge_instrument_entries(&instruments[k], &instrument);
                    let sid = text_or_empty_exec(&merged.security_id);
                    let cat = text_or_empty_exec(&merged.asset_category);
                    let sym = primary_symbol("");
                    let new_id = build_instrument_id("", sid.as_str(), cat.as_str(), sym.as_str());
                    let mut merged_with_id = merged;
                    merged_with_id.instrument_id = new_id.clone();
                    instruments.set(k, merged_with_id);
                    assert(seq_views(instruments@) =~= insts0.update(
                        k as int,
                        with_id(merged_spec(insts0[k as int], instrument@), new_id@),
                    ));
                    if !same(new_id.as_str(), existing.as_str()) {
                        instrument_id_remap.insert(existing, new_id.clone());
                    }
                    new_id
                },
                None => {
                    instruments.push(instrument);
                    assert(seq_views(instruments@) =~= insts0.push(instrument@));
                    owned(parsed_instrument_id)
                },
            }
        },
        None => {
            match find_instrument(instruments, parsed_instrument_id) {
                Some(k) => {
                    let merged = merge_instrument_entries(&instruments[k], &instrument);
                    instruments.set(k, merged);
                    assert(seq_views(instruments@) =~= insts0.update(
                        k as int,
                        merged_spec(insts0[k as int], instrument@),
                    ));
                    owned(parsed_instrument_id)
                },
                None => {
                    instruments.push(instrument);
                    assert(seq_views(instruments@) =~= insts0.push(instrument@));
                    owned(parsed_instrument_id)
                },
            }
        },
    }
}

/// Effect of a data row on the instrument list, the instrument index and the
/// identifier remapping: `None` for a row of another section.
pub open spec fn instrument_row_step(
    section: Seq<char>,
    headers: Seq<(Seq<char>, Seq<Seq<char>>)>,
    row: Seq<Seq<char>>,
    insts: Seq<InstrumentV>,
    keys: Seq<(Seq<char>, Seq<char>)>,
    remap: Seq<(Seq<char>, Seq<char>)>,
) -> Option<
    Result<
        (Seq<InstrumentV>, Seq<(Seq<char>, Seq<char>)>, Seq<(Seq<char>, Seq<char>)>),
        IbkrErrorV,
    >,
> {
    if section != "Financial Instrument Information"@ {
        None
    } else {
        match lookup_spec(headers, section) {
            None => Some(Err(IbkrErrorV::MissingHeader(section))),
            Some(hk) => {
                let r = instrument_row_spec(hk, row);
                if empty_row(r) {
                    Some(Ok((insts, keys, remap)))
                } else {
                    let aliases = aliases_spec(r.symbol);
                    match existing_from(aliases, 0, r.asset_category, r.symbol, keys, remap) {
                        Err(id) => Some(Err(IbkrErrorV::InstrumentIdCycle(id))),
                        Ok(existing) => {
                            let (i2, m2, fid) = upsert_spec(
                                insts,
                                remap,
                                instrument_of_row(r),
                                existing,
                                row_instrument_id(r),
                            );
                            Some(
                                Ok(
                                    (
                                        i2,
                                        indexed(keys, aliases, r.asset_category, r.symbol, fid),
                                        m2,
                                    ),
                                ),
                            )
                        },
                    }
                }
            },
        }
    }
}

proof fn lemma_position_hit(insts: Seq<InstrumentV>, id: Seq<char>, i: int)
    requires
        0 <= i,
    ensures
        position_from(insts, id, i) matches Some(k) ==> i <= k < insts.len() && insts[k].instrument_id
            == id,
    decreases insts.len() - i,
{
    if 0 <= i < insts.len() && insts[i].instrument_id != id {
        lemma_position_hit(insts, id, i + 1);
    }
}

/// The identifier an upsert looks its instrument up by: the matched listing's
/// when one was found for the instrument, else the parsed one.
pub open spec fn upsert_key(existing_id: Option<Seq<char>>, parsed_id: Seq<char>) -> Seq<char> {
    match existing_id {
        Some(e) => e,
        None => parsed_id,
    }
}

/// Recording an instrument whose identifier is the parsed one: afterwards some
/// listing carries the identifier handed back; the list grows by one exactly
/// when no listing is stored under the looked-up identifier, and otherwise
/// keeps its length with only the matched listing changed; the remapping
/// gains `looked-up -> handed back` exactly when a matched listing of an
/// earlier instrument is re-keyed to another identifier, and is otherwise
/// unchanged.
pub proof fn lemma_upsert_shape(
    insts: Seq<InstrumentV>,
    remap: Seq<(Seq<char>, Seq<char>)>,
    instrument: InstrumentV,
    existing_id: Option<Seq<char>>,
    parsed_id: Seq<char>,
)
    requires
        instrument.instrument_id == parsed_id,
    ensures
        ({
            let (after, remap2, id) = upsert_spec(insts, remap, instrument, existing_id, parsed_id);
            let key = upsert_key(existing_id, parsed_id);
            &&& exists|j: int| 0 <= j < after.len() && (#[trigger] after[j]).instrument_id == id
            &&& (after.len() == insts.len() + 1) <==> position_of(insts, key) is None
            &&& position_of(insts, key) is Some ==> after.len() == insts.len()
            &&& forall|j: int|
                0 <= j < insts.len() && position_of(insts, key) != Some(j) ==> #[trigger] after[j]
                    == insts[j]
            &&& remap2 == (if existing_id is Some && position_of(insts, key) is Some && id != key {
                remap.push((key, id))
            } else {
                remap
            })
        }),
{
    let key = upsert_key(existing_id, parsed_id);
    lemma_position_hit(insts, key, 0);
    let (after, remap2, id) = upsert_spec(insts, remap, instrument, existing_id, parsed_id);
    match position_of(insts, key) {
        Some(k) => {
            assert(after[k].instrument_id == id);
        },
        None => {
            assert(after[insts.len() as int].instrument_id == id);
        },
    }
}

pub fn parse_instrument_row(
    section: &str,
    headers: &HeaderRegistry,
    row: &Vec<String>,
    instruments: &mut Vec<Instrument>,
    instrument_key_to_id: &mut KeyMap,
    instrument_id_remap: &mut KeyMap,
) -> (r: Result<bool, IbkrError>)
    ensures
        match instrument_row_step(
            section@,
            headers.view_entries(),
            row_views(row@),
            seq_views(old(instruments)@),
            old(instrument_key_to_id).view_entries(),
            old(instrument_id_remap).view_entries(),
        ) {
            None => r == Ok::<bool, IbkrError>(false) && seq_views(final(instruments)@)
                == seq_views(old(instruments)@) && final(instrument_key_to_id).view_entries()
                == old(instrument_key_to_id).view_entries() && final(instrument_id_remap).view_entries()
                == old(instrument_id_remap).view_entries(),
            Some(Ok((i2, k2, m2))) => r == Ok::<bool, IbkrError>(true) && seq_views(final(instruments)@)
                == i2 && final(instrument_key_to_id).view_entries() == k2 && final(instrument_id_remap).view_entries() == m2,
            Some(Err(e)) => r matches Err(x) && x@ == e,
        },
{
    if !same(section, "Financial Instrument Information") {
        return Ok(false);
    }
    let header = match headers.find(section) {
        Some(i) => &headers.entries[i].1,
        None => {
            return Err(IbkrError::MissingHeader { section: owned(section) });
        },
    };
    let row_data = InstrumentRowData::from_row(header, row);
    let instrument = match map_instrument_from_row(&row_data) {
        Some(i) => i,
        None => {
            return Ok(true);
        },
    };
    let aliases = field_symbol_aliases(&row_data);
    let existing_id = match find_existing_instrument_id(
        &aliases,
        field_asset_category_key(&row_data),
        field_symbol_key(&row_data),
        instrument_key_to_id,
        instrument_id_remap,
    ) {
        Ok(e) => e,
        Err(id) => {
            return Err(IbkrError::InstrumentIdCycle { id });
        },
    };
    let parsed_instrument_id = field_instrument_id(&row_data);
    let final_instrument_id = upsert_instrument(
        instrument,
        existing_id,
        parsed_instrument_id.as_str(),
        instruments,
        instrument_id_remap,
    );
    index_instrument_aliases(
        &aliases,
        field_asset_category_key(&row_data),
        field_symbol_key(&row_data),
        final_instrument_id.as_str(),
        instrument_key_to_id,
    );
    Ok(true)
}

} // verus!
