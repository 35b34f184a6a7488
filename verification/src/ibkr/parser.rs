//! The statement as a whole: rows are read in order, each section through
//! its latest header; the statement period fixes the date of positions.
use vstd::prelude::*;

use super::common::{datetime_date_spec, parse_ibkr_datetime_date, IbkrCsvParser};
use super::error::{IbkrError, IbkrErrorV};
use super::header::{row_views, HeaderRegistry, SectionHeader};
use super::ids::KeyMap;
use super::instruments::{instrument_row_step, parse_instrument_row};
use super::positions::{
    parse_position_row, position_row_step, reconcile_position_instrument_ids, reconciled_all,
};
use super::transactions::{parse_transaction_row, transaction_row_spec};
use crate::dates::{chrono_date, parse_date_fmt, Date};
use crate::money::{opt_amount_views, Amount, AmountV};
use crate::records::{
    seq_views, Account, AccountV, Instrument, InstrumentV, Position, PositionV, Transaction,
    TransactionV,
};
use crate::text::{
    chars_of, contains, contains_spec, eq_ignore_ascii_case, eq_ignore_ascii_case_spec, owned,
    replace_char, replace_char_spec, same, string_of_range, to_lowercase, trim, trim_set,
    trim_spec, trim_with, unicode_lower, TrimSet,
};

verus! {

broadcast use vstd::string::group_string_axioms;

// ----------------------------------------------------------------------------
// Statement period
// ----------------------------------------------------------------------------

pub open spec fn cell_or_empty(row: Seq<Seq<char>>, i: int) -> Seq<char> {
    if 0 <= i < row.len() {
        row[i]
    } else {
        Seq::empty()
    }
}

/// First index at or after `i` holding `c`.
pub open spec fn char_pos(s: Seq<char>, c: char, i: int) -> Option<int>
    decreases s.len() - i,
{
    if i < 0 || i >= s.len() {
        None
    } else if s[i] == c {
        Some(i)
    } else {
        char_pos(s, c, i + 1)
    }
}

/// The date formats of statement headers, tried in order.
pub open spec fn flexible_date_spec(s: Seq<char>) -> Option<Date> {
    let text = trim_set(trim_spec(s), TrimSet::Only('"'));
    match chrono_date(text, "%B %d, %Y"@) {
        Some(d) => Some(d),
        None => match chrono_date(text, "%b %d, %Y"@) {
            Some(d) => Some(d),
            None => match chrono_date(text, "%Y-%m-%d"@) {
                Some(d) => Some(d),
                None => chrono_date(text, "%m/%d/%Y"@),
            },
        },
    }
}

/// `period` with its quotes removed and en or em dashes turned into hyphens.
pub open spec fn normalized_period(period: Seq<char>) -> Seq<char> {
    replace_char_spec(
        replace_char_spec(trim_set(trim_spec(period), TrimSet::Only('"')), '–', '-'),
        '—',
        '-',
    )
}

/// The end of a `"<start> - <end>"` period (or the single date given).
pub open spec fn statement_end_spec(period: Seq<char>) -> Option<Date> {
    let n = normalized_period(period);
    match char_pos(n, '-', 0) {
        Some(k) => flexible_date_spec(trim_spec(n.subrange(k + 1, n.len() as int))),
        None => flexible_date_spec(n),
    }
}

/// The statement end after a row of the "Statement" section: the generation
/// stamp is a fallback, the period end takes precedence.
pub open spec fn updated_statement_end(row: Seq<Seq<char>>, se: Option<Date>) -> Option<Date> {
    let name = unicode_lower(trim_spec(cell_or_empty(row, 0)));
    let value = trim_spec(cell_or_empty(row, 1));
    let se1 = if contains_spec(name, "whengenerated"@) {
        match datetime_date_spec(value) {
            Some(d) => Some(d),
            None => se,
        }
    } else {
        se
    };
    if contains_spec(name, "period"@) {
        statement_end_spec(value)
    } else {
        se1
    }
}

pub fn parse_flexible_date(s: &str) -> (r: Option<Date>)
    ensures
        r == flexible_date_spec(s@),
{
    let text = trim_with(trim(s).as_str(), TrimSet::Only('"'));
    if let Some(d) = parse_date_fmt(text.as_str(), "%B %d, %Y") {
        return Some(d);
    }
    if let Some(d) = parse_date_fmt(text.as_str(), "%b %d, %Y") {
        return Some(d);
    }
    if let Some(d) = parse_date_fmt(text.as_str(), "%Y-%m-%d") {
        return Some(d);
    }
    parse_date_fmt(text.as_str(), "%m/%d/%Y")
}

pub fn parse_statement_end(period: &str) -> (r: Option<Date>)
    ensures
        r == statement_end_spec(period@),
{
    let stripped = trim_with(trim(period).as_str(), TrimSet::Only('"'));
    let normalized = replace_char(replace_char(stripped.as_str(), '–', '-').as_str(), '—', '-');
    let cs = chars_of(normalized.as_str());
    assert(normalized@ == normalized_period(period@));
    let mut i: usize = 0;
    while i < cs.len()
        invariant
            i <= cs.len(),
            cs@ == normalized@,
            normalized@ == normalized_period(period@),
            char_pos(cs@, '-', 0) == char_pos(cs@, '-', i as int),
        decreases cs.len() - i,
    {
        if cs[i] == '-' {
            let end = string_of_range(&cs, i + 1, cs.len());
            assert(char_pos(cs@, '-', i as int) == Some(i as int));
            return parse_flexible_date(trim(end.as_str()).as_str());
        }
        i = i + 1;
    }
    parse_flexible_date(normalized.as_str())
}

pub fn parse_statement_generated(value: &str) -> (r: Option<Date>)
    ensures
        r == datetime_date_spec(value@),
{
    parse_ibkr_datetime_date(value)
}

fn cell_or_empty_exec(row: &Vec<String>, i: usize) -> (out: String)
    ensures
        out@ == cell_or_empty(row_views(row@), i as int),
{
    if i < row.len() {
        row[i].clone()
    } else {
        proof {
            reveal_strlit("");
        }
        owned("")
    }
}

pub fn update_statement_end(row: &Vec<String>, statement_end: &mut Option<Date>)
    ensures
        *final(statement_end) == updated_statement_end(row_views(row@), *old(statement_end)),
{
    let field_name = to_lowercase(trim(cell_or_empty_exec(row, 0).as_str()).as_str());
    let field_value = trim(cell_or_empty_exec(row, 1).as_str());
    if contains(field_name.as_str(), "whengenerated") {
        *statement_end = match parse_statement_generated(field_value.as_str()) {
            Some(d) => Some(d),
            None => *statement_end,
        };
    }
    if contains(field_name.as_str(), "period") {
        *statement_end = parse_statement_end(field_value.as_str());
    }
}

// ----------------------------------------------------------------------------
// Reading the whole statement
// ----------------------------------------------------------------------------

/// What has been read so far.
pub struct IbkrParseState<A> {
    pub headers: HeaderRegistry,
    pub statement_end: Option<Date>,
    pub instruments: Vec<Instrument>,
    pub positions: Vec<Position<A>>,
    pub transactions: Vec<Transaction<A>>,
    pub instrument_key_to_id: KeyMap,
    pub instrument_id_remap: KeyMap,
}

pub struct StateV<A> {
    pub headers: Seq<(Seq<char>, Seq<Seq<char>>)>,
    pub statement_end: Option<Date>,
    pub instruments: Seq<InstrumentV>,
    pub positions: Seq<PositionV<A>>,
    pub transactions: Seq<TransactionV<A>>,
    pub keys: Seq<(Seq<char>, Seq<char>)>,
    pub remap: Seq<(Seq<char>, Seq<char>)>,
}

impl<A> View for IbkrParseState<A> {
    type V = StateV<A>;

    open spec fn view(&self) -> StateV<A> {
        StateV {
            headers: self.headers.view_entries(),
            statement_end: self.statement_end,
            instruments: seq_views(self.instruments@),
            positions: seq_views(self.positions@),
            transactions: seq_views(self.transactions@),
            keys: self.instrument_key_to_id.view_entries(),
            remap: self.instrument_id_remap.view_entries(),
        }
    }
}

pub open spec fn initial_state<A>() -> StateV<A> {
    StateV {
        headers: Seq::empty(),
        statement_end: None,
        instruments: Seq::empty(),
        positions: Seq::empty(),
        transactions: Seq::empty(),
        keys: Seq::empty(),
        remap: Seq::empty(),
    }
}

/// Header keys of a `Header` row: its cells, trimmed.
pub open spec fn header_keys(row: Seq<Seq<char>>) -> Seq<Seq<char>> {
    row.map_values(|c: Seq<char>| trim_spec(trim_spec(c)))
}

/// Effect of one CSV record `[section, kind, cells...]`.
pub open spec fn record_step<A>(
    checking: Seq<char>,
    savings: Seq<char>,
    fallback: Option<Date>,
    st: StateV<A>,
    rec: Seq<Seq<char>>,
    nums: Seq<Option<AmountV<A>>>,
) -> Result<StateV<A>, IbkrErrorV> {
    if rec.len() < 2 {
        Ok(st)
    } else {
        let section = trim_spec(rec[0]);
        let kind = trim_spec(rec[1]);
        let row = rec.skip(2);
        let rnums = nums.skip(2);
        if kind == "Header"@ {
            Ok(StateV { headers: st.headers.push((section, header_keys(row))), ..st })
        } else if kind != "Data"@ {
            Ok(st)
        } else if eq_ignore_ascii_case_spec(section, "Statement"@) {
            Ok(StateV { statement_end: updated_statement_end(row, st.statement_end), ..st })
        } else {
            data_row_step(checking, savings, fallback, st, section, row, rnums)
        }
    }
}

/// Effect of a `Data` row of a section other than "Statement".
pub open spec fn data_row_step<A>(
    checking: Seq<char>,
    savings: Seq<char>,
    fallback: Option<Date>,
    st: StateV<A>,
    section: Seq<char>,
    row: Seq<Seq<char>>,
    rnums: Seq<Option<AmountV<A>>>,
) -> Result<StateV<A>, IbkrErrorV> {
    match instrument_row_step(section, st.headers, row, st.instruments, st.keys, st.remap) {
        Some(Err(e)) => Err(e),
        Some(Ok((i2, k2, m2))) => Ok(StateV { instruments: i2, keys: k2, remap: m2, ..st }),
        None => match position_row_step(
            savings,
            section,
            st.headers,
            row,
            rnums,
            st.statement_end,
            fallback,
            st.positions,
            st.instruments,
            st.keys,
        ) {
            Some(Err(e)) => Err(e),
            Some(Ok((p2, i2, k2))) => Ok(StateV { positions: p2, instruments: i2, keys: k2, ..st }),
            None => match transaction_row_spec(checking, savings, section, st.headers, row, rnums) {
                Some(Err(e)) => Err(e),
                Some(Ok(ts)) => Ok(StateV { transactions: st.transactions + ts, ..st }),
                None => Ok(st),
            },
        },
    }
}

/// State after the first `n` records, or the first error.
pub open spec fn run_records<A>(
    checking: Seq<char>,
    savings: Seq<char>,
    fallback: Option<Date>,
    recs: Seq<Seq<Seq<char>>>,
    nums: Seq<Seq<Option<AmountV<A>>>>,
    n: int,
) -> Result<StateV<A>, IbkrErrorV>
    decreases n,
{
    if n <= 0 {
        Ok(initial_state())
    } else {
        match run_records(checking, savings, fallback, recs, nums, n - 1) {
            Err(e) => Err(e),
            Ok(st) => record_step(checking, savings, fallback, st, recs[n - 1], nums[n - 1]),
        }
    }
}

/// Everything a statement yields.
pub struct ParsedIbkr<A> {
    pub statement_end: Option<Date>,
    pub instruments: Vec<Instrument>,
    pub positions: Vec<Position<A>>,
    pub transactions: Vec<Transaction<A>>,
}

pub struct ParsedIbkrV<A> {
    pub statement_end: Option<Date>,
    pub instruments: Seq<InstrumentV>,
    pub positions: Seq<PositionV<A>>,
    pub transactions: Seq<TransactionV<A>>,
}

impl<A> View for ParsedIbkr<A> {
    type V = ParsedIbkrV<A>;

    open spec fn view(&self) -> ParsedIbkrV<A> {
        ParsedIbkrV {
            statement_end: self.statement_end,
            instruments: seq_views(self.instruments@),
            positions: seq_views(self.positions@),
            transactions: seq_views(self.transactions@),
        }
    }
}

/// The statement read in full: every record in order, then the positions
/// reconciled with the final instrument identifiers.
pub open spec fn parse_spec<A>(
    checking: Seq<char>,
    savings: Seq<char>,
    fallback: Option<Date>,
    recs: Seq<Seq<Seq<char>>>,
    nums: Seq<Seq<Option<AmountV<A>>>>,
) -> Result<ParsedIbkrV<A>, IbkrErrorV> {
    match run_records(checking, savings, fallback, recs, nums, recs.len() as int) {
        Err(e) => Err(e),
        Ok(st) => match reconciled_all(st.positions, savings, st.remap) {
            Err(id) => Err(IbkrErrorV::InstrumentIdCycle(id)),
            Ok(ps) => Ok(
                ParsedIbkrV {
                    statement_end: st.statement_end,
                    instruments: st.instruments,
                    positions: ps,
                    transactions: st.transactions,
                },
            ),
        },
    }
}

pub open spec fn record_views(recs: Seq<Vec<String>>) -> Seq<Seq<Seq<char>>> {
    recs.map_values(|r: Vec<String>| row_views(r@))
}

pub open spec fn number_views<A>(nums: Seq<Vec<Option<Amount<A>>>>) -> Seq<
    Seq<Option<AmountV<A>>>,
> {
    nums.map_values(|r: Vec<Option<Amount<A>>>| opt_amount_views(r@))
}

proof fn lemma_run_err_stays<A>(
    checking: Seq<char>,
    savings: Seq<char>,
    fallback: Option<Date>,
    recs: Seq<Seq<Seq<char>>>,
    nums: Seq<Seq<Option<AmountV<A>>>>,
    n: int,
    m: int,
)
    requires
        0 <= n <= m,
        run_records(checking, savings, fallback, recs, nums, n) is Err,
    ensures
        run_records(checking, savings, fallback, recs, nums, m) == run_records(
            checking,
            savings,
            fallback,
            recs,
            nums,
            n,
        ),
    decreases m - n,
{
    if n < m {
        lemma_run_err_stays(checking, savings, fallback, recs, nums, n, m - 1);
    }
}

fn tail_strings(v: &Vec<String>) -> (out: Vec<String>)
    requires
        v.len() >= 2,
    ensures
        row_views(out@) == row_views(v@).skip(2),
{
    let mut out: Vec<String> = Vec::new();
    let mut i: usize = 2;
    while i < v.len()
        invariant
            2 <= i <= v.len(),
            row_views(out@) == row_views(v@).subrange(2, i as int),
        decreases v.len() - i,
    {
        out.push(v[i].clone());
        assert(row_views(v@).subrange(2, i + 1) =~= row_views(v@).subrange(2, i as int).push(
            v@[i as int]@,
        ));
        assert(row_views(out@) =~= row_views(v@).subrange(2, i + 1));
        i = i + 1;
    }
    assert(row_views(v@).skip(2) =~= row_views(v@).subrange(2, v.len() as int));
    out
}

fn tail_numbers<A: Copy>(v: &Vec<Option<Amount<A>>>) -> (out: Vec<Option<Amount<A>>>)
    requires
        v.len() >= 2,
    ensures
        opt_amount_views(out@) == opt_amount_views(v@).skip(2),
{
    let mut out: Vec<Option<Amount<A>>> = Vec::new();
    let mut i: usize = 2;
    while i < v.len()
        invariant
            2 <= i <= v.len(),
            opt_amount_views(out@) == opt_amount_views(v@).subrange(2, i as int),
        decreases v.len() - i,
    {
        let x = match &v[i] {
            Some(a) => Some(a.copy()),
            None => None,
        };
        out.push(x);
        assert(opt_amount_views(v@).subrange(2, i + 1) =~= opt_amount_views(v@).subrange(
            2,
            i as int,
        ).push(opt_amount_views(v@)[i as int]));
        assert(opt_amount_views(out@) =~= opt_amount_views(v@).subrange(2, i + 1));
        i = i + 1;
    }
    assert(opt_amount_views(v@).skip(2) =~= opt_amount_views(v@).subrange(2, v.len() as int));
    out
}

fn header_columns(row: &Vec<String>) -> (out: Vec<String>)
    ensures
        row_views(out@) == row_views(row@).map_values(|c: Seq<char>| trim_spec(c)),
{
    let mut out: Vec<String> = Vec::new();
    let mut i: usize = 0;
    while i < row.len()
        invariant
            i <= row.len(),
            row_views(out@) == row_views(row@).take(i as int).map_values(
                |c: Seq<char>| trim_spec(c),
            ),
        decreases row.len() - i,
    {
        let ghost before = row_views(out@);
        let t = trim(row[i].as_str());
        out.push(t);
        assert(row_views(out@) =~= before.push(t@));
        assert(row_views(row@).take(i + 1) =~= row_views(row@).take(i as int).push(row@[i as int]@));
        assert(row_views(row@).take(i + 1).map_values(|c: Seq<char>| trim_spec(c))
            =~= row_views(row@).take(i as int).map_values(|c: Seq<char>| trim_spec(c)).push(
            trim_spec(row@[i as int]@),
        ));
        i = i + 1;
    }
    assert(row_views(row@).take(row.len() as int) =~= row_views(row@));
    out
}

impl<A: Copy> IbkrParseState<A> {
    pub fn new() -> (st: IbkrParseState<A>)
        ensures
            st@ == initial_state::<A>(),
    {
        let st = IbkrParseState {
            headers: HeaderRegistry::new(),
            statement_end: None,
            instruments: Vec::new(),
            positions: Vec::new(),
            transactions: Vec::new(),
            instrument_key_to_id: KeyMap::new(),
            instrument_id_remap: KeyMap::new(),
        };
        assert(st@.instruments =~= Seq::<InstrumentV>::empty());
        assert(st@.positions =~= Seq::<PositionV<A>>::empty());
        assert(st@.transactions =~= Seq::<TransactionV<A>>::empty());
        st
    }

    /// Reads one CSV record `[section, kind, cells...]`; `nums[i]` is the
    /// caller's parse of `rec[i]` as an amount.
    pub fn ingest_record(
        &mut self,
        parser: &IbkrCsvParser,
        fallback_statement_date: Option<Date>,
        rec: &Vec<String>,
        nums: &Vec<Option<Amount<A>>>,
    ) -> (r: Result<(), IbkrError>)
        requires
            nums.len() == rec.len(),
        ensures
            match record_step(
                parser.account_id_checking@,
                parser.account_id_savings@,
                fallback_statement_date,
                old(self)@,
                row_views(rec@),
                opt_amount_views(nums@),
            ) {
                Ok(st) => r is Ok && final(self)@ == st,
                Err(e) => r matches Err(x) && x@ == e,
            },
    {
        if rec.len() < 2 {
            return Ok(());
        }
        let section = trim(rec[0].as_str());
        let row_kind = trim(rec[1].as_str());
        let row = tail_strings(rec);
        let row_nums = tail_numbers(nums);
        if same(row_kind.as_str(), "Header") {
            let columns = header_columns(&row);
            let ghost cols_v = row_views(columns@);
            let ghost cols_raw = columns@;
            assert(cols_v == row_views(row@).map_values(|c: Seq<char>| trim_spec(c)));
            let header = SectionHeader::new(columns);
            proof {
                assert forall|k: int| 0 <= k < header.keys_view().len() implies header.keys_view()[k]
                    == header_keys(row_views(rec@).skip(2))[k] by {
                    assert(header.keys_view()[k] == header.keys@[k]@);
                    assert(header.keys@[k]@ == trim_spec(cols_raw[k]@));
                    assert(cols_v[k] == cols_raw[k]@);
                    assert(cols_v[k] == trim_spec(row_views(row@)[k]));
                    assert(row_views(row@)[k] == row_views(rec@).skip(2)[k]);
                }
                assert(header.keys_view() =~= header_keys(row_views(rec@).skip(2)));
            }
            self.headers.insert(section.as_str(), header);
            return Ok(());
        }
        if !same(row_kind.as_str(), "Data") {
            return Ok(());
        }
        if eq_ignore_ascii_case(section.as_str(), "Statement") {
            update_statement_end(&row, &mut self.statement_end);
            return Ok(());
        }
        self.ingest_data_row(parser, fallback_statement_date, section.as_str(), &row, &row_nums)
    }

    fn ingest_data_row(
        &mut self,
        parser: &IbkrCsvParser,
        fallback_statement_date: Option<Date>,
        section: &str,
        row: &Vec<String>,
        row_nums: &Vec<Option<Amount<A>>>,
    ) -> (r: Result<(), IbkrError>)
        ensures
            match data_row_step(
                parser.account_id_checking@,
                parser.account_id_savings@,
                fallback_statement_date,
                old(self)@,
                section@,
                row_views(row@),
                opt_amount_views(row_nums@),
            ) {
                Ok(st) => r is Ok && final(self)@ == st,
                Err(e) => r matches Err(x) && x@ == e,
            },
    {
        if parse_instrument_row(
            section,
            &self.headers,
            row,
            &mut self.instruments,
            &mut self.instrument_key_to_id,
            &mut self.instrument_id_remap,
        )? {
            return Ok(());
        }
        if parse_position_row(
            parser,
            section,
            &self.headers,
            row,
            row_nums,
            self.statement_end,
            fallback_statement_date,
            &mut self.positions,
            &mut self.instruments,
            &mut self.instrument_key_to_id,
        )? {
            return Ok(());
        }
        let _ = parse_transaction_row(
            parser,
            section,
            &self.headers,
            row,
            row_nums,
            &mut self.transactions,
        )?;
        Ok(())
    }
}

impl IbkrCsvParser {
    /// Reads the records of a statement in order. `numbers[r][i]` is the
    /// caller's parse of `records[r][i]` as an amount (the statement's
    /// `parse_f64`: trimmed, `--` and blanks rejected, thousands separators
    /// dropped). `fallback_statement_date` dates positions when the
    /// statement names no period.
    pub fn parse_records_with_fallback_date<A: Copy>(
        &self,
        records: &Vec<Vec<String>>,
        numbers: &Vec<Vec<Option<Amount<A>>>>,
        fallback_statement_date: Option<Date>,
    ) -> (r: Result<ParsedIbkr<A>, IbkrError>)
        requires
            numbers.len() == records.len(),
            forall|i: int| 0 <= i < records.len() ==> #[trigger] numbers@[i].len() == records@[i].len(),
        ensures
            match parse_spec(
                self.account_id_checking@,
                self.account_id_savings@,
                fallback_statement_date,
                record_views(records@),
                number_views(numbers@),
            ) {
                Ok(p) => r matches Ok(x) && x@ == p,
                Err(e) => r matches Err(x) && x@ == e,
            },
    {
        let ghost recs = record_views(records@);
        let ghost ns = number_views(numbers@);
        let mut state: IbkrParseState<A> = IbkrParseState::new();
        let mut i: usize = 0;
        while i < records.len()
            invariant
                i <= records.len(),
                numbers.len() == records.len(),
                forall|k: int| 0 <= k < records.len() ==> #[trigger] numbers@[k].len() == records@[k].len(),
                recs == record_views(records@),
                ns == number_views(numbers@),
                run_records(
                    self.account_id_checking@,
                    self.account_id_savings@,
                    fallback_statement_date,
                    recs,
                    ns,
                    i as int,
                ) == Ok::<StateV<A>, IbkrErrorV>(state@),
            decreases records.len() - i,
        {
            assert(numbers@[i as int].len() == records@[i as int].len());
            match state.ingest_record(self, fallback_statement_date, &records[i], &numbers[i]) {
                Ok(()) => {},
                Err(e) => {
                    proof {
                        lemma_run_err_stays(
                            self.account_id_checking@,
                            self.account_id_savings@,
                            fallback_statement_date,
                            recs,
                            ns,
                            i + 1,
                            recs.len() as int,
                        );
                    }
                    return Err(e);
                },
            }
            i = i + 1;
        }
        reconcile_position_instrument_ids(
            &mut state.positions,
            self.account_id_savings.as_str(),
            &state.instrument_id_remap,
        )?;
        Ok(
            ParsedIbkr {
                statement_end: state.statement_end,
                instruments: state.instruments,
                positions: state.positions,
                transactions: state.transactions,
            },
        )
    }
}

} // verus!
