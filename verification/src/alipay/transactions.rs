//! Alipay bill rows to transactions.
//!
//! Reading a bill has two steps: [`read_alipay_table`] decodes the bytes,
//! finds the table and its columns; the caller then reads the amount text
//! of each record ([`amount_text`]) as a number, and [`parse_table`] turns
//! the records into transactions.
use vstd::prelude::*;

use super::AlipayCsvParser;
use crate::csvtext::{csv_trimmed_table, read_trimmed_table};
use crate::dates::{chrono_datetime_date, iso_date, iso_text, parse_datetime_date_fmt, Date};
use crate::encoding::{decode_gb18030, gb18030_decode, utf8_text};
use crate::hashing::{hex_spec, prefixed_digest_id, sha256, utf8};
use crate::money::{Amount, AmountV, Sign};
use crate::records::{seq_views, txn_v, Transaction, TransactionV};
use crate::text::{
    chars_of, collapse_whitespace, collapse_ws, concat, contains, contains_spec, decimal,
    decimal_string, find, is_first_occurrence, occurs_at, owned, remove_char, remove_char_spec,
    replace_char, replace_char_spec, same, string_of_range, trim, trim_end_set, trim_end_with,
    trim_spec, views, TrimSet,
};

verus! {

broadcast use vstd::string::group_string_axioms;

// ---------------------------------------------------------------------------
// From bytes to a table
// ---------------------------------------------------------------------------

/// The bytes without a leading UTF-8 byte-order mark.
pub open spec fn strip_bom(b: Seq<u8>) -> Seq<u8> {
    if b.len() >= 3 && b[0] == 0xEF && b[1] == 0xBB && b[2] == 0xBF {
        b.subrange(3, b.len() as int)
    } else {
        b
    }
}

/// The text of a bill: UTF-8 when it decodes and shows the time heading,
/// else GB18030.
pub open spec fn decode_spec(bytes: Seq<u8>) -> Seq<char> {
    let b = strip_bom(bytes);
    if vstd::utf8::valid_utf8(b) && contains_spec(vstd::utf8::decode_utf8(b), "交易时间"@) {
        vstd::utf8::decode_utf8(b)
    } else {
        gb18030_decode(b).0
    }
}

pub fn decode_text_lossy(bytes: &[u8]) -> (out: String)
    ensures
        out@ == decode_spec(bytes@),
{
    let has_bom = bytes.len() >= 3 && bytes[0] == 0xEF && bytes[1] == 0xBB && bytes[2] == 0xBF;
    let mut body: Vec<u8> = Vec::new();
    let mut i: usize = if has_bom {
        3
    } else {
        0
    };
    let start = i;
    while i < bytes.len()
        invariant
            start <= i <= bytes.len(),
            start == (if has_bom { 3usize } else { 0usize }),
            body@ == bytes@.subrange(start as int, i as int),
        decreases bytes.len() - i,
    {
        body.push(bytes[i]);
        assert(bytes@.subrange(start as int, i + 1) =~= bytes@.subrange(start as int, i as int).push(
            bytes@[i as int],
        ));
        i = i + 1;
    }
    assert(body@ == strip_bom(bytes@)) by {
        if !has_bom {
            assert(bytes@.subrange(0, bytes@.len() as int) =~= bytes@);
        }
    }
    if let Some(text) = utf8_text(body.as_slice()) {
        if contains(text.as_str(), "交易时间") {
            return text;
        }
    }
    let (decoded, _) = decode_gb18030(body.as_slice());
    decoded
}

/// Index of the first occurrence of `p` in `s`.
pub open spec fn first_occurrence(s: Seq<char>, p: Seq<char>) -> int {
    choose|i: int| is_first_occurrence(s, p, i)
}

proof fn lemma_first_occurrence_unique(s: Seq<char>, p: Seq<char>, i: int)
    requires
        is_first_occurrence(s, p, i),
    ensures
        first_occurrence(s, p) == i,
{
    let j = first_occurrence(s, p);
    assert(is_first_occurrence(s, p, j));
    if j < i {
        assert(!occurs_at(s, p, j));
    } else if j > i {
        assert(!occurs_at(s, p, i));
    }
}

/// The text from the table's header row (`交易时间,`) on.
pub open spec fn slice_spec(decoded: Seq<char>) -> Option<Seq<char>> {
    if contains_spec(decoded, "交易时间,"@) {
        Some(decoded.subrange(first_occurrence(decoded, "交易时间,"@), decoded.len() as int))
    } else {
        None
    }
}

pub fn slice_to_csv_table(decoded: &str) -> (out: Option<String>)
    ensures
        crate::records::opt_view(out) == slice_spec(decoded@),
{
    match find(decoded, "交易时间,") {
        None => None,
        Some(start) => {
            proof {
                lemma_first_occurrence_unique(decoded@, "交易时间,"@, start as int);
                assert(occurs_at(decoded@, "交易时间,"@, start as int));
            }
            let cs = chars_of(decoded);
            Some(string_of_range(&cs, start, cs.len()))
        },
    }
}

/// Index of the first header that reads `name` once trimmed.
pub open spec fn column_spec(headers: Seq<Seq<char>>, name: Seq<char>) -> Option<int> {
    if exists|k: int| 0 <= k < headers.len() && trim_spec(headers[k]) == name {
        Some(
            choose|k: int|
                0 <= k < headers.len() && trim_spec(headers[k]) == name && forall|j: int|
                    0 <= j < k ==> trim_spec(headers[j]) != name,
        )
    } else {
        None
    }
}

pub fn find_col(headers: &Vec<String>, name: &str) -> (r: Option<usize>)
    ensures
        match r {
            Some(k) => column_spec(views(headers@), name@) == Some(k as int),
            None => column_spec(views(headers@), name@) is None,
        },
{
    let ghost h = views(headers@);
    let mut k: usize = 0;
    let mut found = false;
    while k < headers.len() && !found
        invariant
            k <= headers.len(),
            h == views(headers@),
            found ==> k < headers.len() && trim_spec(h[k as int]) == name@,
            forall|j: int| 0 <= j < k ==> trim_spec(#[trigger] h[j]) != name@,
        decreases headers.len() - k, (if found { 0int } else { 1int }),
    {
        let t = trim(headers[k].as_str());
        if same(t.as_str(), name) {
            found = true;
        } else {
            k = k + 1;
        }
    }
    if found {
        proof {
            let w = choose|w: int|
                0 <= w < h.len() && trim_spec(h[w]) == name@ && forall|j: int|
                    0 <= j < w ==> trim_spec(h[j]) != name@;
            assert(w == k as int) by {
                if w < k {
                    assert(trim_spec(h[w]) != name@);
                } else if w > k {
                    assert(trim_spec(h[k as int]) == name@);
                }
            }
        }
        Some(k)
    } else {
        None
    }
}

/// Where the columns of a bill are.
#[derive(Clone, Copy, Debug, PartialEq, Eq, Structural)]
pub struct AlipayColumns {
    pub idx_time: usize,
    pub idx_category: usize,
    pub idx_counterparty: usize,
    pub idx_item: usize,
    pub idx_inout: usize,
    pub idx_amount: usize,
    pub idx_status: usize,
    pub idx_order: usize,
    pub idx_note: Option<usize>,
}

/// Why a bill could not be read. Rows count as the reader counts lines:
/// the header is row 1.
pub enum AlipayError {
    MissingHeaderRow,
    MissingHeaders,
    MissingColumn { name: String },
    CsvRead { row: usize },
    InvalidDatetime { raw: String, row: usize },
    InvalidAmount { raw: String, row: usize },
}

pub enum AlipayErrorV {
    MissingHeaderRow,
    MissingHeaders,
    MissingColumn { name: Seq<char> },
    CsvRead { row: nat },
    InvalidDatetime { raw: Seq<char>, row: nat },
    InvalidAmount { raw: Seq<char>, row: nat },
}

impl View for AlipayError {
    type V = AlipayErrorV;

    open spec fn view(&self) -> AlipayErrorV {
        match self {
            AlipayError::MissingHeaderRow => AlipayErrorV::MissingHeaderRow,
            AlipayError::MissingHeaders => AlipayErrorV::MissingHeaders,
            AlipayError::MissingColumn { name } => AlipayErrorV::MissingColumn { name: name@ },
            AlipayError::CsvRead { row } => AlipayErrorV::CsvRead { row: *row as nat },
            AlipayError::InvalidDatetime { raw, row } => AlipayErrorV::InvalidDatetime {
                raw: raw@,
                row: *row as nat,
            },
            AlipayError::InvalidAmount { raw, row } => AlipayErrorV::InvalidAmount {
                raw: raw@,
                row: *row as nat,
            },
        }
    }
}

/// The required headings, in the order they are looked up.
pub open spec fn required_headings() -> Seq<Seq<char>> {
    seq!["交易时间"@, "交易分类"@, "交易对方"@, "商品说明"@, "收/支"@, "金额"@, "交易状态"@, "交易订单号"@]
}

/// The columns of a bill's headers, or the first required heading missing.
pub open spec fn columns_spec(h: Seq<Seq<char>>) -> Result<AlipayColumns, Seq<char>> {
    let names = required_headings();
    if column_spec(h, names[0]) is None {
        Err(names[0])
    } else if column_spec(h, names[1]) is None {
        Err(names[1])
    } else if column_spec(h, names[2]) is None {
        Err(names[2])
    } else if column_spec(h, names[3]) is None {
        Err(names[3])
    } else if column_spec(h, names[4]) is None {
        Err(names[4])
    } else if column_spec(h, names[5]) is None {
        Err(names[5])
    } else if column_spec(h, names[6]) is None {
        Err(names[6])
    } else if column_spec(h, names[7]) is None {
        Err(names[7])
    } else {
        Ok(
            AlipayColumns {
                idx_time: column_spec(h, names[0])->0 as usize,
                idx_category: column_spec(h, names[1])->0 as usize,
                idx_counterparty: column_spec(h, names[2])->0 as usize,
                idx_item: column_spec(h, names[3])->0 as usize,
                idx_inout: column_spec(h, names[4])->0 as usize,
                idx_amount: column_spec(h, names[5])->0 as usize,
                idx_status: column_spec(h, names[6])->0 as usize,
                idx_order: column_spec(h, names[7])->0 as usize,
                idx_note: match column_spec(h, "备注"@) {
                    Some(k) => Some(k as usize),
                    None => None,
                },
            },
        )
    }
}

/// A bill's table: where its columns are and its records (`None` for one
/// the reader could not read).
pub struct AlipayTable {
    pub cols: AlipayColumns,
    pub records: Vec<Option<Vec<String>>>,
}

pub open spec fn record_views(r: Seq<Option<Vec<String>>>) -> Seq<Option<Seq<Seq<char>>>> {
    r.map_values(
        |o: Option<Vec<String>>|
            match o {
                Some(f) => Some(views(f@)),
                None => None,
            },
    )
}

/// The table of a bill's bytes.
pub open spec fn table_spec(bytes: Seq<u8>) -> Result<(AlipayColumns, Seq<Option<Seq<Seq<char>>>>), AlipayErrorV> {
    match slice_spec(decode_spec(bytes)) {
        None => Err(AlipayErrorV::MissingHeaderRow),
        Some(text) => match csv_trimmed_table(text, ',' as u8) {
            None => Err(AlipayErrorV::MissingHeaders),
            Some((headers, records)) => match columns_spec(headers) {
                Err(name) => Err(AlipayErrorV::MissingColumn { name }),
                Ok(cols) => Ok((cols, records)),
            },
        },
    }
}

fn required_column(headers: &Vec<String>, name: &str) -> (r: Result<usize, AlipayError>)
    ensures
        match r {
            Ok(k) => column_spec(views(headers@), name@) == Some(k as int),
            Err(e) => column_spec(views(headers@), name@) is None && e@ == (AlipayErrorV::MissingColumn {
                name: name@,
            }),
        },
{
    match find_col(headers, name) {
        Some(k) => Ok(k),
        None => Err(AlipayError::MissingColumn { name: owned(name) }),
    }
}

/// Decodes a bill, finds its table and its columns.
pub fn read_alipay_table(bytes: &[u8]) -> (r: Result<AlipayTable, AlipayError>)
    ensures
        match table_spec(bytes@) {
            Ok((cols, records)) => r matches Ok(t) && t.cols == cols && record_views(t.records@)
                == records,
            Err(e) => r matches Err(x) && x@ == e,
        },
{
    let decoded = decode_text_lossy(bytes);
    let text = match slice_to_csv_table(decoded.as_str()) {
        Some(t) => t,
        None => {
            return Err(AlipayError::MissingHeaderRow);
        },
    };
    let (headers, records) = match read_trimmed_table(text.as_str(), 44u8) {
        Some(t) => t,
        None => {
            return Err(AlipayError::MissingHeaders);
        },
    };
    assert(',' as u8 == 44u8);
    let ghost h = views(headers@);
    assert(record_views(records@) =~= records@.map_values(
        |o: Option<Vec<String>>|
            match o {
                Some(f) => Some(views(f@)),
                None => None,
            },
    ));
    let cols = AlipayColumns {
        idx_time: required_column(&headers, "交易时间")?,
        idx_category: required_column(&headers, "交易分类")?,
        idx_counterparty: required_column(&headers, "交易对方")?,
        idx_item: required_column(&headers, "商品说明")?,
        idx_inout: required_column(&headers, "收/支")?,
        idx_amount: required_column(&headers, "金额")?,
        idx_status: required_column(&headers, "交易状态")?,
        idx_order: required_column(&headers, "交易订单号")?,
        idx_note: find_col(&headers, "备注"),
    };
    Ok(AlipayTable { cols, records })
}

// ---------------------------------------------------------------------------
// Rows
// ---------------------------------------------------------------------------

/// Field `i` of a record, empty when the record is shorter.
pub open spec fn field(rec: Seq<Seq<char>>, i: int) -> Seq<char> {
    if 0 <= i < rec.len() {
        rec[i]
    } else {
        Seq::empty()
    }
}

fn field_exec(rec: &Vec<String>, i: usize) -> (out: String)
    ensures
        out@ == field(views(rec@), i as int),
{
    if i < rec.len() {
        rec[i].clone()
    } else {
        String::new()
    }
}

/// The amount text of a record as the caller reads it as a number: trimmed,
/// thousands separators removed. An empty text is no amount.
pub open spec fn amount_text_spec(raw: Seq<char>) -> Seq<char> {
    remove_char_spec(trim_spec(raw), ',')
}

pub fn amount_text(rec: &Vec<String>, cols: &AlipayColumns) -> (out: String)
    ensures
        out@ == amount_text_spec(field(views(rec@), cols.idx_amount as int)),
{
    let raw = field_exec(rec, cols.idx_amount);
    remove_char(trim(raw.as_str()).as_str(), ',')
}

/// Rows whose status is neither success nor refund are left out when the
/// parser imports only successful ones.
pub open spec fn skip_spec(only_successful: bool, status: Seq<char>) -> bool {
    only_successful && !(status == "交易成功"@ || status == "退款成功"@)
}

pub fn should_skip_row(parser: &AlipayCsvParser, status: &str) -> (r: bool)
    ensures
        r == skip_spec(parser.only_successful, status@),
{
    parser.only_successful && !(same(status, "交易成功") || same(status, "退款成功"))
}

/// Seconds precision first, then minutes.
pub open spec fn alipay_datetime_spec(raw: Seq<char>) -> Option<Date> {
    if chrono_datetime_date(raw, "%Y-%m-%d %H:%M:%S"@) is Some {
        chrono_datetime_date(raw, "%Y-%m-%d %H:%M:%S"@)
    } else {
        chrono_datetime_date(raw, "%Y-%m-%d %H:%M"@)
    }
}

pub fn parse_alipay_datetime(raw: &str) -> (r: Option<Date>)
    ensures
        r == alipay_datetime_spec(raw@),
{
    if let Some(d) = parse_datetime_date_fmt(raw, "%Y-%m-%d %H:%M:%S") {
        return Some(d);
    }
    parse_datetime_date_fmt(raw, "%Y-%m-%d %H:%M")
}

/// Item, counterparty and category, separated by spaces.
pub open spec fn semantic_blob_spec(item: Seq<char>, counterparty: Seq<char>, category: Seq<char>) -> Seq<
    char,
> {
    item + " "@ + counterparty + " "@ + category
}

pub fn semantic_blob(item_raw: &str, counterparty_raw: &str, category_raw: &str) -> (out: String)
    ensures
        out@ == semantic_blob_spec(item_raw@, counterparty_raw@, category_raw@),
{
    let mut out = owned(item_raw);
    out.append(" ");
    out.append(counterparty_raw);
    out.append(" ");
    out.append(category_raw);
    out
}

pub open spec fn by_sign(sign: Sign) -> Seq<char> {
    if sign.lt_zero() {
        "expense"@
    } else {
        "income"@
    }
}

/// The type from the income/expense column, overridden (with a tag) for
/// refunds, top-ups, withdrawals and collections.
pub open spec fn base_type_spec(inout: Seq<char>, sign: Sign, status: Seq<char>, blob: Seq<char>) -> (Seq<
    char,
>, Option<Seq<char>>) {
    let t = if inout == "支出"@ {
        "expense"@
    } else if inout == "收入"@ {
        "income"@
    } else {
        by_sign(sign)
    };
    if status == "退款成功"@ || contains_spec(blob, "退款"@) {
        ("income"@, Some("退款"@))
    } else if contains_spec(blob, "充值"@) {
        ("income"@, Some("充值"@))
    } else if contains_spec(blob, "提现"@) {
        ("expense"@, Some("提现"@))
    } else if contains_spec(blob, "收钱码收款"@) || contains_spec(blob, "收款"@) {
        ("income"@, Some("收款"@))
    } else {
        (t, None)
    }
}

pub fn infer_base_type_and_semantic_tag(inout: &str, sign: Sign, status: &str, blob: &str) -> (r: (
    String,
    Option<String>,
))
    ensures
        (r.0@, crate::records::opt_view(r.1)) == base_type_spec(inout@, sign, status@, blob@),
{
    let t = if same(inout, "支出") {
        owned("expense")
    } else if same(inout, "收入") {
        owned("income")
    } else if same(inout, "不计收支") {
        if sign.is_negative() {
            owned("expense")
        } else {
            owned("income")
        }
    } else if sign.is_negative() {
        owned("expense")
    } else {
        owned("income")
    };
    if same(status, "退款成功") || contains(blob, "退款") {
        (owned("income"), Some(owned("退款")))
    } else if contains(blob, "充值") {
        (owned("income"), Some(owned("充值")))
    } else if contains(blob, "提现") {
        (owned("expense"), Some(owned("提现")))
    } else if contains(blob, "收钱码收款") || contains(blob, "收款") {
        (owned("income"), Some(owned("收款")))
    } else {
        (t, None)
    }
}

/// The text html-escape's `decode_html_entities` gives for `s`.
pub uninterp spec fn html_decoded(s: Seq<char>) -> Seq<char>;

/// html-escape `decode_html_entities`: names its result.
#[verifier::external_body]
fn decode_html(s: &str) -> (out: String)
    ensures
        out@ == html_decoded(s@),
{
    html_escape::decode_html_entities(s).to_string()
}

/// The item (or the counterparty when there is no item) with HTML entities
/// decoded and white space collapsed, then the category and the tag in
/// brackets, then the note in parentheses.
pub open spec fn description_spec(
    item: Seq<char>,
    counterparty: Seq<char>,
    category: Seq<char>,
    tag: Option<Seq<char>>,
    note: Option<Seq<char>>,
) -> Seq<char> {
    let base = if item.len() == 0 {
        counterparty
    } else {
        item
    };
    let d = collapse_ws(replace_char_spec(html_decoded(base), '\u{00A0}', ' '));
    let d = if category.len() > 0 {
        d + " ["@ + category + "]"@
    } else {
        d
    };
    let d = match tag {
        Some(t) => d + " ["@ + t + "]"@,
        None => d,
    };
    match note {
        Some(n) => if n.len() > 0 {
            d + " ("@ + n + ")"@
        } else {
            d
        },
        None => d,
    }
}

/// The note of a record, trimmed, when the bill has a note column.
pub open spec fn note_spec(rec: Seq<Seq<char>>, cols: AlipayColumns) -> Option<Seq<char>> {
    match cols.idx_note {
        Some(i) => Some(trim_spec(field(rec, i as int))),
        None => None,
    }
}

pub fn field_description(
    rec: &Vec<String>,
    cols: &AlipayColumns,
    item_raw: &str,
    counterparty_raw: &str,
    category_raw: &str,
    semantic_tag: &Option<String>,
) -> (out: String)
    ensures
        out@ == description_spec(
            item_raw@,
            counterparty_raw@,
            category_raw@,
            crate::records::opt_view(*semantic_tag),
            note_spec(views(rec@), *cols),
        ),
{
    let base = if item_raw.unicode_len() == 0 {
        counterparty_raw
    } else {
        item_raw
    };
    let decoded = decode_html(base);
    let spaced = replace_char(decoded.as_str(), '\u{00A0}', ' ');
    let mut description = collapse_whitespace(spaced.as_str());
    if category_raw.unicode_len() > 0 {
        description.append(" [");
        description.append(category_raw);
        description.append("]");
    }
    match semantic_tag {
        Some(t) => {
            description.append(" [");
            description.append(t.as_str());
            description.append("]");
        },
        None => {},
    }
    match cols.idx_note {
        Some(i) => {
            let note = trim(field_exec(rec, i).as_str());
            if note.unicode_len() > 0 {
                description.append(" (");
                description.append(note.as_str());
                description.append(")");
            }
        },
        None => {},
    }
    description
}

/// `(from, to, type)`: expenses leave the wallet, income enters it; a flow
/// from an account to itself, or an internal transfer, goes by the sign.
pub open spec fn accounts_and_type_spec(account: Seq<char>, txn_type: Seq<char>, sign: Sign) -> (
    Seq<char>,
    Seq<char>,
    Seq<char>,
) {
    let (from, to) = if txn_type == "expense"@ {
        (account, "EXTERNAL_PAYEE"@)
    } else if txn_type == "income"@ {
        ("EXTERNAL_PAYER"@, account)
    } else if sign.lt_zero() {
        (account, "EXTERNAL_PAYEE"@)
    } else {
        ("EXTERNAL_PAYER"@, account)
    };
    if from == to || txn_type == "internal_transfer"@ {
        if sign.lt_zero() {
            (account, "EXTERNAL_PAYEE"@, "expense"@)
        } else {
            ("EXTERNAL_PAYER"@, account, "income"@)
        }
    } else {
        (from, to, txn_type)
    }
}

pub fn normalized_accounts_and_type(parser: &AlipayCsvParser, txn_type: &str, sign: Sign) -> (r: (
    String,
    String,
    String,
))
    ensures
        (r.0@, r.1@, r.2@) == accounts_and_type_spec(parser.account_id@, txn_type@, sign),
{
    let (from, to) = if same(txn_type, "expense") {
        (parser.account_id.clone(), owned("EXTERNAL_PAYEE"))
    } else if same(txn_type, "income") {
        (owned("EXTERNAL_PAYER"), parser.account_id.clone())
    } else if sign.is_negative() {
        (parser.account_id.clone(), owned("EXTERNAL_PAYEE"))
    } else {
        (owned("EXTERNAL_PAYER"), parser.account_id.clone())
    };
    if same(from.as_str(), to.as_str()) || same(txn_type, "internal_transfer") {
        if sign.is_negative() {
            (parser.account_id.clone(), owned("EXTERNAL_PAYEE"), owned("expense"))
        } else {
            (owned("EXTERNAL_PAYER"), parser.account_id.clone(), owned("income"))
        }
    } else {
        (from, to, owned(txn_type))
    }
}

/// `"ALIPAY-<24 hex digits of SHA-256(seed)>"`.
pub open spec fn alipay_txn_id_spec(
    account: Seq<char>,
    date: Date,
    amount_text: Seq<char>,
    currency: Seq<char>,
    description: Seq<char>,
    order_no: Seq<char>,
    row_index: nat,
) -> Seq<char> {
    "ALIPAY"@ + "-"@ + hex_spec(
        sha256(
            utf8(
                account + "|"@ + iso_text(date) + "|"@ + amount_text + "|"@ + currency + "|"@
                    + trim_spec(description) + "|"@ + trim_spec(order_no) + "|"@ + decimal(
                    row_index,
                ),
            ),
        ).take(12),
    )
}

pub fn make_alipay_txn_id(
    account_id: &str,
    date: &Date,
    amount_text: &str,
    currency: &str,
    description: &str,
    order_no: &str,
    row_index: usize,
) -> (out: String)
    ensures
        out@ == alipay_txn_id_spec(
            account_id@,
            *date,
            amount_text@,
            currency@,
            description@,
            order_no@,
            row_index as nat,
        ),
{
    let mut seed = owned(account_id);
    seed.append("|");
    seed.append(iso_date(date).as_str());
    seed.append("|");
    seed.append(amount_text);
    seed.append("|");
    seed.append(currency);
    seed.append("|");
    seed.append(trim(description).as_str());
    seed.append("|");
    seed.append(trim(order_no).as_str());
    seed.append("|");
    seed.append(decimal_string(row_index).as_str());
    prefixed_digest_id("ALIPAY", seed.as_str(), 12)
}

pub open spec fn amount_at<A>(amounts: Seq<Option<AmountV<A>>>, i: int) -> Option<AmountV<A>> {
    if 0 <= i < amounts.len() {
        amounts[i]
    } else {
        None
    }
}

/// The transaction of record `idx` (counting from 0; it is line `idx + 2`),
/// `None` when the record is left out, or the error that stops the bill.
pub open spec fn record_spec<A>(
    account: Seq<char>,
    currency: Seq<char>,
    only_successful: bool,
    cols: AlipayColumns,
    rec: Seq<Seq<char>>,
    amount: Option<AmountV<A>>,
    idx: nat,
) -> Result<Option<TransactionV<A>>, AlipayErrorV> {
    let status = trim_spec(field(rec, cols.idx_status as int));
    if skip_spec(only_successful, status) {
        Ok(None)
    } else {
        let raw_dt = trim_spec(field(rec, cols.idx_time as int));
        match alipay_datetime_spec(raw_dt) {
            None => Err(AlipayErrorV::InvalidDatetime { raw: raw_dt, row: idx + 2 }),
            Some(date) => {
                let raw_amount = field(rec, cols.idx_amount as int);
                if amount_text_spec(raw_amount).len() == 0 || amount is None {
                    Err(AlipayErrorV::InvalidAmount { raw: raw_amount, row: idx + 2 })
                } else {
                    let a = amount->0;
                    let inout = trim_spec(field(rec, cols.idx_inout as int));
                    let item = trim_spec(field(rec, cols.idx_item as int));
                    let counterparty = trim_spec(field(rec, cols.idx_counterparty as int));
                    let category = trim_spec(field(rec, cols.idx_category as int));
                    let (base_type, tag) = base_type_spec(
                        inout,
                        a.sign,
                        status,
                        semantic_blob_spec(item, counterparty, category),
                    );
                    let description = description_spec(
                        item,
                        counterparty,
                        category,
                        tag,
                        note_spec(rec, cols),
                    );
                    let order_no = trim_end_set(
                        trim_spec(field(rec, cols.idx_order as int)),
                        TrimSet::Only('\t'),
                    );
                    let (from, to, ty) = accounts_and_type_spec(account, base_type, a.sign);
                    Ok(
                        Some(
                            txn_v(
                                date,
                                from,
                                to,
                                ty,
                                a.magnitude,
                                currency,
                                description,
                                alipay_txn_id_spec(
                                    account,
                                    date,
                                    a.fixed8,
                                    currency,
                                    description,
                                    order_no,
                                    idx + 1,
                                ),
                            ),
                        ),
                    )
                }
            },
        }
    }
}

/// The first `n` records in order; the first failing one ends the bill.
pub open spec fn records_spec<A>(
    account: Seq<char>,
    currency: Seq<char>,
    only_successful: bool,
    cols: AlipayColumns,
    records: Seq<Option<Seq<Seq<char>>>>,
    amounts: Seq<Option<AmountV<A>>>,
    n: int,
) -> Result<Seq<TransactionV<A>>, AlipayErrorV>
    decreases n,
{
    if n <= 0 {
        Ok(Seq::empty())
    } else {
        match records_spec(account, currency, only_successful, cols, records, amounts, n - 1) {
            Err(e) => Err(e),
            Ok(prev) => match records[n - 1] {
                None => Err(AlipayErrorV::CsvRead { row: (n + 1) as nat }),
                Some(rec) => match record_spec(
                    account,
                    currency,
                    only_successful,
                    cols,
                    rec,
                    amount_at(amounts, n - 1),
                    (n - 1) as nat,
                ) {
                    Err(e) => Err(e),
                    Ok(None) => Ok(prev),
                    Ok(Some(t)) => Ok(prev.push(t)),
                },
            },
        }
    }
}

fn record<A: Copy>(
    parser: &AlipayCsvParser,
    cols: &AlipayColumns,
    rec: &Vec<String>,
    amount: &Option<Amount<A>>,
    idx: usize,
) -> (out: Result<Option<Transaction<A>>, AlipayError>)
    requires
        idx + 2 <= usize::MAX,
    ensures
        match record_spec(
            parser.account_id@,
            parser.currency@,
            parser.only_successful,
            *cols,
            views(rec@),
            match amount {
                Some(a) => Some(a@),
                None => None,
            },
            idx as nat,
        ) {
            Ok(None) => out matches Ok(None),
            Ok(Some(t)) => out matches Ok(Some(x)) && x@ == t,
            Err(e) => out matches Err(x) && x@ == e,
        },
{
    let status = trim(field_exec(rec, cols.idx_status).as_str());
    if should_skip_row(parser, status.as_str()) {
        return Ok(None);
    }
    let raw_dt = trim(field_exec(rec, cols.idx_time).as_str());
    let date = match parse_alipay_datetime(raw_dt.as_str()) {
        Some(d) => d,
        None => {
            return Err(AlipayError::InvalidDatetime { raw: raw_dt, row: idx + 2 });
        },
    };
    let raw_amount = field_exec(rec, cols.idx_amount);
    let cleaned = amount_text(rec, cols);
    if cleaned.unicode_len() == 0 {
        return Err(AlipayError::InvalidAmount { raw: raw_amount, row: idx + 2 });
    }
    let a = match amount {
        Some(a) => a,
        None => {
            return Err(AlipayError::InvalidAmount { raw: raw_amount, row: idx + 2 });
        },
    };
    let inout = trim(field_exec(rec, cols.idx_inout).as_str());
    let item = trim(field_exec(rec, cols.idx_item).as_str());
    let counterparty = trim(field_exec(rec, cols.idx_counterparty).as_str());
    let category = trim(field_exec(rec, cols.idx_category).as_str());
    let blob = semantic_blob(item.as_str(), counterparty.as_str(), category.as_str());
    let (base_type, tag) = infer_base_type_and_semantic_tag(
        inout.as_str(),
        a.sign,
        status.as_str(),
        blob.as_str(),
    );
    let description = field_description(
        rec,
        cols,
        item.as_str(),
        counterparty.as_str(),
        category.as_str(),
        &tag,
    );
    let order_no = trim_end_with(
        trim(field_exec(rec, cols.idx_order).as_str()).as_str(),
        TrimSet::Only('\t'),
    );
    let (from, to, ty) = normalized_accounts_and_type(parser, base_type.as_str(), a.sign);
    let txn_id = make_alipay_txn_id(
        parser.account_id.as_str(),
        &date,
        a.fixed8.as_str(),
        parser.currency.as_str(),
        description.as_str(),
        order_no.as_str(),
        idx + 1,
    );
    Ok(
        Some(
            crate::records::build_transaction_value(
                &date,
                from,
                to,
                ty,
                a.magnitude,
                parser.currency.clone(),
                description,
                txn_id,
            ),
        ),
    )
}

proof fn lemma_records_err_stays<A>(
    account: Seq<char>,
    currency: Seq<char>,
    only_successful: bool,
    cols: AlipayColumns,
    records: Seq<Option<Seq<Seq<char>>>>,
    amounts: Seq<Option<AmountV<A>>>,
    k: int,
    n: int,
)
    requires
        k <= n,
        records_spec(account, currency, only_successful, cols, records, amounts, k) is Err,
    ensures
        records_spec(account, currency, only_successful, cols, records, amounts, n) == records_spec(
            account,
            currency,
            only_successful,
            cols,
            records,
            amounts,
            k,
        ),
    decreases n - k,
{
    if n > k {
        lemma_records_err_stays(account, currency, only_successful, cols, records, amounts, k, n - 1);
    }
}

pub open spec fn amount_views<A>(v: Seq<Option<Amount<A>>>) -> Seq<Option<AmountV<A>>> {
    crate::money::opt_amount_views(v)
}

/// The transactions of a bill's table; `amounts[i]` is the number the
/// caller read from record `i`'s [`amount_text`] (`None` when it does not
/// read as one).
#[verifier::rlimit(50)]
pub fn parse_table<A: Copy>(parser: &AlipayCsvParser, table: &AlipayTable, amounts: &Vec<Option<Amount<A>>>) -> (out:
    Result<Vec<Transaction<A>>, AlipayError>)
    requires
        table.records@.len() + 2 <= usize::MAX,
    ensures
        match records_spec(
            parser.account_id@,
            parser.currency@,
            parser.only_successful,
            table.cols,
            record_views(table.records@),
            amount_views(amounts@),
            table.records@.len() as int,
        ) {
            Ok(ts) => out matches Ok(v) && seq_views(v@) == ts,
            Err(e) => out matches Err(x) && x@ == e,
        },
{
    let ghost recs = record_views(table.records@);
    let ghost am = amount_views(amounts@);
    let mut out: Vec<Transaction<A>> = Vec::new();
    let mut i: usize = 0;
    assert(seq_views(out@) =~= Seq::<TransactionV<A>>::empty());
    while i < table.records.len()
        invariant
            i <= table.records.len(),
            table.records@.len() + 2 <= usize::MAX,
            recs == record_views(table.records@),
            am == amount_views(amounts@),
            records_spec(
                parser.account_id@,
                parser.currency@,
                parser.only_successful,
                table.cols,
                recs,
                am,
                i as int,
            ) == Ok::<Seq<TransactionV<A>>, AlipayErrorV>(seq_views(out@)),
        decreases table.records.len() - i,
    {
        let none: Option<Amount<A>> = None;
        let amount = if i < amounts.len() {
            &amounts[i]
        } else {
            &none
        };
        let step = match &table.records[i] {
            None => Err(AlipayError::CsvRead { row: i + 2 }),
            Some(rec) => record(parser, &table.cols, rec, amount, i),
        };
        match step {
            Ok(None) => {},
            Ok(Some(t)) => {
                let ghost before = seq_views(out@);
                out.push(t);
                assert(seq_views(out@) =~= before.push(t@));
            },
            Err(e) => {
                proof {
                    lemma_records_err_stays(
                        parser.account_id@,
                        parser.currency@,
                        parser.only_successful,
                        table.cols,
                        recs,
                        am,
                        i as int + 1,
                        table.records@.len() as int,
                    );
                }
                return Err(e);
            },
        }
        i = i + 1;
    }
    Ok(out)
}

/// Whether the record is a refund: by its status or by its text.
pub open spec fn is_refund(status: Seq<char>, blob: Seq<char>) -> bool {
    status == "退款成功"@ || contains_spec(blob, "退款"@)
}

/// A refund (退款) or a top-up (充值) brings money into the wallet: it is
/// income, paid by an external payer into the Alipay account. A withdrawal
/// (提现) that is neither takes money out of the wallet: it is an expense,
/// paid from the Alipay account to an external payee. Neither the
/// income/expense column nor the sign of the amount changes that.
pub proof fn lemma_semantic_tags_set_direction(
    inout: Seq<char>,
    sign: Sign,
    status: Seq<char>,
    blob: Seq<char>,
    account: Seq<char>,
)
    requires
        account != "EXTERNAL_PAYEE"@,
        account != "EXTERNAL_PAYER"@,
    ensures
        is_refund(status, blob) ==> base_type_spec(inout, sign, status, blob) == ("income"@, Some(
            "退款"@,
        )),
        !is_refund(status, blob) && contains_spec(blob, "充值"@) ==> base_type_spec(
            inout,
            sign,
            status,
            blob,
        ) == ("income"@, Some("充值"@)),
        !is_refund(status, blob) && !contains_spec(blob, "充值"@) && contains_spec(blob, "提现"@)
            ==> base_type_spec(inout, sign, status, blob) == ("expense"@, Some("提现"@)),
        (is_refund(status, blob) || contains_spec(blob, "充值"@)) ==> accounts_and_type_spec(
            account,
            base_type_spec(inout, sign, status, blob).0,
            sign,
        ) == ("EXTERNAL_PAYER"@, account, "income"@),
        !is_refund(status, blob) && !contains_spec(blob, "充值"@) && contains_spec(blob, "提现"@)
            ==> accounts_and_type_spec(account, base_type_spec(inout, sign, status, blob).0, sign)
            == (account, "EXTERNAL_PAYEE"@, "expense"@),
{
    reveal_strlit("expense");
    reveal_strlit("income");
    reveal_strlit("internal_transfer");
    assert("expense"@.len() != "income"@.len());
    assert("expense"@.len() != "internal_transfer"@.len());
    assert("income"@.len() != "internal_transfer"@.len());
}

/// A collection (收款, 收钱码收款) that is not a refund, top-up or withdrawal
/// is income. A record with none of these words takes its type from the
/// income/expense column (支出 expense, 收入 income) and, where the column
/// says neither, from the sign of the amount; it carries no tag.
pub proof fn lemma_untagged_type_follows_column(
    inout: Seq<char>,
    sign: Sign,
    status: Seq<char>,
    blob: Seq<char>,
)
    ensures
        !is_refund(status, blob) && !contains_spec(blob, "充值"@) && !contains_spec(blob, "提现"@)
            && contains_spec(blob, "收款"@) ==> base_type_spec(inout, sign, status, blob) == (
            "income"@,
            Some("收款"@),
        ),
        ({
            let plain = !is_refund(status, blob) && !contains_spec(blob, "充值"@) && !contains_spec(
                blob,
                "提现"@,
            ) && !contains_spec(blob, "收钱码收款"@) && !contains_spec(blob, "收款"@);
            &&& plain ==> base_type_spec(inout, sign, status, blob).1 is None
            &&& plain && inout == "支出"@ ==> base_type_spec(inout, sign, status, blob).0 == "expense"@
            &&& plain && inout == "收入"@ ==> base_type_spec(inout, sign, status, blob).0 == "income"@
            &&& plain && inout != "支出"@ && inout != "收入"@ && sign.lt_zero() ==> base_type_spec(
                inout,
                sign,
                status,
                blob,
            ).0 == "expense"@
            &&& plain && inout != "支出"@ && inout != "收入"@ && !sign.lt_zero() ==> base_type_spec(
                inout,
                sign,
                status,
                blob,
            ).0 == "income"@
        }),
{
    reveal_strlit("支出");
    reveal_strlit("收入");
    assert("支出"@[0] != "收入"@[0]);
}

/// Expenses leave the wallet for an external payee and income enters it
/// from an external payer, whatever the sign; an internal transfer, or a
/// type that is neither, goes by the sign of the amount.
pub proof fn lemma_accounts_follow_type(account: Seq<char>, txn_type: Seq<char>, sign: Sign)
    requires
        account != "EXTERNAL_PAYEE"@,
        account != "EXTERNAL_PAYER"@,
    ensures
        txn_type == "expense"@ ==> accounts_and_type_spec(account, txn_type, sign) == (
            account,
            "EXTERNAL_PAYEE"@,
            "expense"@,
        ),
        txn_type == "income"@ ==> accounts_and_type_spec(account, txn_type, sign) == (
            "EXTERNAL_PAYER"@,
            account,
            "income"@,
        ),
        txn_type != "expense"@ && txn_type != "income"@ && sign.lt_zero() ==> accounts_and_type_spec(
            account,
            txn_type,
            sign,
        ).0 == account && accounts_and_type_spec(account, txn_type, sign).1 == "EXTERNAL_PAYEE"@,
        txn_type != "expense"@ && txn_type != "income"@ && !sign.lt_zero() ==> accounts_and_type_spec(
            account,
            txn_type,
            sign,
        ).0 == "EXTERNAL_PAYER"@ && accounts_and_type_spec(account, txn_type, sign).1 == account,
{
    reveal_strlit("expense");
    reveal_strlit("income");
    reveal_strlit("internal_transfer");
    assert("expense"@.len() != "income"@.len());
    assert("expense"@.len() != "internal_transfer"@.len());
    assert("income"@.len() != "internal_transfer"@.len());
}

} // verus!
