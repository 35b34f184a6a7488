//! Splitting CSV text into records (the csv crate does the splitting).
use vstd::prelude::*;

use crate::text::views;

verus! {

pub open spec fn field_views(r: Seq<String>) -> Seq<Seq<char>> {
    r.map_values(|c: String| c@)
}

pub open spec fn table_views(v: Seq<Vec<String>>) -> Seq<Seq<Seq<char>>> {
    v.map_values(|r: Vec<String>| field_views(r@))
}

/// The records csv reads from `text` with no header row and records of any
/// length, fields untrimmed; `None` when csv reports an error.
pub uninterp spec fn csv_records_loose(text: Seq<char>) -> Option<Seq<Seq<Seq<char>>>>;

/// csv `ReaderBuilder::new().has_headers(false).flexible(true)` then
/// `records()`: names the records it yields (or that it fails), and passes
/// on csv's error message.
#[verifier::external_body]
pub(crate) fn read_records_loose(text: &str) -> (r: Result<Vec<Vec<String>>, String>)
    ensures
        match r {
            Ok(v) => csv_records_loose(text@) == Some(table_views(v@)),
            Err(_) => csv_records_loose(text@) is None,
        },
{
    let mut reader = csv::ReaderBuilder::new().has_headers(false).flexible(true).from_reader(
        text.as_bytes(),
    );
    let mut out: Vec<Vec<String>> = Vec::new();
    for record in reader.records() {
        match record {
            Ok(r) => out.push(r.iter().map(|f| f.to_string()).collect()),
            Err(e) => return Err(e.to_string()),
        }
    }
    Ok(out)
}

/// The records csv reads from `text` split at `delimiter`, every field
/// trimmed, records of any length: the header record (or `None` when csv
/// cannot read it) and each following record (`None` for one csv reports
/// an error for).
pub uninterp spec fn csv_trimmed_table(text: Seq<char>, delimiter: u8) -> Option<
    (Seq<Seq<char>>, Seq<Option<Seq<Seq<char>>>>),
>;

/// csv `ReaderBuilder` with `delimiter`, `Trim::All` and `flexible(true)`,
/// then `headers()` and `records()`: names what they yield.
#[verifier::external_body]
pub(crate) fn read_trimmed_table(text: &str, delimiter: u8) -> (r: Option<(Vec<String>, Vec<Option<Vec<String>>>)>)
    ensures
        match r {
            Some((h, recs)) => csv_trimmed_table(text@, delimiter) == Some(
                (
                    views(h@),
                    recs@.map_values(
                        |o: Option<Vec<String>>|
                            match o {
                                Some(f) => Some(views(f@)),
                                None => None,
                            },
                    ),
                ),
            ),
            None => csv_trimmed_table(text@, delimiter) is None,
        },
{
    let mut reader = csv::ReaderBuilder::new().delimiter(delimiter).trim(csv::Trim::All).flexible(
        true,
    ).from_reader(text.as_bytes());
    let headers: Vec<String> = match reader.headers() {
        Ok(h) => h.iter().map(|f| f.to_string()).collect(),
        Err(_) => return None,
    };
    let records = reader.records().map(|r| r.ok().map(|rec| rec.iter().map(|f| f.to_string()).collect())).collect();
    Some((headers, records))
}

} // verus!
