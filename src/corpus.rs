//! The corpus: recipes read from CSV text.
//!
//! The first CSV row is a header and never a recipe. Each later row gives a
//! recipe's title in its first field and its method in its second. The CSV
//! reader rejects a row whose number of fields differs from the header's (it
//! then counts as malformed); where the header itself has more than two
//! fields, the fields past the second are ignored. Loading fails fast: the first row that the CSV
//! reader rejects, or that has fewer than two fields, fails the whole load, so
//! no partial corpus is ever used.
use vstd::prelude::*;

verus! {

/// One corpus entry: `title` labels it, `method` is the searchable text.
pub struct Recipe {
    pub title: String,
    pub method: String,
}

/// Why a corpus could not be loaded.
#[derive(Clone, Copy, Debug, PartialEq, Eq, Structural)]
pub enum LoadError {
    /// The resource could not be fetched.
    Unreachable,
    /// The resource was fetched but is not text.
    NotText,
    /// The CSV reader rejected the record at this row (counted from the first row after the header).
    MalformedRow(usize),
    /// The record at this row has fewer than two fields.
    MissingField(usize),
    /// The corpus has more rows than the index can number.
    TooLarge,
}

/// A decoded CSV record: `None` where the reader rejected it, else its fields.
pub type RecordView = Option<Seq<Seq<char>>>;

/// What csv's reader yields for `text`, one entry per record after the header.
pub uninterp spec fn csv_records(text: Seq<char>) -> Seq<RecordView>;

pub open spec fn record_view(r: Option<Vec<String>>) -> RecordView {
    match r {
        Some(fields) => Some(fields@.map_values(|f: String| f@)),
        None => None,
    }
}

pub open spec fn records_view(rs: Seq<Option<Vec<String>>>) -> Seq<RecordView> {
    rs.map_values(|r: Option<Vec<String>>| record_view(r))
}

/// Relies on csv's `Reader::from_reader` with default settings and its
/// `records` iterator: the first row is taken as the header, and each later
/// record comes out in order, as its fields or as an error.
#[verifier::external_body]
fn read_csv_records(text: &str) -> (r: Vec<Option<Vec<String>>>)
    ensures
        records_view(r@) == csv_records(text@),
{
    let mut reader = csv::Reader::from_reader(text.as_bytes());
    reader.records().map(|rec| rec.ok().map(|fields| fields.iter().map(|f| f.to_string()).collect())).collect()
}

/// A record that makes a recipe.
pub open spec fn usable(r: RecordView) -> bool {
    r is Some && r->0.len() >= 2
}

/// The error for an unusable record at `row`.
pub open spec fn row_error(r: RecordView, row: nat) -> LoadError {
    if r is None {
        LoadError::MalformedRow(row as usize)
    } else {
        LoadError::MissingField(row as usize)
    }
}

/// `c` holds the recipes that the records give, in order.
pub open spec fn recipes_of(c: Seq<Recipe>, recs: Seq<RecordView>) -> bool {
    &&& c.len() == recs.len()
    &&& forall|i: int| 0 <= i < c.len() ==> {
        &&& (#[trigger] c[i]).title@ == recs[i]->0[0]
        &&& c[i].method@ == recs[i]->0[1]
    }
}

/// The outcome of loading a corpus from `recs`: the recipes if every record is
/// usable and their number fits in `u32`; else the error of the first unusable
/// record; else `TooLarge`.
pub open spec fn load_outcome(r: Result<Seq<Recipe>, LoadError>, recs: Seq<RecordView>) -> bool {
    match r {
        Ok(c) => (forall|i: int| 0 <= i < recs.len() ==> usable(#[trigger] recs[i]))
            && recs.len() <= u32::MAX && recipes_of(c, recs),
        Err(LoadError::TooLarge) => (forall|i: int| 0 <= i < recs.len() ==> usable(#[trigger] recs[i]))
            && recs.len() > u32::MAX,
        Err(e) => exists|row: int| {
            &&& 0 <= row < recs.len()
            &&& !usable(#[trigger] recs[row])
            &&& (forall|i: int| 0 <= i < row ==> usable(#[trigger] recs[i]))
            &&& e == row_error(recs[row], row as nat)
        },
    }
}

pub open spec fn result_view(r: Result<Vec<Recipe>, LoadError>) -> Result<Seq<Recipe>, LoadError> {
    match r {
        Ok(c) => Ok(c@),
        Err(e) => Err(e),
    }
}

/// Turns decoded CSV records into recipes, failing on the first unusable one.
pub fn corpus_from_records(records: &Vec<Option<Vec<String>>>) -> (r: Result<Vec<Recipe>, LoadError>)
    ensures
        load_outcome(result_view(r), records_view(records@)),
{
    let ghost recs = records_view(records@);
    let mut out: Vec<Recipe> = Vec::new();
    let mut i: usize = 0;
    while i < records.len()
        invariant
            recs == records_view(records@),
            0 <= i <= records@.len(),
            forall|j: int| 0 <= j < i ==> usable(#[trigger] recs[j]),
            recipes_of(out@, recs.take(i as int)),
        decreases records@.len() - i,
    {
        assert(recs[i as int] == record_view(records@[i as int]));
        match &records[i] {
            None => {
                assert(!usable(recs[i as int]));
                return Err(LoadError::MalformedRow(i));
            },
            Some(fields) => {
                if fields.len() < 2 {
                    assert(!usable(recs[i as int]));
                    return Err(LoadError::MissingField(i));
                }
                let recipe = Recipe { title: fields[0].clone(), method: fields[1].clone() };
                out.push(recipe);
                assert forall|j: int| 0 <= j < out@.len() implies {
                    &&& (#[trigger] out@[j]).title@ == recs.take(i + 1)[j]->0[0]
                    &&& out@[j].method@ == recs.take(i + 1)[j]->0[1]
                } by {
                    if j < i {
                        assert(recs.take(i as int)[j] == recs.take(i + 1)[j]);
                    }
                }
            },
        }
        i = i + 1;
    }
    assert(recs.take(i as int) =~= recs);
    if records.len() > 4294967295 {
        return Err(LoadError::TooLarge);
    }
    Ok(out)
}

/// Reads the corpus from CSV text.
pub fn parse_corpus(text: &str) -> (r: Result<Vec<Recipe>, LoadError>)
    ensures
        load_outcome(result_view(r), csv_records(text@)),
{
    let records = read_csv_records(text);
    corpus_from_records(&records)
}

} // verus!
