//! Reference sources: a small read-only CSV list (id, type, url, comment)
//! used to offer choices for a record's origin. The file must carry the
//! canonical header and four fields per row.

use vstd::prelude::*;

use crate::csvio::{csv_rows_of, csv_parse_rows};
use crate::text::str_eq;

verus! {

/// The mathematical content of one source entry.
pub ghost struct SourceModel {
    pub id: Seq<char>,
    pub type_: Seq<char>,
    pub url: Seq<char>,
    pub comment: Seq<char>,
}

/// One reference source, loaded fresh from the sources file per invocation
/// and never written back.
#[derive(Debug, Clone)]
pub struct Source {
    id: String,
    type_: String,
    url: String,
    comment: String,
}

impl View for Source {
    type V = SourceModel;

    closed spec fn view(&self) -> SourceModel {
        SourceModel { id: self.id@, type_: self.type_@, url: self.url@, comment: self.comment@ }
    }
}

impl DeepView for Source {
    type V = SourceModel;

    open spec fn deep_view(&self) -> SourceModel {
        self@
    }
}

impl Source {
    pub fn id(&self) -> (r: &str)
        ensures
            r@ == self@.id,
    {
        self.id.as_str()
    }

    pub fn type_(&self) -> (r: &str)
        ensures
            r@ == self@.type_,
    {
        self.type_.as_str()
    }

    pub fn url(&self) -> (r: &str)
        ensures
            r@ == self@.url,
    {
        self.url.as_str()
    }
}

/// An error while reading the source list, carrying its message.
#[derive(Debug, Clone)]
pub struct SourceError(String);

impl View for SourceError {
    type V = Seq<char>;

    closed spec fn view(&self) -> Seq<char> {
        self.0@
    }
}

impl SourceError {
    pub fn new(msg: &str) -> (r: Self)
        ensures
            r@ == msg@,
    {
        SourceError(msg.to_owned())
    }

    /// The message this error carries.
    pub fn message(&self) -> (r: &str)
        ensures
            r@ == self@,
    {
        self.0.as_str()
    }
}

impl PartialEq for SourceError {
    fn eq(&self, other: &SourceError) -> (r: bool) {
        self.0.eq(&other.0)
    }
}

impl vstd::std_specs::cmp::PartialEqSpecImpl for SourceError {
    open spec fn obeys_eq_spec() -> bool {
        true
    }

    open spec fn eq_spec(&self, other: &SourceError) -> bool {
        self@ == other@
    }
}

/// The canonical header row of a sources file.
pub open spec fn spec_sources_header() -> Seq<Seq<char>> {
    seq!["id"@, "type"@, "url"@, "comment"@]
}

/// The source a four-field data row stands for.
pub open spec fn source_of_row(row: Seq<Seq<char>>) -> SourceModel {
    SourceModel { id: row[0], type_: row[1], url: row[2], comment: row[3] }
}

/// Whether every data row (everything after the header) has four fields.
pub open spec fn source_rows_ok(rows: Seq<Seq<Seq<char>>>) -> bool {
    forall|i: int| 1 <= i < rows.len() ==> (#[trigger] rows[i]).len() == 4
}

/// The sources of the data rows, in file order.
pub open spec fn spec_sources_of_rows(rows: Seq<Seq<Seq<char>>>) -> Seq<SourceModel> {
    rows.skip(1).map_values(|row: Seq<Seq<char>>| source_of_row(row))
}

/// What parsing a sources file yields: nothing for an empty file, an error
/// unless the header is canonical and every data row has four fields, and
/// otherwise the data rows as sources, in file order.
pub open spec fn spec_sources(rows: Seq<Seq<Seq<char>>>) -> Result<Seq<SourceModel>, ()> {
    if rows.len() == 0 {
        Ok(Seq::empty())
    } else if rows[0] != spec_sources_header() {
        Err(())
    } else if !source_rows_ok(rows) {
        Err(())
    } else {
        Ok(spec_sources_of_rows(rows))
    }
}

fn is_header_row(row: &Vec<String>) -> (r: bool)
    ensures
        r == (row.deep_view() == spec_sources_header()),
{
    let r = row.len() == 4 && str_eq(row[0].as_str(), "id") && str_eq(row[1].as_str(), "type")
        && str_eq(row[2].as_str(), "url") && str_eq(row[3].as_str(), "comment");
    proof {
        if r {
            assert(row.deep_view() =~~= spec_sources_header());
        } else {
            if row@.len() == 4 {
                assert(row.deep_view().len() == 4);
                assert(row.deep_view()[0] == row@[0]@ && row.deep_view()[1] == row@[1]@
                    && row.deep_view()[2] == row@[2]@ && row.deep_view()[3] == row@[3]@);
            } else {
                assert(row.deep_view().len() == row@.len());
            }
        }
    }
    r
}

/// Turn already-split CSV rows into sources: the first row must be the
/// canonical header, and every data row must have exactly four fields.
pub fn sources_from_rows(rows: &Vec<Vec<String>>) -> (r: Result<Vec<Source>, SourceError>)
    ensures
        (r matches Ok(ss) ==> spec_sources(rows.deep_view()) == Ok::<Seq<SourceModel>, ()>(
            ss.deep_view(),
        )),
        (r matches Err(_) ==> spec_sources(rows.deep_view()) is Err),
{
    if rows.len() == 0 {
        let ss: Vec<Source> = Vec::new();
        proof {
            assert(ss.deep_view() =~= Seq::<SourceModel>::empty());
        }
        return Ok(ss);
    }
    if !is_header_row(&rows[0]) {
        proof {
            assert(rows.deep_view()[0] == rows@[0].deep_view());
        }
        return Err(SourceError::new("expected the header row 'id,type,url,comment'"));
    }
    let mut ss: Vec<Source> = Vec::new();
    let mut i: usize = 1;
    while i < rows.len()
        invariant
            1 <= i <= rows.len(),
            ss@.len() == i - 1,
            forall|k: int| 1 <= k < i ==> (#[trigger] rows@[k]).deep_view().len() == 4,
            forall|k: int|
                0 <= k < i - 1 ==> (#[trigger] ss@[k])@ == source_of_row(rows@[k + 1].deep_view()),
        decreases rows.len() - i,
    {
        let row = &rows[i];
        if row.len() != 4 {
            proof {
                assert(rows.deep_view()[i as int] == rows@[i as int].deep_view());
                assert(rows@[i as int].deep_view().len() == row@.len());
            }
            return Err(SourceError::new("expected a row of 4 fields"));
        }
        let s = Source {
            id: row[0].clone(),
            type_: row[1].clone(),
            url: row[2].clone(),
            comment: row[3].clone(),
        };
        ss.push(s);
        i = i + 1;
    }
    proof {
        assert(forall|k: int|
            0 <= k < rows@.len() ==> rows.deep_view()[k] == (#[trigger] rows@[k]).deep_view());
        assert(rows.deep_view()[0] == spec_sources_header());
        assert(source_rows_ok(rows.deep_view()));
        assert(ss.deep_view() =~= spec_sources_of_rows(rows.deep_view()));
    }
    Ok(ss)
}

/// Parse a whole sources CSV text, header row first, into the source list:
/// it succeeds exactly on the texts the specification admits.
pub fn from_reader(input: &str) -> (r: Result<Vec<Source>, SourceError>)
    ensures
        (r matches Ok(ss) ==> spec_sources(csv_rows_of(input@)) == Ok::<Seq<SourceModel>, ()>(
            ss.deep_view(),
        )),
        (r is Err <==> spec_sources(csv_rows_of(input@)) is Err),
{
    match csv_parse_rows(input) {
        Ok(rows) => sources_from_rows(&rows),
        Err(msg) => {
            proof {
                assert(false);
            }
            Err(SourceError::new(msg.as_str()))
        },
    }
}

/// A sources file with the canonical header and N well-formed data rows
/// parses to exactly N sources, in file order, each carrying its row's
/// fields.
pub proof fn lemma_sources_count_and_order(rows: Seq<Seq<Seq<char>>>)
    requires
        rows.len() > 0,
        rows[0] == spec_sources_header(),
        forall|i: int| 1 <= i < rows.len() ==> (#[trigger] rows[i]).len() == 4,
    ensures
        spec_sources(rows) matches Ok(ss) && ss.len() == rows.len() - 1 && (forall|i: int|
            0 <= i < rows.len() - 1 ==> ss[i] == source_of_row(#[trigger] rows[i + 1])),
{
    let ss = spec_sources_of_rows(rows);
    assert(ss.len() == rows.len() - 1);
    assert(forall|i: int| 0 <= i < rows.len() - 1 ==> ss[i] == source_of_row(#[trigger] rows[i
        + 1]));
}

/// One data row of any width other than four makes the parse fail.
pub proof fn lemma_sources_malformed_row(rows: Seq<Seq<Seq<char>>>, i: int)
    requires
        1 <= i < rows.len(),
        rows[i].len() != 4,
    ensures
        spec_sources(rows) is Err,
{
}

} // verus!
