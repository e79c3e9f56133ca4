//! History records: a URL with a date, a required title and summary, a tag
//! list and an optional origin. Records are assembled through a builder that
//! validates the required fields only when it is consumed, and are written as
//! single CSV rows with two custom field encodings: tags joined by
//! semicolons, and an absent origin carried as the empty string.

use vstd::prelude::*;

use crate::csvio::{csv_row_of, csv_rows_of, csv_encode_row, csv_parse_rows};
use crate::date::{Date, spec_parse_date, spec_date_str, parse_date};
use crate::text::{spec_join, spec_split, spec_trim, is_ws, join_str, split_char, trim,
    lemma_split_join, lemma_trim_all_ws};

verus! {

/// The mathematical content of a finalized record.
pub ghost struct RecordModel {
    pub date: Seq<char>,
    pub url: Seq<char>,
    pub title: Seq<char>,
    pub summary: Seq<char>,
    pub tags: Seq<Seq<char>>,
    pub origin: Option<Seq<char>>,
}

/// The mathematical content of a builder: required fields may still be
/// absent.
pub ghost struct BuilderModel {
    pub url: Seq<char>,
    pub date: Seq<char>,
    pub title: Option<Seq<char>>,
    pub summary: Option<Seq<char>>,
    pub tags: Seq<Seq<char>>,
    pub origin: Option<Seq<char>>,
}

/// What went wrong while building or encoding a record.
pub ghost enum RecordErrorModel {
    MissingTitle,
    MissingSummary,
    Csv(Seq<char>),
    Io(Seq<char>),
}

#[derive(Debug)]
pub enum RecordError {
    /// The builder was consumed without a title.
    MissingTitle,
    /// The builder was consumed without a summary.
    MissingSummary,
    /// The CSV layer rejected a row; the message explains why.
    Csv(String),
    /// A stream could not be read or written; the message explains why.
    Io(String),
}

impl View for RecordError {
    type V = RecordErrorModel;

    open spec fn view(&self) -> RecordErrorModel {
        match self {
            RecordError::MissingTitle => RecordErrorModel::MissingTitle,
            RecordError::MissingSummary => RecordErrorModel::MissingSummary,
            RecordError::Csv(m) => RecordErrorModel::Csv(m@),
            RecordError::Io(m) => RecordErrorModel::Io(m@),
        }
    }
}

impl RecordError {
    /// The human-readable message for this error.
    pub fn message(&self) -> (r: String)
        ensures
            (self@ is MissingTitle ==> r@ == "'title' is a required field"@),
            (self@ is MissingSummary ==> r@ == "'summary' is a required field"@),
            (self@ matches RecordErrorModel::Csv(m) ==> r@ == m),
            (self@ matches RecordErrorModel::Io(m) ==> r@ == m),
    {
        match self {
            RecordError::MissingTitle => {
                let r = "'title' is a required field";
                r.to_owned()
            },
            RecordError::MissingSummary => {
                let r = "'summary' is a required field";
                r.to_owned()
            },
            RecordError::Csv(m) => m.clone(),
            RecordError::Io(m) => m.clone(),
        }
    }
}

/// Tags are joined into one field by semicolons. Embedded semicolons are not
/// escaped: a tag containing one will not survive a round trip.
pub open spec fn spec_encode_tags(tags: Seq<Seq<char>>) -> Seq<char> {
    spec_join(tags, ';')
}

/// The tag field split back into tags.
pub open spec fn spec_decode_tags(s: Seq<char>) -> Seq<Seq<char>> {
    spec_split(s, ';')
}

/// An absent origin is carried as the empty string.
pub open spec fn spec_encode_origin(o: Option<Seq<char>>) -> Seq<char> {
    match o {
        None => Seq::empty(),
        Some(s) => s,
    }
}

/// An empty or all-whitespace origin field decodes back to absent; anything
/// else decodes to its trimmed text.
pub open spec fn spec_decode_origin(s: Seq<char>) -> Option<Seq<char>> {
    if spec_trim(s).len() == 0 {
        None
    } else {
        Some(spec_trim(s))
    }
}

pub fn encode_tags(tags: &Vec<String>) -> (r: String)
    ensures
        r@ == spec_encode_tags(tags.deep_view()),
{
    proof {
        reveal_strlit(";");
        assert(";"@ =~= seq![';']);
    }
    join_str(tags, ";")
}

pub fn decode_tags(s: &str) -> (r: Vec<String>)
    ensures
        r.deep_view() == spec_decode_tags(s@),
{
    split_char(s, ';')
}

pub fn encode_origin(origin: &Option<String>) -> (r: String)
    ensures
        r@ == spec_encode_origin(origin.deep_view()),
{
    match origin {
        Some(s) => s.clone(),
        None => String::new(),
    }
}

pub fn decode_origin(s: &str) -> (r: Option<String>)
    ensures
        r.deep_view() == spec_decode_origin(s@),
{
    let t = trim(s);
    if t.as_str().unicode_len() == 0 {
        None
    } else {
        Some(t)
    }
}

/// A finalized history entry, ready to be encoded as one CSV row.
#[derive(Debug, Clone)]
pub struct Record {
    date: String,
    url: String,
    title: String,
    summary: String,
    tags: Vec<String>,
    origin: Option<String>,
}

impl View for Record {
    type V = RecordModel;

    closed spec fn view(&self) -> RecordModel {
        RecordModel {
            date: self.date@,
            url: self.url@,
            title: self.title@,
            summary: self.summary@,
            tags: self.tags.deep_view(),
            origin: self.origin.deep_view(),
        }
    }
}

impl DeepView for Record {
    type V = RecordModel;

    open spec fn deep_view(&self) -> RecordModel {
        self@
    }
}

/// The six CSV fields of a record, in file order.
pub open spec fn spec_row(m: RecordModel) -> Seq<Seq<char>> {
    seq![
        m.date,
        m.url,
        m.title,
        m.summary,
        spec_encode_tags(m.tags),
        spec_encode_origin(m.origin),
    ]
}

/// The record a six-field row stands for; rows of any other width are
/// rejected by the functions that use this.
pub open spec fn record_of_row(row: Seq<Seq<char>>) -> RecordModel {
    RecordModel {
        date: row[0],
        url: row[1],
        title: row[2],
        summary: row[3],
        tags: spec_decode_tags(row[4]),
        origin: spec_decode_origin(row[5]),
    }
}

fn clone_strings(v: &Vec<String>) -> (r: Vec<String>)
    ensures
        r.deep_view() == v.deep_view(),
{
    let mut r: Vec<String> = Vec::new();
    let mut i: usize = 0;
    while i < v.len()
        invariant
            i <= v.len(),
            r@.len() == i,
            forall|k: int| 0 <= k < i ==> r@[k]@ == v@[k]@,
        decreases v.len() - i,
    {
        let c = v[i].clone();
        r.push(c);
        i = i + 1;
    }
    proof {
        assert(r.deep_view() =~= v.deep_view());
    }
    r
}

fn clone_opt_string(v: &Option<String>) -> (r: Option<String>)
    ensures
        r.deep_view() == v.deep_view(),
{
    match v {
        Some(s) => Some(s.clone()),
        None => None,
    }
}

impl Record {
    /// Start building a record around a URL; the date is set to today.
    pub fn new(url: &str) -> (r: RecordBuilder)
        ensures
            r@ == spec_builder_new(url@, r@.date),
            spec_parse_date(r@.date) is Some,
    {
        RecordBuilder::new(url)
    }

    pub fn url(&self) -> (r: &str)
        ensures
            r@ == self@.url,
    {
        self.url.as_str()
    }

    /// The record's date. The stored text must be a `YYYY-MM-DD` encoding,
    /// which everything the library builds guarantees.
    pub fn date(&self) -> (r: Date)
        requires
            spec_parse_date(self@.date) is Some,
        ensures
            Some(r) == spec_parse_date(self@.date),
    {
        match parse_date(self.date.as_str()) {
            Some(d) => d,
            None => {
                proof {
                    assert(false);
                }
                Date { year: 0, month: 0, day: 0 }
            },
        }
    }

    pub fn title(&self) -> (r: &str)
        ensures
            r@ == self@.title,
    {
        self.title.as_str()
    }

    pub fn summary(&self) -> (r: &str)
        ensures
            r@ == self@.summary,
    {
        self.summary.as_str()
    }

    pub fn tags(&self) -> (r: Vec<String>)
        ensures
            r.deep_view() == self@.tags,
    {
        clone_strings(&self.tags)
    }

    pub fn origin(&self) -> (r: Option<String>)
        ensures
            r.deep_view() == self@.origin,
    {
        clone_opt_string(&self.origin)
    }

    /// The six CSV fields of this record, in file order.
    pub fn to_row(&self) -> (r: Vec<String>)
        ensures
            r.deep_view() == spec_row(self@),
    {
        let mut r: Vec<String> = Vec::new();
        r.push(self.date.clone());
        r.push(self.url.clone());
        r.push(self.title.clone());
        r.push(self.summary.clone());
        r.push(encode_tags(&self.tags));
        r.push(encode_origin(&self.origin));
        proof {
            assert(r.deep_view() =~= spec_row(self@));
        }
        r
    }

    /// Encode this record as one CSV line, tags joined by semicolons and an
    /// absent origin written as the empty string. In-memory encoding always
    /// succeeds.
    pub fn encode(&self) -> (r: Result<String, RecordError>)
        ensures
            r matches Ok(line) && line@ == csv_row_of(spec_row(self@)),
    {
        let row = self.to_row();
        match csv_encode_row(&row) {
            Ok(line) => Ok(line),
            Err(msg) => {
                proof {
                    assert(false);
                }
                Err(RecordError::Csv(msg))
            },
        }
    }

    /// Rebuild a record from one six-field row; any other width is a CSV
    /// error. The decoding is lossy by design: an all-whitespace origin comes
    /// back absent, and tags are split on semicolons.
    pub fn from_row(row: &Vec<String>) -> (r: Result<Record, RecordError>)
        ensures
            (row.deep_view().len() == 6 ==> (r matches Ok(rec) && rec@ == record_of_row(
                row.deep_view(),
            ))),
            (row.deep_view().len() != 6 ==> (r matches Err(e) && e@ is Csv)),
    {
        if row.len() != 6 {
            return Err(RecordError::Csv("expected a row of 6 fields".to_owned()));
        }
        let rec = Record {
            date: row[0].clone(),
            url: row[1].clone(),
            title: row[2].clone(),
            summary: row[3].clone(),
            tags: decode_tags(row[4].as_str()),
            origin: decode_origin(row[5].as_str()),
        };
        Ok(rec)
    }
}

/// Whether every row has the six fields of a record.
pub open spec fn record_rows_ok(rows: Seq<Seq<Seq<char>>>) -> bool {
    forall|i: int| 0 <= i < rows.len() ==> #[trigger] rows[i].len() == 6
}

/// The records of well-formed rows, in file order.
pub open spec fn spec_records_of_rows(rows: Seq<Seq<Seq<char>>>) -> Seq<RecordModel> {
    rows.map_values(|row: Seq<Seq<char>>| record_of_row(row))
}

/// Decode a whole CSV text into records, one per row: every six-field file
/// decodes, and a row of any other width is the one error.
pub fn decode_records(text: &str) -> (r: Result<Vec<Record>, RecordError>)
    ensures
        (r matches Ok(recs) ==> record_rows_ok(csv_rows_of(text@)) && recs.deep_view()
            == spec_records_of_rows(csv_rows_of(text@))),
        (r matches Err(e) ==> e@ is Csv && !record_rows_ok(csv_rows_of(text@))),
{
    let rows = match csv_parse_rows(text) {
        Ok(rows) => rows,
        Err(msg) => {
            proof {
                assert(false);
            }
            return Err(RecordError::Csv(msg));
        },
    };
    let mut recs: Vec<Record> = Vec::new();
    let mut i: usize = 0;
    while i < rows.len()
        invariant
            i <= rows.len(),
            rows.deep_view() == csv_rows_of(text@),
            recs@.len() == i,
            forall|k: int| 0 <= k < i ==> (#[trigger] rows@[k]).deep_view().len() == 6,
            forall|k: int|
                0 <= k < i ==> (#[trigger] recs@[k])@ == record_of_row(rows@[k].deep_view()),
        decreases rows.len() - i,
    {
        match Record::from_row(&rows[i]) {
            Ok(rec) => {
                recs.push(rec);
            },
            Err(e) => {
                proof {
                    assert(rows.deep_view()[i as int] == rows@[i as int].deep_view());
                    assert(csv_rows_of(text@)[i as int].len() != 6);
                }
                return Err(e);
            },
        }
        i = i + 1;
    }
    proof {
        assert(forall|k: int|
            0 <= k < rows@.len() ==> rows.deep_view()[k] == (#[trigger] rows@[k]).deep_view());
        assert(record_rows_ok(csv_rows_of(text@)));
        assert(recs.deep_view() =~= spec_records_of_rows(csv_rows_of(text@)));
    }
    Ok(recs)
}

/// A fresh builder: everything but the URL and the date is absent.
pub open spec fn spec_builder_new(url: Seq<char>, date: Seq<char>) -> BuilderModel {
    BuilderModel { url, date, title: None, summary: None, tags: Seq::empty(), origin: None }
}

pub open spec fn spec_with_title(b: BuilderModel, title: Seq<char>) -> BuilderModel {
    BuilderModel { title: Some(title), ..b }
}

pub open spec fn spec_with_summary(b: BuilderModel, summary: Seq<char>) -> BuilderModel {
    BuilderModel { summary: Some(summary), ..b }
}

/// Finalization: a record when both required fields are present, otherwise
/// the error naming the first absent one.
pub open spec fn spec_build(b: BuilderModel) -> Result<RecordModel, RecordErrorModel> {
    match (b.title, b.summary) {
        (None, _) => Err(RecordErrorModel::MissingTitle),
        (Some(_), None) => Err(RecordErrorModel::MissingSummary),
        (Some(title), Some(summary)) => Ok(
            RecordModel {
                date: b.date,
                url: b.url,
                title: title,
                summary: summary,
                tags: b.tags,
                origin: b.origin,
            },
        ),
    }
}

/// An accumulator for record fields: setters never validate, and validation
/// happens once, when the builder is consumed by `build`.
#[derive(Debug, Clone)]
pub struct RecordBuilder {
    url: String,
    date: String,
    title: Option<String>,
    summary: Option<String>,
    tags: Vec<String>,
    origin: Option<String>,
}

impl View for RecordBuilder {
    type V = BuilderModel;

    closed spec fn view(&self) -> BuilderModel {
        BuilderModel {
            url: self.url@,
            date: self.date@,
            title: self.title.deep_view(),
            summary: self.summary.deep_view(),
            tags: self.tags.deep_view(),
            origin: self.origin.deep_view(),
        }
    }
}

impl DeepView for RecordBuilder {
    type V = BuilderModel;

    open spec fn deep_view(&self) -> BuilderModel {
        self@
    }
}

impl RecordBuilder {
    /// A builder around a URL, dated today, with every other field absent.
    pub fn new(url: &str) -> (r: RecordBuilder)
        ensures
            r@ == spec_builder_new(url@, r@.date),
            spec_parse_date(r@.date) is Some,
    {
        let today = Date::today();
        proof {
            crate::date::lemma_date_round_trip(today);
        }
        let b = RecordBuilder {
            url: url.to_owned(),
            date: today.encode(),
            title: None,
            summary: None,
            tags: Vec::new(),
            origin: None,
        };
        proof {
            assert(b@.tags =~= Seq::<Seq<char>>::empty());
        }
        b
    }

    /// Assemble a builder directly from already-collected parts.
    pub fn assemble(
        url: String,
        date: String,
        title: Option<String>,
        summary: Option<String>,
        tags: Vec<String>,
        origin: Option<String>,
    ) -> (r: RecordBuilder)
        ensures
            r@ == (BuilderModel {
                url: url@,
                date: date@,
                title: title.deep_view(),
                summary: summary.deep_view(),
                tags: tags.deep_view(),
                origin: origin.deep_view(),
            }),
    {
        RecordBuilder { url, date, title, summary, tags, origin }
    }

    pub fn with_date(self, date: Date) -> (r: Self)
        requires
            date.valid(),
        ensures
            r@ == (BuilderModel { date: spec_date_str(date), ..self@ }),
            spec_parse_date(r@.date) == Some(date),
    {
        proof {
            crate::date::lemma_date_round_trip(date);
        }
        RecordBuilder { date: date.encode(), ..self }
    }

    pub fn with_title(self, title: String) -> (r: Self)
        ensures
            r@ == spec_with_title(self@, title@),
    {
        RecordBuilder { title: Some(title), ..self }
    }

    pub fn with_summary(self, summary: String) -> (r: Self)
        ensures
            r@ == spec_with_summary(self@, summary@),
    {
        RecordBuilder { summary: Some(summary), ..self }
    }

    /// Replace the whole tag list.
    pub fn with_tags(self, tags: Vec<String>) -> (r: Self)
        ensures
            r@ == (BuilderModel { tags: tags.deep_view(), ..self@ }),
    {
        RecordBuilder { tags, ..self }
    }

    /// Add one tag at the end.
    pub fn with_tag(self, tag: String) -> (r: Self)
        ensures
            r@ == (BuilderModel { tags: self@.tags.push(tag@), ..self@ }),
    {
        let ghost m = self@;
        let RecordBuilder { url, date, title, summary, mut tags, origin } = self;
        tags.push(tag);
        proof {
            assert(tags.deep_view() =~= m.tags.push(tag@));
        }
        RecordBuilder { url, date, title, summary, tags, origin }
    }

    pub fn with_origin(self, origin: String) -> (r: Self)
        ensures
            r@ == (BuilderModel { origin: Some(origin@), ..self@ }),
    {
        RecordBuilder { origin: Some(origin), ..self }
    }

    pub fn set_origin(&mut self, origin: String)
        ensures
            final(self)@ == (BuilderModel { origin: Some(origin@), ..old(self)@ }),
    {
        self.origin = Some(origin);
    }

    pub fn url(&self) -> (r: &str)
        ensures
            r@ == self@.url,
    {
        self.url.as_str()
    }

    /// The builder's date. The stored text must be a `YYYY-MM-DD` encoding,
    /// which every constructor of this library guarantees.
    pub fn date(&self) -> (r: Date)
        requires
            spec_parse_date(self@.date) is Some,
        ensures
            Some(r) == spec_parse_date(self@.date),
    {
        match parse_date(self.date.as_str()) {
            Some(d) => d,
            None => {
                proof {
                    assert(false);
                }
                Date { year: 0, month: 0, day: 0 }
            },
        }
    }

    /// The stored date text itself.
    pub fn date_str(&self) -> (r: &str)
        ensures
            r@ == self@.date,
    {
        self.date.as_str()
    }

    pub fn title(&self) -> (r: Option<String>)
        ensures
            r.deep_view() == self@.title,
    {
        clone_opt_string(&self.title)
    }

    pub fn summary(&self) -> (r: Option<String>)
        ensures
            r.deep_view() == self@.summary,
    {
        clone_opt_string(&self.summary)
    }

    pub fn tags(&self) -> (r: Vec<String>)
        ensures
            r.deep_view() == self@.tags,
    {
        clone_strings(&self.tags)
    }

    pub fn origin(&self) -> (r: Option<String>)
        ensures
            r.deep_view() == self@.origin,
    {
        clone_opt_string(&self.origin)
    }

    /// Build the record. Consumes the builder; fails exactly when the title
    /// or the summary is still absent, naming the missing field.
    pub fn build(self) -> (r: Result<Record, RecordError>)
        ensures
            (r matches Ok(rec) ==> spec_build(self@) == Ok::<RecordModel, RecordErrorModel>(
                rec@,
            )),
            (r matches Err(e) ==> spec_build(self@) == Err::<RecordModel, RecordErrorModel>(e@)),
    {
        let title = match self.title {
            Some(t) => t,
            None => {
                return Err(RecordError::MissingTitle);
            },
        };
        let summary = match self.summary {
            Some(s) => s,
            None => {
                return Err(RecordError::MissingSummary);
            },
        };
        Ok(
            Record {
                date: self.date,
                url: self.url,
                title,
                summary,
                tags: self.tags,
                origin: self.origin,
            },
        )
    }
}

impl PartialEq for RecordBuilder {
    fn eq(&self, other: &RecordBuilder) -> (r: bool) {
        let tags_eq = string_lists_eq(&self.tags, &other.tags);
        self.url.eq(&other.url) && self.date.eq(&other.date) && opt_strings_eq(
            &self.title,
            &other.title,
        ) && opt_strings_eq(&self.summary, &other.summary) && tags_eq && opt_strings_eq(
            &self.origin,
            &other.origin,
        )
    }
}

impl vstd::std_specs::cmp::PartialEqSpecImpl for RecordBuilder {
    open spec fn obeys_eq_spec() -> bool {
        true
    }

    open spec fn eq_spec(&self, other: &RecordBuilder) -> bool {
        self@ == other@
    }
}

fn opt_strings_eq(a: &Option<String>, b: &Option<String>) -> (r: bool)
    ensures
        r == (a.deep_view() == b.deep_view()),
{
    match (a, b) {
        (None, None) => true,
        (Some(x), Some(y)) => x.eq(y),
        _ => false,
    }
}

fn string_lists_eq(a: &Vec<String>, b: &Vec<String>) -> (r: bool)
    ensures
        r == (a.deep_view() == b.deep_view()),
{
    if a.len() != b.len() {
        proof {
            assert(a.deep_view().len() != b.deep_view().len());
        }
        return false;
    }
    let mut i: usize = 0;
    while i < a.len()
        invariant
            i <= a.len(),
            a.len() == b.len(),
            forall|j: int| 0 <= j < i ==> a@[j]@ == b@[j]@,
        decreases a.len() - i,
    {
        if !a[i].eq(&b[i]) {
            proof {
                assert(a.deep_view()[i as int] == a@[i as int]@);
                assert(b.deep_view()[i as int] == b@[i as int]@);
            }
            return false;
        }
        i = i + 1;
    }
    proof {
        assert(a.deep_view() =~= b.deep_view());
    }
    true
}

/// For every URL, date, title and summary, a fresh builder with the title and
/// the summary set builds, and the record holds exactly the values set.
pub proof fn lemma_build_with_required_fields(
    url: Seq<char>,
    date: Seq<char>,
    title: Seq<char>,
    summary: Seq<char>,
)
    ensures
        spec_build(spec_with_summary(spec_with_title(spec_builder_new(url, date), title), summary))
            == Ok::<RecordModel, RecordErrorModel>(
            RecordModel { date, url, title, summary, tags: Seq::empty(), origin: None },
        ),
{
}

/// Building fails exactly when the title or the summary is absent: with
/// `MissingTitle` when the title is absent, and with `MissingSummary` when
/// only the summary is.
pub proof fn lemma_build_missing_field(b: BuilderModel)
    ensures
        spec_build(b) is Err <==> (b.title is None || b.summary is None),
        (spec_build(b) == Err::<RecordModel, RecordErrorModel>(RecordErrorModel::MissingTitle))
            <==> b.title is None,
        (spec_build(b) == Err::<RecordModel, RecordErrorModel>(RecordErrorModel::MissingSummary))
            <==> (b.title is Some && b.summary is None),
{
}

/// Decoding an encoded non-empty tag list whose tags hold no semicolon gives
/// back the same tags in the same order.
pub proof fn lemma_tags_round_trip(tags: Seq<Seq<char>>)
    requires
        tags.len() > 0,
        forall|i: int| 0 <= i < tags.len() ==> !(#[trigger] tags[i]).contains(';'),
    ensures
        spec_decode_tags(spec_encode_tags(tags)) == tags,
{
    lemma_split_join(tags, ';');
}

/// An absent origin, and any all-whitespace origin, decode back to absent
/// after encoding: the encoding is lossy there by design.
pub proof fn lemma_origin_absent_round_trip(o: Option<Seq<char>>)
    requires
        (o matches Some(s) ==> forall|j: int| 0 <= j < s.len() ==> is_ws(s[j])),
    ensures
        spec_decode_origin(spec_encode_origin(o)) is None,
{
    match o {
        None => {
            lemma_trim_all_ws(Seq::empty());
        },
        Some(s) => {
            lemma_trim_all_ws(s);
        },
    }
}

/// A present, trimmed, non-empty origin survives the round trip unchanged.
pub proof fn lemma_origin_present_round_trip(s: Seq<char>)
    requires
        crate::text::is_trimmed(s),
        s.len() > 0,
    ensures
        spec_decode_origin(spec_encode_origin(Some(s))) == Some(s),
{
    crate::text::lemma_trim_of_trimmed(s);
}

/// A record's encoded row decodes back to the same record, as long as the
/// tag list is non-empty and free of semicolons and the origin, when
/// present, is trimmed and non-empty.
pub proof fn lemma_record_row_round_trip(m: RecordModel)
    requires
        m.tags.len() > 0,
        forall|i: int| 0 <= i < m.tags.len() ==> !(#[trigger] m.tags[i]).contains(';'),
        (m.origin matches Some(o) ==> crate::text::is_trimmed(o) && o.len() > 0),
    ensures
        record_of_row(spec_row(m)) == m,
{
    lemma_tags_round_trip(m.tags);
    match m.origin {
        None => {
            lemma_origin_absent_round_trip(None);
        },
        Some(o) => {
            lemma_origin_present_round_trip(o);
        },
    }
}

} // verus!
