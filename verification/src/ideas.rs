//! Ideas: free-text notes with a date and an optional ISO-8601 reminder
//! duration, stored as CSV rows under the pinned header
//! `date,reminder,content`. Listing renders fixed-width lines; only the
//! first line of a multi-line note is shown there.

use vstd::prelude::*;

use crate::csvio::{csv_row_of, csv_rows_of, csv_encode_row, csv_parse_rows};
use crate::error::Error;
use crate::text::{spec_find, spec_dec, spec_pad_left, spec_pad_right, find_char, u64_dec,
    pad_left, pad_right, str_eq};

verus! {

/// The mathematical content of one idea.
pub ghost struct IdeaModel {
    pub date: Seq<char>,
    pub reminder: Option<Seq<char>>,
    pub content: Seq<char>,
}

/// A free-text note: its date, an optional reminder duration (for example
/// `P1D`), and the content, which may span several lines.
#[derive(Debug, Clone)]
pub struct Idea {
    date: String,
    reminder: Option<String>,
    content: String,
}

impl View for Idea {
    type V = IdeaModel;

    closed spec fn view(&self) -> IdeaModel {
        IdeaModel { date: self.date@, reminder: self.reminder.deep_view(), content: self.content@ }
    }
}

impl DeepView for Idea {
    type V = IdeaModel;

    open spec fn deep_view(&self) -> IdeaModel {
        self@
    }
}

/// An absent reminder is carried as the empty field.
pub open spec fn spec_encode_reminder(o: Option<Seq<char>>) -> Seq<char> {
    match o {
        None => Seq::empty(),
        Some(s) => s,
    }
}

/// An empty reminder field decodes to absent; anything else is kept as is.
pub open spec fn spec_decode_reminder(s: Seq<char>) -> Option<Seq<char>> {
    if s.len() == 0 {
        None
    } else {
        Some(s)
    }
}

/// The three CSV fields of an idea, in file order.
pub open spec fn spec_idea_row(m: IdeaModel) -> Seq<Seq<char>> {
    seq![m.date, spec_encode_reminder(m.reminder), m.content]
}

/// The idea a three-field row stands for.
pub open spec fn idea_of_row(row: Seq<Seq<char>>) -> IdeaModel {
    IdeaModel { date: row[0], reminder: spec_decode_reminder(row[1]), content: row[2] }
}

/// The canonical header row of an ideas file.
pub open spec fn spec_ideas_header() -> Seq<Seq<char>> {
    seq!["date"@, "reminder"@, "content"@]
}

/// The content up to its first newline; the whole content if it has none.
pub open spec fn spec_first_line(s: Seq<char>) -> Seq<char> {
    let i = spec_find(s, '\n');
    if 0 <= i < s.len() {
        s.take(i)
    } else {
        s
    }
}

pub fn first_line(s: &str) -> (r: &str)
    ensures
        r@ == spec_first_line(s@),
{
    match find_char(s, '\n') {
        Some(i) => {
            let r = s.substring_char(0, i);
            proof {
                assert(r@ =~= spec_first_line(s@));
            }
            r
        },
        None => s,
    }
}

impl Idea {
    pub fn new(date: String, reminder: Option<String>, content: String) -> (r: Idea)
        ensures
            r@ == (IdeaModel {
                date: date@,
                reminder: reminder.deep_view(),
                content: content@,
            }),
    {
        Idea { date, reminder, content }
    }

    pub fn date(&self) -> (r: &str)
        ensures
            r@ == self@.date,
    {
        self.date.as_str()
    }

    pub fn reminder(&self) -> (r: &Option<String>)
        ensures
            r.deep_view() == self@.reminder,
    {
        &self.reminder
    }

    pub fn content(&self) -> (r: &str)
        ensures
            r@ == self@.content,
    {
        self.content.as_str()
    }

    /// The three CSV fields of this idea, in file order.
    pub fn to_row(&self) -> (r: Vec<String>)
        ensures
            r.deep_view() == spec_idea_row(self@),
    {
        let mut r: Vec<String> = Vec::new();
        r.push(self.date.clone());
        match &self.reminder {
            Some(s) => r.push(s.clone()),
            None => r.push(String::new()),
        }
        r.push(self.content.clone());
        proof {
            assert(r.deep_view() =~= spec_idea_row(self@));
        }
        r
    }

    /// Encode this idea as one CSV line, preceded by the header line when
    /// the target file is still empty. In-memory encoding always succeeds.
    pub fn encode(&self, with_header: bool) -> (r: Result<String, Error>)
        ensures
            r matches Ok(line) && line@ == (if with_header {
                csv_row_of(spec_ideas_header()) + csv_row_of(spec_idea_row(self@))
            } else {
                csv_row_of(spec_idea_row(self@))
            }),
    {
        let row = self.to_row();
        let encoded = match csv_encode_row(&row) {
            Ok(line) => line,
            Err(msg) => {
                proof {
                    assert(false);
                }
                return Err(Error::from_string(msg));
            },
        };
        if with_header {
            let header = ideas_header_row();
            let mut r = match csv_encode_row(&header) {
                Ok(line) => line,
                Err(msg) => {
                    proof {
                        assert(false);
                    }
                    return Err(Error::from_string(msg));
                },
            };
            r.append(encoded.as_str());
            Ok(r)
        } else {
            Ok(encoded)
        }
    }

    /// Rebuild an idea from one three-field row; any other width is an
    /// error. An empty reminder field comes back absent.
    pub fn from_row(row: &Vec<String>) -> (r: Result<Idea, Error>)
        ensures
            (row.deep_view().len() == 3 ==> (r matches Ok(idea) && idea@ == idea_of_row(
                row.deep_view(),
            ))),
            (row.deep_view().len() != 3 ==> r is Err),
    {
        if row.len() != 3 {
            return Err(Error::new("expected a row of 3 fields"));
        }
        let reminder = if row[1].as_str().unicode_len() == 0 {
            None
        } else {
            Some(row[1].clone())
        };
        Ok(Idea { date: row[0].clone(), reminder, content: row[2].clone() })
    }

    /// The same idea with its content cut down to its first line.
    pub fn summarized(&self) -> (r: Idea)
        ensures
            r@ == (IdeaModel { content: spec_first_line(self@.content), ..self@ }),
    {
        Idea {
            date: self.date.clone(),
            reminder: clone_opt(&self.reminder),
            content: first_line(self.content.as_str()).to_owned(),
        }
    }
}

fn clone_opt(v: &Option<String>) -> (r: Option<String>)
    ensures
        r.deep_view() == v.deep_view(),
{
    match v {
        Some(s) => Some(s.clone()),
        None => None,
    }
}

fn ideas_header_row() -> (r: Vec<String>)
    ensures
        r.deep_view() == spec_ideas_header(),
{
    let mut r: Vec<String> = Vec::new();
    r.push("date".to_owned());
    r.push("reminder".to_owned());
    r.push("content".to_owned());
    proof {
        assert(r.deep_view() =~= spec_ideas_header());
    }
    r
}

/// An idea's encoded row decodes back to the same idea, as long as the
/// reminder, when present, is non-empty.
pub proof fn lemma_idea_row_round_trip(m: IdeaModel)
    requires
        (m.reminder matches Some(r) ==> r.len() > 0),
    ensures
        idea_of_row(spec_idea_row(m)) == m,
{
}

/// Whether every data row has the three fields of an idea.
pub open spec fn idea_rows_ok(rows: Seq<Seq<Seq<char>>>) -> bool {
    forall|i: int| 1 <= i < rows.len() ==> (#[trigger] rows[i]).len() == 3
}

/// The ideas of the data rows, in file order.
pub open spec fn spec_ideas_of_rows(rows: Seq<Seq<Seq<char>>>) -> Seq<IdeaModel> {
    rows.skip(1).map_values(|row: Seq<Seq<char>>| idea_of_row(row))
}

/// What parsing an ideas file yields: nothing for an empty file, an error
/// unless the header is canonical and every data row has three fields, and
/// otherwise the data rows as ideas, in file order.
pub open spec fn spec_ideas(rows: Seq<Seq<Seq<char>>>) -> Result<Seq<IdeaModel>, ()> {
    if rows.len() == 0 {
        Ok(Seq::empty())
    } else if rows[0] != spec_ideas_header() {
        Err(())
    } else if !idea_rows_ok(rows) {
        Err(())
    } else {
        Ok(spec_ideas_of_rows(rows))
    }
}

fn is_ideas_header(row: &Vec<String>) -> (r: bool)
    ensures
        r == (row.deep_view() == spec_ideas_header()),
{
    let r = row.len() == 3 && str_eq(row[0].as_str(), "date") && str_eq(
        row[1].as_str(),
        "reminder",
    ) && str_eq(row[2].as_str(), "content");
    proof {
        if r {
            assert(row.deep_view() =~~= spec_ideas_header());
        } else {
            if row@.len() == 3 {
                assert(row.deep_view().len() == 3);
                assert(row.deep_view()[0] == row@[0]@ && row.deep_view()[1] == row@[1]@
                    && row.deep_view()[2] == row@[2]@);
            } else {
                assert(row.deep_view().len() == row@.len());
            }
        }
    }
    r
}

/// Parse a whole ideas CSV text, header row first, into the list of ideas:
/// it succeeds exactly on the texts the specification admits.
#[verifier::loop_isolation(false)]
pub fn ideas_from_csv(text: &str) -> (r: Result<Vec<Idea>, Error>)
    ensures
        (r matches Ok(ideas) ==> spec_ideas(csv_rows_of(text@)) == Ok::<Seq<IdeaModel>, ()>(
            ideas.deep_view(),
        )),
        (r is Err <==> spec_ideas(csv_rows_of(text@)) is Err),
{
    let rows = match csv_parse_rows(text) {
        Ok(rows) => rows,
        Err(msg) => {
            proof {
                assert(false);
            }
            return Err(Error::from_string(msg));
        },
    };
    if rows.len() == 0 {
        let ideas: Vec<Idea> = Vec::new();
        proof {
            assert(ideas.deep_view() =~= Seq::<IdeaModel>::empty());
        }
        return Ok(ideas);
    }
    if !is_ideas_header(&rows[0]) {
        proof {
            assert(rows.deep_view()[0] == rows@[0].deep_view());
        }
        return Err(Error::new("expected the header row 'date,reminder,content'"));
    }
    let mut ideas: Vec<Idea> = Vec::new();
    let mut i: usize = 1;
    while i < rows.len()
        invariant
            1 <= i <= rows.len(),
            ideas@.len() == i - 1,
            forall|k: int| 1 <= k < i ==> (#[trigger] rows@[k]).deep_view().len() == 3,
            forall|k: int|
                0 <= k < i - 1 ==> (#[trigger] ideas@[k])@ == idea_of_row(
                    rows@[k + 1].deep_view(),
                ),
        decreases rows.len() - i,
    {
        match Idea::from_row(&rows[i]) {
            Ok(idea) => {
                ideas.push(idea);
            },
            Err(e) => {
                proof {
                    assert(rows.deep_view()[i as int] == rows@[i as int].deep_view());
                    assert(!idea_rows_ok(rows.deep_view()));
                }
                return Err(e);
            },
        }
        i = i + 1;
    }
    proof {
        assert(forall|k: int|
            0 <= k < rows@.len() ==> rows.deep_view()[k] == (#[trigger] rows@[k]).deep_view());
        assert(rows.deep_view()[0] == spec_ideas_header());
        assert(idea_rows_ok(rows.deep_view()));
        assert(ideas.deep_view() =~= spec_ideas_of_rows(rows.deep_view()));
    }
    Ok(ideas)
}

/// The reminder a selection stands for: the three presets, a free-form value
/// for the last choice (empty meaning none), and none for a dismissed
/// selection.
pub open spec fn spec_reminder_choice(choice: Option<int>, custom: Option<Seq<char>>) -> Option<
    Seq<char>,
> {
    match choice {
        None => None,
        Some(idx) => if idx == 0 {
            Some("P1D"@)
        } else if idx == 1 {
            Some("P7D"@)
        } else if idx == 2 {
            Some("PT1H"@)
        } else if idx == 3 {
            match custom {
                None => None,
                Some(v) => if v.len() == 0 {
                    None
                } else {
                    Some(v)
                },
            }
        } else {
            None
        },
    }
}

/// Map a preset selection (and, for the free-form choice, the text the user
/// typed) to the reminder to store.
pub fn reminder_from_selection(choice: Option<usize>, custom: Option<String>) -> (r: Option<
    String,
>)
    ensures
        r.deep_view() == spec_reminder_choice(
            match choice {
                None => None,
                Some(i) => Some(i as int),
            },
            custom.deep_view(),
        ),
{
    match choice {
        None => None,
        Some(0) => Some("P1D".to_owned()),
        Some(1) => Some("P7D".to_owned()),
        Some(2) => Some("PT1H".to_owned()),
        Some(3) => match custom {
            None => None,
            Some(v) => {
                if v.as_str().unicode_len() == 0 {
                    None
                } else {
                    Some(v)
                }
            },
        },
        Some(_) => None,
    }
}

/// One rendered table line: the index right-aligned to three columns, the
/// date and the reminder left-padded to ten, the first content line, and the
/// whole row padded to the terminal width.
pub open spec fn spec_idea_line(idx: nat, m: IdeaModel, width: nat) -> Seq<char> {
    let row = spec_pad_left(spec_dec(idx), 3) + seq![' ', ' '] + spec_pad_right(m.date, 10)
        + seq![' ', ' '] + spec_pad_right(spec_encode_reminder(m.reminder), 10)
        + seq![' ', ' '] + spec_first_line(m.content);
    spec_pad_right(row, width)
}

/// Render one idea as a table line.
pub fn format_idea_line(idx: u64, idea: &Idea, width: usize) -> (r: String)
    ensures
        r@ == spec_idea_line(idx as nat, idea@, width as nat),
{
    let num = u64_dec(idx);
    let mut row = pad_left(num.as_str(), 3);
    row.append("  ");
    row.append(pad_right(idea.date.as_str(), 10).as_str());
    row.append("  ");
    match &idea.reminder {
        Some(s) => row.append(pad_right(s.as_str(), 10).as_str()),
        None => row.append(pad_right("", 10).as_str()),
    }
    row.append("  ");
    row.append(first_line(idea.content.as_str()));
    proof {
        reveal_strlit("  ");
        reveal_strlit("");
        assert(""@ =~= Seq::<char>::empty());
        assert("  "@ =~= seq![' ', ' ']);
    }
    pad_right(row.as_str(), width)
}

/// The table's header line, padded to the terminal width.
pub open spec fn spec_ideas_table_header(width: nat) -> Seq<char> {
    spec_pad_right(
        "###"@ + seq![' ', ' '] + spec_pad_right("date"@, 10) + seq![' ', ' '] + spec_pad_right(
            "reminder"@,
            10,
        ) + seq![' ', ' '] + "content"@,
        width,
    )
}

/// Render the table's header line.
pub fn format_ideas_header(width: usize) -> (r: String)
    ensures
        r@ == spec_ideas_table_header(width as nat),
{
    let mut row = "###".to_owned();
    row.append("  ");
    row.append(pad_right("date", 10).as_str());
    row.append("  ");
    row.append(pad_right("reminder", 10).as_str());
    row.append("  ");
    row.append("content");
    proof {
        reveal_strlit("  ");
        assert("  "@ =~= seq![' ', ' ']);
    }
    pad_right(row.as_str(), width)
}

} // verus!
