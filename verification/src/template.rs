//! The human-editable template form of a record builder: a small TOML-like
//! text of `key = "value"` lines plus a `tags = [..]` list, one field per
//! line. A builder is serialized to this form, handed to an external editor,
//! and the edited text is parsed back into a builder. The grammar is small:
//! quoted strings, lists of quoted strings, blank lines, `#` comments (a
//! whole line, or trailing after a value or header), and bracketed table
//! headers (which the template ignores and the manifest uses). Inside quotes
//! a backslash escapes the four characters that would break a line or a list
//! apart: `\\` for a backslash, `\q` for a double quote, `\n` for a
//! newline and `\c` for a comma. `template_safe` names the builders whose
//! round trip is proved: every field survives, with the one documented loss
//! that optional fields come back trimmed, or absent when all-whitespace.

use vstd::prelude::*;

use crate::error::Error;
use crate::history::{BuilderModel, RecordBuilder, spec_decode_origin, decode_origin};
use crate::text::{spec_find, spec_split, spec_trim, spec_join, is_trimmed, is_ws, find_char,
    split_char, trim, str_eq, contains_char, join_str, lemma_split_join, lemma_trim_of_trimmed,
    lemma_find_at};

verus! {

/// A parsed line value: a quoted string or a list of quoted strings.
pub enum TemplateValue {
    Str(String),
    List(Vec<String>),
}

/// The mathematical content of a line value.
pub ghost enum ValueModel {
    Str(Seq<char>),
    List(Seq<Seq<char>>),
}

impl View for TemplateValue {
    type V = ValueModel;

    open spec fn view(&self) -> ValueModel {
        match self {
            TemplateValue::Str(s) => ValueModel::Str(s@),
            TemplateValue::List(l) => ValueModel::List(l.deep_view()),
        }
    }
}

/// One line of a template or manifest text.
pub enum TemplateItem {
    /// A line holding nothing but whitespace.
    Blank,
    /// A bracketed table header such as `[activity]`.
    Header(String),
    /// A `key = value` assignment.
    Pair(String, TemplateValue),
}

/// The mathematical content of one line.
pub ghost enum ItemModel {
    Blank,
    Header(Seq<char>),
    Pair(Seq<char>, ValueModel),
}

impl View for TemplateItem {
    type V = ItemModel;

    open spec fn view(&self) -> ItemModel {
        match self {
            TemplateItem::Blank => ItemModel::Blank,
            TemplateItem::Header(h) => ItemModel::Header(h@),
            TemplateItem::Pair(k, v) => ItemModel::Pair(k@, v@),
        }
    }
}

/// The characters a quoted value cannot carry bare: the backslash itself,
/// the quote that would close the value, the newline that would split the
/// line, and the comma that would split a list.
pub open spec fn spec_special(c: char) -> bool {
    c == '\\' || c == '"' || c == '\n' || c == ','
}

/// The escape code for one character: `\\`, `\q`, `\n` and `\c` for the four
/// special characters, the character itself for every other.
pub open spec fn spec_enc(c: char) -> Seq<char> {
    if c == '\\' {
        seq!['\\', '\\']
    } else if c == '"' {
        seq!['\\', 'q']
    } else if c == '\n' {
        seq!['\\', 'n']
    } else if c == ',' {
        seq!['\\', 'c']
    } else {
        seq![c]
    }
}

/// A value escaped for a quoted position: the escaped text carries no bare
/// quote, newline or comma.
pub open spec fn spec_escape(v: Seq<char>) -> Seq<char>
    decreases v.len(),
{
    if v.len() == 0 {
        Seq::empty()
    } else {
        spec_enc(v[0]) + spec_escape(v.drop_first())
    }
}

/// The character an escape code stands for, or nothing for an unknown code.
pub open spec fn spec_code(c: char) -> Option<char> {
    if c == '\\' {
        Some('\\')
    } else if c == 'q' {
        Some('"')
    } else if c == 'n' {
        Some('\n')
    } else if c == 'c' {
        Some(',')
    } else {
        None
    }
}

/// A quoted value unescaped: a backslash starts a code, an unknown code or a
/// trailing lone backslash is an error, everything else stands for itself.
pub open spec fn spec_unescape(s: Seq<char>) -> Result<Seq<char>, ()>
    decreases s.len(),
{
    if s.len() == 0 {
        Ok(Seq::empty())
    } else if s[0] == '\\' {
        if s.len() < 2 {
            Err(())
        } else {
            match spec_code(s[1]) {
                Some(c) => match spec_unescape(s.skip(2)) {
                    Ok(rest) => Ok(seq![c] + rest),
                    Err(()) => Err(()),
                },
                None => Err(()),
            }
        }
    } else {
        match spec_unescape(s.drop_first()) {
            Ok(rest) => Ok(seq![s[0]] + rest),
            Err(()) => Err(()),
        }
    }
}

/// The content of a quoted piece: the unescaped text between the outer
/// quotes, if the piece (after trimming) is `"..."` with no embedded bare
/// quote.
pub open spec fn spec_unquote(piece: Seq<char>) -> Result<Seq<char>, ()> {
    let p = spec_trim(piece);
    if p.len() >= 2 && p[0] == '"' && p.last() == '"' && !p.subrange(1, p.len() - 1).contains(
        '"',
    ) {
        spec_unescape(p.subrange(1, p.len() - 1))
    } else {
        Err(())
    }
}

proof fn lemma_escape_append(a: Seq<char>, b: Seq<char>)
    ensures
        spec_escape(a + b) == spec_escape(a) + spec_escape(b),
    decreases a.len(),
{
    if a.len() == 0 {
        assert(a + b =~= b);
        assert(spec_escape(a) + spec_escape(b) =~= spec_escape(b));
    } else {
        assert((a + b).drop_first() =~= a.drop_first() + b);
        lemma_escape_append(a.drop_first(), b);
        assert(spec_enc(a[0]) + (spec_escape(a.drop_first()) + spec_escape(b)) =~= (spec_enc(a[0])
            + spec_escape(a.drop_first())) + spec_escape(b));
    }
}

/// Escaping text without special characters changes nothing.
proof fn lemma_escape_clean_id(s: Seq<char>)
    requires
        forall|j: int| 0 <= j < s.len() ==> !spec_special(s[j]),
    ensures
        spec_escape(s) == s,
    decreases s.len(),
{
    if s.len() > 0 {
        assert(forall|j: int| 0 <= j < s.drop_first().len() ==> !spec_special(s.drop_first()[j]));
        lemma_escape_clean_id(s.drop_first());
        assert(spec_escape(s) =~= s);
    }
}

/// Escaped text carries no bare quote, newline or comma.
proof fn lemma_escape_clean(v: Seq<char>)
    ensures
        !spec_escape(v).contains('"'),
        !spec_escape(v).contains('\n'),
        !spec_escape(v).contains(','),
    decreases v.len(),
{
    if v.len() == 0 {
    } else {
        lemma_escape_clean(v.drop_first());
        let e = spec_enc(v[0]);
        assert(!e.contains('"') && !e.contains('\n') && !e.contains(','));
        lemma_concat_clean(e, spec_escape(v.drop_first()), '"');
        lemma_concat_clean(e, spec_escape(v.drop_first()), '\n');
        lemma_concat_clean(e, spec_escape(v.drop_first()), ',');
    }
}

/// Unescaping undoes escaping, on every value.
proof fn lemma_unescape_escape(v: Seq<char>)
    ensures
        spec_unescape(spec_escape(v)) == Ok::<Seq<char>, ()>(v),
    decreases v.len(),
{
    if v.len() == 0 {
        assert(spec_escape(v) =~= Seq::<char>::empty());
        assert(v =~= Seq::<char>::empty());
    } else {
        lemma_unescape_escape(v.drop_first());
        let e = spec_escape(v);
        let rest = spec_escape(v.drop_first());
        if spec_special(v[0]) {
            assert(e == spec_enc(v[0]) + rest);
            assert(e.len() >= 2 && e[0] == '\\');
            assert(spec_code(e[1]) == Some(v[0]));
            assert(e.skip(2) =~= rest);
            assert(seq![v[0]] + v.drop_first() =~= v);
        } else {
            assert(e[0] == v[0] && v[0] != '\\');
            assert(e.drop_first() =~= rest);
            assert(seq![v[0]] + v.drop_first() =~= v);
        }
    }
}

/// Unescaping walks over a backslash-free prefix unchanged.
proof fn lemma_unescape_clean_prefix(s: Seq<char>, k: int)
    requires
        0 <= k <= s.len(),
        forall|j: int| 0 <= j < k ==> s[j] != '\\',
    ensures
        spec_unescape(s) is Ok <==> spec_unescape(s.skip(k)) is Ok,
        (spec_unescape(s) matches Ok(w) ==> (spec_unescape(s.skip(k)) matches Ok(rest) && w
            == s.take(k) + rest)),
    decreases k,
{
    if k == 0 {
        assert(s.skip(0) =~= s);
        if spec_unescape(s) is Ok {
            let w = spec_unescape(s)->Ok_0;
            assert(s.take(0) + w =~= w);
        }
    } else {
        assert(forall|j: int| 0 <= j < k - 1 ==> s.drop_first()[j] != '\\');
        lemma_unescape_clean_prefix(s.drop_first(), k - 1);
        assert(s.drop_first().skip(k - 1) =~= s.skip(k));
        if spec_unescape(s) is Ok {
            let w = spec_unescape(s)->Ok_0;
            assert(spec_unescape(s.drop_first()) is Ok);
            let w2 = spec_unescape(s.drop_first())->Ok_0;
            assert(w == seq![s[0]] + w2);
            assert(spec_unescape(s.skip(k)) is Ok);
            let rest = spec_unescape(s.skip(k))->Ok_0;
            assert(w2 == s.drop_first().take(k - 1) + rest);
            assert(seq![s[0]] + (s.drop_first().take(k - 1) + rest) =~= s.take(k) + rest);
        }
    }
}

fn is_special(c: char) -> (r: bool)
    ensures
        r == spec_special(c),
{
    c == '\\' || c == '"' || c == '\n' || c == ','
}

/// Escape a value for a quoted position in the template.
fn escape_value(v: &str) -> (r: String)
    ensures
        r@ == spec_escape(v@),
{
    let n = v.unicode_len();
    let mut r = String::new();
    let mut start: usize = 0;
    let mut i: usize = 0;
    while i < n
        invariant
            start <= i <= n,
            n == v@.len(),
            r@ == spec_escape(v@.take(start as int)),
            forall|j: int| start <= j < i ==> !spec_special(v@[j]),
        decreases n - i,
    {
        let c = v.get_char(i);
        if is_special(c) {
            r.append(v.substring_char(start, i));
            proof {
                assert(v@.take(i as int) =~= v@.take(start as int) + v@.subrange(
                    start as int,
                    i as int,
                ));
                lemma_escape_append(v@.take(start as int), v@.subrange(start as int, i as int));
                lemma_escape_clean_id(v@.subrange(start as int, i as int));
            }
            if c == '\\' {
                r.append("\\\\");
            } else if c == '"' {
                r.append("\\q");
            } else if c == '\n' {
                r.append("\\n");
            } else {
                r.append("\\c");
            }
            proof {
                reveal_strlit("\\\\");
                reveal_strlit("\\q");
                reveal_strlit("\\n");
                reveal_strlit("\\c");
                assert(v@.take(i + 1) =~= v@.take(i as int) + seq![v@[i as int]]);
                lemma_escape_append(v@.take(i as int), seq![v@[i as int]]);
                assert(seq![v@[i as int]].drop_first() =~= Seq::<char>::empty());
                assert(spec_escape(Seq::<char>::empty()) =~= Seq::<char>::empty());
                assert(spec_escape(seq![v@[i as int]]) =~= spec_enc(v@[i as int]));
                assert(r@ =~= spec_escape(v@.take(i + 1)));
            }
            start = i + 1;
        }
        i = i + 1;
    }
    r.append(v.substring_char(start, n));
    proof {
        assert(v@.take(n as int) =~= v@.take(start as int) + v@.subrange(start as int, n as int));
        lemma_escape_append(v@.take(start as int), v@.subrange(start as int, n as int));
        lemma_escape_clean_id(v@.subrange(start as int, n as int));
        assert(v@.take(n as int) =~= v@);
    }
    r
}

/// Unescape the content of a quoted value.
fn unescape_value(s: &str) -> (r: Result<String, ()>)
    ensures
        (r matches Ok(w) ==> spec_unescape(s@) == Ok::<Seq<char>, ()>(w@)),
        (r is Err ==> spec_unescape(s@) is Err),
{
    let n = s.unicode_len();
    let mut out = String::new();
    let mut i: usize = 0;
    proof {
        assert(s@.skip(0) =~= s@);
        if spec_unescape(s@) is Ok {
            let w = spec_unescape(s@)->Ok_0;
            assert(out@ + w =~= w);
        }
    }
    while i < n
        invariant
            i <= n,
            n == s@.len(),
            spec_unescape(s@) is Ok <==> spec_unescape(s@.skip(i as int)) is Ok,
            (spec_unescape(s@) matches Ok(w) ==> (spec_unescape(s@.skip(i as int)) matches Ok(
                rest,
            ) && w == out@ + rest)),
        decreases n - i,
    {
        let tail = s.substring_char(i, n);
        match find_char(tail, '\\') {
            None => {
                out.append(tail);
                proof {
                    assert(tail@ =~= s@.skip(i as int));
                    let m = s@.skip(i as int).len() as int;
                    lemma_unescape_clean_prefix(s@.skip(i as int), m);
                    assert(s@.skip(i as int).skip(m) =~= Seq::<char>::empty());
                    assert(s@.skip(i as int).take(m) =~= s@.skip(i as int));
                    assert(s@.skip(n as int) =~= Seq::<char>::empty());
                }
                i = n;
            },
            Some(k) => {
                out.append(s.substring_char(i, i + k));
                proof {
                    assert(tail@ =~= s@.skip(i as int));
                    lemma_unescape_clean_prefix(s@.skip(i as int), k as int);
                    assert(s@.skip(i as int).skip(k as int) =~= s@.skip(i + k));
                    assert(s@.skip(i as int).take(k as int) =~= s@.subrange(i as int, i + k));
                    assert(s@[i + k] == '\\');
                }
                if i + k + 1 >= n {
                    proof {
                        assert(s@.skip(i + k).len() == 1);
                        assert(s@.skip(i + k)[0] == '\\');
                    }
                    return Err(());
                }
                let c = s.get_char(i + k + 1);
                proof {
                    assert(s@.skip(i + k)[0] == '\\');
                    assert(s@.skip(i + k)[1] == s@[i + k + 1]);
                    assert(s@.skip(i + k).skip(2) =~= s@.skip(i + k + 2));
                }
                if c == '\\' {
                    out.append("\\");
                    proof {
                        reveal_strlit("\\");
                    }
                } else if c == 'q' {
                    out.append("\"");
                    proof {
                        reveal_strlit("\"");
                    }
                } else if c == 'n' {
                    out.append("\n");
                    proof {
                        reveal_strlit("\n");
                    }
                } else if c == 'c' {
                    out.append(",");
                    proof {
                        reveal_strlit(",");
                    }
                } else {
                    proof {
                        assert(spec_code(s@.skip(i + k)[1]) is None);
                    }
                    return Err(());
                }
                proof {
                    if spec_unescape(s@) is Ok {
                        let w = spec_unescape(s@)->Ok_0;
                        assert(spec_unescape(s@.skip(i + k + 2)) is Ok);
                        let r2 = spec_unescape(s@.skip(i + k + 2))->Ok_0;
                        assert(w == out@ + r2);
                    }
                }
                i = i + k + 2;
            },
        }
    }
    proof {
        assert(s@.skip(n as int) =~= Seq::<char>::empty());
    }
    Ok(out)
}

/// The contents of a comma-separated sequence of quoted pieces; an error as
/// soon as one piece is not a quoted string.
pub open spec fn spec_parse_list(pieces: Seq<Seq<char>>) -> Result<Seq<Seq<char>>, ()>
    decreases pieces.len(),
{
    if pieces.len() == 0 {
        Ok(Seq::empty())
    } else {
        match spec_unquote(pieces[0]) {
            Ok(content) => match spec_parse_list(pieces.drop_first()) {
                Ok(rest) => Ok(seq![content] + rest),
                Err(()) => Err(()),
            },
            Err(()) => Err(()),
        }
    }
}

/// A trimmed right-hand side parsed as a value: `"..."` is a string (what
/// follows its closing quote may only be whitespace or a `#` comment),
/// `[..]` is a list of quoted strings, anything else is an error.
pub open spec fn spec_parse_value(raw: Seq<char>) -> Result<ValueModel, ()> {
    if raw.len() >= 1 && raw[0] == '"' {
        let close = spec_find(raw.skip(1), '"');
        if close < 0 {
            Err(())
        } else {
            let content = raw.subrange(1, 1 + close);
            let after = spec_trim(raw.skip(close + 2));
            if after.len() == 0 || after[0] == '#' {
                match spec_unescape(content) {
                    Ok(v) => Ok(ValueModel::Str(v)),
                    Err(()) => Err(()),
                }
            } else {
                Err(())
            }
        }
    } else if raw.len() >= 2 && raw[0] == '[' && raw.last() == ']' {
        let inner = raw.subrange(1, raw.len() - 1);
        if spec_trim(inner).len() == 0 {
            Ok(ValueModel::List(Seq::empty()))
        } else {
            match spec_parse_list(spec_split(inner, ',')) {
                Ok(items) => Ok(ValueModel::List(items)),
                Err(()) => Err(()),
            }
        }
    } else {
        Err(())
    }
}

/// One line parsed: blank (a `#` comment counts as blank), a `[header]`
/// (followed at most by a `#` comment), or a `key = value` pair with both
/// sides trimmed.
pub open spec fn spec_parse_line(line: Seq<char>) -> Result<ItemModel, ()> {
    let t = spec_trim(line);
    if t.len() == 0 || t[0] == '#' {
        Ok(ItemModel::Blank)
    } else if t[0] == '[' {
        let close = spec_find(t, ']');
        if close < 0 {
            Err(())
        } else {
            let after = spec_trim(t.skip(close + 1));
            if after.len() == 0 || after[0] == '#' {
                Ok(ItemModel::Header(spec_trim(t.subrange(1, close))))
            } else {
                Err(())
            }
        }
    } else {
        let i = spec_find(t, '=');
        if 0 <= i < t.len() {
            let key = spec_trim(t.take(i));
            match spec_parse_value(spec_trim(t.skip(i + 1))) {
                Ok(v) => Ok(ItemModel::Pair(key, v)),
                Err(()) => Err(()),
            }
        } else {
            Err(())
        }
    }
}

/// Unquote one piece of a list.
fn unquote(piece: &str) -> (r: Result<String, ()>)
    ensures
        (r matches Ok(c) ==> spec_unquote(piece@) == Ok::<Seq<char>, ()>(c@)),
        (r is Err ==> spec_unquote(piece@) is Err),
{
    let p = trim(piece);
    let n = p.as_str().unicode_len();
    if n >= 2 && p.as_str().get_char(0) == '"' && p.as_str().get_char(n - 1) == '"' {
        let content = p.as_str().substring_char(1, n - 1);
        if contains_char(content, '"') {
            Err(())
        } else {
            unescape_value(content)
        }
    } else {
        Err(())
    }
}

/// Parse a trimmed right-hand side as a value.
#[verifier::loop_isolation(false)]
fn parse_value(raw: &str) -> (r: Result<TemplateValue, ()>)
    ensures
        (r matches Ok(v) ==> spec_parse_value(raw@) == Ok::<ValueModel, ()>(v@)),
        (r is Err ==> spec_parse_value(raw@) is Err),
{
    let n = raw.unicode_len();
    if n >= 1 && raw.get_char(0) == '"' {
        proof {
            assert(raw@.subrange(1, n as int) =~= raw@.skip(1));
        }
        match find_char(raw.substring_char(1, n), '"') {
            None => Err(()),
            Some(close) => {
                let content = raw.substring_char(1, 1 + close);
                let after = trim(raw.substring_char(close + 2, n));
                proof {
                    assert(raw@.subrange(1, 1 + close as int) =~= raw@.subrange(1, n as int)
                        .subrange(0, close as int));
                    assert(raw@.subrange(close + 2, n as int) =~= raw@.skip(close + 2));
                }
                let an = after.as_str().unicode_len();
                if an == 0 || after.as_str().get_char(0) == '#' {
                    match unescape_value(content) {
                        Ok(w) => Ok(TemplateValue::Str(w)),
                        Err(()) => Err(()),
                    }
                } else {
                    Err(())
                }
            },
        }
    } else if n >= 2 && raw.get_char(0) == '[' && raw.get_char(n - 1) == ']' {
        let inner = raw.substring_char(1, n - 1);
        let t = trim(inner);
        if t.as_str().unicode_len() == 0 {
            let items: Vec<String> = Vec::new();
            proof {
                assert(items.deep_view() =~= Seq::<Seq<char>>::empty());
            }
            Ok(TemplateValue::List(items))
        } else {
            let pieces = split_char(inner, ',');
            let mut items: Vec<String> = Vec::new();
            let mut i: usize = 0;
            let ghost pdv = pieces.deep_view();
            while i < pieces.len()
                invariant
                    i <= pieces.len(),
                    pdv == pieces.deep_view(),
                    pieces@.len() == pdv.len(),
                    (forall|k: int| 0 <= k < i ==> spec_unquote(#[trigger] pdv[k]) is Ok),
                    items@.len() == i,
                    forall|k: int|
                        0 <= k < i ==> (#[trigger] items@[k])@ == spec_unquote(pdv[k])->Ok_0,
                decreases pieces.len() - i,
            {
                match unquote(pieces[i].as_str()) {
                    Ok(content) => {
                        items.push(content);
                    },
                    Err(()) => {
                        proof {
                            assert(pieces@[i as int]@ == pdv[i as int]);
                            lemma_parse_list_err(pdv, i as int);
                        }
                        return Err(());
                    },
                }
                i = i + 1;
            }
            proof {
                lemma_parse_list_all_ok(pdv, items.deep_view());
                assert(spec_parse_value(raw@) == Ok::<ValueModel, ()>(
                    ValueModel::List(items.deep_view()),
                ));
            }
            Ok(TemplateValue::List(items))
        }
    } else {
        Err(())
    }
}

/// If one piece fails to unquote, the whole list parse fails.
proof fn lemma_parse_list_err(pieces: Seq<Seq<char>>, i: int)
    requires
        0 <= i < pieces.len(),
        spec_unquote(pieces[i]) is Err,
    ensures
        spec_parse_list(pieces) is Err,
    decreases pieces.len(),
{
    if i > 0 {
        assert(pieces.drop_first()[i - 1] == pieces[i]);
        lemma_parse_list_err(pieces.drop_first(), i - 1);
    }
}

/// If every piece unquotes, the list parse succeeds with exactly those
/// contents.
proof fn lemma_parse_list_all_ok(pieces: Seq<Seq<char>>, contents: Seq<Seq<char>>)
    requires
        contents.len() == pieces.len(),
        forall|k: int| 0 <= k < pieces.len() ==> spec_unquote(#[trigger] pieces[k]) is Ok,
        forall|k: int|
            0 <= k < pieces.len() ==> #[trigger] contents[k] == spec_unquote(pieces[k])->Ok_0,
    ensures
        spec_parse_list(pieces) == Ok::<Seq<Seq<char>>, ()>(contents),
    decreases pieces.len(),
{
    if pieces.len() > 0 {
        assert(forall|k: int|
            0 <= k < pieces.drop_first().len() ==> #[trigger] pieces.drop_first()[k] == pieces[k
                + 1]);
        assert(forall|k: int|
            0 <= k < contents.drop_first().len() ==> #[trigger] contents.drop_first()[k]
                == contents[k + 1]);
        lemma_parse_list_all_ok(pieces.drop_first(), contents.drop_first());
        assert(contents[0] == spec_unquote(pieces[0])->Ok_0);
        assert(seq![contents[0]] + contents.drop_first() =~~= contents);
    } else {
        assert(contents =~~= Seq::<Seq<char>>::empty());
    }
}

/// Parse one line of a template or manifest.
pub fn parse_line(line: &str) -> (r: Result<TemplateItem, ()>)
    ensures
        (r matches Ok(it) ==> spec_parse_line(line@) == Ok::<ItemModel, ()>(it@)),
        (r is Err ==> spec_parse_line(line@) is Err),
{
    let t = trim(line);
    let n = t.as_str().unicode_len();
    if n == 0 || t.as_str().get_char(0) == '#' {
        return Ok(TemplateItem::Blank);
    }
    if t.as_str().get_char(0) == '[' {
        match find_char(t.as_str(), ']') {
            None => {
                return Err(());
            },
            Some(close) => {
                let name = trim(t.as_str().substring_char(1, close));
                let after = trim(t.as_str().substring_char(close + 1, n));
                proof {
                    assert(t@.subrange(close + 1, n as int) =~= t@.skip(close + 1));
                }
                let an = after.as_str().unicode_len();
                if an == 0 || after.as_str().get_char(0) == '#' {
                    return Ok(TemplateItem::Header(name));
                }
                return Err(());
            },
        }
    }
    match find_char(t.as_str(), '=') {
        Some(i) => {
            let key = trim(t.as_str().substring_char(0, i));
            let raw = trim(t.as_str().substring_char(i + 1, n));
            proof {
                assert(t@.take(i as int) =~= t@.subrange(0, i as int));
                assert(t@.skip(i + 1) =~= t@.subrange(i + 1, n as int));
            }
            match parse_value(raw.as_str()) {
                Ok(v) => Ok(TemplateItem::Pair(key, v)),
                Err(()) => Err(()),
            }
        },
        None => Err(()),
    }
}

/// The fields collected while folding template lines, before the optional
/// fields are normalised.
pub ghost struct FoldModel {
    pub url: Option<Seq<char>>,
    pub date: Option<Seq<char>>,
    pub title: Option<Seq<char>>,
    pub summary: Option<Seq<char>>,
    pub tags: Option<Seq<Seq<char>>>,
    pub origin: Option<Seq<char>>,
}

pub open spec fn spec_fold_init() -> FoldModel {
    FoldModel { url: None, date: None, title: None, summary: None, tags: None, origin: None }
}

/// One parsed line applied to the collected fields: a known key replaces its
/// field (a later line wins over an earlier one), a value of the wrong shape
/// is an error, and an unknown key, a header or a blank line changes nothing.
pub open spec fn spec_apply(st: FoldModel, item: ItemModel) -> Result<FoldModel, ()> {
    match item {
        ItemModel::Blank => Ok(st),
        ItemModel::Header(_) => Ok(st),
        ItemModel::Pair(k, v) => if k == "url"@ {
            match v {
                ValueModel::Str(s) => Ok(FoldModel { url: Some(s), ..st }),
                ValueModel::List(_) => Err(()),
            }
        } else if k == "date"@ {
            match v {
                ValueModel::Str(s) => Ok(FoldModel { date: Some(s), ..st }),
                ValueModel::List(_) => Err(()),
            }
        } else if k == "title"@ {
            match v {
                ValueModel::Str(s) => Ok(FoldModel { title: Some(s), ..st }),
                ValueModel::List(_) => Err(()),
            }
        } else if k == "summary"@ {
            match v {
                ValueModel::Str(s) => Ok(FoldModel { summary: Some(s), ..st }),
                ValueModel::List(_) => Err(()),
            }
        } else if k == "origin"@ {
            match v {
                ValueModel::Str(s) => Ok(FoldModel { origin: Some(s), ..st }),
                ValueModel::List(_) => Err(()),
            }
        } else if k == "tags"@ {
            match v {
                ValueModel::List(l) => Ok(FoldModel { tags: Some(l), ..st }),
                ValueModel::Str(_) => Err(()),
            }
        } else {
            Ok(st)
        },
    }
}

/// The lines folded in order over the collected fields.
pub open spec fn spec_fold(st: FoldModel, lines: Seq<Seq<char>>) -> Result<FoldModel, ()>
    decreases lines.len(),
{
    if lines.len() == 0 {
        Ok(st)
    } else {
        match spec_parse_line(lines[0]) {
            Ok(item) => match spec_apply(st, item) {
                Ok(st2) => spec_fold(st2, lines.drop_first()),
                Err(()) => Err(()),
            },
            Err(()) => Err(()),
        }
    }
}

/// An optional field normalised the way an origin field decodes: trimmed,
/// with an empty result meaning absent.
pub open spec fn spec_norm_opt(v: Option<Seq<char>>) -> Option<Seq<char>> {
    match v {
        None => None,
        Some(s) => spec_decode_origin(s),
    }
}

/// What parsing a template text yields: an error if any line is malformed or
/// if `url`, `date` or `tags` is missing; otherwise the builder those lines
/// describe, the last assignment to a key winning and the optional fields
/// normalised.
pub open spec fn spec_parse_template(text: Seq<char>) -> Result<BuilderModel, ()> {
    match spec_fold(spec_fold_init(), spec_split(text, '\n')) {
        Ok(st) => match (st.url, st.date, st.tags) {
            (Some(url), Some(date), Some(tags)) => Ok(
                BuilderModel {
                    url,
                    date,
                    title: spec_norm_opt(st.title),
                    summary: spec_norm_opt(st.summary),
                    tags,
                    origin: spec_norm_opt(st.origin),
                },
            ),
            _ => Err(()),
        },
        Err(()) => Err(()),
    }
}

/// Parse an edited template text back into a builder.
#[verifier::loop_isolation(false)]
pub fn deserialize(text: &str) -> (r: Result<RecordBuilder, Error>)
    ensures
        (r matches Ok(b) ==> spec_parse_template(text@) == Ok::<BuilderModel, ()>(b@)),
        (r is Err ==> spec_parse_template(text@) is Err),
{
    let lines = split_char(text, '\n');
    let ghost ldv = lines.deep_view();
    let mut url: Option<String> = None;
    let mut date: Option<String> = None;
    let mut title: Option<String> = None;
    let mut summary: Option<String> = None;
    let mut tags: Option<Vec<String>> = None;
    let mut origin: Option<String> = None;
    let ghost mut st = spec_fold_init();
    let mut i: usize = 0;
    proof {
        assert(ldv.skip(0) =~~= ldv);
    }
    while i < lines.len()
        invariant
            i <= lines.len(),
            spec_fold(spec_fold_init(), ldv) == spec_fold(st, ldv.skip(i as int)),
            st.url == url.deep_view(),
            st.date == date.deep_view(),
            st.title == title.deep_view(),
            st.summary == summary.deep_view(),
            st.tags == tags.deep_view(),
            st.origin == origin.deep_view(),
        decreases lines.len() - i,
    {
        proof {
            assert(ldv.skip(i as int)[0] == ldv[i as int]);
            assert(lines@[i as int]@ == ldv[i as int]);
            assert(ldv.skip(i as int).drop_first() =~~= ldv.skip(i + 1));
        }
        let item = match parse_line(lines[i].as_str()) {
            Ok(item) => item,
            Err(()) => {
                return Err(Error::new("parse: malformed template line"));
            },
        };
        match item {
            TemplateItem::Blank => {},
            TemplateItem::Header(_) => {},
            TemplateItem::Pair(k, v) => {
                if str_eq(k.as_str(), "url") {
                    match v {
                        TemplateValue::Str(s) => {
                            url = Some(s);
                        },
                        TemplateValue::List(_) => {
                            return Err(Error::new("parse: 'url' must be a string"));
                        },
                    }
                } else if str_eq(k.as_str(), "date") {
                    match v {
                        TemplateValue::Str(s) => {
                            date = Some(s);
                        },
                        TemplateValue::List(_) => {
                            return Err(Error::new("parse: 'date' must be a string"));
                        },
                    }
                } else if str_eq(k.as_str(), "title") {
                    match v {
                        TemplateValue::Str(s) => {
                            title = Some(s);
                        },
                        TemplateValue::List(_) => {
                            return Err(Error::new("parse: 'title' must be a string"));
                        },
                    }
                } else if str_eq(k.as_str(), "summary") {
                    match v {
                        TemplateValue::Str(s) => {
                            summary = Some(s);
                        },
                        TemplateValue::List(_) => {
                            return Err(Error::new("parse: 'summary' must be a string"));
                        },
                    }
                } else if str_eq(k.as_str(), "origin") {
                    match v {
                        TemplateValue::Str(s) => {
                            origin = Some(s);
                        },
                        TemplateValue::List(_) => {
                            return Err(Error::new("parse: 'origin' must be a string"));
                        },
                    }
                } else if str_eq(k.as_str(), "tags") {
                    match v {
                        TemplateValue::List(l) => {
                            tags = Some(l);
                        },
                        TemplateValue::Str(_) => {
                            return Err(Error::new("parse: 'tags' must be a list"));
                        },
                    }
                }
            },
        }
        proof {
            st = spec_apply(st, item@)->Ok_0;
        }
        i = i + 1;
    }
    proof {
        assert(ldv.skip(lines@.len() as int) =~~= Seq::<Seq<char>>::empty());
        assert(spec_fold(spec_fold_init(), ldv) == Ok::<FoldModel, ()>(st));
    }
    let u = match url {
        Some(u) => u,
        None => {
            return Err(Error::new("parse: the template must set 'url'"));
        },
    };
    let d = match date {
        Some(d) => d,
        None => {
            return Err(Error::new("parse: the template must set 'date'"));
        },
    };
    let t = match tags {
        Some(t) => t,
        None => {
            return Err(Error::new("parse: the template must set 'tags'"));
        },
    };
    let title_n = match title {
        Some(v) => decode_origin(v.as_str()),
        None => None,
    };
    let summary_n = match summary {
        Some(v) => decode_origin(v.as_str()),
        None => None,
    };
    let origin_n = match origin {
        Some(v) => decode_origin(v.as_str()),
        None => None,
    };
    Ok(RecordBuilder::assemble(u, d, title_n, summary_n, t, origin_n))
}

/// `v` escaped and put between double quotes.
pub open spec fn spec_quote(v: Seq<char>) -> Seq<char> {
    seq!['"'] + spec_escape(v) + seq!['"']
}

/// One `key = "value"` line.
pub open spec fn spec_pair_line(k: Seq<char>, v: Seq<char>) -> Seq<char> {
    k + seq![' ', '=', ' '] + spec_quote(v)
}

/// The `tags = [..]` line: the tags quoted and joined by commas.
pub open spec fn spec_tags_line(tags: Seq<Seq<char>>) -> Seq<char> {
    "tags"@ + seq![' ', '=', ' ', '['] + spec_join(
        tags.map_values(|t: Seq<char>| spec_quote(t)),
        ',',
    ) + seq![']']
}

/// Zero or one line for an optional field: absent fields are left out.
pub open spec fn spec_opt_line(key: Seq<char>, v: Option<Seq<char>>) -> Seq<Seq<char>> {
    match v {
        None => Seq::empty(),
        Some(s) => seq![spec_pair_line(key, s)],
    }
}

/// The template's lines, in field order.
pub open spec fn spec_template_lines(b: BuilderModel) -> Seq<Seq<char>> {
    seq![spec_pair_line("url"@, b.url), spec_pair_line("date"@, b.date)] + spec_opt_line(
        "title"@,
        b.title,
    ) + spec_opt_line("summary"@, b.summary) + seq![spec_tags_line(b.tags)] + spec_opt_line(
        "origin"@,
        b.origin,
    )
}

/// The whole template text: the lines joined by newlines, with a final
/// newline.
pub open spec fn spec_template(b: BuilderModel) -> Seq<char> {
    spec_join(spec_template_lines(b).push(Seq::empty()), '\n')
}

fn pair_line(key: &str, v: &str) -> (r: String)
    ensures
        r@ == spec_pair_line(key@, v@),
{
    let mut r = key.to_owned();
    r.append(" = \"");
    r.append(escape_value(v).as_str());
    r.append("\"");
    proof {
        reveal_strlit(" = \"");
        reveal_strlit("\"");
        assert(r@ =~= spec_pair_line(key@, v@));
    }
    r
}

fn tags_line(tags: &Vec<String>) -> (r: String)
    ensures
        r@ == spec_tags_line(tags.deep_view()),
{
    let mut quoted: Vec<String> = Vec::new();
    let mut i: usize = 0;
    while i < tags.len()
        invariant
            i <= tags.len(),
            quoted@.len() == i,
            forall|k: int|
                0 <= k < i ==> (#[trigger] quoted@[k])@ == spec_quote(tags@[k]@),
        decreases tags.len() - i,
    {
        let mut q = "\"".to_owned();
        q.append(escape_value(tags[i].as_str()).as_str());
        q.append("\"");
        proof {
            reveal_strlit("\"");
            assert(q@ =~= spec_quote(tags@[i as int]@));
        }
        quoted.push(q);
        i = i + 1;
    }
    proof {
        reveal_strlit(",");
        assert(","@ =~= seq![',']);
        assert(quoted.deep_view() =~~= tags.deep_view().map_values(
            |t: Seq<char>| spec_quote(t),
        ));
    }
    let inner = join_str(&quoted, ",");
    let mut r = "tags = [".to_owned();
    r.append(inner.as_str());
    r.append("]");
    proof {
        reveal_strlit("tags = [");
        reveal_strlit("]");
        reveal_strlit("tags");
        assert(r@ =~= spec_tags_line(tags.deep_view()));
    }
    r
}

/// Write a builder in its template form, one field per line, absent fields
/// left out, and the backslash escapes applied inside every quoted value.
pub fn serialize(b: &RecordBuilder) -> (r: String)
    ensures
        r@ == spec_template(b@),
{
    let mut lines: Vec<String> = Vec::new();
    lines.push(pair_line("url", b.url()));
    lines.push(pair_line("date", b.date_str()));
    match b.title() {
        Some(t) => {
            lines.push(pair_line("title", t.as_str()));
        },
        None => {},
    }
    match b.summary() {
        Some(s) => {
            lines.push(pair_line("summary", s.as_str()));
        },
        None => {},
    }
    let tags = b.tags();
    lines.push(tags_line(&tags));
    match b.origin() {
        Some(o) => {
            lines.push(pair_line("origin", o.as_str()));
        },
        None => {},
    }
    proof {
        assert(lines.deep_view() =~~= spec_template_lines(b@));
    }
    proof {
        reveal_strlit("\n");
        assert("\n"@ =~= seq!['\n']);
    }
    let mut r = join_str(&lines, "\n");
    r.append("\n");
    proof {
        crate::text::lemma_join_snoc(spec_template_lines(b@), Seq::empty(), '\n');
        assert(spec_template_lines(b@).len() > 0);
        assert(r@ =~= spec_template(b@));
    }
    r
}

proof fn lemma_concat_clean(a: Seq<char>, b: Seq<char>, c: char)
    requires
        !a.contains(c),
        !b.contains(c),
    ensures
        !(a + b).contains(c),
{
    assert forall|j: int| 0 <= j < (a + b).len() implies (a + b)[j] != c by {
        if j < a.len() {
            assert((a + b)[j] == a[j]);
        } else {
            assert((a + b)[j] == b[j - a.len()]);
        }
    }
}

proof fn lemma_join_clean(parts: Seq<Seq<char>>, sep: char, c: char)
    requires
        c != sep,
        forall|i: int| 0 <= i < parts.len() ==> !(#[trigger] parts[i]).contains(c),
    ensures
        !spec_join(parts, sep).contains(c),
    decreases parts.len(),
{
    if parts.len() > 1 {
        lemma_join_clean(parts.drop_first(), sep, c);
        assert(!seq![sep].contains(c));
        lemma_concat_clean(parts[0], seq![sep], c);
        lemma_concat_clean(parts[0] + seq![sep], spec_join(parts.drop_first(), sep), c);
    }
}

proof fn lemma_pair_line_clean(k: Seq<char>, v: Seq<char>, c: char)
    requires
        c != ' ' && c != '=' && c != '"',
        !k.contains(c),
        !spec_escape(v).contains(c),
    ensures
        !spec_pair_line(k, v).contains(c),
{
    assert(!seq![' ', '=', ' '].contains(c));
    assert(!seq!['"'].contains(c));
    lemma_concat_clean(seq!['"'], spec_escape(v), c);
    lemma_concat_clean(seq!['"'] + spec_escape(v), seq!['"'], c);
    lemma_concat_clean(k, seq![' ', '=', ' '], c);
    lemma_concat_clean(k + seq![' ', '=', ' '], spec_quote(v), c);
}

/// The escaping keeps a tags line on one line, whatever the tags hold.
proof fn lemma_tags_line_clean(tags: Seq<Seq<char>>)
    ensures
        !spec_tags_line(tags).contains('\n'),
{
    reveal_strlit("tags");
    let c = '\n';
    let quoted = tags.map_values(|t: Seq<char>| spec_quote(t));
    assert forall|i: int| 0 <= i < quoted.len() implies !(#[trigger] quoted[i]).contains(c) by {
        assert(!seq!['"'].contains(c));
        lemma_escape_clean(tags[i]);
        lemma_concat_clean(seq!['"'], spec_escape(tags[i]), c);
        lemma_concat_clean(seq!['"'] + spec_escape(tags[i]), seq!['"'], c);
        assert(quoted[i] == spec_quote(tags[i]));
    }
    lemma_join_clean(quoted, ',', c);
    assert(!"tags"@.contains(c));
    assert(!seq![' ', '=', ' ', '['].contains(c));
    assert(!seq![']'].contains(c));
    lemma_concat_clean("tags"@, seq![' ', '=', ' ', '['], c);
    lemma_concat_clean("tags"@ + seq![' ', '=', ' ', '['], spec_join(quoted, ','), c);
    lemma_concat_clean("tags"@ + seq![' ', '=', ' ', '['] + spec_join(quoted, ','), seq![']'], c);
}

proof fn lemma_trim_key_space(k: Seq<char>)
    requires
        k.len() > 0,
        is_trimmed(k),
    ensures
        spec_trim(k + seq![' ']) == k,
{
    let s = k + seq![' '];
    assert(s[0] == k[0]);
    assert(crate::text::spec_trim_start(s) == s);
    assert(s.last() == ' ' && is_ws(' '));
    assert(s.drop_last() =~= k);
    assert(crate::text::spec_trim_end(s) == crate::text::spec_trim_end(k));
    assert(crate::text::spec_trim_end(k) == k);
}

proof fn lemma_trim_space_quoted(q: Seq<char>)
    requires
        q.len() > 0,
        !is_ws(q[0]),
        !is_ws(q.last()),
    ensures
        spec_trim(seq![' '] + q) == q,
{
    let s = seq![' '] + q;
    assert(is_ws(s[0]));
    assert(s.drop_first() =~= q);
    assert(crate::text::spec_trim_start(s) == crate::text::spec_trim_start(q));
    assert(crate::text::spec_trim_start(q) == q);
    assert(crate::text::spec_trim_end(q) == q);
}

/// A `key = "value"` line parses back to its key and its exact value.
proof fn lemma_parse_pair_line(k: Seq<char>, v: Seq<char>)
    requires
        k.len() > 0,
        is_trimmed(k),
        !k.contains('='),
        k[0] != '[',
        k[0] != '#',
    ensures
        spec_parse_line(spec_pair_line(k, v)) == Ok::<ItemModel, ()>(
            ItemModel::Pair(k, ValueModel::Str(v)),
        ),
{
    let line = spec_pair_line(k, v);
    let e = spec_escape(v);
    let q = spec_quote(v);
    lemma_escape_clean(v);
    assert(line == k + seq![' ', '=', ' '] + q);
    assert(line[0] == k[0]);
    assert(line.last() == q.last());
    assert(q.last() == '"');
    assert(is_trimmed(line));
    lemma_trim_of_trimmed(line);
    let t = line;
    assert(t.len() > 0 && t[0] != '[');
    let ki = k.len() as int;
    assert(forall|j: int| 0 <= j < ki ==> t[j] == k[j]);
    assert(t[ki] == ' ' && t[ki + 1] == '=');
    assert(forall|j: int| 0 <= j < ki + 1 ==> t[j] != '=');
    lemma_find_at(t, '=', ki + 1);
    assert(t.take(ki + 1) =~= k + seq![' ']);
    lemma_trim_key_space(k);
    assert(t.skip(ki + 2) =~= seq![' '] + q);
    assert(q[0] == '"' && !is_ws(q[0]) && !is_ws(q.last()));
    lemma_trim_space_quoted(q);
    // The closing quote is the first quote after the opening one, since the
    // escaped content carries none.
    assert(q.skip(1) =~= e + seq!['"']);
    assert(forall|j: int| 0 <= j < e.len() ==> q.skip(1)[j] != '"');
    assert(q.skip(1)[e.len() as int] == '"');
    lemma_find_at(q.skip(1), '"', e.len() as int);
    assert(q.subrange(1, 1 + e.len() as int) =~= e);
    assert(q.skip(e.len() as int + 2) =~= Seq::<char>::empty());
    assert(crate::text::spec_trim_start(Seq::<char>::empty()) == Seq::<char>::empty());
    assert(spec_trim(Seq::<char>::empty()).len() == 0);
    lemma_unescape_escape(v);
    assert(spec_parse_value(q) == Ok::<ValueModel, ()>(ValueModel::Str(v)));
}

/// A `tags = [..]` line parses back to exactly its tags.
proof fn lemma_parse_tags_line(tags: Seq<Seq<char>>)
    ensures
        spec_parse_line(spec_tags_line(tags)) == Ok::<ItemModel, ()>(
            ItemModel::Pair("tags"@, ValueModel::List(tags)),
        ),
{
    reveal_strlit("tags");
    let quoted = tags.map_values(|t: Seq<char>| spec_quote(t));
    let inner = spec_join(quoted, ',');
    let line = spec_tags_line(tags);
    let raw = seq!['['] + inner + seq![']'];
    assert(line == "tags"@ + seq![' ', '=', ' ', '['] + inner + seq![']']);
    assert(line[0] == 't');
    assert(line.last() == ']');
    assert(is_trimmed(line));
    lemma_trim_of_trimmed(line);
    let t = line;
    assert(t.len() > 0 && t[0] != '[');
    assert(forall|j: int| 0 <= j < 4 ==> t[j] == "tags"@[j]);
    assert(t[4] == ' ' && t[5] == '=');
    assert(forall|j: int| 0 <= j < 5 ==> t[j] != '=');
    lemma_find_at(t, '=', 5);
    assert(t.take(5) =~= "tags"@ + seq![' ']);
    assert(is_trimmed("tags"@));
    lemma_trim_key_space("tags"@);
    assert(t.skip(6) =~= seq![' '] + raw);
    assert(raw[0] == '[' && raw.last() == ']');
    lemma_trim_space_quoted(raw);
    assert(raw.subrange(1, raw.len() - 1) =~= inner);
    if tags.len() == 0 {
        assert(inner =~= Seq::<char>::empty());
        assert(crate::text::spec_trim_end(inner) == inner);
        assert(spec_trim(inner).len() == 0);
        assert(spec_parse_value(raw) == Ok::<ValueModel, ()>(ValueModel::List(Seq::empty())));
        assert(tags =~~= Seq::<Seq<char>>::empty());
    } else {
        assert(quoted[0] == spec_quote(tags[0]));
        assert(inner[0] == '"') by {
            if quoted.len() == 1 {
                assert(inner == quoted[0]);
            } else {
                assert(inner == quoted[0] + seq![','] + spec_join(quoted.drop_first(), ','));
            }
            assert(quoted[0][0] == '"');
        }
        assert(crate::text::spec_trim_start(inner) == inner);
        lemma_trim_start_nonempty(inner);
        assert(spec_trim(inner).len() > 0);
        assert forall|i: int| 0 <= i < quoted.len() implies !(#[trigger] quoted[i]).contains(
            ',',
        ) by {
            assert(quoted[i] == spec_quote(tags[i]));
            assert(!seq!['"'].contains(','));
            lemma_escape_clean(tags[i]);
            lemma_concat_clean(seq!['"'], spec_escape(tags[i]), ',');
            lemma_concat_clean(seq!['"'] + spec_escape(tags[i]), seq!['"'], ',');
        }
        lemma_split_join(quoted, ',');
        assert forall|i: int| 0 <= i < quoted.len() implies spec_unquote(#[trigger] quoted[i])
            == Ok::<Seq<char>, ()>(tags[i]) by {
            let p = spec_quote(tags[i]);
            assert(quoted[i] == p);
            assert(p[0] == '"' && p.last() == '"' && !is_ws(p[0]) && !is_ws(p.last()));
            lemma_trim_of_trimmed(p);
            lemma_escape_clean(tags[i]);
            assert(p.subrange(1, p.len() - 1) =~= spec_escape(tags[i]));
            lemma_unescape_escape(tags[i]);
        }
        lemma_parse_list_all_ok(quoted, tags);
        assert(spec_parse_value(raw) == Ok::<ValueModel, ()>(ValueModel::List(tags)));
    }
}

proof fn lemma_trim_start_nonempty(s: Seq<char>)
    requires
        s.len() > 0,
        !is_ws(s[0]),
    ensures
        crate::text::spec_trim_end(s).len() > 0,
    decreases s.len(),
{
    if s.len() > 1 && is_ws(s.last()) {
        assert(s.drop_last()[0] == s[0]);
        lemma_trim_start_nonempty(s.drop_last());
    }
}

/// Folding distributes over concatenation of line lists.
proof fn lemma_fold_append(st: FoldModel, l1: Seq<Seq<char>>, l2: Seq<Seq<char>>)
    ensures
        spec_fold(st, l1 + l2) == (match spec_fold(st, l1) {
            Ok(m) => spec_fold(m, l2),
            Err(()) => Err::<FoldModel, ()>(()),
        }),
    decreases l1.len(),
{
    if l1.len() == 0 {
        assert(l1 + l2 =~~= l2);
    } else {
        assert((l1 + l2)[0] == l1[0]);
        assert((l1 + l2).drop_first() =~~= l1.drop_first() + l2);
        match spec_parse_line(l1[0]) {
            Ok(item) => match spec_apply(st, item) {
                Ok(st2) => {
                    lemma_fold_append(st2, l1.drop_first(), l2);
                },
                Err(()) => {},
            },
            Err(()) => {},
        }
    }
}

/// Folding one well-parsed, well-applied line.
proof fn lemma_fold_single(st: FoldModel, l: Seq<char>, item: ItemModel, st2: FoldModel)
    requires
        spec_parse_line(l) == Ok::<ItemModel, ()>(item),
        spec_apply(st, item) == Ok::<FoldModel, ()>(st2),
    ensures
        spec_fold(st, seq![l]) == Ok::<FoldModel, ()>(st2),
{
    assert(seq![l].drop_first() =~~= Seq::<Seq<char>>::empty());
    assert(spec_fold(st2, Seq::<Seq<char>>::empty()) == Ok::<FoldModel, ()>(st2));
    assert(seq![l][0] == l);
}

/// The builders whose template form survives a round trip: everything is
/// escaped on the way out, so only the parser's trim-and-drop normalisation
/// of the optional fields restricts the domain.
pub open spec fn template_safe(b: BuilderModel) -> bool {
    &&& (b.title matches Some(t) ==> is_trimmed(t) && t.len() > 0)
    &&& (b.summary matches Some(t) ==> is_trimmed(t) && t.len() > 0)
    &&& (b.origin matches Some(t) ==> is_trimmed(t) && t.len() > 0)
}

/// Serializing a template-safe builder and parsing the text back yields the
/// same builder.
#[verifier::rlimit(100)]
pub proof fn lemma_template_round_trip(b: BuilderModel)
    requires
        template_safe(b),
    ensures
        spec_parse_template(spec_template(b)) == Ok::<BuilderModel, ()>(b),
{
    reveal_strlit("url");
    reveal_strlit("date");
    reveal_strlit("title");
    reveal_strlit("summary");
    reveal_strlit("origin");
    reveal_strlit("tags");
    let l_url = spec_pair_line("url"@, b.url);
    let l_date = spec_pair_line("date"@, b.date);
    let l_tags = spec_tags_line(b.tags);
    let lines = spec_template_lines(b);
    let all = lines.push(Seq::<char>::empty());

    // Every line is free of newlines, so splitting the joined text restores
    // the lines.
    assert(!"url"@.contains('\n') && !"url"@.contains('='));
    assert(!"date"@.contains('\n') && !"date"@.contains('='));
    assert(!"title"@.contains('\n') && !"title"@.contains('='));
    assert(!"summary"@.contains('\n') && !"summary"@.contains('='));
    assert(!"origin"@.contains('\n') && !"origin"@.contains('='));
    lemma_escape_clean(b.url);
    lemma_escape_clean(b.date);
    lemma_pair_line_clean("url"@, b.url, '\n');
    lemma_pair_line_clean("date"@, b.date, '\n');
    lemma_tags_line_clean(b.tags);
    match b.title {
        Some(t) => {
            lemma_escape_clean(t);
            lemma_pair_line_clean("title"@, t, '\n');
        },
        None => (),
    }
    match b.summary {
        Some(t) => {
            lemma_escape_clean(t);
            lemma_pair_line_clean("summary"@, t, '\n');
        },
        None => (),
    }
    match b.origin {
        Some(t) => {
            lemma_escape_clean(t);
            lemma_pair_line_clean("origin"@, t, '\n');
        },
        None => (),
    }
    assert(!Seq::<char>::empty().contains('\n'));
    assert forall|i: int| 0 <= i < all.len() implies !(#[trigger] all[i]).contains('\n') by {}
    lemma_split_join(all, '\n');
    assert(spec_split(spec_template(b), '\n') == all);

    // Each line parses to its item.
    assert(is_trimmed("url"@) && "url"@[0] != '[');
    assert(is_trimmed("date"@) && "date"@[0] != '[');
    assert(is_trimmed("title"@) && "title"@[0] != '[');
    assert(is_trimmed("summary"@) && "summary"@[0] != '[');
    assert(is_trimmed("origin"@) && "origin"@[0] != '[');
    lemma_parse_pair_line("url"@, b.url);
    lemma_parse_pair_line("date"@, b.date);
    lemma_parse_tags_line(b.tags);

    // Fold the lines segment by segment.
    let st0 = spec_fold_init();
    let st1 = FoldModel { url: Some(b.url), ..st0 };
    let st2 = FoldModel { date: Some(b.date), ..st1 };
    let st3 = FoldModel { title: b.title, ..st2 };
    let st4 = FoldModel { summary: b.summary, ..st3 };
    let st5 = FoldModel { tags: Some(b.tags), ..st4 };
    let st6 = FoldModel { origin: b.origin, ..st5 };
    let seg_t = spec_opt_line("title"@, b.title);
    let seg_s = spec_opt_line("summary"@, b.summary);
    let seg_o = spec_opt_line("origin"@, b.origin);
    let rest5 = seg_o + seq![Seq::<char>::empty()];
    let rest4 = seq![l_tags] + rest5;
    let rest3 = seg_s + rest4;
    let rest2 = seg_t + rest3;
    let rest1 = seq![l_date] + rest2;
    assert(all =~~= seq![l_url] + rest1);

    lemma_fold_append(st0, seq![l_url], rest1);
    lemma_fold_single(st0, l_url, ItemModel::Pair("url"@, ValueModel::Str(b.url)), st1);
    assert(spec_fold(st0, all) == spec_fold(st1, rest1));

    lemma_fold_append(st1, seq![l_date], rest2);
    lemma_fold_single(st1, l_date, ItemModel::Pair("date"@, ValueModel::Str(b.date)), st2);
    assert(spec_fold(st1, rest1) == spec_fold(st2, rest2));

    match b.title {
        Some(t) => {
            lemma_parse_pair_line("title"@, t);
            lemma_fold_append(st2, seg_t, rest3);
            lemma_fold_single(st2, spec_pair_line("title"@, t), ItemModel::Pair(
                "title"@,
                ValueModel::Str(t),
            ), st3);
            assert(seg_t =~~= seq![spec_pair_line("title"@, t)]);
            assert(spec_fold(st2, rest2) == spec_fold(st3, rest3));
        },
        None => {
            assert(seg_t =~~= Seq::<Seq<char>>::empty());
            lemma_fold_append(st2, seg_t, rest3);
            assert(st3 == st2);
            assert(spec_fold(st2, rest2) == spec_fold(st3, rest3));
        },
    }

    match b.summary {
        Some(t) => {
            lemma_parse_pair_line("summary"@, t);
            lemma_fold_append(st3, seg_s, rest4);
            lemma_fold_single(st3, spec_pair_line("summary"@, t), ItemModel::Pair(
                "summary"@,
                ValueModel::Str(t),
            ), st4);
            assert(seg_s =~~= seq![spec_pair_line("summary"@, t)]);
            assert(spec_fold(st3, rest3) == spec_fold(st4, rest4));
        },
        None => {
            assert(seg_s =~~= Seq::<Seq<char>>::empty());
            lemma_fold_append(st3, seg_s, rest4);
            assert(st4 == st3);
            assert(spec_fold(st3, rest3) == spec_fold(st4, rest4));
        },
    }

    lemma_fold_append(st4, seq![l_tags], rest5);
    lemma_fold_single(st4, l_tags, ItemModel::Pair("tags"@, ValueModel::List(b.tags)), st5);
    assert(spec_fold(st4, rest4) == spec_fold(st5, rest5));

    match b.origin {
        Some(t) => {
            lemma_parse_pair_line("origin"@, t);
            lemma_fold_append(st5, seg_o, seq![Seq::<char>::empty()]);
            lemma_fold_single(st5, spec_pair_line("origin"@, t), ItemModel::Pair(
                "origin"@,
                ValueModel::Str(t),
            ), st6);
            assert(seg_o =~~= seq![spec_pair_line("origin"@, t)]);
            assert(spec_fold(st5, rest5) == spec_fold(st6, seq![Seq::<char>::empty()]));
        },
        None => {
            assert(seg_o =~~= Seq::<Seq<char>>::empty());
            lemma_fold_append(st5, seg_o, seq![Seq::<char>::empty()]);
            assert(st6 == st5);
            assert(spec_fold(st5, rest5) == spec_fold(st6, seq![Seq::<char>::empty()]));
        },
    }

    // The final blank line leaves the state unchanged.
    assert(crate::text::spec_trim_start(Seq::<char>::empty()) == Seq::<char>::empty());
    assert(spec_trim(Seq::<char>::empty()).len() == 0);
    assert(spec_parse_line(Seq::<char>::empty()) == Ok::<ItemModel, ()>(ItemModel::Blank));
    lemma_fold_single(st6, Seq::<char>::empty(), ItemModel::Blank, st6);
    assert(spec_fold(st0, all) == Ok::<FoldModel, ()>(st6));

    // Normalising the optional fields gives them back unchanged.
    match b.title {
        Some(t) => {
            lemma_trim_of_trimmed(t);
        },
        None => {},
    }
    match b.summary {
        Some(t) => {
            lemma_trim_of_trimmed(t);
        },
        None => {},
    }
    match b.origin {
        Some(t) => {
            lemma_trim_of_trimmed(t);
        },
        None => {},
    }
    assert(spec_parse_template(spec_template(b)) == Ok::<BuilderModel, ()>(b));
}

} // verus!
