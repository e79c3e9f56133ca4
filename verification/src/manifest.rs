//! The manifest: a small TOML-like configuration with an `[activity]` table
//! naming the four data files (history, events, sources, ideas). Paths are
//! resolved relative to a base directory, so the manifest is
//! location-independent.

use vstd::prelude::*;

use crate::error::Error;
use crate::template::{parse_line, spec_parse_line, TemplateItem, TemplateValue, ItemModel,
    ValueModel};
use crate::text::{spec_split, split_char, str_eq};

verus! {

/// The four resolved paths a manifest yields.
pub ghost struct ManifestModel {
    pub history: Seq<char>,
    pub events: Seq<char>,
    pub sources: Seq<char>,
    pub ideas: Seq<char>,
}

/// The fields collected while folding manifest lines.
pub ghost struct MFoldModel {
    pub in_activity: bool,
    pub history: Option<Seq<char>>,
    pub events: Option<Seq<char>>,
    pub sources: Option<Seq<char>>,
    pub ideas: Option<Seq<char>>,
}

pub open spec fn spec_mfold_init() -> MFoldModel {
    MFoldModel { in_activity: false, history: None, events: None, sources: None, ideas: None }
}

/// One parsed line applied to the collected fields: a header switches the
/// current table, keys count only inside `[activity]`, a list value for a
/// known key is an error, and unknown keys are ignored.
pub open spec fn spec_mapply(st: MFoldModel, item: ItemModel) -> Result<MFoldModel, ()> {
    match item {
        ItemModel::Blank => Ok(st),
        ItemModel::Header(h) => Ok(MFoldModel { in_activity: h == "activity"@, ..st }),
        ItemModel::Pair(k, v) => if !st.in_activity {
            Ok(st)
        } else if k == "history"@ {
            match v {
                ValueModel::Str(s) => Ok(MFoldModel { history: Some(s), ..st }),
                ValueModel::List(_) => Err(()),
            }
        } else if k == "events"@ {
            match v {
                ValueModel::Str(s) => Ok(MFoldModel { events: Some(s), ..st }),
                ValueModel::List(_) => Err(()),
            }
        } else if k == "sources"@ {
            match v {
                ValueModel::Str(s) => Ok(MFoldModel { sources: Some(s), ..st }),
                ValueModel::List(_) => Err(()),
            }
        } else if k == "ideas"@ {
            match v {
                ValueModel::Str(s) => Ok(MFoldModel { ideas: Some(s), ..st }),
                ValueModel::List(_) => Err(()),
            }
        } else {
            Ok(st)
        },
    }
}

pub open spec fn spec_mfold(st: MFoldModel, lines: Seq<Seq<char>>) -> Result<MFoldModel, ()>
    decreases lines.len(),
{
    if lines.len() == 0 {
        Ok(st)
    } else {
        match spec_parse_line(lines[0]) {
            Ok(item) => match spec_mapply(st, item) {
                Ok(st2) => spec_mfold(st2, lines.drop_first()),
                Err(()) => Err(()),
            },
            Err(()) => Err(()),
        }
    }
}

/// A path resolved against a base directory: absolute paths and paths with
/// an empty base stand as they are; anything else hangs off the base with a
/// slash between.
pub open spec fn spec_resolve(base: Seq<char>, p: Seq<char>) -> Seq<char> {
    if p.len() > 0 && p[0] == '/' {
        p
    } else if base.len() == 0 {
        p
    } else {
        base + seq!['/'] + p
    }
}

/// What loading a manifest text against a base directory yields: an error if
/// a line is malformed or any of the four keys is missing from the
/// `[activity]` table, and otherwise the four resolved paths.
pub open spec fn spec_manifest(text: Seq<char>, base: Seq<char>) -> Result<ManifestModel, ()> {
    match spec_mfold(spec_mfold_init(), spec_split(text, '\n')) {
        Ok(st) => match (st.history, st.events, st.sources, st.ideas) {
            (Some(h), Some(e), Some(s), Some(i)) => Ok(
                ManifestModel {
                    history: spec_resolve(base, h),
                    events: spec_resolve(base, e),
                    sources: spec_resolve(base, s),
                    ideas: spec_resolve(base, i),
                },
            ),
            _ => Err(()),
        },
        Err(()) => Err(()),
    }
}

/// The `[activity]` table's four paths, resolved.
pub struct Activity {
    history: String,
    events: String,
    sources: String,
    ideas: String,
}

/// A loaded manifest, immutable after construction.
pub struct Manifest {
    activity: Activity,
}

impl View for Manifest {
    type V = ManifestModel;

    closed spec fn view(&self) -> ManifestModel {
        ManifestModel {
            history: self.activity.history@,
            events: self.activity.events@,
            sources: self.activity.sources@,
            ideas: self.activity.ideas@,
        }
    }
}

fn resolve(base: &str, p: String) -> (r: String)
    ensures
        r@ == spec_resolve(base@, p@),
{
    let n = p.as_str().unicode_len();
    if n > 0 && p.as_str().get_char(0) == '/' {
        p
    } else if base.unicode_len() == 0 {
        p
    } else {
        let mut r = base.to_owned();
        r.append("/");
        r.append(p.as_str());
        proof {
            reveal_strlit("/");
            assert(r@ =~= spec_resolve(base@, p@));
        }
        r
    }
}

impl Manifest {
    /// Parse a manifest text and resolve its four paths against the given
    /// base directory (the directory holding the manifest file).
    #[verifier::loop_isolation(false)]
    pub fn new(text: &str, base: &str) -> (r: Result<Manifest, Error>)
        ensures
            (r matches Ok(m) ==> spec_manifest(text@, base@) == Ok::<ManifestModel, ()>(m@)),
            (r is Err ==> spec_manifest(text@, base@) is Err),
    {
        let lines = split_char(text, '\n');
        let ghost ldv = lines.deep_view();
        let mut in_activity: bool = false;
        let mut history: Option<String> = None;
        let mut events: Option<String> = None;
        let mut sources: Option<String> = None;
        let mut ideas: Option<String> = None;
        let ghost mut st = spec_mfold_init();
        let mut i: usize = 0;
        proof {
            assert(ldv.skip(0) =~~= ldv);
        }
        while i < lines.len()
            invariant
                i <= lines.len(),
                spec_mfold(spec_mfold_init(), ldv) == spec_mfold(st, ldv.skip(i as int)),
                st.in_activity == in_activity,
                st.history == history.deep_view(),
                st.events == events.deep_view(),
                st.sources == sources.deep_view(),
                st.ideas == ideas.deep_view(),
            decreases lines.len() - i,
        {
            proof {
                assert(ldv.skip(i as int)[0] == ldv[i as int]);
                assert(lines@[i as int]@ == ldv[i as int]);
                assert(ldv.skip(i as int).drop_first() =~~= ldv.skip(i + 1));
            }
            let item = match parse_line(lines[i].as_str()) {
                Ok(item) => item,
                Err(()) => {
                    return Err(Error::new("parse: malformed manifest line"));
                },
            };
            match item {
                TemplateItem::Blank => {},
                TemplateItem::Header(h) => {
                    in_activity = str_eq(h.as_str(), "activity");
                },
                TemplateItem::Pair(k, v) => {
                    if !in_activity {
                    } else if str_eq(k.as_str(), "history") {
                        match v {
                            TemplateValue::Str(s) => {
                                history = Some(s);
                            },
                            TemplateValue::List(_) => {
                                return Err(Error::new("parse: 'history' must be a string"));
                            },
                        }
                    } else if str_eq(k.as_str(), "events") {
                        match v {
                            TemplateValue::Str(s) => {
                                events = Some(s);
                            },
                            TemplateValue::List(_) => {
                                return Err(Error::new("parse: 'events' must be a string"));
                            },
                        }
                    } else if str_eq(k.as_str(), "sources") {
                        match v {
                            TemplateValue::Str(s) => {
                                sources = Some(s);
                            },
                            TemplateValue::List(_) => {
                                return Err(Error::new("parse: 'sources' must be a string"));
                            },
                        }
                    } else if str_eq(k.as_str(), "ideas") {
                        match v {
                            TemplateValue::Str(s) => {
                                ideas = Some(s);
                            },
                            TemplateValue::List(_) => {
                                return Err(Error::new("parse: 'ideas' must be a string"));
                            },
                        }
                    }
                },
            }
            proof {
                st = spec_mapply(st, item@)->Ok_0;
            }
            i = i + 1;
        }
        proof {
            assert(ldv.skip(lines@.len() as int) =~~= Seq::<Seq<char>>::empty());
            assert(spec_mfold(spec_mfold_init(), ldv) == Ok::<MFoldModel, ()>(st));
        }
        let h = match history {
            Some(h) => h,
            None => {
                return Err(Error::new("parse: the manifest must set 'history'"));
            },
        };
        let e = match events {
            Some(e) => e,
            None => {
                return Err(Error::new("parse: the manifest must set 'events'"));
            },
        };
        let s = match sources {
            Some(s) => s,
            None => {
                return Err(Error::new("parse: the manifest must set 'sources'"));
            },
        };
        let i2 = match ideas {
            Some(i2) => i2,
            None => {
                return Err(Error::new("parse: the manifest must set 'ideas'"));
            },
        };
        Ok(
            Manifest {
                activity: Activity {
                    history: resolve(base, h),
                    events: resolve(base, e),
                    sources: resolve(base, s),
                    ideas: resolve(base, i2),
                },
            },
        )
    }

    pub fn history_path(&self) -> (r: &str)
        ensures
            r@ == self@.history,
    {
        self.activity.history.as_str()
    }

    pub fn events_path(&self) -> (r: &str)
        ensures
            r@ == self@.events,
    {
        self.activity.events.as_str()
    }

    pub fn sources_path(&self) -> (r: &str)
        ensures
            r@ == self@.sources,
    {
        self.activity.sources.as_str()
    }

    pub fn ideas_path(&self) -> (r: &str)
        ensures
            r@ == self@.ideas,
    {
        self.activity.ideas.as_str()
    }
}

} // verus!
