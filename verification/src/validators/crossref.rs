//! Mapping of Crossref-style work records into [`Entry`] values.

use vstd::prelude::*;
use vstd::string::StringExecFns;
use crate::entry::{clone_opt_string, opt_view, Entry};
use crate::norm::{chars_to_string, str_to_chars};
use crate::parser::{trim_chars, trim_spec};

verus! {

/// A date as Crossref reports it: nested numeric date parts.
#[derive(Debug)]
pub struct CrossRefDate {
    pub date_parts: Option<Vec<Vec<i32>>>,
}

/// One author of a work: either separate given and family names, or one
/// display name.
#[derive(Debug)]
pub struct CrossRefAuthor {
    pub given: Option<String>,
    pub family: Option<String>,
    pub name: Option<String>,
}

/// A work record as the Crossref-style service reports it, already split
/// into plain fields.
#[derive(Debug)]
pub struct CrossRefWork {
    pub doi: Option<String>,
    pub title: Option<Vec<String>>,
    pub author: Option<Vec<CrossRefAuthor>>,
    pub container_title: Option<Vec<String>>,
    pub published: Option<CrossRefDate>,
    pub published_print: Option<CrossRefDate>,
    pub published_online: Option<CrossRefDate>,
    pub work_type: Option<String>,
}

/// The first string of an optional list, if any.
pub open spec fn first_string(o: Option<Vec<String>>) -> Option<Seq<char>> {
    match o {
        Some(v) => if v@.len() > 0 {
            Some(v@[0]@)
        } else {
            None
        },
        None => None,
    }
}

/// The string an optional field contributes to a display name.
pub open spec fn part_or_empty(o: Option<String>) -> Seq<char> {
    match o {
        Some(s) => s@,
        None => Seq::empty(),
    }
}

/// The display name of one author: the single name field when present,
/// else the trimmed `given family` pair.
pub open spec fn crossref_author_name(a: CrossRefAuthor) -> Seq<char> {
    match a.name {
        Some(n) => n@,
        None => trim_spec(part_or_empty(a.given) + " "@ + part_or_empty(a.family)),
    }
}

/// The author display names, in order.
pub open spec fn crossref_authors_spec(o: Option<Vec<CrossRefAuthor>>) -> Seq<Seq<char>> {
    match o {
        Some(v) => v@.map_values(|a: CrossRefAuthor| crossref_author_name(a)),
        None => Seq::empty(),
    }
}

/// The year a date yields: the first number of the first date part.
pub open spec fn date_year(d: CrossRefDate) -> Option<i32> {
    match d.date_parts {
        Some(ps) => if ps@.len() > 0 && ps@[0]@.len() > 0 {
            Some(ps@[0]@[0])
        } else {
            None
        },
        None => None,
    }
}

/// The year of a work: from `published`, falling back to
/// `published-print`, then `published-online`.
pub open spec fn crossref_year(w: &CrossRefWork) -> Option<i32> {
    match w.published {
        Some(d) => date_year(d),
        None => match w.published_print {
            Some(d) => date_year(d),
            None => match w.published_online {
                Some(d) => date_year(d),
                None => None,
            },
        },
    }
}

/// Renders one author's display name.
fn author_display(a: &CrossRefAuthor) -> (r: String)
    ensures
        r@ == crossref_author_name(*a),
{
    match &a.name {
        Some(n) => n.clone(),
        None => {
            let mut s = String::new();
            match &a.given {
                Some(g) => {
                    s.append(g.as_str());
                },
                None => {},
            }
            s.append(" ");
            match &a.family {
                Some(f) => {
                    s.append(f.as_str());
                },
                None => {},
            }
            proof {
                assert(s@ =~= part_or_empty(a.given) + " "@ + part_or_empty(a.family));
            }
            let cs = str_to_chars(s.as_str());
            let trimmed = trim_chars(&cs);
            chars_to_string(&trimmed)
        },
    }
}

/// The year of a date record.
fn date_year_exec(d: &CrossRefDate) -> (r: Option<i32>)
    ensures
        r == date_year(*d),
{
    match &d.date_parts {
        Some(ps) => {
            if ps.len() > 0 {
                let first = &ps[0];
                if first.len() > 0 {
                    Some(first[0])
                } else {
                    None
                }
            } else {
                None
            }
        },
        None => None,
    }
}

impl CrossRefWork {
    /// Maps the work into an [`Entry`]: the DOI becomes the key, the first
    /// title and container title are taken, and the year comes from the
    /// first available date field.
    pub fn to_entry(&self) -> (e: Entry)
        ensures
            e@.key == (match self.doi {
                Some(d) => d@,
                None => Seq::<char>::empty(),
            }),
            e@.entry_type == (match self.work_type {
                Some(t) => t@,
                None => "article"@,
            }),
            e@.title == first_string(self.title),
            e@.doi == opt_view(self.doi),
            e@.authors == crossref_authors_spec(self.author),
            e@.venue == first_string(self.container_title),
            e@.year == crossref_year(self),
            e@.arxiv_id is None,
            e@.url is None,
    {
        let key: String = match &self.doi {
            Some(d) => d.clone(),
            None => String::new(),
        };
        let entry_type: String = match &self.work_type {
            Some(t) => t.clone(),
            None => "article".to_owned(),
        };
        let mut e = Entry::new(key, entry_type);

        match &self.title {
            Some(ts) => {
                if ts.len() > 0 {
                    e.title = Some(ts[0].clone());
                }
            },
            None => {},
        }
        e.doi = clone_opt_string(&self.doi);

        match &self.author {
            Some(v) => {
                let mut names: Vec<String> = Vec::new();
                let n = v.len();
                let mut i: usize = 0;
                while i < n
                    invariant
                        i <= n,
                        n == v@.len(),
                        names@.len() == i,
                        forall|k: int|
                            0 <= k < i ==> names.deep_view()[k] == crossref_author_name(v@[k]),
                    decreases n - i,
                {
                    let d = author_display(&v[i]);
                    let ghost prev = names.deep_view();
                    names.push(d);
                    proof {
                        assert(names.deep_view() =~= prev.push(crossref_author_name(v@[i as int])));
                    }
                    i += 1;
                }
                e.authors = names;
                proof {
                    assert(e@.authors =~= crossref_authors_spec(self.author));
                }
            },
            None => {
                proof {
                    assert(e@.authors =~= Seq::<Seq<char>>::empty());
                }
            },
        }

        match &self.container_title {
            Some(ts) => {
                if ts.len() > 0 {
                    e.venue = Some(ts[0].clone());
                }
            },
            None => {},
        }

        match &self.published {
            Some(d) => {
                e.year = date_year_exec(d);
            },
            None => {
                match &self.published_print {
                    Some(d) => {
                        e.year = date_year_exec(d);
                    },
                    None => {
                        match &self.published_online {
                            Some(d) => {
                                e.year = date_year_exec(d);
                            },
                            None => {},
                        }
                    },
                }
            },
        }

        e
    }
}

} // verus!
