//! Mapping of DBLP-style publication records into [`Entry`] values.

use vstd::prelude::*;
use vstd::string::StringExecFns;
use crate::entry::{clone_opt_string, opt_view, Entry};
use crate::norm::{chars_to_string, str_to_chars};
use crate::strutil::{parse_i32, parse_i32_spec};

verus! {

/// One author, either a bare string or a wrapped text field.
#[derive(Debug)]
pub enum DblpAuthor {
    Simple(String),
    Complex { text: String },
}

/// The display name of an author record.
pub open spec fn dblp_author_name(a: DblpAuthor) -> Seq<char> {
    match a {
        DblpAuthor::Simple(s) => s@,
        DblpAuthor::Complex { text } => text@,
    }
}

impl DblpAuthor {
    /// The display name, whichever shape the record came in.
    pub fn name(&self) -> (r: &str)
        ensures
            r@ == dblp_author_name(*self),
    {
        match self {
            DblpAuthor::Simple(s) => s.as_str(),
            DblpAuthor::Complex { text } => text.as_str(),
        }
    }
}

/// The author block: a single author or a list.
#[derive(Debug)]
pub enum DblpAuthorList {
    Single(DblpAuthor),
    Multiple(Vec<DblpAuthor>),
}

/// The author container of a publication record.
#[derive(Debug)]
pub struct DblpAuthors {
    pub author: DblpAuthorList,
}

/// A publication record as the DBLP-style service reports it, already
/// split into plain fields.
#[derive(Debug)]
pub struct DblpInfo {
    pub title: Option<String>,
    pub authors: Option<DblpAuthors>,
    pub year: Option<String>,
    pub venue: Option<String>,
    pub doi: Option<String>,
    pub pub_type: Option<String>,
    pub url: Option<String>,
}

/// A title with one trailing period removed.
pub open spec fn strip_one_dot(t: Seq<char>) -> Seq<char> {
    if t.len() > 0 && t.last() == '.' {
        t.drop_last()
    } else {
        t
    }
}

/// The author names of the record, in order.
pub open spec fn dblp_authors_spec(a: Option<DblpAuthors>) -> Seq<Seq<char>> {
    match a {
        Some(al) => match al.author {
            DblpAuthorList::Single(one) => seq![dblp_author_name(one)],
            DblpAuthorList::Multiple(list) => list@.map_values(
                |x: DblpAuthor| dblp_author_name(x),
            ),
        },
        None => Seq::empty(),
    }
}

impl DblpInfo {
    /// Maps the record into an [`Entry`]: the DOI, else the URL, else
    /// `unknown` becomes the key; one trailing period is stripped from the
    /// title; the year string is parsed as a decimal number.
    pub fn to_entry(&self) -> (e: Entry)
        ensures
            e@.key == (match self.doi {
                Some(d) => d@,
                None => match self.url {
                    Some(u) => u@,
                    None => "unknown"@,
                },
            }),
            e@.entry_type == (match self.pub_type {
                Some(t) => t@,
                None => "article"@,
            }),
            e@.title == (match self.title {
                Some(t) => Some(strip_one_dot(t@)),
                None => None::<Seq<char>>,
            }),
            e@.year == (match self.year {
                Some(y) => parse_i32_spec(y@),
                None => None::<i32>,
            }),
            e@.venue == opt_view(self.venue),
            e@.doi == opt_view(self.doi),
            e@.authors == dblp_authors_spec(self.authors),
            e@.arxiv_id is None,
            e@.url is None,
    {
        let key: String = match &self.doi {
            Some(d) => d.clone(),
            None => match &self.url {
                Some(u) => u.clone(),
                None => "unknown".to_owned(),
            },
        };
        let entry_type: String = match &self.pub_type {
            Some(t) => t.clone(),
            None => "article".to_owned(),
        };
        let mut e = Entry::new(key, entry_type);

        match &self.title {
            Some(t) => {
                let mut cs = str_to_chars(t.as_str());
                let n = cs.len();
                if n > 0 && cs[n - 1] == '.' {
                    cs.truncate(n - 1);
                    proof {
                        assert(cs@ =~= t@.drop_last());
                    }
                }
                e.title = Some(chars_to_string(&cs));
            },
            None => {},
        }

        match &self.year {
            Some(y) => {
                e.year = parse_i32(y.as_str());
            },
            None => {},
        }

        e.venue = clone_opt_string(&self.venue);
        e.doi = clone_opt_string(&self.doi);

        match &self.authors {
            Some(al) => {
                match &al.author {
                    DblpAuthorList::Single(one) => {
                        let mut names: Vec<String> = Vec::new();
                        names.push(one.name().to_owned());
                        e.authors = names;
                        proof {
                            assert(e@.authors =~= dblp_authors_spec(self.authors));
                        }
                    },
                    DblpAuthorList::Multiple(list) => {
                        let mut names: Vec<String> = Vec::new();
                        let n = list.len();
                        let mut i: usize = 0;
                        while i < n
                            invariant
                                i <= n,
                                n == list@.len(),
                                names@.len() == i,
                                forall|k: int|
                                    0 <= k < i ==> names.deep_view()[k] == dblp_author_name(
                                        list@[k],
                                    ),
                            decreases n - i,
                        {
                            let owned = list[i].name().to_owned();
                            let ghost prev = names.deep_view();
                            names.push(owned);
                            proof {
                                assert(names.deep_view() =~= prev.push(dblp_author_name(
                                    list@[i as int],
                                )));
                            }
                            i += 1;
                        }
                        e.authors = names;
                        proof {
                            assert(e@.authors =~= dblp_authors_spec(self.authors));
                        }
                    },
                }
            },
            None => {
                proof {
                    assert(e@.authors =~= Seq::<Seq<char>>::empty());
                }
            },
        }

        e
    }
}

} // verus!
