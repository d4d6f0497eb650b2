//! Mapping of Semantic-Scholar-style paper records into [`Entry`] values.

use vstd::prelude::*;
use vstd::string::StringExecFns;
use crate::entry::{clone_opt_string, opt_view, Entry};

verus! {

/// One author of a paper record.
#[derive(Debug)]
pub struct Author {
    pub name: Option<String>,
}

/// The external identifiers a paper record may carry.
#[derive(Debug)]
pub struct ExternalIds {
    pub doi: Option<String>,
    pub arxiv: Option<String>,
}

/// A paper record as the Semantic-Scholar-style service reports it,
/// already split into plain fields.
#[derive(Debug)]
pub struct Paper {
    pub paper_id: Option<String>,
    pub title: Option<String>,
    pub authors: Option<Vec<Author>>,
    pub year: Option<i32>,
    pub venue: Option<String>,
    pub external_ids: Option<ExternalIds>,
}

/// The author display names, in order, skipping entries without a name.
pub open spec fn author_names(s: Seq<Author>) -> Seq<Seq<char>>
    decreases s.len(),
{
    if s.len() == 0 {
        Seq::empty()
    } else {
        author_names(s.drop_last()) + (match s.last().name {
            Some(n) => seq![n@],
            None => Seq::empty(),
        })
    }
}

impl Paper {
    /// Maps the record into an [`Entry`]: the paper identifier becomes the
    /// key, the type is always `article`, and the DOI and arXiv identifier
    /// come from the external identifiers.
    pub fn to_entry(&self) -> (e: Entry)
        ensures
            e@.key == (match self.paper_id {
                Some(p) => p@,
                None => Seq::<char>::empty(),
            }),
            e@.entry_type == "article"@,
            e@.title == opt_view(self.title),
            e@.year == self.year,
            e@.venue == opt_view(self.venue),
            e@.authors == (match self.authors {
                Some(v) => author_names(v@),
                None => Seq::<Seq<char>>::empty(),
            }),
            e@.doi == (match self.external_ids {
                Some(ids) => opt_view(ids.doi),
                None => None::<Seq<char>>,
            }),
            e@.arxiv_id == (match self.external_ids {
                Some(ids) => opt_view(ids.arxiv),
                None => None::<Seq<char>>,
            }),
            e@.url is None,
    {
        let key = match &self.paper_id {
            Some(p) => p.clone(),
            None => String::new(),
        };
        let mut e = Entry::new(key, "article".to_owned());

        e.title = clone_opt_string(&self.title);
        e.year = self.year;
        e.venue = clone_opt_string(&self.venue);

        match &self.authors {
            Some(v) => {
                let mut names: Vec<String> = Vec::new();
                let n = v.len();
                let mut i: usize = 0;
                while i < n
                    invariant
                        i <= n,
                        n == v@.len(),
                        names.deep_view() == author_names(v@.take(i as int)),
                    decreases n - i,
                {
                    proof {
                        let t = v@.take(i + 1 as int);
                        assert(t.drop_last() =~= v@.take(i as int));
                        assert(t.last() == v@[i as int]);
                    }
                    match &v[i].name {
                        Some(nm) => {
                            let ghost prev = names.deep_view();
                            names.push(nm.clone());
                            proof {
                                assert(names.deep_view() =~= prev.push(v@[i as int].name->0@));
                                assert(names.deep_view() =~= author_names(v@.take(i + 1 as int)));
                            }
                        },
                        None => {
                            proof {
                                assert(author_names(v@.take(i + 1 as int)) =~= names.deep_view());
                            }
                        },
                    }
                    i += 1;
                }
                proof {
                    assert(v@.take(n as int) =~= v@);
                }
                e.authors = names;
            },
            None => {
                proof {
                    assert(e@.authors =~= Seq::<Seq<char>>::empty());
                }
            },
        }

        match &self.external_ids {
            Some(ids) => {
                e.doi = clone_opt_string(&ids.doi);
                e.arxiv_id = clone_opt_string(&ids.arxiv);
            },
            None => {},
        }

        e
    }
}

} // verus!
