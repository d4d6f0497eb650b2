//! Mapping of Zenodo-style deposit records into [`Entry`] values.

use vstd::prelude::*;
use vstd::string::StringExecFns;
use crate::entry::{clone_opt_string, opt_view, Entry};
use crate::strutil::{dec_seq, str_eq, u64_to_string};
use crate::validators::{year_from_date, year_from_date_spec};

verus! {

/// One creator of a deposit.
#[derive(Debug)]
pub struct Creator {
    pub name: Option<String>,
}

/// The resource type of a deposit.
#[derive(Debug)]
pub struct ResourceType {
    pub kind: Option<String>,
}

/// The metadata block of a deposit record.
#[derive(Debug)]
pub struct Metadata {
    pub title: Option<String>,
    pub creators: Option<Vec<Creator>>,
    pub publication_date: Option<String>,
    pub doi: Option<String>,
    pub resource_type: Option<ResourceType>,
}

/// A deposit record as the Zenodo-style service reports it, already split
/// into plain fields.
#[derive(Debug)]
pub struct Record {
    pub id: Option<u64>,
    pub metadata: Metadata,
}

/// The entry type a deposit maps to: `software` and `dataset` keep their
/// names, a `publication` becomes an `article`, everything else `misc`.
pub open spec fn zenodo_type(rt: Option<ResourceType>) -> Seq<char> {
    match rt {
        Some(r) => match r.kind {
            Some(t) => if t@ == "software"@ {
                "software"@
            } else if t@ == "dataset"@ {
                "dataset"@
            } else if t@ == "publication"@ {
                "article"@
            } else {
                "misc"@
            },
            None => "misc"@,
        },
        None => "misc"@,
    }
}

/// The creator display names, in order, skipping entries without a name.
pub open spec fn creator_names(s: Seq<Creator>) -> Seq<Seq<char>>
    decreases s.len(),
{
    if s.len() == 0 {
        Seq::empty()
    } else {
        creator_names(s.drop_last()) + (match s.last().name {
            Some(n) => seq![n@],
            None => Seq::empty(),
        })
    }
}

impl Record {
    /// Maps the deposit into an [`Entry`]: the numeric record identifier
    /// becomes the key, the resource type picks the entry type, and the
    /// year is the leading four digits of the publication date.
    pub fn to_entry(&self) -> (e: Entry)
        ensures
            e@.key == (match self.id {
                Some(i) => dec_seq(i as nat),
                None => Seq::<char>::empty(),
            }),
            e@.entry_type == zenodo_type(self.metadata.resource_type),
            e@.title == opt_view(self.metadata.title),
            e@.year == (match self.metadata.publication_date {
                Some(d) => year_from_date_spec(d@),
                None => None::<i32>,
            }),
            e@.authors == (match self.metadata.creators {
                Some(v) => creator_names(v@),
                None => Seq::<Seq<char>>::empty(),
            }),
            e@.doi == opt_view(self.metadata.doi),
            e@.venue is None,
            e@.arxiv_id is None,
            e@.url is None,
    {
        let entry_type: String = match &self.metadata.resource_type {
            Some(rt) => match &rt.kind {
                Some(t) => {
                    if str_eq(t.as_str(), "software") {
                        "software".to_owned()
                    } else if str_eq(t.as_str(), "dataset") {
                        "dataset".to_owned()
                    } else if str_eq(t.as_str(), "publication") {
                        "article".to_owned()
                    } else {
                        "misc".to_owned()
                    }
                },
                None => "misc".to_owned(),
            },
            None => "misc".to_owned(),
        };
        let key: String = match self.id {
            Some(i) => u64_to_string(i),
            None => String::new(),
        };
        let mut e = Entry::new(key, entry_type);

        e.title = clone_opt_string(&self.metadata.title);

        match &self.metadata.publication_date {
            Some(d) => {
                e.year = year_from_date(d.as_str());
            },
            None => {},
        }

        match &self.metadata.creators {
            Some(v) => {
                let mut names: Vec<String> = Vec::new();
                let n = v.len();
                let mut i: usize = 0;
                while i < n
                    invariant
                        i <= n,
                        n == v@.len(),
                        names.deep_view() == creator_names(v@.take(i as int)),
                    decreases n - i,
                {
                    proof {
                        let t = v@.take(i + 1 as int);
                        assert(t.drop_last() =~= v@.take(i as int));
                        assert(t.last() == v@[i as int]);
                    }
                    match &v[i].name {
                        Some(nm) => {
                            let ghost prev = names.deep_view();
                            names.push(nm.clone());
                            proof {
                                assert(names.deep_view() =~= prev.push(v@[i as int].name->0@));
                                assert(names.deep_view() =~= creator_names(v@.take(i + 1 as int)));
                            }
                        },
                        None => {
                            proof {
                                assert(creator_names(v@.take(i + 1 as int)) =~= names.deep_view());
                            }
                        },
                    }
                    i += 1;
                }
                proof {
                    assert(v@.take(n as int) =~= v@);
                }
                e.authors = names;
            },
            None => {
                proof {
                    assert(e@.authors =~= Seq::<Seq<char>>::empty());
                }
            },
        }

        e.doi = clone_opt_string(&self.metadata.doi);

        e
    }
}

} // verus!
