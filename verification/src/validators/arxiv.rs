//! Building [`Entry`] records out of an arXiv Atom feed.
//!
//! The feed arrives as a sequence of already-tokenized markup events:
//! element starts, element ends, and text. Walking those events and
//! deciding which text lands in which field of which record is the logic
//! verified here; turning raw XML into events is the caller's business.

use vstd::prelude::*;
use vstd::string::StringExecFns;
use crate::entry::{Entry, EntryModel};
use crate::norm::{collapse_ws, chars_to_string, join_sp, str_to_chars, words_of};
use crate::parser::{contains_sub, find_sub, find_sub_in};
use crate::strutil::str_eq;
use crate::validators::{year_from_date, year_from_date_spec};

verus! {

/// One tokenized markup event of an Atom feed.
#[derive(Debug)]
pub enum AtomEvent {
    /// An element starts; its tag name.
    Start(String),
    /// An element ends; its tag name.
    End(String),
    /// Unescaped text inside the current element.
    Text(String),
}

/// Mathematical model of an [`AtomEvent`].
#[verifier::ext_equal]
pub ghost enum AtomEventModel {
    Start(Seq<char>),
    End(Seq<char>),
    Text(Seq<char>),
}

impl View for AtomEvent {
    type V = AtomEventModel;

    open spec fn view(&self) -> AtomEventModel {
        match self {
            AtomEvent::Start(n) => AtomEventModel::Start(n@),
            AtomEvent::End(n) => AtomEventModel::End(n@),
            AtomEvent::Text(t) => AtomEventModel::Text(t@),
        }
    }
}

impl DeepView for AtomEvent {
    type V = AtomEventModel;

    open spec fn deep_view(&self) -> AtomEventModel {
        self.view()
    }
}

/// The walker's state between events.
#[verifier::ext_equal]
pub ghost struct AtomState {
    /// The completed records, in feed order.
    pub entries: Seq<EntryModel>,
    /// The record being filled, between `entry` start and end.
    pub current: Option<EntryModel>,
    /// The tag of the innermost started element.
    pub tag: Seq<char>,
    /// Whether an `author` element is open.
    pub in_author: bool,
    /// The author name text read so far.
    pub author: Seq<char>,
}

/// The state before any event.
pub open spec fn atom_init() -> AtomState {
    AtomState {
        entries: Seq::empty(),
        current: None,
        tag: Seq::empty(),
        in_author: false,
        author: Seq::empty(),
    }
}

/// A fresh record: empty key, type `article`, everything else absent.
pub open spec fn fresh_entry() -> EntryModel {
    EntryModel {
        key: Seq::empty(),
        entry_type: "article"@,
        title: None,
        authors: Seq::empty(),
        year: None,
        venue: None,
        doi: None,
        arxiv_id: None,
        url: None,
    }
}

/// The record with its title replaced.
pub open spec fn set_title(e: EntryModel, t: Seq<char>) -> EntryModel {
    EntryModel {
        key: e.key,
        entry_type: e.entry_type,
        title: Some(t),
        authors: e.authors,
        year: e.year,
        venue: e.venue,
        doi: e.doi,
        arxiv_id: e.arxiv_id,
        url: e.url,
    }
}

/// The record with the arXiv identifier set and used as the key.
pub open spec fn set_arxiv(e: EntryModel, id: Seq<char>) -> EntryModel {
    EntryModel {
        key: id,
        entry_type: e.entry_type,
        title: e.title,
        authors: e.authors,
        year: e.year,
        venue: e.venue,
        doi: e.doi,
        arxiv_id: Some(id),
        url: e.url,
    }
}

/// The record with its year replaced.
pub open spec fn set_year(e: EntryModel, y: Option<i32>) -> EntryModel {
    EntryModel {
        key: e.key,
        entry_type: e.entry_type,
        title: e.title,
        authors: e.authors,
        year: y,
        venue: e.venue,
        doi: e.doi,
        arxiv_id: e.arxiv_id,
        url: e.url,
    }
}

/// The record with its DOI replaced.
pub open spec fn set_doi(e: EntryModel, d: Seq<char>) -> EntryModel {
    EntryModel {
        key: e.key,
        entry_type: e.entry_type,
        title: e.title,
        authors: e.authors,
        year: e.year,
        venue: e.venue,
        doi: Some(d),
        arxiv_id: e.arxiv_id,
        url: e.url,
    }
}

/// The record with one more author appended.
pub open spec fn push_author(e: EntryModel, a: Seq<char>) -> EntryModel {
    EntryModel {
        key: e.key,
        entry_type: e.entry_type,
        title: e.title,
        authors: e.authors.push(a),
        year: e.year,
        venue: e.venue,
        doi: e.doi,
        arxiv_id: e.arxiv_id,
        url: e.url,
    }
}

/// What an `id` URL yields: the segment after the first `arxiv.org/abs/`
/// and before any further occurrence of it.
pub open spec fn id_after_abs(s: Seq<char>) -> Seq<char> {
    let p = "arxiv.org/abs/"@;
    let i = find_sub(s, p, 0);
    let rest = s.skip(i + p.len());
    let j = find_sub(rest, p, 0);
    if j >= 0 {
        rest.take(j)
    } else {
        rest
    }
}

/// One step of the walk.
pub open spec fn atom_step(st: AtomState, ev: AtomEventModel) -> AtomState {
    match ev {
        AtomEventModel::Start(name) => {
            let st1 = AtomState {
                entries: st.entries,
                current: st.current,
                tag: name,
                in_author: st.in_author,
                author: st.author,
            };
            if name == "entry"@ {
                AtomState {
                    entries: st1.entries,
                    current: Some(fresh_entry()),
                    tag: st1.tag,
                    in_author: st1.in_author,
                    author: st1.author,
                }
            } else if name == "author"@ {
                AtomState {
                    entries: st1.entries,
                    current: st1.current,
                    tag: st1.tag,
                    in_author: true,
                    author: Seq::empty(),
                }
            } else {
                st1
            }
        },
        AtomEventModel::End(name) => {
            if name == "entry"@ {
                match st.current {
                    Some(e) => AtomState {
                        entries: if e.title is Some {
                            st.entries.push(e)
                        } else {
                            st.entries
                        },
                        current: None,
                        tag: st.tag,
                        in_author: st.in_author,
                        author: st.author,
                    },
                    None => st,
                }
            } else if name == "author"@ {
                let st1 = AtomState {
                    entries: st.entries,
                    current: st.current,
                    tag: st.tag,
                    in_author: false,
                    author: st.author,
                };
                match st.current {
                    Some(e) => if st.author.len() > 0 {
                        AtomState {
                            entries: st1.entries,
                            current: Some(push_author(e, st.author)),
                            tag: st1.tag,
                            in_author: st1.in_author,
                            author: st1.author,
                        }
                    } else {
                        st1
                    },
                    None => st1,
                }
            } else {
                st
            }
        },
        AtomEventModel::Text(text) => {
            match st.current {
                Some(e) => {
                    let with = |e2: EntryModel|
                        AtomState {
                            entries: st.entries,
                            current: Some(e2),
                            tag: st.tag,
                            in_author: st.in_author,
                            author: st.author,
                        };
                    if st.tag == "title"@ && !st.in_author {
                        with(set_title(e, join_sp(words_of(text))))
                    } else if st.tag == "id"@ {
                        if contains_sub(text, "arxiv.org/abs/"@) {
                            with(set_arxiv(e, id_after_abs(text)))
                        } else {
                            st
                        }
                    } else if st.tag == "published"@ {
                        with(set_year(e, year_from_date_spec(text)))
                    } else if st.tag == "name"@ && st.in_author {
                        AtomState {
                            entries: st.entries,
                            current: st.current,
                            tag: st.tag,
                            in_author: st.in_author,
                            author: text,
                        }
                    } else if st.tag == "arxiv:doi"@ || st.tag == "doi"@ {
                        with(set_doi(e, text))
                    } else {
                        st
                    }
                },
                None => st,
            }
        },
    }
}

/// The state after walking all the events.
pub open spec fn atom_run(evs: Seq<AtomEventModel>) -> AtomState
    decreases evs.len(),
{
    if evs.len() == 0 {
        atom_init()
    } else {
        atom_step(atom_run(evs.drop_last()), evs.last())
    }
}

/// The records an event sequence yields.
pub open spec fn atom_entries_spec(evs: Seq<AtomEventModel>) -> Seq<EntryModel> {
    atom_run(evs).entries
}

/// Extracts the segment after the first `arxiv.org/abs/` in an `id` URL,
/// up to any further occurrence of it.
fn id_segment(text: &str) -> (r: Option<String>)
    ensures
        (match r {
            Some(id) => contains_sub(text@, "arxiv.org/abs/"@) && id@ == id_after_abs(text@),
            None => !contains_sub(text@, "arxiv.org/abs/"@),
        }),
{
    let v = str_to_chars(text);
    let pat = crate::parser::pattern_chars("arxiv.org/abs/");
    proof {
        reveal_strlit("arxiv.org/abs/");
        assert(pat@.len() == 14);
    }
    match find_sub_in(&v, &pat, 0) {
        Some(i) => {
            let n = v.len();
            let start = i + 14;
            let mut rest: Vec<char> = Vec::new();
            let mut k: usize = start;
            while k < n
                invariant
                    start <= k <= n,
                    n == v@.len(),
                    rest@ == v@.subrange(start as int, k as int),
                decreases n - k,
            {
                proof {
                    assert(v@.subrange(start as int, k as int).push(v@[k as int]) =~= v@.subrange(
                        start as int,
                        k + 1 as int,
                    ));
                }
                rest.push(v[k]);
                k += 1;
            }
            proof {
                assert(rest@ =~= v@.skip(start as int));
            }
            match find_sub_in(&rest, &pat, 0) {
                Some(j) => {
                    let mut seg = rest;
                    seg.truncate(j);
                    proof {
                        assert(seg@ =~= id_after_abs(text@));
                    }
                    Some(chars_to_string(&seg))
                },
                None => {
                    proof {
                        assert(rest@ =~= id_after_abs(text@));
                    }
                    Some(chars_to_string(&rest))
                },
            }
        },
        None => None,
    }
}

/// Walks a tokenized Atom feed and yields one record per `entry` element
/// that carried a title: the whitespace-collapsed `title` text, the arXiv
/// identifier from the `id` URL (also used as the key), the year from the
/// leading digits of `published`, one author per `author` element's
/// `name`, and any `doi` text.
pub fn parse_arxiv_atom(events: &Vec<AtomEvent>) -> (r: Vec<Entry>)
    ensures
        r.deep_view() == atom_entries_spec(events.deep_view()),
{
    let ghost evs = events.deep_view();
    proof {
        assert(evs.len() == events@.len());
    }
    let n = events.len();
    let mut entries: Vec<Entry> = Vec::new();
    let mut current: Option<Entry> = None;
    let mut tag: String = String::new();
    let mut in_author: bool = false;
    let mut author: String = String::new();
    let mut i: usize = 0;
    proof {
        assert(evs.take(0) =~= Seq::<AtomEventModel>::empty());
        assert(entries.deep_view() =~= Seq::<EntryModel>::empty());
    }
    while i < n
        invariant
            i <= n,
            n == events@.len(),
            evs == events.deep_view(),
            evs.len() == n,
            entries.deep_view() == atom_run(evs.take(i as int)).entries,
            (match current {
                Some(e) => atom_run(evs.take(i as int)).current == Some(e@),
                None => atom_run(evs.take(i as int)).current is None,
            }),
            tag@ == atom_run(evs.take(i as int)).tag,
            in_author == atom_run(evs.take(i as int)).in_author,
            author@ == atom_run(evs.take(i as int)).author,
        decreases n - i,
    {
        proof {
            let t = evs.take(i + 1 as int);
            assert(t.drop_last() =~= evs.take(i as int));
            assert(t.last() == evs[i as int]);
        }
        let ghost pre = atom_run(evs.take(i as int));
        let ghost post = atom_run(evs.take(i + 1 as int));
        proof {
            assert(post == atom_step(pre, evs[i as int]));
        }
        match &events[i] {
            AtomEvent::Start(name) => {
                tag = name.clone();
                if str_eq(name.as_str(), "entry") {
                    current = Some(Entry::new(String::new(), "article".to_owned()));
                    proof {
                        let e = match &current {
                            Some(e) => e@,
                            None => fresh_entry(),
                        };
                        assert(e =~= fresh_entry());
                    }
                } else if str_eq(name.as_str(), "author") {
                    in_author = true;
                    author = String::new();
                }
            },
            AtomEvent::End(name) => {
                if str_eq(name.as_str(), "entry") {
                    let taken = current.take();
                    match taken {
                        Some(e) => {
                            if e.title.is_some() {
                                let ghost prev = entries.deep_view();
                                let ghost em = e@;
                                entries.push(e);
                                proof {
                                    assert(entries.deep_view() =~= prev.push(em));
                                }
                            }
                        },
                        None => {},
                    }
                } else if str_eq(name.as_str(), "author") {
                    in_author = false;
                    match &mut current {
                        Some(e) => {
                            if !author.as_str().is_empty() {
                                let ghost em = e@;
                                let ghost prev = e.authors.deep_view();
                                e.authors.push(author.clone());
                                proof {
                                    assert(e.authors.deep_view() =~= prev.push(author@));
                                    assert(e@ =~= push_author(em, author@));
                                }
                            }
                        },
                        None => {},
                    }
                }
            },
            AtomEvent::Text(text) => {
                match &mut current {
                    Some(e) => {
                        if str_eq(tag.as_str(), "title") && !in_author {
                            let ghost em = e@;
                            e.title = Some(collapse_ws(text.as_str()));
                            proof {
                                assert(e@ =~= set_title(em, join_sp(words_of(text@))));
                            }
                        } else if str_eq(tag.as_str(), "id") {
                            match id_segment(text.as_str()) {
                                Some(id) => {
                                    let ghost em = e@;
                                    e.arxiv_id = Some(id.clone());
                                    e.key = id;
                                    proof {
                                        assert(e@ =~= set_arxiv(em, id_after_abs(text@)));
                                    }
                                },
                                None => {},
                            }
                        } else if str_eq(tag.as_str(), "published") {
                            let ghost em = e@;
                            e.year = year_from_date(text.as_str());
                            proof {
                                assert(e@ =~= set_year(em, year_from_date_spec(text@)));
                            }
                        } else if str_eq(tag.as_str(), "name") && in_author {
                            author = text.clone();
                        } else if str_eq(tag.as_str(), "arxiv:doi") || str_eq(
                            tag.as_str(),
                            "doi",
                        ) {
                            let ghost em = e@;
                            e.doi = Some(text.clone());
                            proof {
                                assert(e@ =~= set_doi(em, text@));
                            }
                        }
                    },
                    None => {},
                }
            },
        }
        i += 1;
    }
    proof {
        assert(evs.take(n as int) =~= evs);
    }
    entries
}

} // verus!
