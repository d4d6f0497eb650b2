use bibval::validators::arxiv::{parse_arxiv_atom, AtomEvent};
use bibval::validators::crossref::{CrossRefAuthor, CrossRefDate, CrossRefWork};
use bibval::validators::dblp::{DblpAuthor, DblpAuthorList, DblpAuthors, DblpInfo};
use bibval::validators::semantic::{Author, ExternalIds, Paper};
use bibval::validators::zenodo::{Creator, Metadata, Record, ResourceType};
use bibval::validators::ValidatorError;

#[test]
fn test_parse_arxiv_atom() {
    let events = vec![
        AtomEvent::Start("feed".to_string()),
        AtomEvent::Start("entry".to_string()),
        AtomEvent::Start("id".to_string()),
        AtomEvent::Text("http://arxiv.org/abs/2301.12345v1".to_string()),
        AtomEvent::End("id".to_string()),
        AtomEvent::Start("title".to_string()),
        AtomEvent::Text("A Great Paper About Machine Learning".to_string()),
        AtomEvent::End("title".to_string()),
        AtomEvent::Start("published".to_string()),
        AtomEvent::Text("2023-01-15T00:00:00Z".to_string()),
        AtomEvent::End("published".to_string()),
        AtomEvent::Start("author".to_string()),
        AtomEvent::Start("name".to_string()),
        AtomEvent::Text("John Smith".to_string()),
        AtomEvent::End("name".to_string()),
        AtomEvent::End("author".to_string()),
        AtomEvent::Start("author".to_string()),
        AtomEvent::Start("name".to_string()),
        AtomEvent::Text("Jane Doe".to_string()),
        AtomEvent::End("name".to_string()),
        AtomEvent::End("author".to_string()),
        AtomEvent::End("entry".to_string()),
        AtomEvent::End("feed".to_string()),
    ];

    let entries = parse_arxiv_atom(&events);
    assert_eq!(entries.len(), 1);
    assert_eq!(
        entries[0].title,
        Some("A Great Paper About Machine Learning".to_string())
    );
    assert_eq!(entries[0].arxiv_id, Some("2301.12345v1".to_string()));
    assert_eq!(entries[0].key, "2301.12345v1".to_string());
    assert_eq!(entries[0].year, Some(2023));
    assert_eq!(entries[0].authors.len(), 2);
    assert_eq!(entries[0].authors[0], "John Smith");
    assert_eq!(entries[0].authors[1], "Jane Doe");
}

#[test]
fn atom_entry_without_title_is_dropped() {
    let events = vec![
        AtomEvent::Start("entry".to_string()),
        AtomEvent::Start("id".to_string()),
        AtomEvent::Text("http://arxiv.org/abs/2301.99999".to_string()),
        AtomEvent::End("id".to_string()),
        AtomEvent::End("entry".to_string()),
    ];
    assert!(parse_arxiv_atom(&events).is_empty());
}

#[test]
fn atom_title_whitespace_is_collapsed() {
    let events = vec![
        AtomEvent::Start("entry".to_string()),
        AtomEvent::Start("title".to_string()),
        AtomEvent::Text("A  Great\n   Paper".to_string()),
        AtomEvent::End("title".to_string()),
        AtomEvent::End("entry".to_string()),
    ];
    let entries = parse_arxiv_atom(&events);
    assert_eq!(entries.len(), 1);
    assert_eq!(entries[0].title, Some("A Great Paper".to_string()));
}

#[test]
fn crossref_work_maps_fields() {
    let work = CrossRefWork {
        doi: Some("10.1234/example".to_string()),
        title: Some(vec!["First Title".to_string(), "Second".to_string()]),
        author: Some(vec![
            CrossRefAuthor {
                given: Some("John".to_string()),
                family: Some("Smith".to_string()),
                name: None,
            },
            CrossRefAuthor { given: None, family: None, name: Some("The Collaboration".to_string()) },
            CrossRefAuthor { given: None, family: Some("Doe".to_string()), name: None },
        ]),
        container_title: Some(vec!["Nature".to_string()]),
        published: None,
        published_print: Some(CrossRefDate { date_parts: Some(vec![vec![2021, 3]]) }),
        published_online: None,
        work_type: Some("journal-article".to_string()),
    };
    let e = work.to_entry();
    assert_eq!(e.key, "10.1234/example");
    assert_eq!(e.entry_type, "journal-article");
    assert_eq!(e.title, Some("First Title".to_string()));
    assert_eq!(
        e.authors,
        vec![
            "John Smith".to_string(),
            "The Collaboration".to_string(),
            "Doe".to_string()
        ]
    );
    assert_eq!(e.venue, Some("Nature".to_string()));
    assert_eq!(e.year, Some(2021));
    assert_eq!(e.doi, Some("10.1234/example".to_string()));
}

#[test]
fn dblp_info_maps_fields() {
    let info = DblpInfo {
        title: Some("A Great Paper.".to_string()),
        authors: Some(DblpAuthors {
            author: DblpAuthorList::Multiple(vec![
                DblpAuthor::Simple("John Smith".to_string()),
                DblpAuthor::Complex { text: "Jane Doe".to_string() },
            ]),
        }),
        year: Some("2021".to_string()),
        venue: Some("CACM".to_string()),
        doi: None,
        pub_type: None,
        url: Some("https://dblp.org/rec/x".to_string()),
    };
    let e = info.to_entry();
    // One trailing period is stripped from the title.
    assert_eq!(e.title, Some("A Great Paper".to_string()));
    assert_eq!(e.year, Some(2021));
    assert_eq!(e.entry_type, "article");
    // Without a DOI the URL becomes the key.
    assert_eq!(e.key, "https://dblp.org/rec/x");
    assert_eq!(e.authors, vec!["John Smith".to_string(), "Jane Doe".to_string()]);
    assert_eq!(e.venue, Some("CACM".to_string()));
}

#[test]
fn dblp_unparsable_year_is_dropped() {
    let info = DblpInfo {
        title: None,
        authors: None,
        year: Some("circa 2020".to_string()),
        venue: None,
        doi: None,
        pub_type: None,
        url: None,
    };
    let e = info.to_entry();
    assert_eq!(e.year, None);
    assert_eq!(e.key, "unknown");
}

#[test]
fn semantic_paper_maps_fields() {
    let paper = Paper {
        paper_id: Some("abc123".to_string()),
        title: Some("A Great Paper".to_string()),
        authors: Some(vec![
            Author { name: Some("John Smith".to_string()) },
            Author { name: None },
            Author { name: Some("Jane Doe".to_string()) },
        ]),
        year: Some(2022),
        venue: Some("NeurIPS".to_string()),
        external_ids: Some(ExternalIds {
            doi: Some("10.1234/example".to_string()),
            arxiv: Some("2301.12345".to_string()),
        }),
    };
    let e = paper.to_entry();
    assert_eq!(e.key, "abc123");
    assert_eq!(e.entry_type, "article");
    assert_eq!(e.title, Some("A Great Paper".to_string()));
    // Authors without a name are skipped.
    assert_eq!(e.authors, vec!["John Smith".to_string(), "Jane Doe".to_string()]);
    assert_eq!(e.year, Some(2022));
    assert_eq!(e.doi, Some("10.1234/example".to_string()));
    assert_eq!(e.arxiv_id, Some("2301.12345".to_string()));
}

#[test]
fn zenodo_record_maps_fields() {
    let record = Record {
        id: Some(42),
        metadata: Metadata {
            title: Some("A Dataset".to_string()),
            creators: Some(vec![
                Creator { name: Some("Doe, Jane".to_string()) },
                Creator { name: None },
            ]),
            publication_date: Some("2023-01-15".to_string()),
            doi: Some("10.5281/zenodo.42".to_string()),
            resource_type: Some(ResourceType { kind: Some("dataset".to_string()) }),
        },
    };
    let e = record.to_entry();
    assert_eq!(e.key, "42");
    assert_eq!(e.entry_type, "dataset");
    assert_eq!(e.title, Some("A Dataset".to_string()));
    assert_eq!(e.year, Some(2023));
    assert_eq!(e.authors, vec!["Doe, Jane".to_string()]);
    assert_eq!(e.doi, Some("10.5281/zenodo.42".to_string()));
}

#[test]
fn zenodo_resource_types_map_to_entry_types() {
    let with_kind = |kind: Option<&str>| Record {
        id: None,
        metadata: Metadata {
            title: None,
            creators: None,
            publication_date: None,
            doi: None,
            resource_type: kind.map(|k| ResourceType { kind: Some(k.to_string()) }),
        },
    };
    assert_eq!(with_kind(Some("software")).to_entry().entry_type, "software");
    assert_eq!(with_kind(Some("publication")).to_entry().entry_type, "article");
    assert_eq!(with_kind(Some("poster")).to_entry().entry_type, "misc");
    assert_eq!(with_kind(None).to_entry().entry_type, "misc");
}

#[test]
fn validator_error_messages() {
    assert_eq!(
        ValidatorError::RequestError("timed out".to_string()).message(),
        "HTTP request failed: timed out"
    );
    assert_eq!(
        ValidatorError::ParseError("bad json".to_string()).message(),
        "Failed to parse response: bad json"
    );
    assert_eq!(
        ValidatorError::RateLimited.message(),
        "Rate limited, try again later"
    );
    assert_eq!(ValidatorError::NotFound.message(), "No results found");
}
