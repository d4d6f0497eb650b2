use bibval::entry::{ApiSource, DiscrepancyField, Entry, Severity};
use bibval::norm::normalize_string;
use bibval::report::{truncate, EntryReport, EntryStatus, Report};

#[test]
fn normalization_lowercases_filters_and_collapses() {
    assert_eq!(normalize_string("  Hello,   WORLD!  "), "hello world");
    assert_eq!(normalize_string("A-B c"), "ab c");
    assert_eq!(normalize_string(""), "");
    assert_eq!(normalize_string("..."), "");
}

#[test]
fn normalization_is_idempotent_at_runtime() {
    for s in [
        "  Hello,   WORLD!  ",
        "Größe — Test",
        "ΣΙΣΥΦΟΣ",
        "Tabs\tand\nnewlines",
        "",
        "already normal",
    ] {
        let once = normalize_string(s);
        let twice = normalize_string(&once);
        assert_eq!(once, twice);
    }
}

#[test]
fn normalized_entry_accessors() {
    let mut e = Entry::new("k".to_string(), "article".to_string());
    assert_eq!(e.normalized_title(), None);
    e.title = Some("  A   GREAT Paper! ".to_string());
    e.authors = vec!["John SMITH".to_string(), " Jane  Doe ".to_string()];
    assert_eq!(e.normalized_title(), Some("a great paper".to_string()));
    assert_eq!(
        e.normalized_authors(),
        vec!["john smith".to_string(), "jane doe".to_string()]
    );
}

#[test]
fn entry_new_starts_empty() {
    let e = Entry::new("key1".to_string(), "book".to_string());
    assert_eq!(e.key, "key1");
    assert_eq!(e.entry_type, "book");
    assert!(e.title.is_none());
    assert!(e.authors.is_empty());
    assert!(e.year.is_none());
    assert!(e.venue.is_none());
    assert!(e.doi.is_none());
    assert!(e.arxiv_id.is_none());
    assert!(e.url.is_none());
}

#[test]
fn truncate_keeps_short_strings() {
    assert_eq!(truncate("hello", 10), "hello");
    assert_eq!(truncate("abcdefgh", 8), "abcdefgh");
}

#[test]
fn truncate_shortens_long_strings() {
    assert_eq!(truncate("abcdefghij", 8), "abcde...");
    assert_eq!(truncate("abcd", 3), "...");
}

#[test]
fn labels_and_names() {
    assert_eq!(ApiSource::CrossRef.name(), "CrossRef");
    assert_eq!(ApiSource::Dblp.name(), "DBLP");
    assert_eq!(ApiSource::ArXiv.name(), "ArXiv");
    assert_eq!(ApiSource::SemanticScholar.name(), "Semantic Scholar");
    assert_eq!(ApiSource::Zenodo.name(), "Zenodo");
    assert_eq!(DiscrepancyField::Doi.label(), "DOI");
    assert_eq!(DiscrepancyField::Title.label(), "Title");
    assert_eq!(Severity::Info.label(), "INFO");
    assert_eq!(Severity::Warning.label(), "WARNING");
    assert_eq!(Severity::Error.label(), "ERROR");
}

#[test]
fn report_counts_by_status() {
    let mut report = Report::new();
    let statuses = vec![
        EntryStatus::Validated(ApiSource::CrossRef),
        EntryStatus::Warning,
        EntryStatus::Error,
        EntryStatus::Error,
        EntryStatus::NotFound,
        EntryStatus::Failed("boom".to_string()),
    ];
    for (i, status) in statuses.into_iter().enumerate() {
        report.add(EntryReport {
            entry: Entry::new(format!("k{}", i), "article".to_string()),
            status,
            validation_results: vec![],
        });
    }
    assert_eq!(report.entries.len(), 6);
    assert_eq!(report.count_ok(), 1);
    assert_eq!(report.count_warnings(), 1);
    assert_eq!(report.count_errors(), 2);
    assert_eq!(report.count_not_found(), 1);
}
