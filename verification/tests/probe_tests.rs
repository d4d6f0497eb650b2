use bibval::entry::{ApiSource, Entry};
use bibval::{id_probes, needs_title_search, title_probes, Probe, ValidatorConfig};

#[test]
fn default_config_enables_everything_but_openreview() {
    let c = ValidatorConfig::default();
    assert!(c.use_crossref);
    assert!(c.use_dblp);
    assert!(c.use_arxiv);
    assert!(c.use_semantic);
    assert!(c.use_openalex);
    assert!(c.use_openlibrary);
    assert!(!c.use_openreview);
    assert!(c.use_zenodo);
    assert!(c.cache_enabled);
}

#[test]
fn id_probes_follow_identifiers_and_config() {
    let config = ValidatorConfig::default();
    let mut e = Entry::new("k".to_string(), "article".to_string());
    assert!(id_probes(&e, &config).is_empty());

    e.doi = Some("10.1234/example".to_string());
    e.arxiv_id = Some("2301.12345".to_string());
    let probes = id_probes(&e, &config);
    assert_eq!(probes.len(), 3);
    assert!(matches!(&probes[0], Probe::CrossrefDoi { doi } if doi == "10.1234/example"));
    assert!(matches!(&probes[1], Probe::ArxivId { id } if id == "2301.12345"));
    assert!(matches!(&probes[2], Probe::SemanticArxiv { id } if id == "2301.12345"));

    let mut no_crossref = config;
    no_crossref.use_crossref = false;
    let probes = id_probes(&e, &no_crossref);
    assert_eq!(probes.len(), 2);
    assert!(matches!(&probes[0], Probe::ArxivId { .. }));
}

#[test]
fn title_probes_follow_title_and_config() {
    let config = ValidatorConfig::default();
    let mut e = Entry::new("k".to_string(), "article".to_string());
    assert!(title_probes(&e, &config).is_empty());

    e.title = Some("A Great Paper".to_string());
    let probes = title_probes(&e, &config);
    assert_eq!(probes.len(), 3);
    assert!(matches!(
        &probes[0],
        Probe::TitleSearch { source: ApiSource::Dblp, title } if title == "A Great Paper"
    ));
    assert!(matches!(
        &probes[1],
        Probe::TitleSearch { source: ApiSource::SemanticScholar, .. }
    ));
    assert!(matches!(
        &probes[2],
        Probe::TitleSearch { source: ApiSource::Zenodo, .. }
    ));
}

#[test]
fn title_search_runs_only_without_accepted_results() {
    let results = Vec::new();
    assert!(needs_title_search(&results));
}
