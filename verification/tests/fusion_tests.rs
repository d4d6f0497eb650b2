use bibval::entry::{ApiSource, Discrepancy, DiscrepancyField, Entry, Severity, ValidationResult};
use bibval::fusion::{fuse_results, fuse_title, fuse_year};

fn make_result(source: ApiSource, year: Option<i32>) -> ValidationResult {
    let mut entry = Entry::new("test".to_string(), "article".to_string());
    entry.year = year;
    ValidationResult {
        source,
        matched_entry: Some(entry),
        confidence: (0.9f64).to_bits(),
        discrepancies: vec![],
    }
}

fn title_error(msg: &str) -> Discrepancy {
    Discrepancy {
        field: DiscrepancyField::Title,
        severity: Severity::Error,
        local_value: "local title".to_string(),
        remote_value: "remote title".to_string(),
        message: msg.to_string(),
    }
}

#[test]
fn test_year_consensus() {
    let mut local = Entry::new("test".to_string(), "article".to_string());
    local.year = Some(2020);

    let results = vec![
        make_result(ApiSource::CrossRef, Some(2019)),
        make_result(ApiSource::Dblp, Some(2019)),
        make_result(ApiSource::SemanticScholar, Some(2020)),
    ];

    let refs: Vec<&ValidationResult> = results.iter().collect();
    let discrepancy = fuse_year(&local, &refs);

    // 2 validators say 2019, 1 says 2020 - should report 2019 as consensus
    assert!(discrepancy.is_some());
    let d = discrepancy.unwrap();
    assert_eq!(d.remote_value, "2019");
}

#[test]
fn test_no_consensus_no_error() {
    let mut local = Entry::new("test".to_string(), "article".to_string());
    local.year = Some(2020);

    let results = vec![
        make_result(ApiSource::CrossRef, Some(2019)),
        make_result(ApiSource::Dblp, Some(2018)),
        make_result(ApiSource::SemanticScholar, Some(2020)),
    ];

    let refs: Vec<&ValidationResult> = results.iter().collect();
    let discrepancy = fuse_year(&local, &refs);

    // No consensus (all different years) - shouldn't report error
    assert!(discrepancy.is_none());
}

#[test]
fn year_consensus_names_its_witnesses() {
    let mut local = Entry::new("test".to_string(), "article".to_string());
    local.year = Some(2020);
    let results = vec![
        make_result(ApiSource::CrossRef, Some(2019)),
        make_result(ApiSource::Dblp, Some(2019)),
        make_result(ApiSource::SemanticScholar, Some(2020)),
    ];
    let fused = fuse_results(&local, &results);
    assert!(fused.has_matches);
    let year_errors: Vec<&Discrepancy> = fused
        .discrepancies
        .iter()
        .filter(|d| d.field == DiscrepancyField::Year)
        .collect();
    assert_eq!(year_errors.len(), 1);
    assert_eq!(year_errors[0].severity, Severity::Error);
    assert_eq!(year_errors[0].local_value, "2020");
    assert_eq!(year_errors[0].remote_value, "2019");
    assert_eq!(
        year_errors[0].message,
        "Year mismatch: 2020 vs 2019 (agreed by CrossRef, DBLP)"
    );
}

#[test]
fn no_year_consensus_emits_nothing() {
    let mut local = Entry::new("test".to_string(), "article".to_string());
    local.year = Some(2020);
    let results = vec![
        make_result(ApiSource::CrossRef, Some(2019)),
        make_result(ApiSource::Dblp, Some(2018)),
        make_result(ApiSource::SemanticScholar, Some(2020)),
    ];
    let fused = fuse_results(&local, &results);
    assert!(fused.has_matches);
    assert!(!fused
        .discrepancies
        .iter()
        .any(|d| d.field == DiscrepancyField::Year));
}

#[test]
fn single_title_error_is_suppressed() {
    let local = Entry::new("test".to_string(), "article".to_string());
    let mut r = make_result(ApiSource::CrossRef, None);
    r.discrepancies = vec![title_error("Title significantly different (similarity: 40%)")];
    let refs: Vec<&ValidationResult> = vec![&r];
    assert!(fuse_title(&local, &refs).is_none());
}

#[test]
fn confirmed_title_error_names_both_sources() {
    let local = Entry::new("test".to_string(), "article".to_string());
    let mut r1 = make_result(ApiSource::CrossRef, None);
    r1.discrepancies = vec![title_error("Title significantly different (similarity: 40%)")];
    let mut r2 = make_result(ApiSource::Dblp, None);
    r2.discrepancies = vec![title_error("Title significantly different (similarity: 35%)")];
    let refs: Vec<&ValidationResult> = vec![&r1, &r2];
    let d = fuse_title(&local, &refs).unwrap();
    assert_eq!(d.field, DiscrepancyField::Title);
    assert_eq!(d.severity, Severity::Error);
    assert_eq!(d.local_value, "local title");
    assert_eq!(d.remote_value, "remote title");
    assert_eq!(
        d.message,
        "Title significantly different (similarity: 40%) (confirmed by CrossRef, DBLP)"
    );
}

#[test]
fn missing_doi_surfaces_first_remote_doi() {
    let local = Entry::new("test".to_string(), "article".to_string());
    let mut r = make_result(ApiSource::CrossRef, None);
    if let Some(ref mut e) = r.matched_entry {
        e.doi = Some("10.1234/example".to_string());
    }
    let fused = fuse_results(&local, &vec![r]);
    let doi_warnings: Vec<&Discrepancy> = fused
        .discrepancies
        .iter()
        .filter(|d| d.field == DiscrepancyField::Doi)
        .collect();
    assert_eq!(doi_warnings.len(), 1);
    assert_eq!(doi_warnings[0].severity, Severity::Warning);
    assert_eq!(doi_warnings[0].remote_value, "10.1234/example");
}

#[test]
fn author_count_consensus_needs_two_or_a_single_match() {
    let mut local = Entry::new("test".to_string(), "article".to_string());
    local.authors = vec!["A".to_string(), "B".to_string()];

    let three_authors = |source: ApiSource| {
        let mut e = Entry::new("r".to_string(), "article".to_string());
        e.authors = vec!["A".to_string(), "B".to_string(), "C".to_string()];
        ValidationResult {
            source,
            matched_entry: Some(e),
            confidence: (0.9f64).to_bits(),
            discrepancies: vec![],
        }
    };

    // Two agreeing services: warning emitted.
    let fused = fuse_results(
        &local,
        &vec![three_authors(ApiSource::CrossRef), three_authors(ApiSource::Dblp)],
    );
    let warns: Vec<&Discrepancy> = fused
        .discrepancies
        .iter()
        .filter(|d| d.field == DiscrepancyField::Authors)
        .collect();
    assert_eq!(warns.len(), 1);
    assert_eq!(warns[0].message, "Author count differs: 2 (local) vs 3 (remote)");

    // One of two services disagreeing: suppressed.
    let fused2 = fuse_results(
        &local,
        &vec![three_authors(ApiSource::CrossRef), make_result(ApiSource::Dblp, None)],
    );
    assert!(!fused2
        .discrepancies
        .iter()
        .any(|d| d.field == DiscrepancyField::Authors));

    // A single matching service reporting it: emitted.
    let fused3 = fuse_results(&local, &vec![three_authors(ApiSource::CrossRef)]);
    assert!(fused3
        .discrepancies
        .iter()
        .any(|d| d.field == DiscrepancyField::Authors));
}

#[test]
fn unmatched_and_zero_confidence_results_are_dropped() {
    let local = Entry::new("test".to_string(), "article".to_string());
    let unmatched = ValidationResult {
        source: ApiSource::CrossRef,
        matched_entry: None,
        confidence: (1.0f64).to_bits(),
        discrepancies: vec![],
    };
    let mut zero_conf = make_result(ApiSource::Dblp, Some(2020));
    zero_conf.confidence = 0;
    let fused = fuse_results(&local, &vec![unmatched, zero_conf]);
    assert!(!fused.has_matches);
    assert!(fused.sources.is_empty());
    assert!(fused.discrepancies.is_empty());
}

#[test]
fn sources_are_deduplicated_in_order() {
    let local = Entry::new("test".to_string(), "article".to_string());
    let results = vec![
        make_result(ApiSource::Dblp, Some(2020)),
        make_result(ApiSource::CrossRef, Some(2020)),
        make_result(ApiSource::Dblp, Some(2020)),
    ];
    let fused = fuse_results(&local, &results);
    assert_eq!(fused.sources, vec![ApiSource::Dblp, ApiSource::CrossRef]);
}
