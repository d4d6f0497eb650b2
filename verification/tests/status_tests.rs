use bibval::entry::{ApiSource, Discrepancy, DiscrepancyField, Entry, Severity, ValidationResult};
use bibval::fusion::FusedResult;
use bibval::report::EntryStatus;
use bibval::validators::ValidatorError;
use bibval::{
    assemble_report, compute_status, determine_status, is_valid_id_match, record_id_lookup,
    record_title_search, Probe,
};

fn make_validation_result(severity: Severity) -> ValidationResult {
    ValidationResult {
        source: ApiSource::CrossRef,
        matched_entry: None,
        confidence: (1.0f64).to_bits(),
        discrepancies: vec![Discrepancy {
            field: DiscrepancyField::Title,
            severity,
            local_value: "local".to_string(),
            remote_value: "remote".to_string(),
            message: "difference".to_string(),
        }],
    }
}

fn entry_with_title(key: &str, title: &str) -> Entry {
    let mut e = Entry::new(key.to_string(), "article".to_string());
    e.title = Some(title.to_string());
    e
}

#[test]
fn status_drops_to_warning_when_validator_reports_warning() {
    let fused = FusedResult {
        sources: vec![ApiSource::CrossRef],
        discrepancies: vec![],
        has_matches: true,
    };

    let validation_results = vec![make_validation_result(Severity::Warning)];
    let status = compute_status(&fused, &validation_results, &Vec::new());

    assert!(matches!(status, EntryStatus::Warning));
}

#[test]
fn api_errors_turn_not_found_into_failed() {
    let fused = FusedResult { sources: vec![], discrepancies: vec![], has_matches: false };

    let status = compute_status(
        &fused,
        &Vec::new(),
        &vec![String::from("CrossRef rate limited")],
    );
    assert!(matches!(status, EntryStatus::Failed(_)));
    if let EntryStatus::Failed(msg) = status {
        assert_eq!(msg, "CrossRef rate limited");
    }
}

#[test]
fn downgrade_never_promotes() {
    // A fused error stays an error even when individual results are clean.
    let fused = FusedResult {
        sources: vec![ApiSource::CrossRef],
        discrepancies: vec![Discrepancy {
            field: DiscrepancyField::Year,
            severity: Severity::Error,
            local_value: "2020".to_string(),
            remote_value: "2019".to_string(),
            message: "Year mismatch: 2020 vs 2019".to_string(),
        }],
        has_matches: true,
    };
    assert!(matches!(determine_status(&fused), EntryStatus::Error));
    let status = compute_status(&fused, &Vec::new(), &Vec::new());
    assert!(matches!(status, EntryStatus::Error));
}

#[test]
fn clean_consensus_is_validated_by_first_source() {
    let fused = FusedResult {
        sources: vec![ApiSource::Dblp, ApiSource::CrossRef],
        discrepancies: vec![],
        has_matches: true,
    };
    let status = compute_status(&fused, &Vec::new(), &Vec::new());
    assert!(matches!(status, EntryStatus::Validated(ApiSource::Dblp)));
}

#[test]
fn single_provider_title_error_downgrades_to_error() {
    // One provider flags a title error; fusion suppresses it, but the
    // downgrade rule still reports the entry as an error.
    let mut local = entry_with_title("k", "A Great Paper");
    local.year = Some(2020);
    let mut remote = entry_with_title("r", "A Great Paper");
    remote.year = Some(2020);

    let result = ValidationResult {
        source: ApiSource::CrossRef,
        matched_entry: Some(remote),
        confidence: (0.9f64).to_bits(),
        discrepancies: vec![Discrepancy {
            field: DiscrepancyField::Title,
            severity: Severity::Error,
            local_value: "A Great Paper".to_string(),
            remote_value: "Something Else".to_string(),
            message: "Title significantly different (similarity: 40%)".to_string(),
        }],
    };
    let report = assemble_report(&local, &vec![result], &Vec::new());
    // Fusion emitted no title error (single source), yet the status is Error.
    assert!(matches!(report.status, EntryStatus::Error));
    // The synthetic fused result was appended last.
    assert_eq!(report.validation_results.len(), 2);
    assert!(report.validation_results[1].matched_entry.is_none());
}

#[test]
fn wrong_paper_from_id_lookup_is_discarded() {
    let mut local = entry_with_title("k", "Deep Learning for Image Classification");
    local.doi = Some("10.1234/example".to_string());
    let wrong = entry_with_title("r", "A Totally Unrelated Treatise on Cheese");

    assert!(!is_valid_id_match(&local, &wrong));

    let probe = Probe::CrossrefDoi { doi: "10.1234/example".to_string() };
    let mut results: Vec<ValidationResult> = Vec::new();
    let mut errors: Vec<String> = Vec::new();
    record_id_lookup(&local, &probe, Ok(Some(wrong)), &mut results, &mut errors);
    assert!(results.is_empty());
    assert!(errors.is_empty());

    let report = assemble_report(&local, &results, &errors);
    assert!(matches!(report.status, EntryStatus::NotFound));
}

#[test]
fn accepted_id_match_has_full_confidence_when_clean() {
    let mut local = entry_with_title("k", "A Great Paper");
    local.doi = Some("10.1234/example".to_string());
    let mut remote = entry_with_title("r", "A Great Paper");
    remote.doi = Some("10.1234/example".to_string());

    let probe = Probe::CrossrefDoi { doi: "10.1234/example".to_string() };
    let mut results: Vec<ValidationResult> = Vec::new();
    let mut errors: Vec<String> = Vec::new();
    record_id_lookup(&local, &probe, Ok(Some(remote)), &mut results, &mut errors);
    assert_eq!(results.len(), 1);
    assert_eq!(results[0].source, ApiSource::CrossRef);
    assert_eq!(results[0].confidence, (1.0f64).to_bits());
    assert!(results[0].discrepancies.is_empty());
}

#[test]
fn rate_limited_probes_turn_into_failed() {
    // No title, and every consulted provider is rate limited.
    let mut local = Entry::new("k".to_string(), "article".to_string());
    local.doi = Some("10.1234/example".to_string());
    local.arxiv_id = Some("2301.12345".to_string());

    let mut results: Vec<ValidationResult> = Vec::new();
    let mut errors: Vec<String> = Vec::new();
    record_id_lookup(
        &local,
        &Probe::CrossrefDoi { doi: "10.1234/example".to_string() },
        Err(ValidatorError::RateLimited),
        &mut results,
        &mut errors,
    );
    record_id_lookup(
        &local,
        &Probe::ArxivId { id: "2301.12345".to_string() },
        Err(ValidatorError::RateLimited),
        &mut results,
        &mut errors,
    );
    assert!(results.is_empty());
    assert_eq!(errors.len(), 2);

    let report = assemble_report(&local, &results, &errors);
    match report.status {
        EntryStatus::Failed(msg) => {
            assert_eq!(
                msg,
                "CrossRef DOI lookup failed: Rate limited, try again later; \
                 ArXiv lookup failed: Rate limited, try again later"
            );
        }
        other => panic!("expected Failed, got {:?}", other),
    }
}

#[test]
fn title_search_records_best_candidate() {
    let local = entry_with_title("k", "Deep Learning for Image Classification");
    let candidates = vec![
        entry_with_title("c1", "Quantum Computing in Finance"),
        entry_with_title("c2", "Deep Learning for Image Classification"),
    ];
    let mut results: Vec<ValidationResult> = Vec::new();
    let mut errors: Vec<String> = Vec::new();
    record_title_search(
        &local,
        ApiSource::Dblp,
        Ok(candidates),
        &mut results,
        &mut errors,
    );
    assert_eq!(results.len(), 1);
    assert_eq!(results[0].source, ApiSource::Dblp);
    assert_eq!(results[0].confidence, (1.0f64).to_bits());
    assert_eq!(
        results[0].matched_entry.as_ref().unwrap().key,
        "c2".to_string()
    );
}

#[test]
fn title_search_failure_is_recorded() {
    let local = entry_with_title("k", "A Great Paper");
    let mut results: Vec<ValidationResult> = Vec::new();
    let mut errors: Vec<String> = Vec::new();
    record_title_search(
        &local,
        ApiSource::SemanticScholar,
        Err(ValidatorError::ParseError("bad json".to_string())),
        &mut results,
        &mut errors,
    );
    assert!(results.is_empty());
    assert_eq!(errors.len(), 1);
    assert_eq!(
        errors[0],
        "Semantic Scholar lookup failed: Failed to parse response: bad json"
    );
}
