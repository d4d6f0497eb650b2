use bibval::entry::{DiscrepancyField, Entry, Severity};
use bibval::matcher::{compare_entries, find_best_match, title_similarity};

fn entry_with_title(key: &str, title: &str) -> Entry {
    let mut e = Entry::new(key.to_string(), "article".to_string());
    e.title = Some(title.to_string());
    e
}

#[test]
fn test_title_similarity() {
    let mut a = Entry::new("a".to_string(), "article".to_string());
    a.title = Some("Deep Learning for Image Classification".to_string());

    let mut b = Entry::new("b".to_string(), "article".to_string());
    b.title = Some("Deep Learning for Image Classification".to_string());

    assert!(title_similarity(&a, &b) > (0.99f64).to_bits());

    b.title = Some("Deep Learning for Image Recognition".to_string());
    assert!(title_similarity(&a, &b) > (0.85f64).to_bits());

    b.title = Some("Quantum Computing in Finance".to_string());
    assert!(title_similarity(&a, &b) < (0.7f64).to_bits());
}

#[test]
fn test_year_mismatch() {
    let mut local = Entry::new("test".to_string(), "article".to_string());
    local.title = Some("Test Paper".to_string());
    local.year = Some(2021);

    let mut remote = Entry::new("test".to_string(), "article".to_string());
    remote.title = Some("Test Paper".to_string());
    remote.year = Some(2020);

    let discrepancies = compare_entries(&local, &remote);
    assert!(discrepancies.iter().any(|d| d.field == DiscrepancyField::Year));
}

#[test]
fn identical_titles_give_exactly_one() {
    let a = entry_with_title("a", "A Great Paper");
    let b = entry_with_title("b", "A Great Paper");
    assert_eq!(title_similarity(&a, &b), (1.0f64).to_bits());
}

#[test]
fn absent_title_gives_zero() {
    let a = Entry::new("a".to_string(), "article".to_string());
    let b = entry_with_title("b", "A Great Paper");
    assert_eq!(title_similarity(&a, &b), 0);
    assert_eq!(title_similarity(&b, &a), 0);
}

#[test]
fn self_comparison_yields_no_discrepancies() {
    let mut e = entry_with_title("k", "A Great Paper");
    e.year = Some(2020);
    e.authors = vec!["John Smith".to_string(), "Jane Doe".to_string()];
    e.venue = Some("Nature".to_string());
    e.doi = Some("10.1234/example".to_string());
    let discrepancies = compare_entries(&e, &e);
    assert_eq!(discrepancies.len(), 0);
}

#[test]
fn dissimilar_title_is_error_with_percent() {
    let a = entry_with_title("a", "ab");
    let b = entry_with_title("b", "ba");
    let discrepancies = compare_entries(&a, &b);
    assert_eq!(discrepancies.len(), 1);
    assert_eq!(discrepancies[0].field, DiscrepancyField::Title);
    assert_eq!(discrepancies[0].severity, Severity::Error);
    assert_eq!(
        discrepancies[0].message,
        "Title significantly different (similarity: 0%)"
    );
}

#[test]
fn year_mismatch_message_is_exact() {
    let mut local = entry_with_title("a", "Same Title");
    local.year = Some(2021);
    let mut remote = entry_with_title("b", "Same Title");
    remote.year = Some(2020);
    let discrepancies = compare_entries(&local, &remote);
    assert_eq!(discrepancies.len(), 1);
    assert_eq!(discrepancies[0].local_value, "2021");
    assert_eq!(discrepancies[0].remote_value, "2020");
    assert_eq!(discrepancies[0].message, "Year mismatch: 2021 vs 2020");
}

#[test]
fn author_count_and_spelling_warnings() {
    let mut local = entry_with_title("a", "Same Title");
    local.authors = vec!["ab".to_string()];
    let mut remote = entry_with_title("b", "Same Title");
    remote.authors = vec!["ba".to_string(), "cd".to_string()];
    let discrepancies = compare_entries(&local, &remote);
    assert_eq!(discrepancies.len(), 2);
    assert_eq!(discrepancies[0].field, DiscrepancyField::Authors);
    assert_eq!(
        discrepancies[0].message,
        "Author count differs: 1 (local) vs 2 (remote)"
    );
    assert_eq!(discrepancies[0].local_value, "1 authors");
    assert_eq!(discrepancies[0].remote_value, "2 authors");
    assert_eq!(discrepancies[1].field, DiscrepancyField::Authors);
    assert_eq!(
        discrepancies[1].message,
        "Author name spelling may differ: 'ab' vs 'ba'"
    );
}

#[test]
fn empty_author_list_emits_nothing() {
    let mut local = entry_with_title("a", "Same Title");
    local.authors = vec![];
    let mut remote = entry_with_title("b", "Same Title");
    remote.authors = vec!["Jane Doe".to_string()];
    let discrepancies = compare_entries(&local, &remote);
    assert_eq!(discrepancies.len(), 0);
}

#[test]
fn missing_doi_is_warned() {
    let local = entry_with_title("a", "Same Title");
    let mut remote = entry_with_title("b", "Same Title");
    remote.doi = Some("10.1234/example".to_string());
    let discrepancies = compare_entries(&local, &remote);
    assert_eq!(discrepancies.len(), 1);
    assert_eq!(discrepancies[0].field, DiscrepancyField::Doi);
    assert_eq!(discrepancies[0].severity, Severity::Warning);
    assert_eq!(discrepancies[0].local_value, "(none)");
    assert_eq!(discrepancies[0].remote_value, "10.1234/example");
    assert_eq!(discrepancies[0].message, "Missing DOI in local entry");
}

#[test]
fn different_venue_is_info() {
    let mut local = entry_with_title("a", "Same Title");
    local.venue = Some("ab".to_string());
    let mut remote = entry_with_title("b", "Same Title");
    remote.venue = Some("ba".to_string());
    let discrepancies = compare_entries(&local, &remote);
    assert_eq!(discrepancies.len(), 1);
    assert_eq!(discrepancies[0].field, DiscrepancyField::Venue);
    assert_eq!(discrepancies[0].severity, Severity::Info);
    assert_eq!(discrepancies[0].message, "Venue name differs");
}

#[test]
fn find_best_match_none_below_threshold() {
    let target = entry_with_title("t", "Deep Learning for Image Classification");
    let candidates = vec![
        entry_with_title("c1", "Quantum Computing in Finance"),
        entry_with_title("c2", "A Survey of Bird Songs"),
    ];
    assert!(find_best_match(&target, &candidates).is_none());
}

#[test]
fn find_best_match_picks_highest() {
    let target = entry_with_title("t", "Deep Learning for Image Classification");
    let candidates = vec![
        entry_with_title("c1", "Deep Learning for Image Recognition"),
        entry_with_title("c2", "Deep Learning for Image Classification"),
    ];
    let (best, sim) = find_best_match(&target, &candidates).unwrap();
    assert_eq!(best.key, "c2");
    assert_eq!(sim, (1.0f64).to_bits());
    assert!(sim >= (0.85f64).to_bits());
}
