use bibval::parser::{
    extract_arxiv_from_url, extract_doi_from_url, extract_year_from_string, is_arxiv_id,
    ParseError,
};

#[test]
fn test_is_arxiv_id() {
    assert!(is_arxiv_id("2301.12345"));
    assert!(is_arxiv_id("2301.12345v1"));
    assert!(is_arxiv_id("hep-th/9901001"));
    assert!(!is_arxiv_id("not-an-arxiv-id"));
    assert!(!is_arxiv_id("10.1234/example"));
}

#[test]
fn test_extract_arxiv_from_url() {
    assert_eq!(
        extract_arxiv_from_url("https://arxiv.org/abs/2301.12345"),
        Some("2301.12345".to_string())
    );
    assert_eq!(
        extract_arxiv_from_url("https://arxiv.org/pdf/2301.12345.pdf"),
        Some("2301.12345".to_string())
    );
    assert_eq!(extract_arxiv_from_url("https://example.com"), None);
}

#[test]
fn arxiv_id_ignores_surrounding_whitespace() {
    assert!(is_arxiv_id("  2301.12345 "));
    assert!(!is_arxiv_id("23011.12345"));
    assert!(!is_arxiv_id("2301.12a45"));
}

#[test]
fn arxiv_url_with_version_suffix() {
    assert_eq!(
        extract_arxiv_from_url("http://arxiv.org/abs/2301.12345v1"),
        Some("2301.12345v1".to_string())
    );
    assert_eq!(
        extract_arxiv_from_url("https://arxiv.org/abs/not-an-id"),
        None
    );
}

#[test]
fn doi_extraction_from_urls() {
    assert_eq!(
        extract_doi_from_url("https://doi.org/10.1234/example"),
        Some("10.1234/example".to_string())
    );
    assert_eq!(
        extract_doi_from_url("https://dx.doi.org/10.5555/other"),
        Some("10.5555/other".to_string())
    );
    assert_eq!(extract_doi_from_url("https://doi.org/zz.123"), None);
    assert_eq!(extract_doi_from_url("https://example.com/10.1234"), None);
}

#[test]
fn year_extractor_boundaries() {
    assert_eq!(extract_year_from_string("2023-01-15T00:00:00Z"), Some(2023));
    assert_eq!(extract_year_from_string("42-7-8"), None);
    assert_eq!(extract_year_from_string("1899"), None);
    assert_eq!(extract_year_from_string("1900"), Some(1900));
    assert_eq!(extract_year_from_string("2099"), Some(2099));
    assert_eq!(extract_year_from_string("x2020y"), Some(2020));
    // A run of five digits is not a four-digit year.
    assert_eq!(extract_year_from_string("20231"), None);
    assert_eq!(extract_year_from_string("abc 1850 then 2001"), Some(2001));
}

#[test]
fn parse_error_messages() {
    let io = ParseError::IoError("no such file".to_string());
    assert_eq!(io.message(), "Failed to read file: no such file");
    let parse = ParseError::ParseError("unbalanced brace".to_string());
    assert_eq!(parse.message(), "Failed to parse BibTeX: unbalanced brace");
}
