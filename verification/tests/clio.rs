use lit::api::clio::{clio_db_path, extract_4digit_year, extract_doi_from_url, parse_marcxml, parse_marcxml_gz, parse_search, row_to_paper};
use std::io::Write;
use flate2::write::GzEncoder;
use flate2::Compression;

// --- Unit tests for helpers ---

#[test]
fn test_extract_doi_from_url_standard() {
    assert_eq!(
        extract_doi_from_url("https://doi.org/10.1234/foo"),
        Some("10.1234/foo".into())
    );
}

#[test]
fn test_extract_doi_from_url_http() {
    assert_eq!(
        extract_doi_from_url("http://dx.doi.org/10.5678/bar"),
        Some("10.5678/bar".into())
    );
}

#[test]
fn test_extract_doi_from_url_no_doi() {
    assert_eq!(extract_doi_from_url("https://example.com/paper"), None);
}

#[test]
fn test_extract_4digit_year_plain() {
    assert_eq!(extract_4digit_year("1990"), Some("1990".into()));
}

#[test]
fn test_extract_4digit_year_embedded() {
    assert_eq!(extract_4digit_year("c2001."), Some("2001".into()));
}

#[test]
fn test_extract_4digit_year_none() {
    assert_eq!(extract_4digit_year("no year here"), None);
}

#[test]
fn test_clio_db_path() {
    let db = "/home/user/etc/lit/lit.db";
    assert_eq!(clio_db_path(db), "/home/user/etc/lit/clio.db");
}

// --- MARCXML parsing tests ---

fn minimal_marc(body: &str) -> Vec<u8> {
    format!(
        r#"<?xml version="1.0"?><collection><record>{}</record></collection>"#,
        body
    )
    .into_bytes()
}

#[test]
fn test_parse_marcxml_title_only() {
    let xml = minimal_marc(
        r#"<datafield tag="245" ind1=" " ind2=" ">
             <subfield code="a">The Art of War /</subfield>
           </datafield>"#,
    );
    let records = parse_marcxml(&xml).unwrap();
    assert_eq!(records.len(), 1);
    assert_eq!(records[0].title, "The Art of War");
}

#[test]
fn test_parse_marcxml_title_with_subtitle() {
    let xml = minimal_marc(
        r#"<datafield tag="245" ind1=" " ind2=" ">
             <subfield code="a">Deep Learning :</subfield>
             <subfield code="b">a practitioner's guide</subfield>
           </datafield>"#,
    );
    let records = parse_marcxml(&xml).unwrap();
    assert_eq!(records.len(), 1);
    assert!(records[0].title.contains("Deep Learning"));
    assert!(records[0].title.contains("practitioner"));
}

#[test]
fn test_parse_marcxml_author_100() {
    let xml = minimal_marc(
        r#"<datafield tag="245" ind1=" " ind2=" ">
             <subfield code="a">Some Book</subfield>
           </datafield>
           <datafield tag="100" ind1="1" ind2=" ">
             <subfield code="a">Smith, John,</subfield>
           </datafield>"#,
    );
    let records = parse_marcxml(&xml).unwrap();
    assert_eq!(records.len(), 1);
    assert_eq!(records[0].authors, "Smith, John");
}

#[test]
fn test_parse_marcxml_year_from_008() {
    let xml = minimal_marc(
        r#"<controlfield tag="008">910528s1990    xxxxxxxxxx            </controlfield>
           <datafield tag="245" ind1=" " ind2=" ">
             <subfield code="a">Old Book</subfield>
           </datafield>"#,
    );
    let records = parse_marcxml(&xml).unwrap();
    assert_eq!(records.len(), 1);
    assert_eq!(records[0].year, "1990");
}

#[test]
fn test_parse_marcxml_isbn() {
    let xml = minimal_marc(
        r#"<datafield tag="245" ind1=" " ind2=" ">
             <subfield code="a">Book Title</subfield>
           </datafield>
           <datafield tag="020" ind1=" " ind2=" ">
             <subfield code="a">9780262033848 (hardcover)</subfield>
           </datafield>"#,
    );
    let records = parse_marcxml(&xml).unwrap();
    assert_eq!(records.len(), 1);
    assert_eq!(records[0].isbn, "9780262033848");
}

#[test]
fn test_parse_marcxml_doi_from_856() {
    let xml = minimal_marc(
        r#"<datafield tag="245" ind1=" " ind2=" ">
             <subfield code="a">Some Paper</subfield>
           </datafield>
           <datafield tag="856" ind1="4" ind2="0">
             <subfield code="u">https://doi.org/10.1234/test.567</subfield>
           </datafield>"#,
    );
    let records = parse_marcxml(&xml).unwrap();
    assert_eq!(records.len(), 1);
    assert_eq!(records[0].doi, "10.1234/test.567");
}

#[test]
fn test_parse_marcxml_online_url() {
    let xml = minimal_marc(
        r#"<datafield tag="245" ind1=" " ind2=" ">
             <subfield code="a">Online Resource</subfield>
           </datafield>
           <datafield tag="856" ind1="4" ind2="0">
             <subfield code="u">https://example.com/fulltext.pdf</subfield>
           </datafield>"#,
    );
    let records = parse_marcxml(&xml).unwrap();
    assert_eq!(records.len(), 1);
    assert!(records[0].online);
    assert_eq!(records[0].url, "https://example.com/fulltext.pdf");
}

#[test]
fn test_parse_marcxml_publisher() {
    let xml = minimal_marc(
        r#"<datafield tag="245" ind1=" " ind2=" ">
             <subfield code="a">A Book</subfield>
           </datafield>
           <datafield tag="260" ind1=" " ind2=" ">
             <subfield code="b">MIT Press,</subfield>
             <subfield code="c">c2020.</subfield>
           </datafield>"#,
    );
    let records = parse_marcxml(&xml).unwrap();
    assert_eq!(records.len(), 1);
    assert_eq!(records[0].publisher, "MIT Press");
    // Year should be populated from 260$c since no 008
    assert_eq!(records[0].year, "2020");
}

#[test]
fn test_parse_marcxml_skips_titleless_records() {
    let xml = minimal_marc(
        r#"<datafield tag="100" ind1="1" ind2=" ">
             <subfield code="a">Nobody Important</subfield>
           </datafield>"#,
    );
    let records = parse_marcxml(&xml).unwrap();
    assert!(records.is_empty(), "titleless records should be skipped");
}

#[test]
fn test_parse_marcxml_gz_roundtrip() {

    let xml = minimal_marc(
        r#"<datafield tag="245" ind1=" " ind2=" ">
             <subfield code="a">Compressed Title</subfield>
           </datafield>"#,
    );
    let mut gz = GzEncoder::new(Vec::new(), Compression::default());
    gz.write_all(&xml).unwrap();
    let compressed = gz.finish().unwrap();

    let records = parse_marcxml_gz(&compressed).unwrap();
    assert_eq!(records.len(), 1);
    assert_eq!(records[0].title, "Compressed Title");
}

// --- DB round-trip test ---

#[test]
fn clio_db_path_of_a_bare_file_name() {
    assert_eq!(clio_db_path("lit.db"), "clio.db");
}

#[test]
fn parse_search_collects_links_and_skips_untitled() {
    let body = r#"{"response": {"docs": [
        {"title_display": [""]},
        {"title_display": ["Causality"], "author_facet": ["Pearl, Judea"], "pub_year_display": ["2009"],
         "url_munged_display": ["Full text|https://doi.org/10.1017/CBO9780511803161", "x|https://example.com/book"],
         "pub_name_display": ["Cambridge"], "isbn_display": ["9780521895606 (hardback)"]}
    ]}}"#;
    let r = parse_search(body).unwrap();
    assert_eq!(r.len(), 1);
    assert_eq!(r[0].title, "Causality");
    assert_eq!(r[0].authors, vec!["Pearl, Judea"]);
    assert_eq!(r[0].doi.as_deref(), Some("10.1017/CBO9780511803161"));
    assert_eq!(r[0].pdf_url.as_deref(), Some("https://example.com/book"));
    assert_eq!(r[0].isbn.as_deref(), Some("9780521895606"));
    assert!(parse_search(r#"{"response": {}}"#).is_err());
}

#[test]
fn stored_row_becomes_a_paper() {
    let p = row_to_paper(
        "T".to_string(), "Sutton, Richard, ,Barto".into(), "2018".to_string(), String::new(),
        "10.1/x".to_string(), "https://u".to_string(), "1", String::new(),
    );
    assert_eq!(p.authors, vec!["Sutton", "Richard", "Barto"]);
    assert_eq!(p.pdf_url.as_deref(), Some("https://u"));
    assert_eq!(p.isbn, None);
    assert_eq!(p.doi.as_deref(), Some("10.1/x"));
    let q = row_to_paper(
        "T".to_string(), "", "".to_string(), String::new(), String::new(), "https://u".to_string(), "0", String::new(),
    );
    assert_eq!(q.pdf_url, None);
    assert!(q.authors.is_empty());
}

#[test]
fn marcxml_reports_syntax_errors() {
    assert!(parse_marcxml(b"<collection><record></collection>").is_err());
}
