use lit::api::arxiv::{extract_arxiv_id, parse_entry, query_url};

#[test]
fn test_extract_arxiv_id() {
    assert_eq!(
        extract_arxiv_id("http://arxiv.org/abs/2006.11239v2"),
        "2006.11239"
    );
    assert_eq!(
        extract_arxiv_id("http://arxiv.org/abs/2006.11239"),
        "2006.11239"
    );
    assert_eq!(
        extract_arxiv_id("http://arxiv.org/abs/hep-ph/0601001v1"),
        "hep-ph/0601001"
    );
}

#[test]
fn test_parse_entry_minimal() {
    let xml = r#"<?xml version="1.0" encoding="UTF-8"?>
<feed xmlns="http://www.w3.org/2005/Atom">
  <entry>
<id>http://arxiv.org/abs/2006.11239v3</id>
<title>Denoising Diffusion Probabilistic Models</title>
<summary>We present high quality image synthesis results.</summary>
<published>2020-06-19T17:26:28Z</published>
<author><name>Jonathan Ho</name></author>
<author><name>Ajay Jain</name></author>
<author><name>Pieter Abbeel</name></author>
<link title="pdf" href="http://arxiv.org/pdf/2006.11239v3" rel="related" type="application/pdf"/>
<category term="cs.LG" scheme="http://arxiv.org/schemas/atom"/>
<category term="stat.ML" scheme="http://arxiv.org/schemas/atom"/>
  </entry>
</feed>"#;
    let result = parse_entry(xml).unwrap();
    assert_eq!(result.title, "Denoising Diffusion Probabilistic Models");
    assert_eq!(result.year, "2020");
    assert_eq!(result.arxiv_id.as_deref(), Some("2006.11239"));
    assert_eq!(result.authors.len(), 3);
    assert_eq!(result.authors[0], "Jonathan Ho");
    assert!(result.pdf_url.is_some());
    assert!(result.abstract_text.unwrap().contains("image synthesis"));
    assert_eq!(result.published_date.as_deref(), Some("2020-06-19"));
    assert_eq!(result.categories, vec!["cs.LG", "stat.ML"]);
}

#[test]
fn test_parse_entry_no_pdf_link() {
    let xml = r#"<?xml version="1.0" encoding="UTF-8"?>
<feed xmlns="http://www.w3.org/2005/Atom">
  <entry>
<id>http://arxiv.org/abs/2301.00001v1</id>
<title>A Paper Without PDF Link</title>
<summary>Short abstract.</summary>
<published>2023-01-01T00:00:00Z</published>
<author><name>Alice Smith</name></author>
  </entry>
</feed>"#;
    let result = parse_entry(xml).unwrap();
    assert_eq!(result.title, "A Paper Without PDF Link");
    assert!(result.pdf_url.is_none());
    assert_eq!(result.authors, vec!["Alice Smith"]);
    assert!(result.categories.is_empty());
}

#[test]
fn test_parse_entry_long_abstract_truncated() {
    let long_text = "a ".repeat(200); // 400 chars
    let xml = format!(
        r#"<?xml version="1.0" encoding="UTF-8"?>
<feed xmlns="http://www.w3.org/2005/Atom">
  <entry>
<id>http://arxiv.org/abs/2301.00002v1</id>
<title>Long Abstract</title>
<summary>{}</summary>
<published>2023-01-01T00:00:00Z</published>
<author><name>Bob</name></author>
  </entry>
</feed>"#,
        long_text
    );
    let result = parse_entry(&xml).unwrap();
    let abs = result.abstract_text.unwrap();
    assert!(abs.ends_with("..."));
    // Truncated to ~200 chars + "..."
    assert!(abs.len() <= 210);
}

#[test]
fn test_parse_entry_empty_feed() {
    let xml = r#"<?xml version="1.0" encoding="UTF-8"?>
<feed xmlns="http://www.w3.org/2005/Atom">
</feed>"#;
    let err = parse_entry(xml);
    assert!(err.is_err());
}

#[test]
fn test_parse_entry_whitespace_in_title() {
    let xml = r#"<?xml version="1.0" encoding="UTF-8"?>
<feed xmlns="http://www.w3.org/2005/Atom">
  <entry>
<id>http://arxiv.org/abs/2301.00003v1</id>
<title>
  Multi   Line
  Title
</title>
<summary>Ok.</summary>
<published>2023-06-15T00:00:00Z</published>
<author><name>Carol</name></author>
  </entry>
</feed>"#;
    let result = parse_entry(xml).unwrap();
    assert_eq!(result.title, "Multi Line Title");
}

#[test]
fn test_parse_entry_old_style_arxiv_id() {
    let xml = r#"<?xml version="1.0" encoding="UTF-8"?>
<feed xmlns="http://www.w3.org/2005/Atom">
  <entry>
<id>http://arxiv.org/abs/hep-ph/0601001v1</id>
<title>Old Style Paper</title>
<summary>Old.</summary>
<published>2006-01-01T00:00:00Z</published>
<author><name>Dave</name></author>
  </entry>
</feed>"#;
    let result = parse_entry(xml).unwrap();
    assert_eq!(result.arxiv_id.as_deref(), Some("hep-ph/0601001"));
}

#[test]
fn query_url_lists_the_id() {
    assert_eq!(query_url("2006.11239"), "https://export.arxiv.org/api/query?id_list=2006.11239");
}

#[test]
fn malformed_feed_reports_the_reader_error() {
    let xml = "<feed><entry><title>T</title></feedx>";
    assert!(parse_entry(xml).is_err());
}

#[test]
fn version_suffix_needs_digits() {
    assert_eq!(extract_arxiv_id("http://arxiv.org/abs/2006.11239v"), "2006.11239v");
    assert_eq!(extract_arxiv_id("https://arxiv.org/abs/1234.5678v12"), "1234.5678");
}

#[test]
fn arxiv_summary_cut_by_characters() {
    let xml = format!(
        r#"<?xml version="1.0" encoding="UTF-8"?>
<feed xmlns="http://www.w3.org/2005/Atom">
  <entry>
<id>http://arxiv.org/abs/2301.00002v1</id>
<title>Accents</title>
<summary>{}</summary>
<published>2023-01-01T00:00:00Z</published>
  </entry>
</feed>"#,
        "\u{e9}".repeat(250)
    );
    let abs = parse_entry(&xml).unwrap().abstract_text.unwrap();
    assert_eq!(abs, format!("{}...", "\u{e9}".repeat(200)));
}
