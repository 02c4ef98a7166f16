use lit::cmd::misc::{build_misc_source_yaml, misc_entry, MiscParams};

#[test]
fn test_misc_basic_generates_correct_bibtex() {
    // The generated entry is a @misc entry with all required fields.
    let params = MiscParams {
        citekey: "chan2022causal".into(),
        title: "Causal Scrubbing".into(),
        authors: vec!["Lawrence Chan".into(), "Buck Shlegeris".into()],
        year: "2022".into(),
        howpublished: Some(r"\url{https://example.com}".into()),
        note: None,
    };
    let result = misc_entry(&params);
    assert_eq!(result.entry_key, "chan2022causal");
    assert!(result.bib_text.starts_with("@misc{chan2022causal,"));
    assert!(result.bib_text.contains("title = {Causal Scrubbing}"));
    assert!(result.bib_text.contains("author = {Lawrence Chan and Buck Shlegeris}"));
    assert!(result.bib_text.contains("year = {2022}"));
    assert!(result.bib_text.contains(r"howpublished = {\url{https://example.com}}"));
    assert!(!result.bib_text.contains("note"));
}

#[test]
fn test_misc_omits_optional_fields_when_none() {
    let params = MiscParams {
        citekey: "smith2023blog".into(),
        title: "A Blog Post".into(),
        authors: vec!["Alice Smith".into()],
        year: "2023".into(),
        howpublished: None,
        note: None,
    };
    let result = misc_entry(&params);
    assert!(!result.bib_text.contains("howpublished"));
    assert!(!result.bib_text.contains("note"));
}

#[test]
fn test_misc_includes_note_when_provided() {
    let params = MiscParams {
        citekey: "foo2021bar".into(),
        title: "Foo Bar".into(),
        authors: vec!["Foo Author".into()],
        year: "2021".into(),
        howpublished: None,
        note: Some("Accessed: 2024-01-01".into()),
    };
    let result = misc_entry(&params);
    assert!(result.bib_text.contains("note = {Accessed: 2024-01-01}"));
}

#[test]
fn misc_entry_exact_text_and_yaml() {
    let params = MiscParams {
        citekey: "k".into(),
        title: "T \"q\"".into(),
        authors: vec!["A".into(), "B".into()],
        year: "2020".into(),
        howpublished: None,
        note: Some("n".into()),
    };
    let r = misc_entry(&params);
    assert_eq!(r.bib_text, "@misc{k,\n  title = {T \"q\"},\n  author = {A and B},\n  year = {2020},\n  note = {n},\n}");
    let y = build_misc_source_yaml(&params, "2024-05-06");
    assert_eq!(y, "title: \"T \\\"q\\\"\"\nauthors: \"A and B\"\nyear: 2020\nnote: \"n\"\nretrieved: \"2024-05-06\"\n");
}
