use lit::bibtex::{parse_bib_file, BibEntry};


    #[test]
    fn parse_simple_entry() {
        let bib = r#"@article{ho2020denoising,
  title = {Denoising Diffusion Probabilistic Models},
  author = {Jonathan Ho and Ajay Jain and Pieter Abbeel},
  year = {2020},
}"#;
        let entries = parse_bib_file(bib);
        assert_eq!(entries.len(), 1);
        assert_eq!(entries[0].entry_type, "article");
        assert_eq!(entries[0].key, "ho2020denoising");
        assert_eq!(entries[0].get_field("title"), Some("Denoising Diffusion Probabilistic Models"));
        assert_eq!(entries[0].get_field("year"), Some("2020"));
    }

    #[test]
    fn parse_quoted_values() {
        let bib = r#"@article{test2021,
  title = "Some Title",
  year = "2021",
}"#;
        let entries = parse_bib_file(bib);
        assert_eq!(entries.len(), 1);
        assert_eq!(entries[0].get_field("title"), Some("Some Title"));
    }

    #[test]
    fn parse_nested_braces() {
        let bib = r#"@article{test2021,
  title = {A {Deep} Learning Approach},
  year = {2021},
}"#;
        let entries = parse_bib_file(bib);
        assert_eq!(entries.len(), 1);
        assert_eq!(entries[0].get_field("title"), Some("A {Deep} Learning Approach"));
    }

    #[test]
    fn parse_multiple_entries() {
        let bib = r#"@article{first2020,
  title = {First Paper},
  year = {2020},
}

@inproceedings{second2021,
  title = {Second Paper},
  year = {2021},
}"#;
        let entries = parse_bib_file(bib);
        assert_eq!(entries.len(), 2);
        assert_eq!(entries[0].key, "first2020");
        assert_eq!(entries[1].key, "second2021");
        assert_eq!(entries[1].entry_type, "inproceedings");
    }

    #[test]
    fn parse_multiline_value() {
        let bib = r#"@article{test2021,
  title = {A Very Long Title
    That Spans Multiple Lines},
  year = {2021},
}"#;
        let entries = parse_bib_file(bib);
        assert_eq!(entries.len(), 1);
        let title = entries[0].get_field("title").unwrap();
        assert!(title.contains("A Very Long Title"));
        assert!(title.contains("That Spans Multiple Lines"));
    }

    #[test]
    fn parse_skip_lit_skip() {
        let bib = r#"% lit:skip
@article{skipped2021,
  title = {Should Be Skipped},
  year = {2021},
}

@article{kept2021,
  title = {Should Be Kept},
  year = {2021},
}"#;
        let entries = parse_bib_file(bib);
        assert_eq!(entries.len(), 1);
        assert_eq!(entries[0].key, "kept2021");
    }

    #[test]
    fn parse_no_trailing_comma() {
        let bib = r#"@article{test2021,
  title = {Test Paper},
  year = {2021}
}"#;
        let entries = parse_bib_file(bib);
        assert_eq!(entries.len(), 1);
        assert_eq!(entries[0].get_field("year"), Some("2021"));
    }

    #[test]
    fn entry_to_string() {
        let entry = BibEntry {
            entry_type: "article".to_string(),
            key: "ho2020denoising".to_string(),
            fields: vec![
                ("title".to_string(), "Denoising Diffusion".to_string()),
                ("author".to_string(), "Jonathan Ho".to_string()),
                ("year".to_string(), "2020".to_string()),
            ],
        };
        let s = entry.to_string();
        assert!(s.starts_with("@article{ho2020denoising,"));
        assert!(s.contains("title = {Denoising Diffusion},"));
        assert!(s.contains("year = {2020}"));
        assert!(s.ends_with('}'));
    }

    #[test]
    fn parse_book_entry() {
        let bib = r#"@book{pearl2009causality,
  title = {Causality},
  author = {Judea Pearl},
  year = {2009},
  publisher = {Cambridge University Press},
  isbn = {9780521895606}
}"#;
        let entries = parse_bib_file(bib);
        assert_eq!(entries.len(), 1);
        assert_eq!(entries[0].entry_type, "book");
        assert_eq!(entries[0].get_field("publisher"), Some("Cambridge University Press"));
        assert_eq!(entries[0].get_field("isbn"), Some("9780521895606"));
    }

    #[test]
    fn parse_escaped_quotes() {
        let bib = r#"@article{test2021,
  title = "A so-called \"great\" idea",
  year = "2021",
}"#;
        let entries = parse_bib_file(bib);
        assert_eq!(entries.len(), 1);
        assert_eq!(
            entries[0].get_field("title"),
            Some(r#"A so-called \"great\" idea"#)
        );
    }

    #[test]
    fn parse_skips_comment_entries() {
        let bib = r#"@comment{This is a comment}
@article{real2021,
  title = {Real Entry},
  year = {2021}
}"#;
        let entries = parse_bib_file(bib);
        assert_eq!(entries.len(), 1);
        assert_eq!(entries[0].key, "real2021");
    }


#[test]
fn bibtex_written_entry_parses_back() {
    let e = lit::bibtex::BibEntry {
        entry_type: "article".to_string(),
        key: "ho2020denoising".to_string(),
        fields: vec![
            ("title".to_string(), "Denoising {Diffusion} Models".to_string()),
            ("author".to_string(), "Jonathan Ho and Ajay Jain".to_string()),
            ("year".to_string(), "2020".to_string()),
        ],
    };
    let back = lit::bibtex::parse_bib_file(&e.to_string());
    assert_eq!(back.len(), 1);
    assert_eq!(back[0].entry_type, e.entry_type);
    assert_eq!(back[0].key, e.key);
    assert_eq!(back[0].fields, e.fields);
}
