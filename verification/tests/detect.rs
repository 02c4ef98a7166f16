use lit::detect::{detect_type, normalize_arxiv, normalize_doi, normalize_isbn, InputType};


    // ── detect_type ──

    #[test]
    fn detect_arxiv_url() {
        assert_eq!(
            detect_type("https://arxiv.org/abs/2006.11239"),
            InputType::Arxiv
        );
    }

    #[test]
    fn detect_arxiv_pdf_url() {
        assert_eq!(
            detect_type("https://arxiv.org/pdf/2006.11239v2"),
            InputType::Arxiv
        );
    }

    #[test]
    fn detect_arxiv_export_url() {
        assert_eq!(
            detect_type("https://export.arxiv.org/abs/2006.11239"),
            InputType::Arxiv
        );
    }

    #[test]
    fn detect_arxiv_http_url() {
        assert_eq!(
            detect_type("http://arxiv.org/abs/2006.11239"),
            InputType::Arxiv
        );
    }

    #[test]
    fn detect_arxiv_id_bare() {
        assert_eq!(detect_type("2006.11239"), InputType::Arxiv);
    }

    #[test]
    fn detect_arxiv_id_with_version() {
        assert_eq!(detect_type("2006.11239v3"), InputType::Arxiv);
    }

    #[test]
    fn detect_arxiv_id_with_prefix() {
        assert_eq!(detect_type("arXiv:2006.11239"), InputType::Arxiv);
    }

    #[test]
    fn detect_arxiv_id_lowercase_prefix() {
        assert_eq!(detect_type("arxiv:2006.11239"), InputType::Arxiv);
    }

    #[test]
    fn detect_arxiv_id_five_digit() {
        assert_eq!(detect_type("1511.05952"), InputType::Arxiv);
    }

    #[test]
    fn detect_arxiv_old_style() {
        assert_eq!(detect_type("hep-ph/9905221"), InputType::Arxiv);
    }

    #[test]
    fn detect_arxiv_old_style_versioned() {
        assert_eq!(detect_type("hep-ph/9905221v2"), InputType::Arxiv);
    }

    #[test]
    fn detect_arxiv_old_style_dotted_category() {
        assert_eq!(detect_type("math.AG/0601001"), InputType::Arxiv);
    }

    #[test]
    fn detect_arxiv_old_style_dotted_versioned() {
        assert_eq!(detect_type("math.AG/0601001v1"), InputType::Arxiv);
    }

    #[test]
    fn detect_doi_url() {
        assert_eq!(
            detect_type("https://doi.org/10.1145/3442188.3445899"),
            InputType::Doi
        );
    }

    #[test]
    fn detect_doi_dx_url() {
        assert_eq!(
            detect_type("https://dx.doi.org/10.1145/3442188.3445899"),
            InputType::Doi
        );
    }

    #[test]
    fn detect_doi_bare() {
        assert_eq!(
            detect_type("10.1145/3442188.3445899"),
            InputType::Doi
        );
    }

    #[test]
    fn detect_doi_five_digit_registrant() {
        assert_eq!(detect_type("10.48550/arXiv.2006.11239"), InputType::Doi);
    }

    #[test]
    fn detect_isbn_13_with_hyphens() {
        assert_eq!(detect_type("978-0262039246"), InputType::Isbn);
    }

    #[test]
    fn detect_isbn_13_bare() {
        assert_eq!(detect_type("9780262039246"), InputType::Isbn);
    }

    #[test]
    fn detect_isbn_10() {
        assert_eq!(detect_type("0262039249"), InputType::Isbn);
    }

    #[test]
    fn detect_isbn_with_spaces() {
        assert_eq!(detect_type("978 0 262 039246"), InputType::Isbn);
    }

    #[test]
    fn detect_isbn_10_with_check_digit_x() {
        assert_eq!(detect_type("080442957X"), InputType::Isbn);
    }

    #[test]
    fn detect_isbn_10_with_check_digit_x_hyphenated() {
        assert_eq!(detect_type("0-8044-2957-X"), InputType::Isbn);
    }

    #[test]
    fn detect_dblp_url() {
        assert_eq!(
            detect_type("https://dblp.org/rec/journals/corr/abs-2006-11239"),
            InputType::DblpUrl
        );
    }

    #[test]
    fn detect_semantic_scholar_url() {
        assert_eq!(
            detect_type("https://www.semanticscholar.org/paper/abc123"),
            InputType::SemanticScholarUrl
        );
    }

    #[test]
    fn detect_search_free_text() {
        assert_eq!(
            detect_type("attention is all you need"),
            InputType::Search
        );
    }

    #[test]
    fn detect_search_partial_numbers() {
        // Not a valid arXiv ID (too few digits after dot)
        assert_eq!(detect_type("2006.1"), InputType::Search);
    }

    // ── normalize_arxiv ──

    #[test]
    fn normalize_arxiv_bare_id() {
        assert_eq!(normalize_arxiv("2006.11239"), "2006.11239");
    }

    #[test]
    fn normalize_arxiv_with_version() {
        assert_eq!(normalize_arxiv("2006.11239v2"), "2006.11239");
    }

    #[test]
    fn normalize_arxiv_with_prefix() {
        assert_eq!(normalize_arxiv("arXiv:2006.11239"), "2006.11239");
    }

    #[test]
    fn normalize_arxiv_abs_url() {
        assert_eq!(
            normalize_arxiv("https://arxiv.org/abs/2006.11239"),
            "2006.11239"
        );
    }

    #[test]
    fn normalize_arxiv_pdf_url_with_version() {
        assert_eq!(
            normalize_arxiv("https://arxiv.org/pdf/2006.11239v2"),
            "2006.11239"
        );
    }

    #[test]
    fn normalize_arxiv_export_url() {
        assert_eq!(
            normalize_arxiv("https://export.arxiv.org/abs/2006.11239"),
            "2006.11239"
        );
    }

    #[test]
    fn normalize_arxiv_pdf_suffix() {
        assert_eq!(
            normalize_arxiv("https://arxiv.org/pdf/2006.11239.pdf"),
            "2006.11239"
        );
    }

    // ── normalize_doi ──

    #[test]
    fn normalize_doi_bare() {
        assert_eq!(
            normalize_doi("10.1145/3442188.3445899"),
            "10.1145/3442188.3445899"
        );
    }

    #[test]
    fn normalize_doi_https_url() {
        assert_eq!(
            normalize_doi("https://doi.org/10.1145/3442188.3445899"),
            "10.1145/3442188.3445899"
        );
    }

    #[test]
    fn normalize_doi_dx_url() {
        assert_eq!(
            normalize_doi("https://dx.doi.org/10.1145/3442188.3445899"),
            "10.1145/3442188.3445899"
        );
    }

    #[test]
    fn normalize_doi_http_url() {
        assert_eq!(
            normalize_doi("http://doi.org/10.1145/3442188.3445899"),
            "10.1145/3442188.3445899"
        );
    }

    // ── normalize_isbn ──

    #[test]
    fn normalize_isbn_with_hyphens() {
        assert_eq!(normalize_isbn("978-0262039246"), "9780262039246");
    }

    #[test]
    fn normalize_isbn_with_spaces() {
        assert_eq!(normalize_isbn("978 0 262 039246"), "9780262039246");
    }

    #[test]
    fn normalize_isbn_already_clean() {
        assert_eq!(normalize_isbn("9780262039246"), "9780262039246");
    }


#[test]
fn detect_versioned_pdf_url_normalised() {
    assert_eq!(normalize_arxiv("https://arxiv.org/pdf/2006.11239v2.pdf"), "2006.11239");
    assert_eq!(normalize_arxiv("https://arxiv.org/pdf/2006.11239.pdf"), "2006.11239");
}
