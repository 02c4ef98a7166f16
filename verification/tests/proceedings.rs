use lit::proceedings::pdf_url;

#[test]
fn neurips_pre_2022_layout() {
    assert_eq!(
        pdf_url("https://proceedings.neurips.cc/paper/2021/hash/fe1f9c70bdf347497e1a01b6c486bdb9-Abstract.html"),
        Some("https://proceedings.neurips.cc/paper/2021/file/fe1f9c70bdf347497e1a01b6c486bdb9-Paper.pdf".into())
    );
}

#[test]
fn neurips_post_2022_layout_keeps_track_suffix() {
    assert_eq!(
        pdf_url("https://proceedings.neurips.cc/paper_files/paper/2023/hash/abc123-Abstract-Conference.html"),
        Some("https://proceedings.neurips.cc/paper_files/paper/2023/file/abc123-Paper-Conference.pdf".into())
    );
}

#[test]
fn neurips_datasets_and_benchmarks_track() {
    assert_eq!(
        pdf_url("https://proceedings.neurips.cc/paper_files/paper/2022/hash/abc-Abstract-Datasets_and_Benchmarks.html"),
        Some("https://proceedings.neurips.cc/paper_files/paper/2022/file/abc-Paper-Datasets_and_Benchmarks.pdf".into())
    );
}

#[test]
fn nips_legacy_host() {
    assert_eq!(
        pdf_url("https://papers.nips.cc/paper/2017/hash/abc-Abstract.html"),
        Some("https://papers.nips.cc/paper/2017/file/abc-Paper.pdf".into())
    );
}

#[test]
fn pmlr_nests_pdf_under_paper_directory() {
    assert_eq!(
        pdf_url("https://proceedings.mlr.press/v139/chen21a.html"),
        Some("https://proceedings.mlr.press/v139/chen21a/chen21a.pdf".into())
    );
}

#[test]
fn openreview_forum_to_pdf() {
    assert_eq!(
        pdf_url("https://openreview.net/forum?id=rJl-b3RcF7"),
        Some("https://openreview.net/pdf?id=rJl-b3RcF7".into())
    );
}

#[test]
fn openreview_drops_trailing_query_params() {
    assert_eq!(
        pdf_url("https://openreview.net/forum?id=rJl-b3RcF7&noteId=xyz"),
        Some("https://openreview.net/pdf?id=rJl-b3RcF7".into())
    );
}

#[test]
fn acl_anthology_with_and_without_slash() {
    let expected = Some("https://aclanthology.org/2020.acl-main.1.pdf".to_string());
    assert_eq!(pdf_url("https://aclanthology.org/2020.acl-main.1/"), expected);
    assert_eq!(pdf_url("https://aclanthology.org/2020.acl-main.1"), expected);
}

#[test]
fn http_scheme_accepted() {
    assert!(pdf_url("http://proceedings.mlr.press/v139/chen21a.html").is_some());
}

#[test]
fn surrounding_whitespace_ignored() {
    assert!(pdf_url("  https://openreview.net/forum?id=abc  ").is_some());
}

#[test]
fn unrecognized_inputs_return_none() {
    for input in [
        "https://arxiv.org/abs/2106.15195",
        "https://doi.org/10.1234/foo",
        "10.1234/foo",
        "structural credit assignment",
        "https://proceedings.mlr.press/v139/",
        "https://example.com/paper.pdfx",
        "ftp://example.com/paper.pdf",
    ] {
        assert_eq!(pdf_url(input), None, "expected None for {}", input);
    }
}

#[test]
fn direct_pdf_urls_denote_themselves() {
    for input in [
        "https://example.com/paper.pdf",
        "http://incompleteideas.net/papers/Sutton-PhD-thesis.pdf",
        "https://aclanthology.org/2020.acl-main.1.pdf",
        "https://proceedings.neurips.cc/paper/2021/file/abc-Paper.pdf",
        "https://example.com/a.pdf?token=1",
    ] {
        assert_eq!(pdf_url(input).as_deref(), Some(input), "expected identity for {}", input);
    }
}

#[test]
fn openreview_file_forms_denote_themselves() {
    let p = pdf_url("https://openreview.net/forum?id=abc123").unwrap();
    assert_eq!(p, "https://openreview.net/pdf?id=abc123");
    assert_eq!(pdf_url(&p), Some(p.clone()));
    assert_eq!(
        pdf_url("https://openreview.net/attachment?id=abc123&name=pdf"),
        Some("https://openreview.net/attachment?id=abc123&name=pdf".to_string())
    );
}

#[test]
fn every_pdf_url_maps_to_itself() {
    let inputs = [
        "https://proceedings.neurips.cc/paper/2021/hash/abc123-Abstract.html",
        "https://proceedings.neurips.cc/paper_files/paper/2023/hash/def456-Abstract-Conference.html",
        "https://proceedings.mlr.press/v139/chen21a.html",
        "https://openreview.net/forum?id=XYZ123&noteId=abc",
        "https://aclanthology.org/2020.acl-main.1/",
        "https://example.org/papers/x.pdf?download=1",
    ];
    for u in inputs {
        let p = pdf_url(u).unwrap();
        assert_eq!(pdf_url(&p), Some(p.clone()), "{} -> {}", u, p);
    }
}
