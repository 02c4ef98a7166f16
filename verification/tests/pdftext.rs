use lit::pdftext::{needs_ocr, parse_page_count};

#[test]
fn a_dense_text_layer_is_kept() {
    let page = "word ".repeat(200);
    assert!(!needs_ocr(&page, Some(1)));
}

#[test]
fn an_empty_text_layer_asks_for_ocr() {
    assert!(needs_ocr("", Some(1)));
    assert!(needs_ocr("   \n\u{c}\n  ", Some(3)));
}

#[test]
fn a_scan_stamp_does_not_count_as_a_text_layer() {
    // The 223 bytes poppler recovers from a pure Acrobat scan, spread over
    // a whole thesis, average to nothing.
    assert!(needs_ocr(&"x".repeat(223), Some(300)));
}

#[test]
fn one_dense_page_does_not_vouch_for_a_scanned_book() {
    let cover = "word ".repeat(500);
    assert!(needs_ocr(&cover, Some(100)));
}

#[test]
fn an_unknown_page_count_is_read_as_one_page() {
    assert!(!needs_ocr(&"word ".repeat(200), None));
    assert!(needs_ocr("short", None));
}

#[test]
fn page_count_comes_from_the_pages_field() {
    let info = "Title:          Steps\nPages:          27\nEncrypted:      no\n";
    assert_eq!(parse_page_count(info), Some(27));
    assert_eq!(parse_page_count("Encrypted:      no\n"), None);
    assert_eq!(parse_page_count("Pages:          many\n"), None);
}
