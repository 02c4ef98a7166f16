use lit::sanitize::{append_text, decode_html_entities, decode_numeric_entities, latex_escape, map_month, sanitize_bibtex, sanitize_field_value};
#[test]
fn sanitize_test_decode_html_entities() {
    assert_eq!(decode_html_entities("A &amp; B"), "A & B");
    assert_eq!(decode_html_entities("&lt;tag&gt;"), "<tag>");
    assert_eq!(decode_html_entities("it&#39;s"), "it's");
}

#[test]
fn test_decode_numeric_entities() {
    assert_eq!(decode_numeric_entities("A &#38; B"), "A & B");
    assert_eq!(decode_numeric_entities("A &#x26; B"), "A & B");
    assert_eq!(decode_numeric_entities("no entity &# here"), "no entity &# here");
}

#[test]
fn test_map_month() {
    assert_eq!(map_month("June"), Some("jun"));
    assert_eq!(map_month("Sept"), Some("sep"));
    assert_eq!(map_month("Sep."), Some("sep"));
    assert_eq!(map_month("jun"), Some("jun"));
    assert_eq!(map_month("June 2020"), None);
}

#[test]
fn test_latex_escape_skips_escaped() {
    assert_eq!(latex_escape(r"A \& B & C"), r"A \& B \& C");
}

#[test]
fn test_unparseable_input_passes_through() {
    let out = sanitize_bibtex("not bibtex at all");
    assert_eq!(out.text, "not bibtex at all");
    assert!(!out.changed);
}

#[test]
fn sanitize_decodes_nested_entities() {
    assert_eq!(sanitize_field_value("A &amp;amp; B"), "A \\& B");
    assert_eq!(sanitize_field_value("A &#38;lt; B"), "A \\textless{} B");
    let once = sanitize_field_value("A &amp;amp; B");
    assert_eq!(sanitize_field_value(&once), once);
}

#[test]
fn sanitize_append_text() {
    let entry = "@misc{k,\n  title = {A &amp; B}\n}";
    assert_eq!(append_text(false, entry), "@misc{k,\n  title = {A \\& B}\n}\n");
    assert_eq!(append_text(true, entry), "\n@misc{k,\n  title = {A \\& B}\n}\n");
}

#[test]
fn sanitized_field_values_are_clean() {
    let out = sanitize_field_value("A & B \u{2013} C \u{2014} <x> &lt;y&gt; &#8211; \\& z");
    assert_eq!(out, "A \\& B -- C --- \\textless{}x\\textgreater{} \\textless{}y\\textgreater{} -- \\& z");
    assert!(!out.contains('\u{2013}') && !out.contains('\u{2014}') && !out.contains('<') && !out.contains('>'));
}
