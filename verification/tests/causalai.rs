use lit::api::causalai::{parse_header, pdf_url};

// Real `pdftotext -layout` title pages (whitespace trimmed per line).
const R145: &str = "TECHNICAL REPORT
R-145
Mar, 2026

Sequential Causal Games

Aurghya Maiti 1 Elias Bareinboim 1

Abstract   One of the earliest formal responses to this problem";

const R125: &str = "TECHNICAL REPORT
R-125
First version: Jan, 2025
Last version: July, 2025

Counterfactual Rationality:
A Causal Approach to Game Theory

Aurghya Maiti and Prateek Jain and Elias Bareinboim
Causal Artificial Intelligence Laboratory
Columbia University, USA
{aurghya,eb}@cs.columbia.edu

Abstract";

const R152: &str = "TECHNICAL REPORT
R-152
May, 2026

Learning in Causal Markov Games

Aurghya Maiti and Elias Bareinboim
Causal Artificial Intelligence Lab
Columbia University
{aurghya,eb}@columbia.edu

Abstract";

#[test]
fn parse_r145_two_authors_digit_delimited() {
    let m = parse_header(R145).unwrap();
    assert_eq!(m.number, "R-145");
    assert_eq!(m.title, "Sequential Causal Games");
    assert_eq!(m.authors, vec!["Aurghya Maiti", "Elias Bareinboim"]);
    assert_eq!(m.year, "2026");
}

#[test]
fn parse_r125_multiline_title_three_authors() {
    let m = parse_header(R125).unwrap();
    assert_eq!(m.number, "R-125");
    assert_eq!(m.title, "Counterfactual Rationality: A Causal Approach to Game Theory");
    assert_eq!(m.authors, vec!["Aurghya Maiti", "Prateek Jain", "Elias Bareinboim"]);
    assert_eq!(m.year, "2025"); // latest of the two version years
}

#[test]
fn parse_r152_single_title_two_authors() {
    let m = parse_header(R152).unwrap();
    assert_eq!(m.number, "R-152");
    assert_eq!(m.title, "Learning in Causal Markov Games");
    assert_eq!(m.authors, vec!["Aurghya Maiti", "Elias Bareinboim"]);
    assert_eq!(m.year, "2026");
}

#[test]
fn pdf_url_format() {
    assert_eq!(pdf_url("r145"), "https://causalai.net/r145.pdf");
}

#[test]
fn missing_report_number_errors() {
    assert!(parse_header("Some Random Paper\nby Someone\n2020").is_err());
}

#[test]
fn header_errors_name_what_is_missing() {
    assert_eq!(
        parse_header("TECHNICAL REPORT\nR-7\nno date here\nTitle\nA and B").unwrap_err(),
        "no publication year found on title page"
    );
    assert_eq!(
        parse_header("R-7\n2020\nTitle only\nAbstract").unwrap_err(),
        "could not locate the authors line on title page"
    );
}

#[test]
fn report_paper_names_the_lab() {
    let m = parse_header("R-9\n2024\nA Title\nAda Lovelace and Alan Turing").unwrap();
    let p = lit::api::causalai::to_paper_result(&m, "r9");
    assert_eq!(p.venue.as_deref(), Some("Technical Report R-9, Causal Artificial Intelligence Lab, Columbia University"));
    assert_eq!(p.pdf_url.as_deref(), Some("https://causalai.net/r9.pdf"));
    assert_eq!(p.authors, vec!["Ada Lovelace", "Alan Turing"]);
}
