use lit::cmd::path::{absorb, new_search, path_lines, reconstruct_path, MAX_API_CALLS, MAX_HOPS};

fn pairs(v: &[(&str, &str)]) -> Vec<(String, String)> {
    v.iter().map(|(a, b)| (a.to_string(), b.to_string())).collect()
}

#[test]
fn path_limits() {
    assert_eq!(MAX_HOPS, 5);
    assert_eq!(MAX_API_CALLS, 200);
}

#[test]
fn path_direct_neighbour_meets_at_once() {
    let mut s = new_search("A", "B");
    let mut next = Vec::new();
    let met = absorb(&mut s, true, "A", &pairs(&[("X", "Paper X"), ("B", "Paper B")]), &mut next);
    assert_eq!(met, Some("B".to_string()));
    assert_eq!(next, vec!["X".to_string(), "B".to_string()]);
    let path = reconstruct_path(&s, "B");
    assert_eq!(path, pairs(&[("A", "A"), ("B", "Paper B")]));
}

#[test]
fn path_meets_in_the_middle() {
    let mut s = new_search("A", "B");
    let mut next_a = Vec::new();
    assert_eq!(absorb(&mut s, true, "A", &pairs(&[("M", "Middle")]), &mut next_a), None);
    let mut next_b = Vec::new();
    let met = absorb(&mut s, false, "B", &pairs(&[("Y", "Why"), ("M", "Middle again")]), &mut next_b);
    assert_eq!(met, Some("M".to_string()));
    // The title last recorded wins.
    let path = reconstruct_path(&s, "M");
    assert_eq!(path, pairs(&[("A", "A"), ("M", "Middle again"), ("B", "B")]));
}

#[test]
fn path_longer_walks() {
    let mut s = new_search("A", "B");
    let mut n = Vec::new();
    assert_eq!(absorb(&mut s, true, "A", &pairs(&[("C", "Cee")]), &mut n), None);
    let mut n = Vec::new();
    assert_eq!(absorb(&mut s, true, "C", &pairs(&[("A", "Ay"), ("D", "Dee")]), &mut n), None);
    // A is already in tree A: it is not reached again.
    assert_eq!(n, vec!["D".to_string()]);
    let mut n = Vec::new();
    assert_eq!(absorb(&mut s, false, "B", &pairs(&[("E", "Ee")]), &mut n), None);
    let mut n = Vec::new();
    let met = absorb(&mut s, false, "E", &pairs(&[("D", "Dee")]), &mut n);
    assert_eq!(met, Some("D".to_string()));
    let path = reconstruct_path(&s, "D");
    assert_eq!(path, pairs(&[("A", "Ay"), ("C", "Cee"), ("D", "Dee"), ("E", "Ee"), ("B", "B")]));
}

#[test]
fn path_lines_format() {
    let lines = path_lines(&pairs(&[("A", "Alpha"), ("B", "Beta"), ("C", "Gamma")]));
    assert_eq!(lines[0], "Shortest path: 2 hops");
    assert_eq!(lines[1], "");
    assert_eq!(lines[2], "  Alpha (A)");
    assert_eq!(lines[3], "   \u{2192} Beta (B)");
    assert_eq!(lines[4], "     \u{2192} Gamma (C)");
    let one = path_lines(&pairs(&[("A", "Alpha"), ("B", "Beta")]));
    assert_eq!(one[0], "Shortest path: 1 hop");
    let long = "x".repeat(80);
    let l = path_lines(&pairs(&[("A", long.as_str())]));
    assert_eq!(l[0], "Shortest path: 0 hops");
    assert_eq!(l[2], format!("  {}... (A)", "x".repeat(67)));
}
