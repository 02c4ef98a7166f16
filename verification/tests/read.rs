use lit::cmd::read::{choose_dir, dotless, name_matches, normalize_query};

#[test]
fn read_query_normalisation() {
    assert_eq!(normalize_query("  Hep-Th/9901001 "), "hep-th_9901001");
    assert_eq!(dotless("2006.11239"), "200611239");
}

#[test]
fn read_name_matching_either_way() {
    assert!(name_matches("Schulman2017Proximal", "schulman2017"));
    assert!(name_matches("ho", "ho2020denoising"));
    assert!(!name_matches("smith2020", "jones"));
}

#[test]
fn read_choose_dir_outcomes() {
    assert_eq!(choose_dir("x", &vec!["a".to_string()]), Ok("a".to_string()));
    assert_eq!(
        choose_dir("x", &vec![]),
        Err("no paper directory found matching 'x'. Use `download` first.".to_string())
    );
    assert_eq!(choose_dir("x", &vec!["a".to_string(), "b".to_string()]), Err("ambiguous: a, b".to_string()));
}
