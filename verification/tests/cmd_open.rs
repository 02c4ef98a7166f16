use lit::api::PaperResult;
use lit::cmd::open::page_url;
use lit::cmd::admit_related;

#[test]
fn open_page_urls() {
    assert_eq!(page_url("2006.11239"), "https://arxiv.org/abs/2006.11239");
    assert_eq!(page_url("10.1145/3292500.3330701"), "https://doi.org/10.1145/3292500.3330701");
    assert_eq!(page_url("attention is all you need"), "https://www.semanticscholar.org/search?q=attention%20is%20all%20you%20need");
}

#[test]
fn related_admission_respects_seen_and_room() {
    let ps = vec![
        PaperResult { s2_id: Some("a".into()), ..Default::default() },
        PaperResult { s2_id: Some("b".into()), ..Default::default() },
        PaperResult { title: "no id".into(), ..Default::default() },
        PaperResult { s2_id: Some("c".into()), ..Default::default() },
    ];
    let mut seen = vec!["b".to_string()];
    let taken = admit_related(&ps, &mut seen, 0, 10);
    assert_eq!(taken, vec![(0, Some("a".to_string())), (2, None), (3, Some("c".to_string()))]);
    assert_eq!(seen, vec!["b".to_string(), "a".to_string(), "c".to_string()]);
    let mut seen2 = vec![];
    let taken2 = admit_related(&ps, &mut seen2, 8, 10);
    assert_eq!(taken2, vec![(0, Some("a".to_string())), (1, Some("b".to_string()))]);
    assert!(admit_related(&ps, &mut vec![], 10, 10).is_empty());
}

#[test]
fn related_admission_takes_each_id_once_and_never_the_start() {
    let ps = vec![
        PaperResult { s2_id: Some("start".into()), ..Default::default() },
        PaperResult { s2_id: Some("x".into()), ..Default::default() },
        PaperResult { s2_id: Some("x".into()), ..Default::default() },
        PaperResult { s2_id: Some("y".into()), ..Default::default() },
        PaperResult { s2_id: Some("z".into()), ..Default::default() },
    ];
    let mut seen = vec!["start".to_string()];
    let taken = admit_related(&ps, &mut seen, 3, 5);
    assert_eq!(taken, vec![(1, Some("x".to_string())), (3, Some("y".to_string()))]);
    assert_eq!(seen, vec!["start".to_string(), "x".to_string(), "y".to_string()]);
}
