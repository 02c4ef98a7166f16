use lit::cmd::clio::{sync_start, SyncStart, cookie_summary, epoch_to_date, extract_gz_filenames, retry_delay_secs, sync_todo};
#[test]
fn test_extract_gz_filenames_basic() {
    let html = r#"<a href="extract-001.xml.gz">extract-001.xml.gz</a>
                  <a href="extract-002.xml.gz">extract-002.xml.gz</a>
                  <a href="README.txt">README</a>"#;
    let names = extract_gz_filenames(html);
    assert_eq!(names, vec!["extract-001.xml.gz", "extract-002.xml.gz"]);
}

#[test]
fn test_extract_gz_filenames_with_paths() {
    let html = r#"<a href="/extracts/full/extract-010.xml.gz">file</a>"#;
    let names = extract_gz_filenames(html);
    assert_eq!(names, vec!["extract-010.xml.gz"]);
}

#[test]
fn test_epoch_to_date_known() {
    // 2026-05-21 = day 20594 from epoch
    // 20594 * 86400 = 1779321600
    assert_eq!(epoch_to_date(1779321600), "2026-05-21");
}

#[test]
fn clio_test_today_string_format() {
    let secs = std::time::SystemTime::now().duration_since(std::time::UNIX_EPOCH).unwrap().as_secs();
    let s = epoch_to_date(secs);
    assert_eq!(s.len(), 10);
    assert_eq!(&s[4..5], "-");
    assert_eq!(&s[7..8], "-");
}

#[test]
fn cmd_clio_todo_skips_done_files() {
    let files = vec!["a.xml.gz".to_string(), "b.xml.gz".to_string(), "c.xml.gz".to_string()];
    let done = vec!["b.xml.gz".to_string()];
    assert_eq!(sync_todo(&files, &done), vec![(0, "a.xml.gz".to_string()), (2, "c.xml.gz".to_string())]);
}

#[test]
fn cmd_clio_retry_delays() {
    assert_eq!(retry_delay_secs(0), 0);
    assert_eq!(retry_delay_secs(1), 2);
    assert_eq!(retry_delay_secs(2), 4);
}

#[test]
fn cmd_clio_cookie_summary() {
    let c = "# Netscape HTTP Cookie File\n\n.x.edu\tTRUE\t/\tTRUE\t1700000000\tezproxy\tabc\n.x.edu\tTRUE\t/\tTRUE\t1600000000\tb\tv\nbad line\n";
    let s = cookie_summary(c);
    assert_eq!(s.count, 3);
    assert_eq!(s.expiry, Some((1600000000, 1700000000)));
    assert!(cookie_summary("").expiry.is_none());
}

#[test]
fn cmd_clio_gz_names_need_closing_quote() {
    assert_eq!(extract_gz_filenames("<a href=\"x.xml.gz\">"), vec!["x.xml.gz".to_string()]);
    assert!(extract_gz_filenames("<a href=\"x.xml.gz").is_empty());
}

#[test]
fn cmd_clio_sync_start() {
    let today = 19797; // 2024-03-15
    assert!(matches!(sync_start(false, false, Some("2024-03-01"), today, 0, 0), SyncStart::Skip(_)));
    match sync_start(false, false, Some("2024-03-01"), today, 0, 0) {
        SyncStart::Skip(m) => assert!(m.starts_with("Already synced on 2024-03-01.")),
        _ => panic!("expected skip"),
    }
    assert!(matches!(sync_start(false, false, Some("2024-01-01"), today, 0, 0), SyncStart::Sync));
    assert!(matches!(sync_start(false, false, None, today, 0, 0), SyncStart::Sync));
    assert!(matches!(sync_start(false, false, Some("garbage"), today, 0, 0), SyncStart::Sync));
    assert!(matches!(sync_start(false, true, Some("2024-03-14"), today, 0, 0), SyncStart::ClearThenSync));
    match sync_start(true, false, None, today, 1200, 3) {
        SyncStart::Report(lines) => assert_eq!(lines, vec![
            "Clio index: 1200 records (3 files indexed)".to_string(),
            "Last sync: in progress (3 files done)".to_string(),
        ]),
        _ => panic!("expected report"),
    }
    match sync_start(true, false, Some("2024-03-01"), today, 5, 9) {
        SyncStart::Report(lines) => assert_eq!(lines[1], "Last sync: 2024-03-01"),
        _ => panic!("expected report"),
    }
    assert_eq!(retry_delay_secs(63), 1u64 << 63);
}
