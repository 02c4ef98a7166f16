use lit::format::truncate;


    #[test]
    fn truncate_short_string() {
        assert_eq!(truncate("hello", 10), "hello");
    }

    #[test]
    fn truncate_exact_length() {
        assert_eq!(truncate("hello", 5), "hello");
    }

    #[test]
    fn truncate_long_string() {
        let long = "a".repeat(80);
        let result = truncate(&long, 70);
        assert_eq!(result.len(), 70);
        assert!(result.ends_with("..."));
    }

    #[test]
    fn truncate_empty() {
        assert_eq!(truncate("", 10), "");
    }

    #[test]
    fn truncate_to_three() {
        assert_eq!(truncate("hello world", 3), "hel");
    }

    #[test]
    fn truncate_unicode() {
        // Should handle multi-byte chars correctly (truncate by char count)
        let s = "cafe\u{0301} latte";
        let result = truncate(s, 6);
        // The combining accent is a separate char, so 6 chars = "cafe\u{0301} "
        assert!(result.len() <= 10); // sanity check on byte length
    }

    #[test]
    fn truncate_unicode_no_false_truncation() {
        // "Schölkopf" is 10 chars but 11 bytes (ö = 2 bytes).
        // truncate with max=10 should NOT truncate.
        let s = "Sch\u{00F6}lkopf";
        assert_eq!(s.chars().count(), 9);
        assert_eq!(s.len(), 10); // 10 bytes
        let result = truncate(s, 10);
        assert_eq!(result, s); // should not be truncated
    }

