use lit::api::{extract_last_name, extract_year_from_date, first_author_lastname, urlencode};


    #[test]
    fn test_extract_year_from_date() {
        assert_eq!(extract_year_from_date("2019"), "2019");
        assert_eq!(extract_year_from_date("March 2019"), "2019");
        assert_eq!(extract_year_from_date("2019-03-15"), "2019");
        assert_eq!(extract_year_from_date("January 1, 2020"), "2020");
    }

    #[test]
    fn test_extract_last_name() {
        assert_eq!(extract_last_name("Jonathan Ho"), "Ho");
        assert_eq!(extract_last_name("Pieter"), "Pieter");
        assert_eq!(extract_last_name(""), "");
    }

    #[test]
    fn test_urlencode_ascii_passthrough() {
        assert_eq!(urlencode("hello"), "hello");
        assert_eq!(urlencode("foo-bar_baz.qux~123"), "foo-bar_baz.qux~123");
    }

    #[test]
    fn test_urlencode_spaces_and_special() {
        assert_eq!(urlencode("hello world"), "hello%20world");
        assert_eq!(urlencode("a&b=c"), "a%26b%3Dc");
    }

    #[test]
    fn test_urlencode_empty() {
        assert_eq!(urlencode(""), "");
    }

    #[test]
    fn test_urlencode_unicode() {
        // UTF-8 bytes of 'e' with accent: 0xC3 0xA9
        let encoded = urlencode("caf\u{00e9}");
        assert_eq!(encoded, "caf%C3%A9");
    }

    #[test]
    fn test_first_author_lastname() {
        assert_eq!(first_author_lastname(&["Judea Pearl".to_string()]), "Pearl");
        assert_eq!(first_author_lastname(&["Judea Pearl".to_string(), "Dana Scott".to_string()]), "Pearl");
        assert_eq!(first_author_lastname(&[]), "");
    }

