use lit::citekey::generate;


    #[test]
    fn basic_citekey() {
        let authors = vec!["Jonathan Ho".to_string()];
        let key = generate(&authors, "2020", "Denoising Diffusion Probabilistic Models");
        assert_eq!(key, "ho2020denoising");
    }

    #[test]
    fn skip_common_words() {
        let authors = vec!["Ashish Vaswani".to_string()];
        let key = generate(&authors, "2017", "Attention Is All You Need");
        assert_eq!(key, "vaswani2017attention");
    }

    #[test]
    fn skip_leading_articles() {
        let authors = vec!["John Smith".to_string()];
        let key = generate(&authors, "2021", "The Art of Reasoning");
        assert_eq!(key, "smith2021art");
    }

    #[test]
    fn multiple_authors_uses_first() {
        let authors = vec![
            "Amir-Hossein Karimi".to_string(),
            "Bernhard Scholkopf".to_string(),
        ];
        let key = generate(&authors, "2021", "Algorithmic Recourse Under Imperfect Information");
        assert_eq!(key, "karimi2021algorithmic");
    }

    #[test]
    fn empty_authors() {
        let authors: Vec<String> = vec![];
        let key = generate(&authors, "2021", "Some Paper Title");
        assert_eq!(key, "unknown2021some");
    }

    #[test]
    fn title_with_special_chars() {
        let authors = vec!["Scott Lundberg".to_string()];
        let key = generate(
            &authors,
            "2017",
            "A Unified Approach to Interpreting Model Predictions",
        );
        assert_eq!(key, "lundberg2017unified");
    }

    #[test]
    fn all_skip_words_title() {
        let authors = vec!["Jane Doe".to_string()];
        let key = generate(&authors, "2020", "of the and in on");
        assert_eq!(key, "doe2020");
    }

    #[test]
    fn author_with_hyphen() {
        let authors = vec!["Amir-Hossein Karimi".to_string()];
        let key = generate(&authors, "2021", "Algorithmic Recourse");
        assert_eq!(key, "karimi2021algorithmic");
    }

    #[test]
    fn title_with_numbers() {
        let authors = vec!["Ilya Sutskever".to_string()];
        let key = generate(&authors, "2014", "Sequence to Sequence Learning with Neural Networks");
        assert_eq!(key, "sutskever2014sequence");
    }


#[test]
fn citekey_title_word_keeps_digits() {
    assert_eq!(generate(&["Ann Lee".into()], "2023", "GPT4 Technical Report"), "lee2023gpt4");
}
