use lit::config::{ApiSection, CacheSection, Config, ConfigFile, CoreSection, EnvOverrides, ExtractSection, expand_tilde};

fn from_file(file: &ConfigFile) -> Config {
    let mut cfg = Config::default();
    cfg.merge_parsed(file);
    cfg
}

fn no_env() -> EnvOverrides {
    EnvOverrides {
        lit_db_path: None,
        lit_pdf_dir: None,
        lit_pdf_extractor: None,
        lit_email: None,
        s2_api_key: None,
        curl_timeout: None,
        lit_ttl_search: None,
        lit_ttl_lookup: None,
        no_color: None,
    }
}

#[test]
fn parse_full_toml() {
    // [core] db_path, pdf_dir, email, timeout; [cache]; [api]; [extract]
    let file = ConfigFile {
        core: Some(CoreSection {
            db_path: Some("/tmp/test.db".to_string()),
            pdf_dir: Some("/tmp/papers".to_string()),
            email: Some("test@example.com".to_string()),
            timeout: Some(30),
        }),
        cache: Some(CacheSection { ttl_search: Some(3600), ttl_lookup: Some(7200) }),
        api: Some(ApiSection { s2_key: Some("my-key".to_string()) }),
        extract: Some(ExtractSection { pdf_extractor: Some("/usr/bin/extract".to_string()) }),
    };
    let cfg = from_file(&file);
    assert_eq!(cfg.db_path.as_deref(), Some("/tmp/test.db"));
    assert_eq!(cfg.pdf_dir.as_deref(), Some("/tmp/papers"));
    assert_eq!(cfg.email.as_deref(), Some("test@example.com"));
    assert_eq!(cfg.timeout, Some(30));
    assert_eq!(cfg.ttl_search, Some(3600));
    assert_eq!(cfg.ttl_lookup, Some(7200));
    assert_eq!(cfg.s2_api_key.as_deref(), Some("my-key"));
    assert_eq!(cfg.pdf_extractor.as_deref(), Some("/usr/bin/extract"));
}

#[test]
fn parse_partial_toml() {
    let file = ConfigFile {
        core: Some(CoreSection { db_path: None, pdf_dir: None, email: Some("partial@example.com".to_string()), timeout: None }),
        cache: None,
        api: None,
        extract: None,
    };
    let cfg = from_file(&file);
    assert_eq!(cfg.email.as_deref(), Some("partial@example.com"));
    assert!(cfg.db_path.is_none());
    assert!(cfg.pdf_dir.is_none());
    assert!(cfg.timeout.is_none());
    assert!(cfg.ttl_search.is_none());
    assert!(cfg.s2_api_key.is_none());
}

#[test]
fn merge_configs() {
    let base = from_file(&ConfigFile {
        core: Some(CoreSection {
            db_path: Some("/base/lit.db".to_string()),
            pdf_dir: None,
            email: Some("base@example.com".to_string()),
            timeout: Some(10),
        }),
        cache: Some(CacheSection { ttl_search: Some(1000), ttl_lookup: None }),
        api: None,
        extract: None,
    });
    let over = from_file(&ConfigFile {
        core: Some(CoreSection { db_path: None, pdf_dir: None, email: Some("override@example.com".to_string()), timeout: None }),
        cache: Some(CacheSection { ttl_search: Some(2000), ttl_lookup: Some(3000) }),
        api: None,
        extract: None,
    });
    let mut merged = base.clone();
    merged.merge(&over);

    // Overridden
    assert_eq!(merged.email.as_deref(), Some("override@example.com"));
    assert_eq!(merged.ttl_search, Some(2000));
    assert_eq!(merged.ttl_lookup, Some(3000));
    // Preserved from base
    assert_eq!(merged.db_path.as_deref(), Some("/base/lit.db"));
    assert_eq!(merged.timeout, Some(10));
}

#[test]
fn defaults_when_empty() {
    let cfg = Config::default();
    assert_eq!(cfg.timeout(), 15);
    assert_eq!(cfg.ttl_search(), 86400);
    assert_eq!(cfg.ttl_lookup(), 604800);
    assert_eq!(cfg.email(), "lit-user@example.com");
    assert_eq!(cfg.no_color(), false);
    assert!(cfg.s2_api_key().is_none());
    assert!(cfg.pdf_extractor().is_none());
}

#[test]
fn env_overrides_config_values() {
    let mut cfg = Config::default();
    cfg.timeout = Some(10);
    let mut env = no_env();
    env.curl_timeout = Some("99".to_string());
    env.lit_ttl_search = Some("not a number".to_string());
    env.lit_email = Some("env@example.com".to_string());
    env.no_color = Some(String::new());
    cfg.apply_env(&env);
    assert_eq!(cfg.timeout, Some(99));
    assert_eq!(cfg.ttl_search, None);
    assert_eq!(cfg.email.as_deref(), Some("env@example.com"));
    assert_eq!(cfg.no_color, None);
    env.no_color = Some("1".to_string());
    cfg.apply_env(&env);
    assert_eq!(cfg.no_color, Some(true));
}

#[test]
fn tilde_expansion_with_home() {
    let home = Some("/home/test");
    assert_eq!(expand_tilde("~/papers", home), "/home/test/papers");
    assert_eq!(expand_tilde("~", home), "/home/test");
    assert_eq!(expand_tilde("/absolute/path", home), "/absolute/path");
    assert_eq!(expand_tilde("relative/path", home), "relative/path");
    assert_eq!(expand_tilde("~otheruser/foo", home), "~otheruser/foo");
    assert_eq!(expand_tilde("~/papers", None), "~/papers");
}

#[test]
fn default_paths_follow_the_platform() {
    let cfg = Config::default();
    assert_eq!(cfg.db_path(Some("/home/u"), false), "/home/u/.local/share/lit/lit.db");
    assert_eq!(cfg.db_path(Some("/Users/u/"), true), "/Users/u/Library/Application Support/lit/lit.db");
    assert_eq!(cfg.pdf_dir(None, false), "./.local/share/lit/pdf");
    let mut set = Config::default();
    set.pdf_dir = Some("/data/pdf".to_string());
    assert_eq!(set.pdf_dir(Some("/home/u"), false), "/data/pdf");
}

#[test]
fn empty_s2_key_counts_as_unset() {
    let mut cfg = Config::default();
    cfg.s2_api_key = Some(String::new());
    assert!(cfg.s2_api_key().is_none());
    cfg.s2_api_key = Some("k".to_string());
    assert_eq!(cfg.s2_api_key(), Some("k"));
}
