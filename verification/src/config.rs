//! Git-style hierarchical configuration.
//!
//! Values come from `.litconfig` files read from three locations (lowest to
//! highest priority): `/etc/litconfig`, `~/.litconfig` and
//! `<cwd>/.litconfig`, then from environment variables, which override
//! everything. Each file is TOML with `[core]`, `[cache]`, `[api]` and
//! `[extract]` sections; later sources override earlier ones field by field.
use vstd::prelude::*;
use crate::api::opt_view;
use crate::text::{has_prefix, str_chars, string_from_chars, slice_vec, push_str, push_all, starts_with_str, eq_str, parse_decimal, parse_decimal_exec};

verus! {

/// Resolved configuration from all sources.
#[derive(Debug, Clone)]
pub struct Config {
    pub db_path: Option<String>,
    pub pdf_dir: Option<String>,
    pub pdf_extractor: Option<String>,
    pub email: Option<String>,
    pub s2_api_key: Option<String>,
    pub timeout: Option<u64>,
    pub ttl_search: Option<u64>,
    pub ttl_lookup: Option<u64>,
    pub no_color: Option<bool>,
}

/// Mathematical view of a configuration.
pub struct ConfigV {
    pub db_path: Option<Seq<char>>,
    pub pdf_dir: Option<Seq<char>>,
    pub pdf_extractor: Option<Seq<char>>,
    pub email: Option<Seq<char>>,
    pub s2_api_key: Option<Seq<char>>,
    pub timeout: Option<u64>,
    pub ttl_search: Option<u64>,
    pub ttl_lookup: Option<u64>,
    pub no_color: Option<bool>,
}

impl View for Config {
    type V = ConfigV;

    open spec fn view(&self) -> ConfigV {
        ConfigV {
            db_path: opt_view(self.db_path),
            pdf_dir: opt_view(self.pdf_dir),
            pdf_extractor: opt_view(self.pdf_extractor),
            email: opt_view(self.email),
            s2_api_key: opt_view(self.s2_api_key),
            timeout: self.timeout,
            ttl_search: self.ttl_search,
            ttl_lookup: self.ttl_lookup,
            no_color: self.no_color,
        }
    }
}

/// The configuration with nothing set.
pub open spec fn empty_config() -> ConfigV {
    ConfigV {
        db_path: None,
        pdf_dir: None,
        pdf_extractor: None,
        email: None,
        s2_api_key: None,
        timeout: None,
        ttl_search: None,
        ttl_lookup: None,
        no_color: None,
    }
}

impl Default for Config {
    fn default() -> (r: Config)
        ensures
            r@ == empty_config(),
    {
        Config {
            db_path: None,
            pdf_dir: None,
            pdf_extractor: None,
            email: None,
            s2_api_key: None,
            timeout: None,
            ttl_search: None,
            ttl_lookup: None,
            no_color: None,
        }
    }
}

/// `[core]` section of a config file.
#[derive(Debug, Clone)]
pub struct CoreSection {
    pub db_path: Option<String>,
    pub pdf_dir: Option<String>,
    pub email: Option<String>,
    pub timeout: Option<u64>,
}

/// `[cache]` section of a config file.
#[derive(Debug, Clone)]
pub struct CacheSection {
    pub ttl_search: Option<u64>,
    pub ttl_lookup: Option<u64>,
}

/// `[api]` section of a config file.
#[derive(Debug, Clone)]
pub struct ApiSection {
    pub s2_key: Option<String>,
}

/// `[extract]` section of a config file.
#[derive(Debug, Clone)]
pub struct ExtractSection {
    pub pdf_extractor: Option<String>,
}

/// A parsed config file, section by section.
#[derive(Debug, Clone)]
pub struct ConfigFile {
    pub core: Option<CoreSection>,
    pub cache: Option<CacheSection>,
    pub api: Option<ApiSection>,
    pub extract: Option<ExtractSection>,
}

/// The environment variables that override the configuration, each as its
/// value when it is set.
#[derive(Debug, Clone)]
pub struct EnvOverrides {
    pub lit_db_path: Option<String>,
    pub lit_pdf_dir: Option<String>,
    pub lit_pdf_extractor: Option<String>,
    pub lit_email: Option<String>,
    pub s2_api_key: Option<String>,
    pub curl_timeout: Option<String>,
    pub lit_ttl_search: Option<String>,
    pub lit_ttl_lookup: Option<String>,
    pub no_color: Option<String>,
}

/// `b` when it is set, else `a`.
pub open spec fn or_over<T>(a: Option<T>, b: Option<T>) -> Option<T> {
    match b {
        Some(x) => Some(x),
        None => a,
    }
}

/// `c` with the values that `file` sets.
pub open spec fn merged_file(c: ConfigV, file: ConfigFile) -> ConfigV {
    let c1 = match file.core {
        Some(core) => ConfigV {
            db_path: or_over(c.db_path, opt_view(core.db_path)),
            pdf_dir: or_over(c.pdf_dir, opt_view(core.pdf_dir)),
            email: or_over(c.email, opt_view(core.email)),
            timeout: or_over(c.timeout, core.timeout),
            ..c
        },
        None => c,
    };
    let c2 = match file.cache {
        Some(cache) => ConfigV {
            ttl_search: or_over(c1.ttl_search, cache.ttl_search),
            ttl_lookup: or_over(c1.ttl_lookup, cache.ttl_lookup),
            ..c1
        },
        None => c1,
    };
    let c3 = match file.api {
        Some(api) => ConfigV { s2_api_key: or_over(c2.s2_api_key, opt_view(api.s2_key)), ..c2 },
        None => c2,
    };
    match file.extract {
        Some(ex) => ConfigV { pdf_extractor: or_over(c3.pdf_extractor, opt_view(ex.pdf_extractor)), ..c3 },
        None => c3,
    }
}

/// `a` overridden by every value `b` sets.
pub open spec fn merged(a: ConfigV, b: ConfigV) -> ConfigV {
    ConfigV {
        db_path: or_over(a.db_path, b.db_path),
        pdf_dir: or_over(a.pdf_dir, b.pdf_dir),
        pdf_extractor: or_over(a.pdf_extractor, b.pdf_extractor),
        email: or_over(a.email, b.email),
        s2_api_key: or_over(a.s2_api_key, b.s2_api_key),
        timeout: or_over(a.timeout, b.timeout),
        ttl_search: or_over(a.ttl_search, b.ttl_search),
        ttl_lookup: or_over(a.ttl_lookup, b.ttl_lookup),
        no_color: or_over(a.no_color, b.no_color),
    }
}

/// A numeric environment value: its `u64` value when it parses as one.
pub open spec fn env_number(v: Option<Seq<char>>) -> Option<u64> {
    match v {
        Some(s) => match parse_decimal(s, u64::MAX as nat) {
            Some(n) => Some(n as u64),
            None => None,
        },
        None => None,
    }
}

/// `c` with the environment's overrides: every string variable that is set,
/// every numeric one that parses, and `no_color` when `NO_COLOR` is set and
/// non-empty.
pub open spec fn with_env(c: ConfigV, env: EnvOverrides) -> ConfigV {
    ConfigV {
        db_path: or_over(c.db_path, opt_view(env.lit_db_path)),
        pdf_dir: or_over(c.pdf_dir, opt_view(env.lit_pdf_dir)),
        pdf_extractor: or_over(c.pdf_extractor, opt_view(env.lit_pdf_extractor)),
        email: or_over(c.email, opt_view(env.lit_email)),
        s2_api_key: or_over(c.s2_api_key, opt_view(env.s2_api_key)),
        timeout: or_over(c.timeout, env_number(opt_view(env.curl_timeout))),
        ttl_search: or_over(c.ttl_search, env_number(opt_view(env.lit_ttl_search))),
        ttl_lookup: or_over(c.ttl_lookup, env_number(opt_view(env.lit_ttl_lookup))),
        no_color: match opt_view(env.no_color) {
            Some(v) => if v.len() > 0 { Some(true) } else { c.no_color },
            None => c.no_color,
        },
    }
}

/// `path` joined onto `base` as `Path::join` does for a relative path.
pub open spec fn path_join(base: Seq<char>, rel: Seq<char>) -> Seq<char> {
    if base.len() == 0 {
        rel
    } else if base.last() == '/' {
        base + rel
    } else {
        base + "/"@ + rel
    }
}

/// A leading `~` or `~/` (also `~\`) replaced by the home directory (`~`
/// when it is unknown); `~user` paths are left alone.
pub open spec fn tilde_expanded(path: Seq<char>, home: Option<Seq<char>>) -> Seq<char> {
    let h = match home {
        Some(x) => x,
        None => "~"@,
    };
    if !has_prefix(path, "~"@) {
        path
    } else if path == "~"@ {
        h
    } else if has_prefix(path, "~/"@) || has_prefix(path, "~\\"@) {
        h + path.subrange(1, path.len() as int)
    } else {
        path
    }
}

/// An optional value expanded by `tilde_expanded`.
pub open spec fn opt_expanded(p: Option<Seq<char>>, home: Option<Seq<char>>) -> Option<Seq<char>> {
    match p {
        Some(x) => Some(tilde_expanded(x, home)),
        None => None,
    }
}

/// The home directory, the current directory standing in for an unknown
/// one.
pub open spec fn home_or_dot(home: Option<Seq<char>>) -> Seq<char> {
    match home {
        Some(x) => x,
        None => "."@,
    }
}

fn clone_opt(o: &Option<String>) -> (r: Option<String>)
    ensures
        opt_view(r) == opt_view(*o),
{
    match o {
        Some(s) => Some(s.clone()),
        None => None,
    }
}

fn path_join_exec(base: &str, rel: &str) -> (r: String)
    ensures
        r@ == path_join(base@, rel@),
{
    let b = str_chars(base);
    if b.len() == 0 {
        return rel.to_owned();
    }
    let mut out = b;
    if out[out.len() - 1] != '/' {
        push_str(&mut out, "/");
    }
    push_str(&mut out, rel);
    string_from_chars(out.as_slice())
}

fn opt_str<'a>(o: &'a Option<String>) -> (r: Option<&'a str>)
    ensures
        match r {
            Some(s) => opt_view(*o) == Some(s@),
            None => o is None,
        },
{
    match o {
        Some(s) => Some(s.as_str()),
        None => None,
    }
}

/// Expand a leading `~` to the user's home directory `home` (`~` when it is
/// unknown); `~otheruser` paths are not expanded.
pub fn expand_tilde(path: &str, home: Option<&str>) -> (r: String)
    ensures
        r@ == tilde_expanded(path@, match home { Some(h) => Some(h@), None => None }),
{
    proof {
        reveal_strlit("~");
    }
    let p = str_chars(path);
    if !starts_with_str(p.as_slice(), "~") {
        return path.to_owned();
    }
    let h = match home {
        Some(x) => x.to_owned(),
        None => "~".to_owned(),
    };
    if eq_str(p.as_slice(), "~") {
        h
    } else if starts_with_str(p.as_slice(), "~/") || starts_with_str(p.as_slice(), "~\\") {
        let mut out = str_chars(h.as_str());
        let rest = slice_vec(p.as_slice(), 1, p.len());
        push_all(&mut out, rest.as_slice());
        string_from_chars(out.as_slice())
    } else {
        path.to_owned()
    }
}

fn expand_opt(p: &Option<String>, home: Option<&str>) -> (r: Option<String>)
    ensures
        opt_view(r) == opt_expanded(opt_view(*p), match home { Some(h) => Some(h@), None => None }),
{
    match p {
        Some(x) => Some(expand_tilde(x.as_str(), home)),
        None => None,
    }
}

fn env_number_exec(v: &Option<String>) -> (r: Option<u64>)
    ensures
        r == env_number(opt_view(*v)),
{
    match v {
        Some(s) => {
            let c = str_chars(s.as_str());
            parse_decimal_exec(c.as_slice(), u64::MAX)
        },
        None => None,
    }
}

impl Config {
    /// Merge a parsed config file into self (later values override).
    pub fn merge_parsed(&mut self, file: &ConfigFile)
        ensures
            final(self)@ == merged_file(old(self)@, *file),
    {
        if let Some(core) = &file.core {
            if core.db_path.is_some() {
                self.db_path = clone_opt(&core.db_path);
            }
            if core.pdf_dir.is_some() {
                self.pdf_dir = clone_opt(&core.pdf_dir);
            }
            if core.email.is_some() {
                self.email = clone_opt(&core.email);
            }
            if core.timeout.is_some() {
                self.timeout = core.timeout;
            }
        }
        if let Some(cache) = &file.cache {
            if cache.ttl_search.is_some() {
                self.ttl_search = cache.ttl_search;
            }
            if cache.ttl_lookup.is_some() {
                self.ttl_lookup = cache.ttl_lookup;
            }
        }
        if let Some(api) = &file.api {
            if api.s2_key.is_some() {
                self.s2_api_key = clone_opt(&api.s2_key);
            }
        }
        if let Some(extract) = &file.extract {
            if extract.pdf_extractor.is_some() {
                self.pdf_extractor = clone_opt(&extract.pdf_extractor);
            }
        }
    }

    /// Merge another config into self (later overrides earlier).
    pub fn merge(&mut self, other: &Config)
        ensures
            final(self)@ == merged(old(self)@, other@),
    {
        if other.db_path.is_some() {
            self.db_path = clone_opt(&other.db_path);
        }
        if other.pdf_dir.is_some() {
            self.pdf_dir = clone_opt(&other.pdf_dir);
        }
        if other.pdf_extractor.is_some() {
            self.pdf_extractor = clone_opt(&other.pdf_extractor);
        }
        if other.email.is_some() {
            self.email = clone_opt(&other.email);
        }
        if other.s2_api_key.is_some() {
            self.s2_api_key = clone_opt(&other.s2_api_key);
        }
        if other.timeout.is_some() {
            self.timeout = other.timeout;
        }
        if other.ttl_search.is_some() {
            self.ttl_search = other.ttl_search;
        }
        if other.ttl_lookup.is_some() {
            self.ttl_lookup = other.ttl_lookup;
        }
        if other.no_color.is_some() {
            self.no_color = other.no_color;
        }
    }

    /// Apply environment variable overrides.
    pub fn apply_env(&mut self, env: &EnvOverrides)
        ensures
            final(self)@ == with_env(old(self)@, *env),
    {
        if env.lit_db_path.is_some() {
            self.db_path = clone_opt(&env.lit_db_path);
        }
        if env.lit_pdf_dir.is_some() {
            self.pdf_dir = clone_opt(&env.lit_pdf_dir);
        }
        if env.lit_pdf_extractor.is_some() {
            self.pdf_extractor = clone_opt(&env.lit_pdf_extractor);
        }
        if env.lit_email.is_some() {
            self.email = clone_opt(&env.lit_email);
        }
        if env.s2_api_key.is_some() {
            self.s2_api_key = clone_opt(&env.s2_api_key);
        }
        if let Some(n) = env_number_exec(&env.curl_timeout) {
            self.timeout = Some(n);
        }
        if let Some(n) = env_number_exec(&env.lit_ttl_search) {
            self.ttl_search = Some(n);
        }
        if let Some(n) = env_number_exec(&env.lit_ttl_lookup) {
            self.ttl_lookup = Some(n);
        }
        if let Some(v) = &env.no_color {
            if !v.as_str().is_empty() {
                self.no_color = Some(true);
            }
        }
    }

    /// Expand `~` prefix in path-valued fields, `home` being the user's
    /// home directory when it is known.
    pub fn expand_paths(&mut self, home: Option<&str>)
        ensures
            final(self)@ == (ConfigV {
                db_path: opt_expanded(old(self)@.db_path, match home { Some(h) => Some(h@), None => None }),
                pdf_dir: opt_expanded(old(self)@.pdf_dir, match home { Some(h) => Some(h@), None => None }),
                pdf_extractor: opt_expanded(old(self)@.pdf_extractor, match home { Some(h) => Some(h@), None => None }),
                ..old(self)@
            }),
    {
        self.db_path = expand_opt(&self.db_path, home);
        self.pdf_dir = expand_opt(&self.pdf_dir, home);
        self.pdf_extractor = expand_opt(&self.pdf_extractor, home);
    }

    /// Database path, defaulting to the platform's data directory under
    /// `home`: `Library/Application Support/lit` on macOS (`macos`),
    /// `.local/share/lit` elsewhere.
    pub fn db_path(&self, home: Option<&str>, macos: bool) -> (r: String)
        ensures
            r@ == match self@.db_path {
                Some(p) => p,
                None => path_join(
                    home_or_dot(match home { Some(h) => Some(h@), None => None }),
                    if macos { "Library/Application Support/lit/lit.db"@ } else { ".local/share/lit/lit.db"@ },
                ),
            },
    {
        match &self.db_path {
            Some(p) => p.clone(),
            None => {
                let h = match home {
                    Some(x) => x,
                    None => ".",
                };
                if macos {
                    path_join_exec(h, "Library/Application Support/lit/lit.db")
                } else {
                    path_join_exec(h, ".local/share/lit/lit.db")
                }
            },
        }
    }

    /// PDF storage directory, defaulting to the platform's data directory
    /// under `home` (`macos` selects the macOS layout).
    pub fn pdf_dir(&self, home: Option<&str>, macos: bool) -> (r: String)
        ensures
            r@ == match self@.pdf_dir {
                Some(p) => p,
                None => path_join(
                    home_or_dot(match home { Some(h) => Some(h@), None => None }),
                    if macos { "Library/Application Support/lit/pdf"@ } else { ".local/share/lit/pdf"@ },
                ),
            },
    {
        match &self.pdf_dir {
            Some(p) => p.clone(),
            None => {
                let h = match home {
                    Some(x) => x,
                    None => ".",
                };
                if macos {
                    path_join_exec(h, "Library/Application Support/lit/pdf")
                } else {
                    path_join_exec(h, ".local/share/lit/pdf")
                }
            },
        }
    }

    /// PDF extractor command (`None` means use the built-in pdftotext).
    pub fn pdf_extractor(&self) -> (r: Option<&str>)
        ensures
            match r {
                Some(s) => self@.pdf_extractor == Some(s@),
                None => self@.pdf_extractor is None,
            },
    {
        opt_str(&self.pdf_extractor)
    }

    /// Email for the Unpaywall API.
    pub fn email(&self) -> (r: &str)
        ensures
            r@ == match self@.email {
                Some(e) => e,
                None => "lit-user@example.com"@,
            },
    {
        match &self.email {
            Some(e) => e.as_str(),
            None => "lit-user@example.com",
        }
    }

    /// Semantic Scholar API key, when set and non-empty.
    pub fn s2_api_key(&self) -> (r: Option<&str>)
        ensures
            match r {
                Some(k) => self@.s2_api_key == Some(k@) && k@.len() > 0,
                None => match self@.s2_api_key {
                    Some(k) => k.len() == 0,
                    None => true,
                },
            },
    {
        match &self.s2_api_key {
            Some(k) => if !k.as_str().is_empty() { Some(k.as_str()) } else { None },
            None => None,
        }
    }

    /// HTTP timeout in seconds.
    pub fn timeout(&self) -> (r: u64)
        ensures
            r == match self.timeout { Some(t) => t, None => 15 },
    {
        match self.timeout {
            Some(t) => t,
            None => 15,
        }
    }

    /// Cache TTL for search results (seconds).
    pub fn ttl_search(&self) -> (r: u64)
        ensures
            r == match self.ttl_search { Some(t) => t, None => 86400 },
    {
        match self.ttl_search {
            Some(t) => t,
            None => 86400,
        }
    }

    /// Cache TTL for DOI/arXiv/ISBN lookups (seconds).
    pub fn ttl_lookup(&self) -> (r: u64)
        ensures
            r == match self.ttl_lookup { Some(t) => t, None => 604800 },
    {
        match self.ttl_lookup {
            Some(t) => t,
            None => 604800,
        }
    }

    /// Whether color output is disabled by config.
    pub fn no_color(&self) -> (r: bool)
        ensures
            r == match self.no_color { Some(b) => b, None => false },
    {
        match self.no_color {
            Some(b) => b,
            None => false,
        }
    }
}

} // verus!
