//! Repository metadata, its lookup by `(owner, repo)`, and GitHub URL parsing.
use vstd::prelude::*;

use crate::text::{
    chars_end_with, chars_of, chars_slice, chars_start_with, clone_opt_string, clone_strings,
    concat3, concat_str, decimal, decimal_string, lower_of, opt_view,
    pieces_by, split_runs, str_starts_with, string_from_chars, string_views, to_lowercase, trim,
    trim_spec, views_of,
};

verus! {

// ---------------------------------------------------------------------------
// Configuration
// ---------------------------------------------------------------------------

/// Base URL of the GitHub REST API.
pub const GITHUB_API_BASE_URL: &'static str = "https://api.github.com";

/// User agent sent with API requests.
pub const USER_AGENT: &'static str = "enerby-dev-portfolio/1.0";

/// Request timeout in milliseconds.
pub const API_TIMEOUT_MS: u64 = 10_000;

/// Settings of a client of the GitHub API.
#[derive(Debug, Clone)]
pub struct GitHubApiConfig {
    pub base_url: String,
    pub user_agent: String,
    pub timeout_ms: u64,
}

impl Default for GitHubApiConfig {
    fn default() -> (r: Self)
        ensures
            r.base_url@ == GITHUB_API_BASE_URL@,
            r.user_agent@ == USER_AGENT@,
            r.timeout_ms == API_TIMEOUT_MS,
    {
        GitHubApiConfig {
            base_url: GITHUB_API_BASE_URL.to_owned(),
            user_agent: USER_AGENT.to_owned(),
            timeout_ms: API_TIMEOUT_MS,
        }
    }
}

// ---------------------------------------------------------------------------
// Errors
// ---------------------------------------------------------------------------

/// Why repository metadata could not be had.
#[derive(Debug)]
pub enum ApiError {
    /// The connection failed or timed out.
    NetworkError(String),
    /// No such repository.
    NotFound,
    /// The API's rate limit was exceeded.
    RateLimited,
    /// The response could not be parsed.
    ParseError(String),
    /// The repository is private or access was denied.
    Forbidden,
    /// The server answered with this error status.
    ServerError(u16),
}

impl PartialEq for ApiError {
    fn eq(&self, other: &ApiError) -> (r: bool) {
        match self {
            ApiError::NetworkError(a) => match other {
                ApiError::NetworkError(b) => *a == *b,
                _ => false,
            },
            ApiError::NotFound => matches!(other, ApiError::NotFound),
            ApiError::RateLimited => matches!(other, ApiError::RateLimited),
            ApiError::ParseError(a) => match other {
                ApiError::ParseError(b) => *a == *b,
                _ => false,
            },
            ApiError::Forbidden => matches!(other, ApiError::Forbidden),
            ApiError::ServerError(a) => match other {
                ApiError::ServerError(b) => *a == *b,
                _ => false,
            },
        }
    }
}

impl vstd::std_specs::cmp::PartialEqSpecImpl for ApiError {
    open spec fn obeys_eq_spec() -> bool {
        true
    }

    open spec fn eq_spec(&self, other: &ApiError) -> bool {
        match (self, other) {
            (ApiError::NetworkError(a), ApiError::NetworkError(b)) => a@ == b@,
            (ApiError::NotFound, ApiError::NotFound) => true,
            (ApiError::RateLimited, ApiError::RateLimited) => true,
            (ApiError::ParseError(a), ApiError::ParseError(b)) => a@ == b@,
            (ApiError::Forbidden, ApiError::Forbidden) => true,
            (ApiError::ServerError(a), ApiError::ServerError(b)) => a == b,
            _ => false,
        }
    }
}

impl ApiError {
    /// The message shown to a user for this error.
    pub open spec fn message(&self) -> Seq<char> {
        match self {
            ApiError::NetworkError(m) => "Network error: "@ + m@,
            ApiError::NotFound => "Repository not found"@,
            ApiError::RateLimited => "GitHub API rate limit exceeded"@,
            ApiError::ParseError(m) => "Failed to parse response: "@ + m@,
            ApiError::Forbidden => "Access forbidden"@,
            ApiError::ServerError(code) => "Server error: "@ + decimal(*code as nat),
        }
    }

    /// The message shown to a user for this error.
    pub fn to_string(&self) -> (r: String)
        ensures
            r@ == self.message(),
    {
        match self {
            ApiError::NetworkError(m) => concat_str("Network error: ", m.as_str()),
            ApiError::NotFound => "Repository not found".to_owned(),
            ApiError::RateLimited => "GitHub API rate limit exceeded".to_owned(),
            ApiError::ParseError(m) => concat_str("Failed to parse response: ", m.as_str()),
            ApiError::Forbidden => "Access forbidden".to_owned(),
            ApiError::ServerError(code) => {
                let digits = decimal_string(*code as u64);
                concat_str("Server error: ", digits.as_str())
            },
        }
    }
}

// ---------------------------------------------------------------------------
// Repository metadata
// ---------------------------------------------------------------------------

/// Metadata of one repository, as the GitHub API describes it.
#[derive(Debug)]
pub struct GitHubRepoInfo {
    /// Repository name, e.g. `enerby.dev`.
    pub name: String,
    /// Owner and name, e.g. `enerBydev/enerby.dev`.
    pub full_name: String,
    pub description: Option<String>,
    /// Homepage configured in the repository settings.
    pub homepage: Option<String>,
    /// Primary programming language.
    pub language: Option<String>,
    pub stargazers_count: u32,
    pub forks_count: u32,
    pub fork: bool,
    pub archived: bool,
    pub topics: Vec<String>,
    pub html_url: String,
}

/// The mathematical value of a [`GitHubRepoInfo`].
pub struct RepoInfoView {
    pub name: Seq<char>,
    pub full_name: Seq<char>,
    pub description: Option<Seq<char>>,
    pub homepage: Option<Seq<char>>,
    pub language: Option<Seq<char>>,
    pub stargazers_count: u32,
    pub forks_count: u32,
    pub fork: bool,
    pub archived: bool,
    pub topics: Seq<Seq<char>>,
    pub html_url: Seq<char>,
}

impl View for GitHubRepoInfo {
    type V = RepoInfoView;

    open spec fn view(&self) -> RepoInfoView {
        RepoInfoView {
            name: self.name@,
            full_name: self.full_name@,
            description: opt_view(self.description),
            homepage: opt_view(self.homepage),
            language: opt_view(self.language),
            stargazers_count: self.stargazers_count,
            forks_count: self.forks_count,
            fork: self.fork,
            archived: self.archived,
            topics: string_views(self.topics@),
            html_url: self.html_url@,
        }
    }
}

impl Clone for GitHubRepoInfo {
    fn clone(&self) -> (r: Self)
        ensures
            r@ == self@,
    {
        GitHubRepoInfo {
            name: self.name.clone(),
            full_name: self.full_name.clone(),
            description: clone_opt_string(&self.description),
            homepage: clone_opt_string(&self.homepage),
            language: clone_opt_string(&self.language),
            stargazers_count: self.stargazers_count,
            forks_count: self.forks_count,
            fork: self.fork,
            archived: self.archived,
            topics: clone_strings(&self.topics),
            html_url: self.html_url.clone(),
        }
    }
}

/// Whether `url` begins with `http://` or `https://`.
pub open spec fn is_web_url(url: Seq<char>) -> bool {
    "http://"@.is_prefix_of(url) || "https://"@.is_prefix_of(url)
}

/// The usable demo URL of a homepage setting: the trimmed homepage when it is
/// non-empty and starts with `http://` or `https://`.
pub open spec fn usable_homepage(homepage: Option<Seq<char>>) -> Option<Seq<char>> {
    match homepage {
        Some(h) => {
            let t = trim_spec(h);
            if t.len() > 0 && is_web_url(t) {
                Some(t)
            } else {
                None
            }
        },
        None => None,
    }
}

/// Whether `url` begins with `http://` or `https://`.
pub fn is_web_url_exec(url: &str) -> (r: bool)
    ensures
        r == is_web_url(url@),
{
    str_starts_with(url, "http://") || str_starts_with(url, "https://")
}

impl GitHubRepoInfo {
    /// The homepage, trimmed, if it is a non-empty `http://` or `https://` URL.
    pub fn extract_homepage(&self) -> (r: Option<String>)
        ensures
            opt_view(r) == usable_homepage(opt_view(self.homepage)),
    {
        match &self.homepage {
            Some(url) => {
                let trimmed = trim(url.as_str());
                if trimmed.unicode_len() == 0 {
                    None
                } else if is_web_url_exec(trimmed.as_str()) {
                    Some(trimmed)
                } else {
                    None
                }
            },
            None => None,
        }
    }

    /// Metadata with only the names set: no description, homepage, language
    /// or topics, no stars or forks.
    pub fn minimal(owner: &str, name: &str) -> (r: Self)
        ensures
            r.name@ == name@,
            r.full_name@ == owner@ + "/"@ + name@,
            r.description is None,
            r.homepage is None,
            r.language is None,
            r.stargazers_count == 0,
            r.forks_count == 0,
            !r.fork,
            !r.archived,
            r.topics@.len() == 0,
            r.html_url@ == "https://github.com/"@ + owner@ + "/"@ + name@,
    {
        let base = concat_str("https://github.com/", owner);
        GitHubRepoInfo {
            name: name.to_owned(),
            full_name: concat3(owner, "/", name),
            description: None,
            homepage: None,
            language: None,
            stargazers_count: 0,
            forks_count: 0,
            fork: false,
            archived: false,
            topics: Vec::new(),
            html_url: concat3(base.as_str(), "/", name),
        }
    }
}

// ---------------------------------------------------------------------------
// Looking repositories up
// ---------------------------------------------------------------------------

/// The views of a sequence of repository records.
pub open spec fn repo_views(s: Seq<GitHubRepoInfo>) -> Seq<RepoInfoView> {
    s.map_values(|r: GitHubRepoInfo| r@)
}

/// The key under which `(owner, repo)` is looked up: `owner/repo`, lower-cased.
pub open spec fn lookup_key(owner: Seq<char>, repo: Seq<char>) -> Seq<char> {
    lower_of(owner + "/"@ + repo)
}

/// The first record of `table` whose lower-cased full name is `key`.
pub open spec fn find_repo(table: Seq<RepoInfoView>, key: Seq<char>) -> Option<RepoInfoView>
    decreases table.len(),
{
    if table.len() == 0 {
        None
    } else if lower_of(table[0].full_name) == key {
        Some(table[0])
    } else {
        find_repo(table.drop_first(), key)
    }
}

/// Whether `r` is what a lookup owes when the record sought is `expected`:
/// that record, or `NotFound` when there is none.
pub open spec fn lookup_answers(r: Result<GitHubRepoInfo, ApiError>, expected: Option<RepoInfoView>) -> bool {
    match r {
        Ok(info) => expected == Some(info@),
        Err(e) => expected is None && e is NotFound,
    }
}

/// Looks `(owner, repo)` up in `table`, comparing `owner/repo` with each full
/// name without regard to case.
pub fn lookup_repo(table: &[GitHubRepoInfo], owner: &str, repo: &str) -> (r: Result<GitHubRepoInfo, ApiError>)
    ensures
        lookup_answers(r, find_repo(repo_views(table@), lookup_key(owner@, repo@))),
{
    let full_name = concat3(owner, "/", repo);
    let key = to_lowercase(full_name.as_str());
    let ghost views = repo_views(table@);
    let mut i: usize = 0;
    assert(views.subrange(0, views.len() as int) =~= views);
    while i < table.len()
        invariant
            i <= table@.len(),
            views == repo_views(table@),
            key@ == lookup_key(owner@, repo@),
            find_repo(views, key@) == find_repo(views.subrange(i as int, views.len() as int), key@),
        decreases table@.len() - i,
    {
        let ghost rest = views.subrange(i as int, views.len() as int);
        assert(rest[0] == table@[i as int]@);
        let name = to_lowercase(table[i].full_name.as_str());
        if name == key {
            return Ok(table[i].clone());
        }
        assert(rest.drop_first() =~= views.subrange(i as int + 1, views.len() as int));
        i = i + 1;
    }
    Err(ApiError::NotFound)
}

/// An optional string made from an optional literal.
pub(crate) fn opt_owned(s: Option<&str>) -> (r: Option<String>)
    ensures
        opt_view(r) == match s {
            Some(v) => Some(v@),
            None => None::<Seq<char>>,
        },
{
    match s {
        Some(v) => Some(v.to_owned()),
        None => None,
    }
}

/// A vector of strings made from literals.
pub(crate) fn owned_strings(v: &[&str]) -> (r: Vec<String>)
    ensures
        string_views(r@) == v@.map_values(|x: &str| x@),
{
    let mut r: Vec<String> = Vec::new();
    let mut i: usize = 0;
    while i < v.len()
        invariant
            i <= v@.len(),
            string_views(r@) == v@.subrange(0, i as int).map_values(|x: &str| x@),
        decreases v@.len() - i,
    {
        let ghost before = r@;
        let item = v[i].to_owned();
        r.push(item);
        assert(r@ == before.push(item));
        assert(string_views(r@) =~= string_views(before).push(v@[i as int]@));
        assert(v@.subrange(0, i as int + 1) =~= v@.subrange(0, i as int).push(v@[i as int]));
        i = i + 1;
        assert(string_views(r@) =~= v@.subrange(0, i as int).map_values(|x: &str| x@));
    }
    assert(v@.subrange(0, v@.len() as int) =~= v@);
    r
}

/// One record of the bundled table: no stars or forks, neither a fork nor archived.
fn seed_repo(
    name: &str,
    owner: &str,
    description: &str,
    homepage: Option<&str>,
    language: &str,
    topics: &[&str],
) -> (r: GitHubRepoInfo)
    ensures
        r@ == seed_view(name@, owner@, description@, match homepage {
            Some(h) => Some(h@),
            None => None::<Seq<char>>,
        }, language@, topics@),
{
    let full_name = concat3(owner, "/", name);
    let base = concat_str("https://github.com/", full_name.as_str());
    GitHubRepoInfo {
        name: name.to_owned(),
        full_name,
        description: Some(description.to_owned()),
        homepage: opt_owned(homepage),
        language: Some(language.to_owned()),
        stargazers_count: 0,
        forks_count: 0,
        fork: false,
        archived: false,
        topics: owned_strings(topics),
        html_url: base,
    }
}

/// A record of the bundled table, from the parts that vary between records.
pub open spec fn seed_view(
    name: Seq<char>,
    owner: Seq<char>,
    description: Seq<char>,
    homepage: Option<Seq<char>>,
    language: Seq<char>,
    topics: Seq<&str>,
) -> RepoInfoView {
    RepoInfoView {
        name,
        full_name: owner + "/"@ + name,
        description: Some(description),
        homepage,
        language: Some(language),
        stargazers_count: 0,
        forks_count: 0,
        fork: false,
        archived: false,
        topics: topics.map_values(|x: &str| x@),
        html_url: "https://github.com/"@ + (owner + "/"@ + name),
    }
}

/// The bundled metadata of the site owner's repositories.
pub open spec fn static_repo_table() -> Seq<RepoInfoView> {
    seq![
        seed_view("enerby.dev"@, "enerBydev"@, "Personal portfolio website built with Rust + Dioxus"@,
            Some("https://enerby.dev"@), "Rust"@, seq!["rust", "dioxus", "portfolio", "wasm"]),
        seed_view("oc_diagdoc"@, "enerBydev"@, "command-line-utilities, text-processing, development-tools"@,
            Some("https://www.google.com"@), "Rust"@, seq!["rust"]),
        seed_view("nvim-config"@, "enerBydev"@, "Personal Neovim configuration"@, None, "Lua"@,
            seq!["neovim", "lua", "dotfiles"]),
        seed_view("rust_projects"@, "enerBydev"@, "Collection of Rust learning projects"@, None, "Rust"@,
            seq!["rust", "learning"]),
    ]
}

/// The bundled repository metadata, which stands in for live API calls.
fn get_static_repo_data() -> (r: Vec<GitHubRepoInfo>)
    ensures
        repo_views(r@) == static_repo_table(),
{
    let ghost t = static_repo_table();
    let a = seed_repo("enerby.dev", "enerBydev", "Personal portfolio website built with Rust + Dioxus",
        Some("https://enerby.dev"), "Rust", &["rust", "dioxus", "portfolio", "wasm"]);
    let b = seed_repo("oc_diagdoc", "enerBydev", "command-line-utilities, text-processing, development-tools",
        Some("https://www.google.com"), "Rust", &["rust"]);
    let c = seed_repo("nvim-config", "enerBydev", "Personal Neovim configuration", None, "Lua",
        &["neovim", "lua", "dotfiles"]);
    let d = seed_repo("rust_projects", "enerBydev", "Collection of Rust learning projects", None, "Rust",
        &["rust", "learning"]);
    assert(a@ == t[0]);
    assert(b@.topics =~= t[1].topics);
    assert(b@ == t[1]);
    assert(c@ == t[2]);
    assert(d@ == t[3]);
    let mut r: Vec<GitHubRepoInfo> = Vec::new();
    r.push(a);
    r.push(b);
    r.push(c);
    r.push(d);
    assert(repo_views(r@) =~= static_repo_table());
    r
}

/// Looks `(owner, repo)` up in the bundled metadata, without regard to case.
pub fn get_repo_info(owner: &str, repo: &str) -> (r: Result<GitHubRepoInfo, ApiError>)
    ensures
        lookup_answers(r, find_repo(static_repo_table(), lookup_key(owner@, repo@))),
{
    let table = get_static_repo_data();
    lookup_repo(table.as_slice(), owner, repo)
}

/// The usable homepage of `(owner, repo)`, if the repository is known and has one.
pub fn get_repo_homepage(owner: &str, repo: &str) -> (r: Option<String>)
    ensures
        opt_view(r) == match find_repo(static_repo_table(), lookup_key(owner@, repo@)) {
            Some(info) => usable_homepage(info.homepage),
            None => None,
        },
{
    match get_repo_info(owner, repo) {
        Ok(info) => info.extract_homepage(),
        Err(_) => None,
    }
}

/// All bundled repository metadata.
pub fn get_all_repos() -> (r: Vec<GitHubRepoInfo>)
    ensures
        repo_views(r@) == static_repo_table(),
{
    get_static_repo_data()
}

/// Looks up each `(owner, repo)` pair in turn.
pub fn fetch_multiple_repos(repos: &[(&str, &str)]) -> (r: Vec<Result<GitHubRepoInfo, ApiError>>)
    ensures
        r@.len() == repos@.len(),
        forall|i: int|
            0 <= i < repos@.len() ==> lookup_answers(
                #[trigger] r@[i],
                find_repo(static_repo_table(), lookup_key(repos@[i].0@, repos@[i].1@)),
            ),
{
    let mut r: Vec<Result<GitHubRepoInfo, ApiError>> = Vec::new();
    let mut i: usize = 0;
    while i < repos.len()
        invariant
            i <= repos@.len(),
            r@.len() == i,
            forall|k: int|
                0 <= k < i ==> lookup_answers(
                    #[trigger] r@[k],
                    find_repo(static_repo_table(), lookup_key(repos@[k].0@, repos@[k].1@)),
                ),
        decreases repos@.len() - i,
    {
        let (owner, repo) = repos[i];
        r.push(get_repo_info(owner, repo));
        i = i + 1;
    }
    r
}

// ---------------------------------------------------------------------------
// GitHub URLs
// ---------------------------------------------------------------------------

/// The path after a recognised GitHub prefix: `https://github.com/`,
/// `http://github.com/` or `github.com/`.
pub open spec fn github_path(url: Seq<char>) -> Option<Seq<char>> {
    if "https://github.com/"@.is_prefix_of(url) {
        Some(url.subrange("https://github.com/"@.len() as int, url.len() as int))
    } else if "http://github.com/"@.is_prefix_of(url) {
        Some(url.subrange("http://github.com/"@.len() as int, url.len() as int))
    } else if "github.com/"@.is_prefix_of(url) {
        Some(url.subrange("github.com/"@.len() as int, url.len() as int))
    } else {
        None
    }
}

/// `s` without one trailing `suffix`, if it has one.
pub open spec fn strip_suffix_once(s: Seq<char>, suffix: Seq<char>) -> Seq<char> {
    if suffix.is_suffix_of(s) {
        s.subrange(0, s.len() - suffix.len())
    } else {
        s
    }
}

/// The separator of URL path segments.
pub open spec fn slash() -> spec_fn(char) -> bool {
    |c: char| c == '/'
}

/// The non-empty segments of a GitHub URL's path, after one trailing `/` and
/// then one trailing `.git` are removed.
pub open spec fn github_segments(path: Seq<char>) -> Seq<Seq<char>> {
    pieces_by(strip_suffix_once(strip_suffix_once(path, "/"@), ".git"@), slash())
}

/// `(owner, repo)` of a GitHub repository URL: the first two path segments,
/// when there are at least two.
pub open spec fn parse_github_url_spec(url: Seq<char>) -> Option<(Seq<char>, Seq<char>)> {
    match github_path(url) {
        Some(path) => {
            let segs = github_segments(path);
            if segs.len() >= 2 {
                Some((segs[0], segs[1]))
            } else {
                None
            }
        },
        None => None,
    }
}

/// The view of an optional pair of strings.
pub open spec fn pair_view(r: Option<(String, String)>) -> Option<(Seq<char>, Seq<char>)> {
    match r {
        Some(p) => Some((p.0@, p.1@)),
        None => None,
    }
}

/// `s` with the first `n` characters removed.
fn chars_after(s: &Vec<char>, n: usize) -> (r: Vec<char>)
    requires
        n <= s@.len(),
    ensures
        r@ == s@.subrange(n as int, s@.len() as int),
{
    chars_slice(s, n, s.len())
}

/// `s` without one trailing `suffix`, if it has one.
fn strip_suffix_chars(s: &Vec<char>, suffix: &str) -> (r: Vec<char>)
    ensures
        r@ == strip_suffix_once(s@, suffix@),
{
    let sc = chars_of(suffix);
    if chars_end_with(s, &sc) {
        chars_slice(s, 0, s.len() - sc.len())
    } else {
        chars_slice(s, 0, s.len())
    }
}

/// Parses `https://github.com/owner/repo` (also `http://` or no scheme, a
/// trailing `/`, a trailing `.git`) into `(owner, repo)`.
pub fn parse_github_url(github_url: &str) -> (r: Option<(String, String)>)
    ensures
        pair_view(r) == parse_github_url_spec(github_url@),
{
    let cs = chars_of(github_url);
    let https = chars_of("https://github.com/");
    let http = chars_of("http://github.com/");
    let bare = chars_of("github.com/");
    let path = if chars_start_with(&cs, &https) {
        chars_after(&cs, https.len())
    } else if chars_start_with(&cs, &http) {
        chars_after(&cs, http.len())
    } else if chars_start_with(&cs, &bare) {
        chars_after(&cs, bare.len())
    } else {
        return None;
    };
    let without_slash = strip_suffix_chars(&path, "/");
    let path_core = strip_suffix_chars(&without_slash, ".git");
    let mut seps: Vec<bool> = Vec::new();
    let mut i: usize = 0;
    while i < path_core.len()
        invariant
            i <= path_core@.len(),
            seps@.len() == i,
            forall|k: int| 0 <= k < i ==> seps@[k] == slash()(path_core@[k]),
        decreases path_core@.len() - i,
    {
        seps.push(path_core[i] == '/');
        i = i + 1;
    }
    let segs = split_runs(&path_core, &seps, Ghost(slash()));
    assert(views_of(segs@) == github_segments(github_path(github_url@)->0));
    if segs.len() >= 2 {
        assert(segs@[0]@ == views_of(segs@)[0]);
        assert(segs@[1]@ == views_of(segs@)[1]);
        let owner = string_from_chars(segs[0].as_slice());
        let repo = string_from_chars(segs[1].as_slice());
        Some((owner, repo))
    } else {
        None
    }
}

/// The usable homepage of the repository a GitHub URL names, if it is known.
pub fn get_homepage_from_url(github_url: &str) -> (r: Option<String>)
    ensures
        opt_view(r) == match parse_github_url_spec(github_url@) {
            Some(p) => match find_repo(static_repo_table(), lookup_key(p.0, p.1)) {
                Some(info) => usable_homepage(info.homepage),
                None => None,
            },
            None => None,
        },
{
    match parse_github_url(github_url) {
        Some((owner, repo)) => get_repo_homepage(owner.as_str(), repo.as_str()),
        None => None,
    }
}

} // verus!
