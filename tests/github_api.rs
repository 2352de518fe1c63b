use enerby_dev::github_cache::repo_info_from_json;
use enerby_dev::github_api::{
    fetch_multiple_repos, get_all_repos, get_homepage_from_url, get_repo_homepage, get_repo_info,
    lookup_repo, parse_github_url, ApiError, GitHubApiConfig, GitHubRepoInfo, API_TIMEOUT_MS,
    GITHUB_API_BASE_URL, USER_AGENT,
};

fn repo_with_homepage(homepage: Option<&str>) -> GitHubRepoInfo {
    GitHubRepoInfo {
        name: "test".to_string(),
        full_name: "owner/test".to_string(),
        description: None,
        homepage: homepage.map(|h| h.to_string()),
        language: None,
        stargazers_count: 0,
        forks_count: 0,
        fork: false,
        archived: false,
        topics: vec![],
        html_url: "https://github.com/owner/test".to_string(),
    }
}

#[test]
fn test_extract_homepage_valid() {
    let repo = repo_with_homepage(Some("https://example.com"));
    assert_eq!(repo.extract_homepage(), Some("https://example.com".to_string()));
}

#[test]
fn test_extract_homepage_empty() {
    let repo = repo_with_homepage(Some(""));
    assert_eq!(repo.extract_homepage(), None);
}

#[test]
fn test_extract_homepage_none() {
    let repo = repo_with_homepage(None);
    assert_eq!(repo.extract_homepage(), None);
}

#[test]
fn test_extract_homepage_invalid_url() {
    let repo = repo_with_homepage(Some("not-a-url"));
    assert_eq!(repo.extract_homepage(), None);
}

#[test]
fn test_extract_homepage_whitespace() {
    let repo = repo_with_homepage(Some("  https://example.com  "));
    assert_eq!(repo.extract_homepage(), Some("https://example.com".to_string()));
}

#[test]
fn extract_homepage_trims_unicode_whitespace_and_keeps_http() {
    let repo = repo_with_homepage(Some("\u{a0}\thttp://x.dev\u{3000}\n"));
    assert_eq!(repo.extract_homepage(), Some("http://x.dev".to_string()));
    let blank = repo_with_homepage(Some(" \t\n "));
    assert_eq!(blank.extract_homepage(), None);
}

#[test]
fn test_api_config_default() {
    let config = GitHubApiConfig::default();
    assert_eq!(config.base_url, GITHUB_API_BASE_URL);
    assert_eq!(config.user_agent, USER_AGENT);
    assert_eq!(config.timeout_ms, API_TIMEOUT_MS);
}

#[test]
fn test_api_error_display() {
    assert_eq!(ApiError::NotFound.to_string(), "Repository not found");
    assert_eq!(ApiError::RateLimited.to_string(), "GitHub API rate limit exceeded");
    assert_eq!(
        ApiError::NetworkError("timeout".to_string()).to_string(),
        "Network error: timeout"
    );
    assert_eq!(
        ApiError::ParseError("invalid json".to_string()).to_string(),
        "Failed to parse response: invalid json"
    );
    assert_eq!(ApiError::ServerError(500).to_string(), "Server error: 500");
}

#[test]
fn api_error_forbidden_message_and_equality() {
    assert_eq!(ApiError::Forbidden.to_string(), "Access forbidden");
    assert_eq!(ApiError::ServerError(0).to_string(), "Server error: 0");
    assert_eq!(ApiError::ServerError(65535).to_string(), "Server error: 65535");
    assert_eq!(ApiError::ParseError("a".to_string()), ApiError::ParseError("a".to_string()));
    assert_ne!(ApiError::ParseError("a".to_string()), ApiError::NetworkError("a".to_string()));
    assert_ne!(ApiError::ServerError(500), ApiError::ServerError(502));
}

#[test]
fn test_get_repo_info_found() {
    let result = get_repo_info("enerBydev", "enerby.dev");
    assert!(result.is_ok());
    let repo = result.unwrap();
    assert_eq!(repo.name, "enerby.dev");
    assert_eq!(repo.homepage, Some("https://enerby.dev".to_string()));
}

#[test]
fn test_get_repo_info_case_insensitive() {
    let result = get_repo_info("ENERBYDEV", "ENERBY.DEV");
    assert!(result.is_ok());
}

#[test]
fn test_get_repo_info_not_found() {
    let result = get_repo_info("nonexistent", "repo");
    assert!(result.is_err());
    assert_eq!(result.unwrap_err(), ApiError::NotFound);
}

#[test]
fn lookup_in_a_custom_table_ignores_case() {
    let table = vec![GitHubRepoInfo::minimal("Alice", "Tool")];
    let found = lookup_repo(&table, "alice", "TOOL").unwrap();
    assert_eq!(found.full_name, "Alice/Tool");
    assert_eq!(lookup_repo(&table, "alice", "other").unwrap_err(), ApiError::NotFound);
    assert_eq!(lookup_repo(&[], "alice", "tool").unwrap_err(), ApiError::NotFound);
}

#[test]
fn test_get_repo_homepage_found() {
    let result = get_repo_homepage("enerBydev", "enerby.dev");
    assert_eq!(result, Some("https://enerby.dev".to_string()));
}

#[test]
fn test_get_repo_homepage_no_homepage() {
    let result = get_repo_homepage("enerBydev", "nvim-config");
    assert_eq!(result, None);
}

#[test]
fn test_get_repo_homepage_not_found() {
    let result = get_repo_homepage("nonexistent", "repo");
    assert_eq!(result, None);
}

#[test]
fn test_get_all_repos() {
    let repos = get_all_repos();
    assert!(repos.len() >= 4);
    assert!(repos.iter().any(|r| r.name == "enerby.dev"));
}

#[test]
fn bundled_repos_have_their_fields() {
    let repos = get_all_repos();
    assert_eq!(repos.len(), 4);
    assert_eq!(repos[0].full_name, "enerBydev/enerby.dev");
    assert_eq!(repos[0].html_url, "https://github.com/enerBydev/enerby.dev");
    assert_eq!(repos[0].topics, vec!["rust", "dioxus", "portfolio", "wasm"]);
    assert_eq!(repos[2].language, Some("Lua".to_string()));
    assert_eq!(repos[3].homepage, None);
}

#[test]
fn test_parse_github_url_https() {
    let result = parse_github_url("https://github.com/owner/repo");
    assert_eq!(result, Some(("owner".to_string(), "repo".to_string())));
}

#[test]
fn test_parse_github_url_http() {
    let result = parse_github_url("http://github.com/owner/repo");
    assert_eq!(result, Some(("owner".to_string(), "repo".to_string())));
}

#[test]
fn test_parse_github_url_no_protocol() {
    let result = parse_github_url("github.com/owner/repo");
    assert_eq!(result, Some(("owner".to_string(), "repo".to_string())));
}

#[test]
fn github_api_test_parse_github_url_with_trailing_slash() {
    let result = parse_github_url("https://github.com/owner/repo/");
    assert_eq!(result, Some(("owner".to_string(), "repo".to_string())));
}

#[test]
fn github_api_test_parse_github_url_invalid() {
    assert_eq!(parse_github_url("https://gitlab.com/owner/repo"), None);
    assert_eq!(parse_github_url("not-a-url"), None);
    assert_eq!(parse_github_url("https://github.com/"), None);
    assert_eq!(parse_github_url("https://github.com/owner"), None);
}

#[test]
fn parse_github_url_accepted_forms() {
    let expected = Some(("owner".to_string(), "repo".to_string()));
    assert_eq!(parse_github_url("https://github.com/owner/repo"), expected);
    assert_eq!(parse_github_url("github.com/owner/repo"), expected);
    assert_eq!(parse_github_url("https://github.com/owner/repo/"), expected);
    assert_eq!(parse_github_url("https://github.com/owner/repo.git"), expected);
    assert_eq!(parse_github_url("https://github.com/owner/repo.git/"), expected);
    assert_eq!(parse_github_url("https://github.com//owner//repo/tree/main"), expected);
    assert_eq!(parse_github_url("https://gitlab.com/owner/repo"), None);
}

#[test]
fn test_get_homepage_from_url() {
    let result = get_homepage_from_url("https://github.com/enerBydev/enerby.dev");
    assert_eq!(result, Some("https://enerby.dev".to_string()));
}

#[test]
fn test_get_homepage_from_url_no_homepage() {
    let result = get_homepage_from_url("https://github.com/enerBydev/nvim-config");
    assert_eq!(result, None);
}

#[test]
fn test_fetch_multiple_repos() {
    let repos = &[
        ("enerBydev", "enerby.dev"),
        ("enerBydev", "oc_diagdoc"),
        ("nonexistent", "repo"),
    ];
    let results = fetch_multiple_repos(repos);
    assert_eq!(results.len(), 3);
    assert!(results[0].is_ok());
    assert!(results[1].is_ok());
    assert!(results[2].is_err());
}

#[test]
fn test_minimal_constructor() {
    let repo = GitHubRepoInfo::minimal("owner", "repo");
    assert_eq!(repo.name, "repo");
    assert_eq!(repo.full_name, "owner/repo");
    assert_eq!(repo.html_url, "https://github.com/owner/repo");
    assert!(repo.homepage.is_none());
}

#[test]
fn test_deserialize_github_repo_info_full() {
    let json = r#"{
        "name": "enerby.dev",
        "full_name": "enerBydev/enerby.dev",
        "description": "Personal portfolio website",
        "homepage": "https://enerby.dev",
        "language": "Rust",
        "stargazers_count": 42,
        "forks_count": 5,
        "fork": false,
        "archived": false,
        "topics": ["rust", "dioxus", "portfolio"],
        "html_url": "https://github.com/enerBydev/enerby.dev"
    }"#;
    let repo: GitHubRepoInfo = repo_info_from_json(json).expect("Failed to parse JSON");
    assert_eq!(repo.name, "enerby.dev");
    assert_eq!(repo.full_name, "enerBydev/enerby.dev");
    assert_eq!(repo.description, Some("Personal portfolio website".to_string()));
    assert_eq!(repo.homepage, Some("https://enerby.dev".to_string()));
    assert_eq!(repo.language, Some("Rust".to_string()));
    assert_eq!(repo.stargazers_count, 42);
    assert_eq!(repo.forks_count, 5);
    assert!(!repo.fork);
    assert!(!repo.archived);
    assert_eq!(repo.topics, vec!["rust", "dioxus", "portfolio"]);
    assert_eq!(repo.html_url, "https://github.com/enerBydev/enerby.dev");
}

#[test]
fn test_deserialize_github_repo_info_minimal() {
    let json = r#"{
        "name": "test-repo",
        "full_name": "owner/test-repo",
        "html_url": "https://github.com/owner/test-repo"
    }"#;
    let repo: GitHubRepoInfo = repo_info_from_json(json).expect("Failed to parse JSON");
    assert_eq!(repo.name, "test-repo");
    assert_eq!(repo.description, None);
    assert_eq!(repo.homepage, None);
    assert_eq!(repo.language, None);
    assert_eq!(repo.stargazers_count, 0);
    assert!(repo.topics.is_empty());
}

#[test]
fn test_deserialize_homepage_null() {
    let json = r#"{
        "name": "test",
        "full_name": "owner/test",
        "homepage": null,
        "html_url": "https://github.com/owner/test"
    }"#;
    let repo: GitHubRepoInfo = repo_info_from_json(json).expect("Failed to parse JSON");
    assert_eq!(repo.homepage, None);
}

#[test]
fn repo_json_rejects_wrong_types() {
    assert!(repo_info_from_json(r#"{"name": "a", "full_name": "o/a"}"#).is_err());
    assert!(repo_info_from_json(r#"{"name": "a", "full_name": "o/a", "html_url": "u", "fork": null}"#).is_err());
    assert!(repo_info_from_json(r#"{"name": "a", "full_name": "o/a", "html_url": "u", "stargazers_count": 5000000000}"#).is_err());
    assert!(repo_info_from_json(r#"{"name": "a", "full_name": "o/a", "html_url": "u", "topics": [1]}"#).is_err());
    assert!(repo_info_from_json("{").is_err());
}
