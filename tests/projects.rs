use enerby_dev::github_api::GitHubRepoInfo;
use enerby_dev::i18n::Language;
use enerby_dev::projects::{
    enrich_project_from, enrich_project_with_github, enrichment_stats_of, get_enriched_project_by_id,
    get_enrichment_stats, get_project_by_id, get_projects, get_projects_enriched, DemoUrlSource,
    EnrichedProject, Project, ProjectStatus,
};

fn project(github_url: Option<&str>, demo_url: Option<&str>, technologies: Vec<&str>) -> Project {
    Project {
        id: "test".to_string(),
        title: "Test".to_string(),
        description_en: "Test".to_string(),
        description_es: "Test".to_string(),
        long_description_en: "Test".to_string(),
        long_description_es: "Test".to_string(),
        technologies: technologies.iter().map(|t| t.to_string()).collect(),
        status: ProjectStatus::Active,
        github_url: github_url.map(|s| s.to_string()),
        demo_url: demo_url.map(|s| s.to_string()),
        image_override: None,
        image_fallback: "🧪".to_string(),
    }
}

fn repo(owner: &str, name: &str, homepage: Option<&str>, description: Option<&str>, topics: Vec<&str>) -> GitHubRepoInfo {
    let mut info = GitHubRepoInfo::minimal(owner, name);
    info.homepage = homepage.map(|s| s.to_string());
    info.description = description.map(|s| s.to_string());
    info.topics = topics.iter().map(|t| t.to_string()).collect();
    info
}

#[test]
fn test_enriched_project_from_project() {
    let project = Project {
        id: "test".to_string(),
        title: "Test Project".to_string(),
        description_en: "A test".to_string(),
        description_es: "A test".to_string(),
        long_description_en: "A longer test".to_string(),
        long_description_es: "A longer test".to_string(),
        technologies: vec!["Rust".to_string()],
        status: ProjectStatus::Active,
        github_url: Some("https://github.com/owner/repo".to_string()),
        demo_url: Some("https://demo.com".to_string()),
        image_override: None,
        image_fallback: "🧪".to_string(),
    };
    let enriched = EnrichedProject::from(project);
    assert_eq!(enriched.id, "test");
    assert_eq!(enriched.title, "Test Project");
    assert_eq!(enriched.demo_url, Some("https://demo.com".to_string()));
    assert_eq!(enriched.demo_url_source, DemoUrlSource::Manual);
}

#[test]
fn test_enriched_project_no_demo_url() {
    let enriched = EnrichedProject::from(project(Some("https://github.com/owner/repo"), None, vec![]));
    assert_eq!(enriched.demo_url, None);
    assert_eq!(enriched.demo_url_source, DemoUrlSource::Absent);
}

#[test]
fn test_enrich_project_keeps_manual_demo_url() {
    let p = project(Some("https://github.com/enerBydev/enerby.dev"), Some("https://manual.demo"), vec![]);
    let enriched = enrich_project_with_github(p);
    assert_eq!(enriched.demo_url, Some("https://manual.demo".to_string()));
    assert_eq!(enriched.demo_url_source, DemoUrlSource::Manual);
}

#[test]
fn test_enrich_project_gets_github_homepage() {
    let p = project(Some("https://github.com/enerBydev/enerby.dev"), None, vec![]);
    let enriched = enrich_project_with_github(p);
    assert_eq!(enriched.demo_url, Some("https://enerby.dev".to_string()));
    assert_eq!(enriched.demo_url_source, DemoUrlSource::GitHub);
}

#[test]
fn test_enrich_project_no_homepage_in_github() {
    let p = project(Some("https://github.com/enerBydev/nvim-config"), None, vec![]);
    let enriched = enrich_project_with_github(p);
    assert_eq!(enriched.demo_url, None);
    assert_eq!(enriched.demo_url_source, DemoUrlSource::Absent);
}

#[test]
fn manual_demo_url_survives_a_different_homepage() {
    let table = vec![repo("o", "r", Some("https://other.dev"), Some("From GitHub"), vec!["x"])];
    let p = project(Some("https://github.com/o/r"), Some("https://manual.demo"), vec!["Rust"]);
    let e = enrich_project_from(p, &table);
    assert_eq!(e.demo_url, Some("https://manual.demo".to_string()));
    assert_eq!(e.demo_url_source, DemoUrlSource::Manual);
    assert_eq!(e.description_en, "Test");
    assert_eq!(e.technologies, vec!["Rust"]);
}

#[test]
fn homepage_fills_an_empty_demo_url() {
    let table = vec![repo("o", "r", Some("https://x.dev"), None, vec![])];
    let e = enrich_project_from(project(Some("https://github.com/o/r"), None, vec![]), &table);
    assert_eq!(e.demo_url, Some("https://x.dev".to_string()));
    assert_eq!(e.demo_url_source, DemoUrlSource::GitHub);
}

#[test]
fn no_homepage_means_no_demo_url() {
    let table = vec![repo("o", "r", None, None, vec![])];
    let e = enrich_project_from(project(Some("https://github.com/o/r"), None, vec![]), &table);
    assert_eq!(e.demo_url, None);
    assert_eq!(e.demo_url_source, DemoUrlSource::Absent);
}

#[test]
fn unusable_homepage_is_ignored() {
    let table = vec![repo("o", "r", Some("ftp://x.dev"), None, vec![])];
    let e = enrich_project_from(project(Some("https://github.com/o/r"), None, vec![]), &table);
    assert_eq!(e.demo_url, None);
    assert_eq!(e.demo_url_source, DemoUrlSource::Absent);
}

#[test]
fn description_and_topics_are_merged() {
    let table = vec![repo("o", "r", None, Some("From GitHub"), vec!["rust", "WASM", "cli", "wasm"])];
    let mut p = project(Some("https://github.com/o/r"), None, vec!["Rust", "Dioxus"]);
    p.description_es = "Descripción".to_string();
    let e = enrich_project_from(p, &table);
    assert_eq!(e.description_en, "From GitHub");
    assert_eq!(e.description_es, "Descripción");
    assert_eq!(e.technologies, vec!["Rust", "Dioxus", "WASM", "cli"]);
}

#[test]
fn empty_description_keeps_the_declared_one() {
    let table = vec![repo("o", "r", None, Some(""), vec![])];
    let e = enrich_project_from(project(Some("https://github.com/o/r"), None, vec![]), &table);
    assert_eq!(e.description_en, "Test");
}

#[test]
fn unknown_or_unparsable_repository_leaves_the_project() {
    let table = vec![repo("o", "r", Some("https://x.dev"), Some("d"), vec!["t"])];
    let e = enrich_project_from(project(Some("https://github.com/o/other"), None, vec!["A"]), &table);
    assert_eq!(e.demo_url, None);
    assert_eq!(e.technologies, vec!["A"]);
    let e2 = enrich_project_from(project(Some("https://gitlab.com/o/r"), None, vec![]), &table);
    assert_eq!(e2.demo_url_source, DemoUrlSource::Absent);
    let e3 = enrich_project_from(project(None, None, vec![]), &table);
    assert_eq!(e3.description_en, "Test");
}

#[test]
fn enriching_twice_is_stable() {
    let table = vec![repo("o", "r", Some("https://x.dev"), Some("d"), vec!["t"])];
    let once = enrich_project_from(project(Some("https://github.com/o/r"), None, vec!["A"]), &table);
    let again_input = project(Some("https://github.com/o/r"), None, once.technologies.iter().map(|s| s.as_str()).collect());
    let twice = enrich_project_from(again_input, &table);
    assert_eq!(once.technologies, twice.technologies);
    assert_eq!(once.demo_url, twice.demo_url);
}

#[test]
fn test_get_projects_enriched() {
    let enriched = get_projects_enriched();
    assert_eq!(enriched.len(), get_projects().len());
    for p in &enriched {
        assert!(!p.id.is_empty());
        assert!(!p.title.is_empty());
    }
}

#[test]
fn test_get_enriched_project_by_id() {
    let result = get_enriched_project_by_id("enerby-dev");
    assert!(result.is_some());
    let project = result.unwrap();
    assert_eq!(project.id, "enerby-dev");
}

#[test]
fn test_get_enriched_project_by_id_not_found() {
    let result = get_enriched_project_by_id("nonexistent");
    assert!(result.is_none());
}

#[test]
fn test_enrichment_stats() {
    let stats = get_enrichment_stats();
    assert!(stats.total_projects > 0);
    assert_eq!(
        stats.total_projects,
        stats.manual_demo_urls + stats.github_demo_urls + stats.no_demo_url
    );
}

#[test]
fn enrichment_stats_counts() {
    let stats = get_enrichment_stats();
    assert_eq!(stats.total_projects, 4);
    assert_eq!(stats.manual_demo_urls, 2);
    assert_eq!(stats.github_demo_urls, 0);
    assert_eq!(stats.no_demo_url, 2);
    let empty = enrichment_stats_of(&vec![]);
    assert_eq!(empty.total_projects, 0);
}

#[test]
fn test_demo_url_source_equality() {
    assert_eq!(DemoUrlSource::Manual, DemoUrlSource::Manual);
    assert_ne!(DemoUrlSource::Manual, DemoUrlSource::GitHub);
    assert_ne!(DemoUrlSource::GitHub, DemoUrlSource::Absent);
}

#[test]
fn test_integration_enerby_dev_has_demo_url() {
    let enriched = get_enriched_project_by_id("enerby-dev");
    assert!(enriched.is_some(), "enerby-dev project should exist");
    let project = enriched.unwrap();
    assert!(project.demo_url.is_some(), "enerby-dev should have a demo_url");
    let demo = project.demo_url.unwrap();
    assert!(demo.contains("enerby") || demo.contains("pages.dev"), "Demo URL should be enerby.dev or pages.dev: {}", demo);
}

#[test]
fn test_integration_enrichment_flow_complete() {
    let static_projects = get_projects();
    let enriched_projects = get_projects_enriched();
    assert_eq!(static_projects.len(), enriched_projects.len());
    for (static_p, enriched_p) in static_projects.iter().zip(enriched_projects.iter()) {
        assert_eq!(static_p.id, enriched_p.id);
        assert_eq!(static_p.title, enriched_p.title);
        assert_eq!(static_p.status, enriched_p.status);
    }
}

#[test]
fn test_integration_manual_demo_priority() {
    let enriched = get_projects_enriched();
    for project in &enriched {
        if project.demo_url_source == DemoUrlSource::Manual {
            let original = get_project_by_id(&project.id);
            if let Some(orig) = original {
                if let Some(orig_demo) = orig.demo_url {
                    assert_eq!(project.demo_url, Some(orig_demo.to_string()), "Manual demo_url should be preserved for {}", project.id);
                }
            }
        }
    }
}

#[test]
fn test_integration_no_orphan_github_sources() {
    let enriched = get_projects_enriched();
    for project in &enriched {
        if project.demo_url_source == DemoUrlSource::GitHub {
            assert!(project.demo_url.is_some(), "GitHub source but no demo_url for {}", project.id);
        }
        if project.demo_url_source == DemoUrlSource::Absent {
            assert!(project.demo_url.is_none(), "None source but has demo_url for {}", project.id);
        }
    }
}

#[test]
fn test_integration_all_projects_have_valid_structure() {
    let enriched = get_projects_enriched();
    for project in &enriched {
        assert!(!project.id.is_empty(), "Project ID should not be empty");
        assert!(!project.title.is_empty(), "Project title should not be empty");
        assert!(!project.description(&Language::EN).is_empty(), "Project description (EN) should not be empty");
        assert!(!project.image_fallback.is_empty(), "Fallback emoji should exist");
        if let Some(ref url) = project.github_url {
            assert!(url.starts_with("https://github.com/"), "GitHub URL invalid for {}", project.id);
        }
        if let Some(ref url) = project.demo_url {
            assert!(url.starts_with("http://") || url.starts_with("https://"), "Invalid demo URL: {}", url);
        }
    }
}

#[test]
fn localized_descriptions() {
    let p = get_project_by_id("oc-diagdoc").unwrap();
    assert!(p.description(&Language::ES).starts_with("CLI avanzado"));
    assert!(p.long_description(&Language::EN).starts_with("Advanced CLI tool"));
    let e = EnrichedProject::from(p.clone());
    assert_eq!(e.long_description(&Language::ES), p.long_description(&Language::ES));
}

#[test]
fn test_project_status_labels() {
    assert_eq!(ProjectStatus::Featured.label(), "Featured");
    assert_eq!(ProjectStatus::Active.label(), "Active");
    assert_eq!(ProjectStatus::Archived.label(), "Archived");
}

#[test]
fn test_project_status_colors() {
    assert!(!ProjectStatus::Featured.color().is_empty());
    assert!(!ProjectStatus::Active.color().is_empty());
    assert!(!ProjectStatus::Archived.color().is_empty());
}

#[test]
fn test_projects_exist() {
    let projects = get_projects();
    assert!(!projects.is_empty(), "Should have at least one project");
}

#[test]
fn test_projects_have_required_fields() {
    let projects = get_projects();
    for project in &projects {
        assert!(!project.id.is_empty(), "Project ID should not be empty");
        assert!(!project.title.is_empty(), "Project title should not be empty");
        assert!(!project.description(&Language::EN).is_empty(), "Project description should not be empty");
        assert!(!project.technologies.is_empty(), "Project should have technologies");
    }
}

#[test]
fn test_projects_have_unique_ids() {
    let projects = get_projects();
    let mut ids: Vec<&str> = projects.iter().map(|p| p.id.as_str()).collect();
    let original_len = ids.len();
    ids.sort();
    ids.dedup();
    assert_eq!(ids.len(), original_len, "Project IDs should be unique");
}

#[test]
fn test_has_featured_project() {
    let projects = get_projects();
    let featured_count = projects.iter().filter(|p| p.status == ProjectStatus::Featured).count();
    assert!(featured_count >= 1, "Should have at least one featured project");
}
