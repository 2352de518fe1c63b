use enerby_dev::project_images::{
    generate_github_opengraph_url, generate_thumbio_url, generate_thumbio_url_custom,
    get_github_preview_from_url, get_project_image_url, get_project_image_url_string,
    has_real_image, parse_github_url, ImageSource,
};
use enerby_dev::projects::{Project, ProjectStatus};

fn create_mock_project(github_url: Option<&str>, demo_url: Option<&str>, image_override: Option<&str>) -> Project {
    Project {
        id: "test-project".to_string(),
        title: "Test Project".to_string(),
        description_en: "Test description".to_string(),
        description_es: "Test description".to_string(),
        long_description_en: "Test long description".to_string(),
        long_description_es: "Test long description".to_string(),
        technologies: vec!["Rust".to_string()],
        status: ProjectStatus::Active,
        github_url: github_url.map(|s| s.to_string()),
        demo_url: demo_url.map(|s| s.to_string()),
        image_override: image_override.map(|s| s.to_string()),
        image_fallback: "🧪".to_string(),
    }
}

#[test]
fn test_parse_github_url_basic() {
    let result = parse_github_url("https://github.com/enerBydev/enerby.dev");
    assert_eq!(result, Some(("enerBydev".to_string(), "enerby.dev".to_string())));
}

#[test]
fn project_images_test_parse_github_url_with_trailing_slash() {
    let result = parse_github_url("https://github.com/owner/repo/");
    assert_eq!(result, Some(("owner".to_string(), "repo".to_string())));
}

#[test]
fn test_parse_github_url_with_git_extension() {
    let result = parse_github_url("https://github.com/owner/repo.git");
    assert_eq!(result, Some(("owner".to_string(), "repo".to_string())));
}

#[test]
fn project_images_test_parse_github_url_invalid() {
    assert!(parse_github_url("not-a-url").is_none());
    assert!(parse_github_url("https://example.com").is_none());
    assert!(parse_github_url("").is_none());
}

#[test]
fn test_generate_github_opengraph_url() {
    let url = generate_github_opengraph_url("enerBydev", "enerby.dev");
    assert_eq!(url, "https://opengraph.githubassets.com/1/enerBydev/enerby.dev");
}

#[test]
fn test_get_github_preview_from_url() {
    let result = get_github_preview_from_url("https://github.com/owner/repo");
    assert!(result.is_some());
    assert!(result.unwrap().contains("owner/repo"));
}

#[test]
fn test_generate_thumbio_url() {
    let url = generate_thumbio_url("https://enerby.dev");
    assert!(url.starts_with("https://image.thum.io/get/"));
    assert!(url.contains("width/1200"));
    assert!(url.contains("crop/630"));
    assert!(url.ends_with("https://enerby.dev"));
    assert_eq!(url, "https://image.thum.io/get/width/1200/crop/630/https://enerby.dev");
}

#[test]
fn test_generate_thumbio_url_custom() {
    let url = generate_thumbio_url_custom("https://example.com", 800, 600);
    assert!(url.contains("width/800"));
    assert!(url.contains("crop/600"));
}

#[test]
fn test_priority_override() {
    let project = create_mock_project(Some("https://github.com/owner/repo"), Some("https://demo.com"), Some("https://custom.com/image.png"));
    let result = get_project_image_url(&project);
    assert!(matches!(result, ImageSource::Override(_)));
    assert_eq!(result.to_string(), "https://custom.com/image.png");
}

#[test]
fn test_priority_demo_url() {
    let project = create_mock_project(Some("https://github.com/owner/repo"), Some("https://demo.com"), None);
    let result = get_project_image_url(&project);
    assert!(matches!(result, ImageSource::DemoScreenshot(_)));
    assert!(result.to_string().contains("image.thum.io"));
}

#[test]
fn test_priority_github_url() {
    let project = create_mock_project(Some("https://github.com/owner/repo"), None, None);
    let result = get_project_image_url(&project);
    assert!(matches!(result, ImageSource::GitHubOpenGraph(_)));
    assert!(result.to_string().contains("opengraph.githubassets.com"));
}

#[test]
fn test_priority_fallback() {
    let project = create_mock_project(None, None, None);
    let result = get_project_image_url(&project);
    assert!(matches!(result, ImageSource::Fallback(_)));
    assert_eq!(result.to_string(), "🧪");
}

#[test]
fn unparsable_github_url_falls_back_to_emoji() {
    let project = create_mock_project(Some("https://gitlab.com/owner/repo"), None, None);
    assert_eq!(get_project_image_url_string(&project), "🧪");
    assert_eq!(get_project_image_url(&project).url(), None);
    let with_demo = create_mock_project(None, Some("https://d.dev"), None);
    assert_eq!(get_project_image_url(&with_demo).url(), Some("https://image.thum.io/get/width/1200/crop/630/https://d.dev"));
}

#[test]
fn test_has_real_image_true() {
    let project = create_mock_project(Some("https://github.com/owner/repo"), None, None);
    assert!(has_real_image(&project));
}

#[test]
fn test_has_real_image_false() {
    let project = create_mock_project(None, None, None);
    assert!(!has_real_image(&project));
}

#[test]
fn test_image_source_is_real_image() {
    assert!(ImageSource::Override("url".to_string()).is_real_image());
    assert!(ImageSource::DemoScreenshot("url".to_string()).is_real_image());
    assert!(ImageSource::GitHubOpenGraph("url".to_string()).is_real_image());
    assert!(!ImageSource::Fallback("🧪".to_string()).is_real_image());
}
