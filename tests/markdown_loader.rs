use enerby_dev::markdown_loader::{
    calculate_read_time, consolidate_posts_by_canonical_slug, get_processed_post_by_slug,
    load_markdown_posts, load_processed_markdown_posts, markdown_post_from, markdown_to_html,
    parse_post_filename, split_front_matter, Frontmatter, MarkdownSource, PostLanguage,
    ProcessedMarkdownPost,
};

fn fm(slug: &str, title: &str, date: &str, read_time: Option<u8>) -> Frontmatter {
    Frontmatter {
        slug: slug.to_string(),
        title: title.to_string(),
        date: date.to_string(),
        excerpt: format!("{} excerpt", title),
        tags: vec!["rust".to_string()],
        featured: false,
        read_time,
    }
}

fn source(filename: &str, frontmatter: Option<Frontmatter>, body: &str) -> MarkdownSource {
    MarkdownSource { filename: filename.to_string(), frontmatter, body: body.to_string() }
}

fn sample_sources() -> Vec<MarkdownSource> {
    vec![
        source("hello.en.md", Some(fm("hello", "Hello", "2026-01-10", None)), "Hello **world**."),
        source("hello.es.md", Some(fm("hello", "Hola", "2026-01-10", None)), "Hola **mundo**."),
        source("rust-tips.md", Some(fm("rust-tips", "Rust tips", "2026-02-01", Some(7))), "Tips."),
        source("solo.es.md", Some(fm("solo", "Solo", "2026-03-01", None)), "Solo."),
        source("broken.en.md", None, "No front matter."),
        source("notes.txt", Some(fm("notes", "Notes", "2026-01-01", None)), "Not markdown."),
    ]
}

#[test]
fn markdown_loader_test_calculate_read_time_short() {
    let content = "word ".repeat(50);
    assert_eq!(calculate_read_time(&content), 1);
}

#[test]
fn test_calculate_read_time_medium() {
    let content = "word ".repeat(400);
    assert_eq!(calculate_read_time(&content), 2);
}

#[test]
fn markdown_loader_test_calculate_read_time_long() {
    let content = "word ".repeat(1000);
    assert_eq!(calculate_read_time(&content), 5);
}

#[test]
fn read_time_rounds_up_and_has_a_floor() {
    assert_eq!(calculate_read_time(""), 1);
    assert_eq!(calculate_read_time(&"word ".repeat(201)), 2);
    assert_eq!(calculate_read_time(&"word\n\tword  ".repeat(100)), 1);
    assert_eq!(calculate_read_time(&"w ".repeat(60_000)), 255);
}

#[test]
fn test_processed_markdown_post_structure() {
    let post = ProcessedMarkdownPost {
        canonical_slug: "test-slug".to_string(),
        file_slug: "post_1".to_string(),
        frontmatter: Frontmatter {
            slug: "test-slug".to_string(),
            title: "Test Post".to_string(),
            date: "2026-02-06".to_string(),
            excerpt: "Test excerpt".to_string(),
            tags: vec!["test".to_string()],
            featured: false,
            read_time: Some(2),
        },
        content_html: "<p>Test content</p>".to_string(),
        read_time_minutes: 2,
        language: PostLanguage::EN,
    };
    assert_eq!(post.canonical_slug, "test-slug");
    assert_eq!(post.file_slug, "post_1");
    assert_eq!(post.language, PostLanguage::EN);
}

#[test]
fn file_names_give_slug_and_language() {
    assert_eq!(parse_post_filename("a.es.md"), Some(("a".to_string(), PostLanguage::ES)));
    assert_eq!(parse_post_filename("a.en.md"), Some(("a".to_string(), PostLanguage::EN)));
    assert_eq!(parse_post_filename("a.md"), Some(("a".to_string(), PostLanguage::EN)));
    assert_eq!(parse_post_filename("a.txt"), None);
    assert_eq!(parse_post_filename(".md"), Some(("".to_string(), PostLanguage::EN)));
}

#[test]
fn front_matter_is_split_from_the_body() {
    let split = split_front_matter("---\nslug: a\ntitle: A\n---\nBody text");
    assert_eq!(split.matter, Some("slug: a\ntitle: A".to_string()));
    assert_eq!(split.body, "Body text");
    let plain = split_front_matter("Just text");
    assert_eq!(plain.matter, None);
    assert_eq!(plain.body, "Just text");
}

#[test]
fn post_from_parts_uses_explicit_or_computed_read_time() {
    let post = markdown_post_from("x.es.md", fm("x", "X", "2026-01-01", None), &"w ".repeat(450)).unwrap();
    assert_eq!(post.read_time_minutes, 3);
    assert_eq!(post.language, PostLanguage::ES);
    assert_eq!(post.file_slug, "x");
    let explicit = markdown_post_from("x.md", fm("x", "X", "2026-01-01", Some(9)), "short").unwrap();
    assert_eq!(explicit.read_time_minutes, 9);
    assert!(markdown_post_from("x.html", fm("x", "X", "2026-01-01", None), "b").is_none());
}

#[test]
fn rendered_markdown_is_html() {
    let html = markdown_to_html("# Hello\n\nThis is **bold**.");
    assert!(html.contains("<h1>Hello</h1>"));
    assert!(html.contains("<strong>bold</strong>"));
}

#[test]
fn loading_skips_bad_files_and_keeps_order() {
    let posts = load_markdown_posts(sample_sources());
    let slugs: Vec<&str> = posts.iter().map(|p| p.file_slug.as_str()).collect();
    assert_eq!(slugs, vec!["hello", "hello", "rust-tips", "solo"]);
    assert!(posts[0].content_html.contains("<strong>world</strong>"));
    assert_eq!(posts[2].read_time_minutes, 7);
}

#[test]
fn test_consolidate_posts_by_canonical_slug() {
    let posts = consolidate_posts_by_canonical_slug(&load_processed_markdown_posts(sample_sources()));
    let slugs: Vec<&str> = posts.iter().map(|p| p.canonical_slug.as_str()).collect();
    assert_eq!(slugs, vec!["rust-tips", "hello"]);
    assert_eq!(posts[1].language, PostLanguage::EN);
}

#[test]
fn test_get_processed_post_by_slug() {
    let raw = load_processed_markdown_posts(sample_sources());
    let posts = consolidate_posts_by_canonical_slug(&raw);
    if !posts.is_empty() {
        let first_post = &posts[0];
        let found_post = get_processed_post_by_slug(&raw, &first_post.canonical_slug);
        assert!(found_post.is_some());
        assert_eq!(found_post.unwrap().canonical_slug, first_post.canonical_slug);
    }
    assert!(get_processed_post_by_slug(&raw, "solo").is_none());
}

#[test]
fn test_slug_extraction_from_frontmatter() {
    let posts = load_processed_markdown_posts(sample_sources());
    for post in &posts {
        assert_eq!(post.canonical_slug, post.frontmatter.slug);
    }
}

#[test]
fn test_language_detection() {
    let posts = load_processed_markdown_posts(sample_sources());
    let en_posts: Vec<_> = posts.iter().filter(|p| p.language == PostLanguage::EN).collect();
    let es_posts: Vec<_> = posts.iter().filter(|p| p.language == PostLanguage::ES).collect();
    assert!(!en_posts.is_empty());
    assert!(!es_posts.is_empty());
}

#[test]
fn test_canonical_slug_consistency() {
    let consolidated = consolidate_posts_by_canonical_slug(&load_processed_markdown_posts(sample_sources()));
    let mut slugs: Vec<String> = consolidated.iter().map(|p| p.canonical_slug.clone()).collect();
    slugs.sort();
    slugs.dedup();
    assert_eq!(slugs.len(), consolidated.len());
}
