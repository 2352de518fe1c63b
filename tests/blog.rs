use enerby_dev::blog::{get_blog_posts, get_post_by_slug, get_published_posts, PostStatus};
use enerby_dev::i18n::Language;
use enerby_dev::markdown_loader::{load_markdown_posts, Frontmatter, MarkdownPost, MarkdownSource};

fn fm(slug: &str, title: &str, date: &str, tags: Vec<&str>) -> Frontmatter {
    Frontmatter {
        slug: slug.to_string(),
        title: title.to_string(),
        date: date.to_string(),
        excerpt: format!("{} excerpt", title),
        tags: tags.iter().map(|t| t.to_string()).collect(),
        featured: true,
        read_time: None,
    }
}

fn source(filename: &str, frontmatter: Frontmatter, body: &str) -> MarkdownSource {
    MarkdownSource { filename: filename.to_string(), frontmatter: Some(frontmatter), body: body.to_string() }
}

fn raw_posts() -> Vec<MarkdownPost> {
    load_markdown_posts(vec![
        source("intro.en.md", fm("intro", "Intro", "2026-01-05", vec!["meta"]), "Welcome."),
        source("intro.es.md", fm("intro", "Introducción", "2026-01-06", vec!["otro"]), "Bienvenida."),
        source("later.md", fm("later", "Later", "2026-02-01", vec!["rust"]), "Later post."),
        source("only-es.es.md", fm("only-es", "Solo", "2026-03-01", vec!["x"]), "Solo."),
        source("same-day.en.md", fm("same-day", "Same day", "2026-01-05", vec!["y"]), "Same."),
    ])
}

#[test]
fn consolidation_requires_english() {
    let posts = get_blog_posts(&raw_posts());
    assert!(posts.iter().all(|p| p.slug != "only-es"));
    assert_eq!(posts.len(), 3);
}

#[test]
fn spanish_falls_back_to_english() {
    let posts = get_blog_posts(&raw_posts());
    let later = posts.iter().find(|p| p.slug == "later").unwrap();
    assert_eq!(later.title(&Language::ES), later.title(&Language::EN));
    assert_eq!(later.excerpt(&Language::ES), "Later excerpt");
    assert_eq!(later.content(&Language::ES), later.content(&Language::EN));
}

#[test]
fn spanish_variant_is_used_when_present() {
    let posts = get_blog_posts(&raw_posts());
    let intro = posts.iter().find(|p| p.slug == "intro").unwrap();
    assert_eq!(intro.title(&Language::EN), "Intro");
    assert_eq!(intro.title(&Language::ES), "Introducción");
    assert!(intro.content(&Language::ES).contains("Bienvenida"));
    assert_eq!(intro.date, "2026-01-05");
    assert_eq!(intro.tags, vec!["meta"]);
    assert_eq!(intro.status, PostStatus::Published);
    assert!(intro.featured);
}

#[test]
fn consolidated_slugs_are_unique() {
    let mut raw = raw_posts();
    raw.extend(load_markdown_posts(vec![source("intro.en.md", fm("intro", "Intro again", "2027-01-01", vec![]), "Dup.")]));
    let posts = get_blog_posts(&raw);
    let mut slugs: Vec<&str> = posts.iter().map(|p| p.slug.as_str()).collect();
    let n = slugs.len();
    slugs.sort();
    slugs.dedup();
    assert_eq!(slugs.len(), n);
    let intro = posts.iter().find(|p| p.slug == "intro").unwrap();
    assert_eq!(intro.title_en, "Intro");
}

#[test]
fn consolidated_posts_are_newest_first() {
    let posts = get_blog_posts(&raw_posts());
    for w in posts.windows(2) {
        assert!(w[0].date >= w[1].date);
    }
    assert_eq!(posts[0].slug, "later");
}

#[test]
fn published_posts_and_lookup_by_slug() {
    let raw = raw_posts();
    let published = get_published_posts(&raw);
    assert_eq!(published.len(), get_blog_posts(&raw).len());
    assert!(published.iter().all(|p| p.status == PostStatus::Published));
    assert_eq!(get_post_by_slug(&raw, "intro").unwrap().title_es, "Introducción");
    assert!(get_post_by_slug(&raw, "only-es").is_none());
    assert!(get_post_by_slug(&raw, "missing").is_none());
    assert!(get_blog_posts(&vec![]).is_empty());
}

#[test]
fn test_post_status_equality() {
    assert_eq!(PostStatus::Published, PostStatus::Published);
    assert_eq!(PostStatus::Draft, PostStatus::Draft);
    assert_ne!(PostStatus::Published, PostStatus::Draft);
}

#[test]
fn test_blog_posts_exist() {
    let posts = get_blog_posts(&raw_posts());
    assert!(!posts.is_empty(), "Should have at least one blog post");
}

#[test]
fn test_blog_posts_have_required_fields() {
    let posts = get_blog_posts(&raw_posts());
    for post in &posts {
        assert!(!post.slug.is_empty(), "Post slug should not be empty");
        assert!(!post.title(&Language::EN).is_empty(), "Post title should not be empty");
        assert!(!post.excerpt(&Language::EN).is_empty(), "Post excerpt should not be empty");
        assert!(!post.date.is_empty(), "Post date should not be empty");
        assert!(post.read_time > 0, "Read time should be positive");
    }
}

#[test]
fn test_blog_posts_have_unique_slugs() {
    let posts = get_blog_posts(&raw_posts());
    let mut slugs: Vec<String> = posts.iter().map(|p| p.slug.clone()).collect();
    let original_len = slugs.len();
    slugs.sort();
    slugs.dedup();
    assert_eq!(slugs.len(), original_len, "Post slugs should be unique");
}

#[test]
fn test_published_posts_filter() {
    let raw = raw_posts();
    let all_posts = get_blog_posts(&raw);
    let published = get_published_posts(&raw);
    for post in &published {
        assert_eq!(post.status, PostStatus::Published, "Filtered posts should be published");
    }
    assert!(published.len() <= all_posts.len(), "Published <= All posts");
}

#[test]
fn test_blog_posts_have_tags() {
    let posts = get_blog_posts(&raw_posts());
    for post in &posts {
        assert!(!post.tags.is_empty(), "Post '{}' should have at least one tag", post.title(&Language::EN));
    }
}
