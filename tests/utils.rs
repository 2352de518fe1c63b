use enerby_dev::utils::{
    calculate_read_time, calculate_reading_time, format_date, is_external_link, markdown_to_html,
    slugify, truncate, truncate_string,
};

#[test]
fn test_format_date_valid() {
    let result = format_date("2024-01-15");
    assert!(!result.is_empty(), "Should format valid date");
    assert_eq!(result, "2024-01-15");
}

#[test]
fn test_format_date_invalid() {
    let result = format_date("invalid-date");
    assert!(!result.is_empty(), "Should handle invalid date gracefully");
}

#[test]
fn test_truncate_string_short() {
    let short_text = "Hello";
    let result = truncate_string(short_text, 10);
    assert_eq!(result, "Hello", "Should not truncate short strings");
}

#[test]
fn test_truncate_string_long() {
    let long_text = "This is a very long text that should be truncated";
    let result = truncate_string(long_text, 20);
    assert!(result.len() <= 23, "Should truncate long strings");
    assert!(result.ends_with("..."), "Should add ellipsis");
}

#[test]
fn truncate_exact_results() {
    assert_eq!(truncate("This is a very long text that should be truncated", 20), "This is a very lo...");
    assert_eq!(truncate("abcdef", 6), "abcdef");
    assert_eq!(truncate("abcdef", 2), "...");
    assert_eq!(truncate("héllo wörld", 6), "hé...");
}

#[test]
fn test_slugify_basic() {
    assert_eq!(slugify("Hello World"), "hello-world");
    assert_eq!(slugify("Test String"), "test-string");
}

#[test]
fn test_slugify_special_chars() {
    assert_eq!(slugify("Hello, World!"), "hello-world");
    assert_eq!(slugify("Test@#$String"), "test-string");
}

#[test]
fn test_slugify_multiple_spaces() {
    assert_eq!(slugify("Hello   World"), "hello-world");
}

#[test]
fn slugify_edge_cases() {
    assert_eq!(slugify(""), "");
    assert_eq!(slugify("---"), "");
    assert_eq!(slugify("  Ünïcode Títle 2026 "), "ünïcode-títle-2026");
    assert_eq!(slugify("already-a-slug"), "already-a-slug");
}

#[test]
fn utils_tests_test_calculate_read_time_short() {
    let short_content = "This is a short paragraph.";
    let time = calculate_read_time(short_content);
    assert_eq!(time, 1, "Minimum read time should be 1 minute");
}

#[test]
fn utils_tests_test_calculate_read_time_long() {
    let long_content = "word ".repeat(1000);
    let time = calculate_read_time(&long_content);
    assert!(time >= 4 && time <= 6, "Should calculate ~5 minutes for 1000 words");
}

#[test]
fn reading_time_rounds_up() {
    assert_eq!(calculate_reading_time(&"word ".repeat(250)), 2);
    assert_eq!(calculate_reading_time(&"word ".repeat(200)), 1);
    assert_eq!(calculate_reading_time(&"word ".repeat(201)), 2);
    assert_eq!(calculate_reading_time(""), 1);
}

#[test]
fn utils_tests_test_is_external_link() {
    assert!(is_external_link("https://example.com"));
    assert!(is_external_link("http://example.com"));
    assert!(!is_external_link("/about"));
    assert!(!is_external_link("#section"));
}

#[test]
fn utils_test_slugify() {
    assert_eq!(slugify("Hello World"), "hello-world");
    assert_eq!(slugify("My First Blog Post!"), "my-first-blog-post");
}

#[test]
fn utils_test_reading_time() {
    let content = "word ".repeat(400);
    assert_eq!(calculate_reading_time(&content), 2);
}

#[test]
fn utils_test_truncate() {
    assert_eq!(truncate("Hello World", 20), "Hello World");
    assert_eq!(truncate("Hello World", 8), "Hello...");
}

#[test]
fn utils_test_markdown_to_html() {
    let md = "# Hello\n\nThis is **bold**.";
    let html = markdown_to_html(md);
    assert!(html.contains("<h1>Hello</h1>"));
    assert!(html.contains("<strong>bold</strong>"));
}

#[test]
fn mod_test_slugify() {
    assert_eq!(slugify("Hello World"), "hello-world");
    assert_eq!(slugify("My First Blog Post!"), "my-first-blog-post");
}

#[test]
fn mod_test_reading_time() {
    let content = "word ".repeat(400);
    assert_eq!(calculate_reading_time(&content), 2);
}

#[test]
fn mod_test_truncate() {
    assert_eq!(truncate("Hello World", 20), "Hello World");
    assert_eq!(truncate("Hello World", 8), "Hello...");
}

#[test]
fn mod_test_markdown_to_html() {
    let md = "# Hello\n\nThis is **bold**.";
    let html = markdown_to_html(md);
    assert!(html.contains("<h1>Hello</h1>"));
    assert!(html.contains("<strong>bold</strong>"));
}

#[test]
fn mod_test_is_external_link() {
    assert!(is_external_link("https://example.com"));
    assert!(!is_external_link("/about"));
}
