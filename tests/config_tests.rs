use enerby_dev::config::{nav_links, site, social_links};

#[test]
fn test_site_config_has_required_fields() {
    let site = site();
    assert!(!site.name.is_empty(), "Site name should not be empty");
    assert!(!site.title.is_empty(), "Site title should not be empty");
    assert!(!site.description.is_empty(), "Site description should not be empty");
    assert!(!site.author.is_empty(), "Site author should not be empty");
    assert!(!site.base_url.is_empty(), "Site base_url should not be empty");
}

#[test]
fn test_site_base_url_is_valid() {
    let site = site();
    assert!(site.base_url.starts_with("https://"), "Base URL should use HTTPS");
    assert!(!site.base_url.ends_with("/"), "Base URL should not end with slash");
}

#[test]
fn test_nav_links_exist() {
    let links = nav_links();
    assert!(!links.is_empty(), "Navigation links should exist");
    assert!(links.len() >= 3, "Should have at least 3 nav links");
}

#[test]
fn test_nav_links_have_valid_hrefs() {
    for link in nav_links() {
        assert!(!link.label.is_empty(), "Nav link label should not be empty");
        assert!(!link.href.is_empty(), "Nav link href should not be empty");
        if !link.is_external {
            assert!(link.href.starts_with("/"), "Internal links should start with /");
        }
    }
}

#[test]
fn test_social_links_exist() {
    assert!(!social_links().is_empty(), "Social links should exist");
}

#[test]
fn test_social_links_have_valid_urls() {
    for link in social_links() {
        assert!(!link.name.is_empty(), "Social link name should not be empty");
        assert!(!link.url.is_empty(), "Social link URL should not be empty");
        assert!(link.url.starts_with("https://"), "Social links should use HTTPS: {}", link.name);
    }
}
