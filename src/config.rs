//! Site metadata, navigation and social links.
use vstd::prelude::*;

verus! {

/// Metadata of the site.
#[derive(Debug, Clone, Copy)]
pub struct SiteConfig {
    pub name: &'static str,
    pub title: &'static str,
    pub description: &'static str,
    pub author: &'static str,
    pub email: &'static str,
    pub github: &'static str,
    pub linkedin: &'static str,
    pub twitter: &'static str,
    pub base_url: &'static str,
}

/// An entry of the main navigation.
#[derive(Debug, Clone, Copy)]
pub struct NavLink {
    pub label: &'static str,
    pub href: &'static str,
    pub is_external: bool,
}

/// A link to one of the author's profiles.
#[derive(Debug, Clone, Copy)]
pub struct SocialLink {
    pub name: &'static str,
    pub url: &'static str,
    pub icon: &'static str,
}

/// The site's metadata.
pub fn site() -> (r: SiteConfig)
    ensures
        r.name@ == "enerby.dev"@,
        r.title@ == "enerby.dev | Software Developer Portfolio"@,
        r.description@
            == "Personal portfolio showcasing web development, Rust, and full-stack projects. Built with Dioxus and 100% Rust."@,
        r.author@ == "enerBydev"@,
        r.email@ == "rjmemdoza.s@gmail.com"@,
        r.github@ == "https://github.com/enerBydev"@,
        r.linkedin@ == "https://linkedin.com/in/enerbydev"@,
        r.twitter@ == "https://twitter.com/enerbydev"@,
        r.base_url@ == "https://enerby.dev"@,
{
    SiteConfig {
        name: "enerby.dev",
        title: "enerby.dev | Software Developer Portfolio",
        description: "Personal portfolio showcasing web development, Rust, and full-stack projects. Built with Dioxus and 100% Rust.",
        author: "enerBydev",
        email: "rjmemdoza.s@gmail.com",
        github: "https://github.com/enerBydev",
        linkedin: "https://linkedin.com/in/enerbydev",
        twitter: "https://twitter.com/enerbydev",
        base_url: "https://enerby.dev",
    }
}

/// The main navigation, in display order: home, about, projects, blog, contact.
pub fn nav_links() -> (r: Vec<NavLink>)
    ensures
        r@.len() == 5,
        r@[0].label@ == "Home"@ && r@[0].href@ == "/"@,
        r@[1].label@ == "About"@ && r@[1].href@ == "/about"@,
        r@[2].label@ == "Projects"@ && r@[2].href@ == "/projects"@,
        r@[3].label@ == "Blog"@ && r@[3].href@ == "/blog"@,
        r@[4].label@ == "Contact"@ && r@[4].href@ == "/contact"@,
        forall|i: int| 0 <= i < r@.len() ==> !(#[trigger] r@[i]).is_external,
{
    let mut r: Vec<NavLink> = Vec::new();
    r.push(NavLink { label: "Home", href: "/", is_external: false });
    r.push(NavLink { label: "About", href: "/about", is_external: false });
    r.push(NavLink { label: "Projects", href: "/projects", is_external: false });
    r.push(NavLink { label: "Blog", href: "/blog", is_external: false });
    r.push(NavLink { label: "Contact", href: "/contact", is_external: false });
    r
}

/// The author's profiles: GitHub, LinkedIn and Twitter.
pub fn social_links() -> (r: Vec<SocialLink>)
    ensures
        r@.len() == 3,
        r@[0].name@ == "GitHub"@ && r@[0].url@ == "https://github.com/enerBydev"@ && r@[0].icon@ == "github"@,
        r@[1].name@ == "LinkedIn"@ && r@[1].url@ == "https://linkedin.com/in/enerbydev"@ && r@[1].icon@
            == "linkedin"@,
        r@[2].name@ == "Twitter"@ && r@[2].url@ == "https://twitter.com/enerbydev"@ && r@[2].icon@ == "twitter"@,
{
    let mut r: Vec<SocialLink> = Vec::new();
    r.push(SocialLink { name: "GitHub", url: "https://github.com/enerBydev", icon: "github" });
    r.push(SocialLink { name: "LinkedIn", url: "https://linkedin.com/in/enerbydev", icon: "linkedin" });
    r.push(SocialLink { name: "Twitter", url: "https://twitter.com/enerbydev", icon: "twitter" });
    r
}

} // verus!
