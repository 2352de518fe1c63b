//! Image URLs for project cards: a manual override, a screenshot of the demo,
//! the repository's social preview, or an emoji.
use vstd::prelude::*;

use crate::projects::Project;
use crate::text::{concat3, decimal, decimal_string, opt_view};

pub use crate::github_api::{parse_github_url, parse_github_url_spec};

verus! {

/// Base URL of the screenshot service.
pub const THUMBIO_BASE: &'static str = "https://image.thum.io/get";

/// Base URL of GitHub's social preview images.
pub const GITHUB_OG_BASE: &'static str = "https://opengraph.githubassets.com";

/// Screenshot width in pixels.
pub const SCREENSHOT_WIDTH: u32 = 1200;

/// Screenshot height in pixels.
pub const SCREENSHOT_HEIGHT: u32 = 630;

/// The image shown for a project, and where it came from.
#[derive(Debug)]
pub enum ImageSource {
    /// A URL written in the project's declaration.
    Override(String),
    /// A screenshot of the demo site.
    DemoScreenshot(String),
    /// The repository's social preview.
    GitHubOpenGraph(String),
    /// An emoji to show instead of an image.
    Fallback(String),
}

impl PartialEq for ImageSource {
    fn eq(&self, other: &ImageSource) -> (r: bool) {
        match self {
            ImageSource::Override(a) => match other {
                ImageSource::Override(b) => *a == *b,
                _ => false,
            },
            ImageSource::DemoScreenshot(a) => match other {
                ImageSource::DemoScreenshot(b) => *a == *b,
                _ => false,
            },
            ImageSource::GitHubOpenGraph(a) => match other {
                ImageSource::GitHubOpenGraph(b) => *a == *b,
                _ => false,
            },
            ImageSource::Fallback(a) => match other {
                ImageSource::Fallback(b) => *a == *b,
                _ => false,
            },
        }
    }
}

impl vstd::std_specs::cmp::PartialEqSpecImpl for ImageSource {
    open spec fn obeys_eq_spec() -> bool {
        true
    }

    open spec fn eq_spec(&self, other: &ImageSource) -> bool {
        match (self, other) {
            (ImageSource::Override(a), ImageSource::Override(b)) => a@ == b@,
            (ImageSource::DemoScreenshot(a), ImageSource::DemoScreenshot(b)) => a@ == b@,
            (ImageSource::GitHubOpenGraph(a), ImageSource::GitHubOpenGraph(b)) => a@ == b@,
            (ImageSource::Fallback(a), ImageSource::Fallback(b)) => a@ == b@,
            _ => false,
        }
    }
}

impl ImageSource {
    /// The URL or emoji this source carries.
    pub open spec fn text(&self) -> Seq<char> {
        match self {
            ImageSource::Override(u) => u@,
            ImageSource::DemoScreenshot(u) => u@,
            ImageSource::GitHubOpenGraph(u) => u@,
            ImageSource::Fallback(e) => e@,
        }
    }

    /// Whether this is an image URL rather than an emoji.
    pub fn is_real_image(&self) -> (r: bool)
        ensures
            r == !(self is Fallback),
    {
        match self {
            ImageSource::Fallback(_) => false,
            _ => true,
        }
    }

    /// The image URL, unless this is an emoji.
    pub fn url(&self) -> (r: Option<&str>)
        ensures
            match r {
                Some(u) => !(self is Fallback) && u@ == self.text(),
                None => self is Fallback,
            },
    {
        match self {
            ImageSource::Override(u) => Some(u.as_str()),
            ImageSource::DemoScreenshot(u) => Some(u.as_str()),
            ImageSource::GitHubOpenGraph(u) => Some(u.as_str()),
            ImageSource::Fallback(_) => None,
        }
    }

    /// The URL or emoji, as it is written into a page.
    pub fn to_string(&self) -> (r: String)
        ensures
            r@ == self.text(),
    {
        match self {
            ImageSource::Override(u) => u.clone(),
            ImageSource::DemoScreenshot(u) => u.clone(),
            ImageSource::GitHubOpenGraph(u) => u.clone(),
            ImageSource::Fallback(e) => e.clone(),
        }
    }
}

/// The social preview image URL of a repository.
pub open spec fn opengraph_url(owner: Seq<char>, repo: Seq<char>) -> Seq<char> {
    GITHUB_OG_BASE@ + "/1/"@ + owner + "/"@ + repo
}

/// The URL of a screenshot of `demo_url` at the given size.
pub open spec fn thumbio_url(demo_url: Seq<char>, width: u32, height: u32) -> Seq<char> {
    THUMBIO_BASE@ + "/width/"@ + decimal(width as nat) + "/crop/"@ + decimal(height as nat) + "/"@ + demo_url
}

/// The social preview image URL of a repository.
pub fn generate_github_opengraph_url(owner: &str, repo: &str) -> (r: String)
    ensures
        r@ == opengraph_url(owner@, repo@),
{
    let base = concat3(GITHUB_OG_BASE, "/1/", owner);
    concat3(base.as_str(), "/", repo)
}

/// The social preview image URL of the repository a GitHub URL names.
pub fn get_github_preview_from_url(github_url: &str) -> (r: Option<String>)
    ensures
        opt_view(r) == match parse_github_url_spec(github_url@) {
            Some(p) => Some(opengraph_url(p.0, p.1)),
            None => None,
        },
{
    match parse_github_url(github_url) {
        Some((owner, repo)) => Some(generate_github_opengraph_url(owner.as_str(), repo.as_str())),
        None => None,
    }
}

/// The URL of a screenshot of `demo_url` at the given size.
pub fn generate_thumbio_url_custom(demo_url: &str, width: u32, height: u32) -> (r: String)
    ensures
        r@ == thumbio_url(demo_url@, width, height),
{
    let w = decimal_string(width as u64);
    let h = decimal_string(height as u64);
    let a = concat3(THUMBIO_BASE, "/width/", w.as_str());
    let b = concat3(a.as_str(), "/crop/", h.as_str());
    concat3(b.as_str(), "/", demo_url)
}

/// The URL of a 1200 by 630 screenshot of `demo_url`.
pub fn generate_thumbio_url(demo_url: &str) -> (r: String)
    ensures
        r@ == thumbio_url(demo_url@, SCREENSHOT_WIDTH, SCREENSHOT_HEIGHT),
{
    generate_thumbio_url_custom(demo_url, SCREENSHOT_WIDTH, SCREENSHOT_HEIGHT)
}

/// The image a project card shows: its override, else a screenshot of its
/// demo, else its repository's social preview, else its emoji.
pub open spec fn project_image(
    image_override: Option<Seq<char>>,
    demo_url: Option<Seq<char>>,
    github_url: Option<Seq<char>>,
    fallback: Seq<char>,
) -> (int, Seq<char>) {
    match image_override {
        Some(o) => (0, o),
        None => match demo_url {
            Some(d) => (1, thumbio_url(d, SCREENSHOT_WIDTH, SCREENSHOT_HEIGHT)),
            None => match github_url {
                Some(g) => match parse_github_url_spec(g) {
                    Some(p) => (2, opengraph_url(p.0, p.1)),
                    None => (3, fallback),
                },
                None => (3, fallback),
            },
        },
    }
}

/// Which kind of source an image is, numbered in order of priority, and its text.
pub open spec fn source_parts(s: ImageSource) -> (int, Seq<char>) {
    match s {
        ImageSource::Override(u) => (0, u@),
        ImageSource::DemoScreenshot(u) => (1, u@),
        ImageSource::GitHubOpenGraph(u) => (2, u@),
        ImageSource::Fallback(e) => (3, e@),
    }
}

/// The image a project card shows, by priority: override, demo screenshot,
/// repository preview, emoji.
pub fn get_project_image_url(project: &Project) -> (r: ImageSource)
    ensures
        source_parts(r) == project_image(
            opt_view(project.image_override),
            opt_view(project.demo_url),
            opt_view(project.github_url),
            project.image_fallback@,
        ),
{
    if let Some(o) = &project.image_override {
        return ImageSource::Override(o.clone());
    }
    if let Some(d) = &project.demo_url {
        return ImageSource::DemoScreenshot(generate_thumbio_url(d.as_str()));
    }
    if let Some(g) = &project.github_url {
        if let Some(og) = get_github_preview_from_url(g.as_str()) {
            return ImageSource::GitHubOpenGraph(og);
        }
    }
    ImageSource::Fallback(project.image_fallback.clone())
}

/// The URL or emoji a project card shows.
pub fn get_project_image_url_string(project: &Project) -> (r: String)
    ensures
        r@ == project_image(
            opt_view(project.image_override),
            opt_view(project.demo_url),
            opt_view(project.github_url),
            project.image_fallback@,
        ).1,
{
    get_project_image_url(project).to_string()
}

/// Whether a project card shows an image rather than its emoji.
pub fn has_real_image(project: &Project) -> (r: bool)
    ensures
        r == (project_image(
            opt_view(project.image_override),
            opt_view(project.demo_url),
            opt_view(project.github_url),
            project.image_fallback@,
        ).0 != 3),
{
    get_project_image_url(project).is_real_image()
}

} // verus!
