//! Project records and their enrichment with repository metadata.
use vstd::prelude::*;

use crate::github_api::{
    find_repo, get_all_repos, lookup_key, lookup_repo, opt_owned, owned_strings, parse_github_url,
    parse_github_url_spec,
    repo_views, static_repo_table, usable_homepage, GitHubRepoInfo, RepoInfoView,
};
use crate::i18n::Language;
use crate::text::{
    clone_opt_string, clone_strings, eq_ignore_ascii_case, eq_ignore_ascii_case_spec, opt_view,
    str_eq, string_views,
};

verus! {

/// How prominently a project is shown.
#[derive(Debug, Clone, Copy, PartialEq, Eq, Structural)]
pub enum ProjectStatus {
    Featured,
    Active,
    Archived,
}

impl ProjectStatus {
    /// The label shown on a project card.
    pub fn label(&self) -> (r: &'static str)
        ensures
            r@ == match self {
                ProjectStatus::Featured => "Featured"@,
                ProjectStatus::Active => "Active"@,
                ProjectStatus::Archived => "Archived"@,
            },
    {
        match self {
            ProjectStatus::Featured => "Featured",
            ProjectStatus::Active => "Active",
            ProjectStatus::Archived => "Archived",
        }
    }

    /// The accent colour of the status badge.
    pub fn color(&self) -> (r: &'static str)
        ensures
            r@ == match self {
                ProjectStatus::Featured => "cyan"@,
                ProjectStatus::Active => "purple"@,
                ProjectStatus::Archived => "orange"@,
            },
    {
        match self {
            ProjectStatus::Featured => "cyan",
            ProjectStatus::Active => "purple",
            ProjectStatus::Archived => "orange",
        }
    }
}

/// Where the demo URL of an enriched project came from.
#[derive(Debug, Clone, Copy, PartialEq, Eq, Structural)]
pub enum DemoUrlSource {
    /// Written in the project's declaration.
    Manual,
    /// The homepage of the project's GitHub repository.
    GitHub,
    /// There is no demo URL.
    Absent,
}

/// A project as declared: the source of truth for manual data.
#[derive(Debug)]
pub struct Project {
    pub id: String,
    pub title: String,
    pub description_en: String,
    pub description_es: String,
    pub long_description_en: String,
    pub long_description_es: String,
    pub technologies: Vec<String>,
    pub status: ProjectStatus,
    pub github_url: Option<String>,
    pub demo_url: Option<String>,
    pub image_override: Option<String>,
    pub image_fallback: String,
}

/// A project with data taken from its repository, and where its demo URL came from.
#[derive(Debug)]
pub struct EnrichedProject {
    pub id: String,
    pub title: String,
    pub description_en: String,
    pub description_es: String,
    pub long_description_en: String,
    pub long_description_es: String,
    pub technologies: Vec<String>,
    pub status: ProjectStatus,
    pub github_url: Option<String>,
    pub demo_url: Option<String>,
    pub image_override: Option<String>,
    pub image_fallback: String,
    pub demo_url_source: DemoUrlSource,
}

/// The mathematical value of a project record, declared or enriched.
pub struct ProjectView {
    pub id: Seq<char>,
    pub title: Seq<char>,
    pub description_en: Seq<char>,
    pub description_es: Seq<char>,
    pub long_description_en: Seq<char>,
    pub long_description_es: Seq<char>,
    pub technologies: Seq<Seq<char>>,
    pub status: ProjectStatus,
    pub github_url: Option<Seq<char>>,
    pub demo_url: Option<Seq<char>>,
    pub image_override: Option<Seq<char>>,
    pub image_fallback: Seq<char>,
    pub demo_url_source: DemoUrlSource,
}

impl View for Project {
    type V = ProjectView;

    /// A declared project's demo URL is manual when it has one.
    open spec fn view(&self) -> ProjectView {
        ProjectView {
            id: self.id@,
            title: self.title@,
            description_en: self.description_en@,
            description_es: self.description_es@,
            long_description_en: self.long_description_en@,
            long_description_es: self.long_description_es@,
            technologies: string_views(self.technologies@),
            status: self.status,
            github_url: opt_view(self.github_url),
            demo_url: opt_view(self.demo_url),
            image_override: opt_view(self.image_override),
            image_fallback: self.image_fallback@,
            demo_url_source: if self.demo_url is Some {
                DemoUrlSource::Manual
            } else {
                DemoUrlSource::Absent
            },
        }
    }
}

impl View for EnrichedProject {
    type V = ProjectView;

    open spec fn view(&self) -> ProjectView {
        ProjectView {
            id: self.id@,
            title: self.title@,
            description_en: self.description_en@,
            description_es: self.description_es@,
            long_description_en: self.long_description_en@,
            long_description_es: self.long_description_es@,
            technologies: string_views(self.technologies@),
            status: self.status,
            github_url: opt_view(self.github_url),
            demo_url: opt_view(self.demo_url),
            image_override: opt_view(self.image_override),
            image_fallback: self.image_fallback@,
            demo_url_source: self.demo_url_source,
        }
    }
}

impl Clone for Project {
    fn clone(&self) -> (r: Self)
        ensures
            r@ == self@,
    {
        Project {
            id: self.id.clone(),
            title: self.title.clone(),
            description_en: self.description_en.clone(),
            description_es: self.description_es.clone(),
            long_description_en: self.long_description_en.clone(),
            long_description_es: self.long_description_es.clone(),
            technologies: clone_strings(&self.technologies),
            status: self.status,
            github_url: clone_opt_string(&self.github_url),
            demo_url: clone_opt_string(&self.demo_url),
            image_override: clone_opt_string(&self.image_override),
            image_fallback: self.image_fallback.clone(),
        }
    }
}

impl Clone for EnrichedProject {
    fn clone(&self) -> (r: Self)
        ensures
            r@ == self@,
    {
        EnrichedProject {
            id: self.id.clone(),
            title: self.title.clone(),
            description_en: self.description_en.clone(),
            description_es: self.description_es.clone(),
            long_description_en: self.long_description_en.clone(),
            long_description_es: self.long_description_es.clone(),
            technologies: clone_strings(&self.technologies),
            status: self.status,
            github_url: clone_opt_string(&self.github_url),
            demo_url: clone_opt_string(&self.demo_url),
            image_override: clone_opt_string(&self.image_override),
            image_fallback: self.image_fallback.clone(),
            demo_url_source: self.demo_url_source,
        }
    }
}

impl Project {
    /// The short description in `lang`.
    pub fn description(&self, lang: &Language) -> (r: &str)
        ensures
            r@ == match lang {
                Language::EN => self.description_en@,
                Language::ES => self.description_es@,
            },
    {
        match lang {
            Language::EN => self.description_en.as_str(),
            Language::ES => self.description_es.as_str(),
        }
    }

    /// The long description in `lang`.
    pub fn long_description(&self, lang: &Language) -> (r: &str)
        ensures
            r@ == match lang {
                Language::EN => self.long_description_en@,
                Language::ES => self.long_description_es@,
            },
    {
        match lang {
            Language::EN => self.long_description_en.as_str(),
            Language::ES => self.long_description_es.as_str(),
        }
    }
}

impl EnrichedProject {
    /// The short description in `lang`.
    pub fn description(&self, lang: &Language) -> (r: &str)
        ensures
            r@ == match lang {
                Language::EN => self.description_en@,
                Language::ES => self.description_es@,
            },
    {
        match lang {
            Language::EN => self.description_en.as_str(),
            Language::ES => self.description_es.as_str(),
        }
    }

    /// The long description in `lang`.
    pub fn long_description(&self, lang: &Language) -> (r: &str)
        ensures
            r@ == match lang {
                Language::EN => self.long_description_en@,
                Language::ES => self.long_description_es@,
            },
    {
        match lang {
            Language::EN => self.long_description_en.as_str(),
            Language::ES => self.long_description_es.as_str(),
        }
    }
}

impl From<Project> for EnrichedProject {
    fn from(p: Project) -> (r: EnrichedProject) {
        let source = if p.demo_url.is_some() {
            DemoUrlSource::Manual
        } else {
            DemoUrlSource::Absent
        };
        EnrichedProject {
            id: p.id,
            title: p.title,
            description_en: p.description_en,
            description_es: p.description_es,
            long_description_en: p.long_description_en,
            long_description_es: p.long_description_es,
            technologies: p.technologies,
            status: p.status,
            github_url: p.github_url,
            demo_url: p.demo_url,
            image_override: p.image_override,
            image_fallback: p.image_fallback,
            demo_url_source: source,
        }
    }
}

impl vstd::std_specs::convert::FromSpecImpl<Project> for EnrichedProject {
    open spec fn obeys_from_spec() -> bool {
        true
    }

    open spec fn from_spec(p: Project) -> EnrichedProject {
        EnrichedProject {
            id: p.id,
            title: p.title,
            description_en: p.description_en,
            description_es: p.description_es,
            long_description_en: p.long_description_en,
            long_description_es: p.long_description_es,
            technologies: p.technologies,
            status: p.status,
            github_url: p.github_url,
            demo_url: p.demo_url,
            image_override: p.image_override,
            image_fallback: p.image_fallback,
            demo_url_source: if p.demo_url is Some {
                DemoUrlSource::Manual
            } else {
                DemoUrlSource::Absent
            },
        }
    }
}

// ---------------------------------------------------------------------------
// Enrichment
// ---------------------------------------------------------------------------

/// Whether `list` holds `item` up to ASCII case.
pub open spec fn contains_ignoring_case(list: Seq<Seq<char>>, item: Seq<char>) -> bool {
    exists|i: int| 0 <= i < list.len() && eq_ignore_ascii_case_spec(#[trigger] list[i], item)
}

/// `techs` followed by each topic that is not already present up to ASCII
/// case, in the topics' order.
pub open spec fn merge_topics(techs: Seq<Seq<char>>, topics: Seq<Seq<char>>) -> Seq<Seq<char>>
    decreases topics.len(),
{
    if topics.len() == 0 {
        techs
    } else {
        let before = merge_topics(techs, topics.drop_last());
        if contains_ignoring_case(before, topics.last()) {
            before
        } else {
            before.push(topics.last())
        }
    }
}

/// `p` after taking what repository metadata `info` offers: a usable homepage
/// becomes the demo URL, a non-empty description replaces the English one, and
/// new topics are appended to the technologies.
pub open spec fn apply_repo_info(p: ProjectView, info: RepoInfoView) -> ProjectView {
    let with_demo = match usable_homepage(info.homepage) {
        Some(h) => ProjectView { demo_url: Some(h), demo_url_source: DemoUrlSource::GitHub, ..p },
        None => p,
    };
    let with_description = match info.description {
        Some(d) => if d.len() > 0 {
            ProjectView { description_en: d, ..with_demo }
        } else {
            with_demo
        },
        None => with_demo,
    };
    ProjectView { technologies: merge_topics(with_description.technologies, info.topics), ..with_description }
}

/// The repository metadata that `table` holds for a project's GitHub URL.
pub open spec fn repo_for(github_url: Option<Seq<char>>, table: Seq<RepoInfoView>) -> Option<RepoInfoView> {
    match github_url {
        Some(u) => match parse_github_url_spec(u) {
            Some(parts) => find_repo(table, lookup_key(parts.0, parts.1)),
            None => None,
        },
        None => None,
    }
}

/// A declared project after enrichment from `table`: a manual demo URL leaves
/// it as declared; otherwise the metadata of its repository, if found, is applied.
pub open spec fn enriched_view(p: ProjectView, table: Seq<RepoInfoView>) -> ProjectView {
    if p.demo_url is Some {
        p
    } else {
        match repo_for(p.github_url, table) {
            Some(info) => apply_repo_info(p, info),
            None => p,
        }
    }
}

/// `techs` followed by each topic not already present up to ASCII case.
fn merge_topics_exec(techs: Vec<String>, topics: &Vec<String>) -> (r: Vec<String>)
    ensures
        string_views(r@) == merge_topics(string_views(techs@), string_views(topics@)),
{
    let mut r = techs;
    let ghost base = string_views(r@);
    let mut j: usize = 0;
    while j < topics.len()
        invariant
            j <= topics@.len(),
            string_views(r@) == merge_topics(base, string_views(topics@.subrange(0, j as int))),
        decreases topics@.len() - j,
    {
        let ghost before = string_views(r@);
        let ghost sub = string_views(topics@.subrange(0, j as int + 1));
        assert(sub.drop_last() =~= string_views(topics@.subrange(0, j as int)));
        assert(sub.last() == topics@[j as int]@);
        let topic = &topics[j];
        let mut found = false;
        let mut i: usize = 0;
        while i < r.len()
            invariant
                i <= r@.len(),
                string_views(r@) == before,
                found == exists|k: int| 0 <= k < i && eq_ignore_ascii_case_spec(#[trigger] before[k], topic@),
            decreases r@.len() - i,
        {
            if eq_ignore_ascii_case(r[i].as_str(), topic.as_str()) {
                found = true;
            }
            assert(before[i as int] == r@[i as int]@);
            i = i + 1;
        }
        if !found {
            r.push(topic.clone());
            assert(string_views(r@) =~= before.push(topic@));
        }
        j = j + 1;
    }
    assert(topics@.subrange(0, topics@.len() as int) =~= topics@);
    r
}

/// `project` enriched from the repository metadata in `repos`, which stands for
/// whatever lookup the caller uses: a manual demo URL is never replaced; else a
/// usable homepage becomes the demo URL, a non-empty description replaces the
/// English one, and new topics join the technologies.
pub fn enrich_project_from(project: Project, repos: &[GitHubRepoInfo]) -> (r: EnrichedProject)
    ensures
        r@ == enriched_view(project@, repo_views(repos@)),
{
    let ghost pv = project@;
    let github_url = clone_opt_string(&project.github_url);
    let mut enriched = EnrichedProject::from(project);
    assert(enriched@ == pv);
    if enriched.demo_url.is_some() {
        return enriched;
    }
    match github_url {
        Some(url) => match parse_github_url(url.as_str()) {
            Some((owner, repo)) => match lookup_repo(repos, owner.as_str(), repo.as_str()) {
                Ok(info) => {
                    let ghost iv = info@;
                    let ghost step0 = enriched@;
                    match info.extract_homepage() {
                        Some(homepage) => {
                            enriched.demo_url = Some(homepage);
                            enriched.demo_url_source = DemoUrlSource::GitHub;
                        },
                        None => {},
                    }
                    match &info.description {
                        Some(desc) => {
                            if desc.unicode_len() > 0 {
                                enriched.description_en = desc.clone();
                            }
                        },
                        None => {},
                    }
                    let techs = clone_strings(&enriched.technologies);
                    enriched.technologies = merge_topics_exec(techs, &info.topics);
                    assert(enriched@ == apply_repo_info(step0, iv));
                    enriched
                },
                Err(_) => enriched,
            },
            None => enriched,
        },
        None => enriched,
    }
}

/// `project` enriched from the bundled repository metadata.
pub fn enrich_project_with_github(project: Project) -> (r: EnrichedProject)
    ensures
        r@ == enriched_view(project@, static_repo_table()),
{
    let repos = get_all_repos();
    enrich_project_from(project, repos.as_slice())
}

/// A manual demo URL is never overwritten: whatever the repository metadata,
/// the enriched project keeps it and reports it as manual.
pub proof fn lemma_manual_demo_url_kept(p: ProjectView, table: Seq<RepoInfoView>, url: Seq<char>)
    requires
        p.demo_url == Some(url),
        p.demo_url_source == DemoUrlSource::Manual,
    ensures
        enriched_view(p, table).demo_url == Some(url),
        enriched_view(p, table).demo_url_source == DemoUrlSource::Manual,
{
}

/// A project without a demo URL whose repository metadata has a usable
/// homepage gets that homepage as its demo URL, from GitHub.
pub proof fn lemma_homepage_fills_demo_url(p: ProjectView, table: Seq<RepoInfoView>, info: RepoInfoView, homepage: Seq<char>)
    requires
        p.demo_url is None,
        repo_for(p.github_url, table) == Some(info),
        usable_homepage(info.homepage) == Some(homepage),
    ensures
        enriched_view(p, table).demo_url == Some(homepage),
        enriched_view(p, table).demo_url_source == DemoUrlSource::GitHub,
{
}

/// A project without a demo URL whose repository metadata has no homepage
/// gets no demo URL.
pub proof fn lemma_no_homepage_no_demo_url(p: ProjectView, table: Seq<RepoInfoView>, info: RepoInfoView)
    requires
        p.demo_url is None,
        p.demo_url_source == DemoUrlSource::Absent,
        repo_for(p.github_url, table) == Some(info),
        info.homepage is None,
    ensures
        enriched_view(p, table).demo_url is None,
        enriched_view(p, table).demo_url_source == DemoUrlSource::Absent,
{
}

// ---------------------------------------------------------------------------
// The declared projects
// ---------------------------------------------------------------------------

/// A declared project with no image override.
pub open spec fn declared_view(
    id: Seq<char>,
    title: Seq<char>,
    description_en: Seq<char>,
    description_es: Seq<char>,
    long_description_en: Seq<char>,
    long_description_es: Seq<char>,
    technologies: Seq<Seq<char>>,
    status: ProjectStatus,
    github_url: Option<Seq<char>>,
    demo_url: Option<Seq<char>>,
    image_fallback: Seq<char>,
) -> ProjectView {
    ProjectView {
        id,
        title,
        description_en,
        description_es,
        long_description_en,
        long_description_es,
        technologies,
        status,
        github_url,
        demo_url,
        image_override: None,
        image_fallback,
        demo_url_source: if demo_url is Some {
            DemoUrlSource::Manual
        } else {
            DemoUrlSource::Absent
        },
    }
}

/// The views of a sequence of project records.
pub open spec fn project_views(s: Seq<Project>) -> Seq<ProjectView> {
    s.map_values(|p: Project| p@)
}

/// The views of a sequence of enriched project records.
pub open spec fn enriched_views(s: Seq<EnrichedProject>) -> Seq<ProjectView> {
    s.map_values(|p: EnrichedProject| p@)
}

/// The site owner's projects, in display order.
pub open spec fn project_table() -> Seq<ProjectView> {
    seq![
        declared_view(
            "enerby-dev"@,
            "enerby.dev"@,
            "Personal portfolio built with Rust and Dioxus. Cyberpunk themed with modern web technologies."@,
            "Portafolio personal construido con Rust y Dioxus. Temática cyberpunk con tecnologías web modernas."@,
            "Full-featured portfolio showcasing my work, skills, and blog. Built entirely in Rust using Dioxus, localized with a static-first i18n approach, neon aesthetic, glassmorphism, and smooth animations."@,
            "Portafolio completo mostrando mi trabajo, habilidades y blog. Construido enteramente en Rust usando Dioxus, localizado con enfoque i18n estático, estética neón, glassmorphism y animaciones suaves."@,
            seq!["Rust"@, "Dioxus"@, "WebAssembly"@, "Tailwind CSS"@],
            ProjectStatus::Featured,
            Some("https://github.com/enerBydev/enerby-dev"@),
            Some("https://enerbydev.pages.dev"@),
            "🦀"@,
        ),
        declared_view(
            "oc-diagdoc"@,
            "oc_diagdoc"@,
            "Advanced CLI for technical documentation. Includes integral verification and real-time dashboard."@,
            "CLI avanzado para documentación técnica. Incluye verificación integral y dashboard en tiempo real."@,
            "Advanced CLI tool for extensive technical documentation projects. Features integral verification, real-time stats dashboard, hierarchical visualization, dependency analysis, and quantum diagnostics with auto-repair."@,
            "Herramienta CLI avanzada para proyectos de documentación técnica extensos. Cuenta con verificación integral, panel de estadísticas en tiempo real, visualización jerárquica, análisis de dependencias y diagnóstico cuántico con auto-reparación."@,
            seq!["Rust"@, "CLI"@, "WalkDir"@, "Serde"@, "Clap"@],
            ProjectStatus::Featured,
            Some("https://github.com/enerBydev/oc_diagdoc"@),
            Some("https://www.google.com"@),
            "⚛️"@,
        ),
        declared_view(
            "affinity-legacy-bridge"@,
            "Affinity Legacy Bridge"@,
            "Bridge to run Affinity on Linux LTS using Bottles/Flatpak. Solution for systems with old GLIBC."@,
            "Puente para ejecutar Affinity en Linux LTS usando Bottles/Flatpak. Solución para sistemas con GLIBC antiguo."@,
            "Installation kit using Bottles (Flatpak) as a bridge to run Affinity Photo/Designer/Publisher on Linux LTS systems with GLIBC 2.35. Contains isolated modern libraries (GLIBC 2.42+) without breaking the host system."@,
            "Kit de instalación que usa Bottles (Flatpak) como puente para ejecutar Affinity Photo/Designer/Publisher en sistemas Linux LTS con GLIBC 2.35. Contiene bibliotecas aisladas modernas (GLIBC 2.42+) sin romper el sistema."@,
            seq!["Shell"@, "Flatpak"@, "Bottles"@, "Wine"@, "Linux"@],
            ProjectStatus::Featured,
            Some("https://github.com/enerBydev/Affinity-Legacy-Bridge"@),
            None,
            "🎨"@,
        ),
        declared_view(
            "videoginiusai"@,
            "VideoGIniusAI"@,
            "AI-powered video analysis and generation platform. Content automation with Nuxt 3."@,
            "Plataforma de edición de video potenciada por IA. Creación de contenido automatizada con Nuxt 3."@,
            "Web application for video generation/edition using AI. Built with Nuxt 3, integrates AI models to automate multimedia content creation."@,
            "Aplicación web para generación y edición de video usando inteligencia artificial. Construida con Nuxt 3, integra modelos de IA para automatizar la creación de contenido multimedia."@,
            seq!["Nuxt 4"@, "Vue.js"@, "AI"@, "TypeScript"@],
            ProjectStatus::Active,
            Some("https://github.com/enerBydev/VideoGIniusAI"@),
            None,
            "🎬"@,
        ),
    ]
}

/// A declared project with no image override, from literals.
fn declare(
    id: &str,
    title: &str,
    description_en: &str,
    description_es: &str,
    long_description_en: &str,
    long_description_es: &str,
    technologies: &[&str],
    status: ProjectStatus,
    github_url: Option<&str>,
    demo_url: Option<&str>,
    image_fallback: &str,
) -> (r: Project)
    ensures
        r@ == declared_view(
            id@,
            title@,
            description_en@,
            description_es@,
            long_description_en@,
            long_description_es@,
            technologies@.map_values(|x: &str| x@),
            status,
            match github_url {
                Some(v) => Some(v@),
                None => None::<Seq<char>>,
            },
            match demo_url {
                Some(v) => Some(v@),
                None => None::<Seq<char>>,
            },
            image_fallback@,
        ),
{
    Project {
        id: id.to_owned(),
        title: title.to_owned(),
        description_en: description_en.to_owned(),
        description_es: description_es.to_owned(),
        long_description_en: long_description_en.to_owned(),
        long_description_es: long_description_es.to_owned(),
        technologies: owned_strings(technologies),
        status,
        github_url: opt_owned(github_url),
        demo_url: opt_owned(demo_url),
        image_override: None,
        image_fallback: image_fallback.to_owned(),
    }
}

/// All declared projects.
pub fn get_projects() -> (r: Vec<Project>)
    ensures
        project_views(r@) == project_table(),
{
    let mut r: Vec<Project> = Vec::new();
    r.push(declare(
        "enerby-dev",
        "enerby.dev",
        "Personal portfolio built with Rust and Dioxus. Cyberpunk themed with modern web technologies.",
        "Portafolio personal construido con Rust y Dioxus. Temática cyberpunk con tecnologías web modernas.",
        "Full-featured portfolio showcasing my work, skills, and blog. Built entirely in Rust using Dioxus, localized with a static-first i18n approach, neon aesthetic, glassmorphism, and smooth animations.",
        "Portafolio completo mostrando mi trabajo, habilidades y blog. Construido enteramente en Rust usando Dioxus, localizado con enfoque i18n estático, estética neón, glassmorphism y animaciones suaves.",
        &["Rust", "Dioxus", "WebAssembly", "Tailwind CSS"],
        ProjectStatus::Featured,
        Some("https://github.com/enerBydev/enerby-dev"),
        Some("https://enerbydev.pages.dev"),
        "🦀",
    ));
    r.push(declare(
        "oc-diagdoc",
        "oc_diagdoc",
        "Advanced CLI for technical documentation. Includes integral verification and real-time dashboard.",
        "CLI avanzado para documentación técnica. Incluye verificación integral y dashboard en tiempo real.",
        "Advanced CLI tool for extensive technical documentation projects. Features integral verification, real-time stats dashboard, hierarchical visualization, dependency analysis, and quantum diagnostics with auto-repair.",
        "Herramienta CLI avanzada para proyectos de documentación técnica extensos. Cuenta con verificación integral, panel de estadísticas en tiempo real, visualización jerárquica, análisis de dependencias y diagnóstico cuántico con auto-reparación.",
        &["Rust", "CLI", "WalkDir", "Serde", "Clap"],
        ProjectStatus::Featured,
        Some("https://github.com/enerBydev/oc_diagdoc"),
        Some("https://www.google.com"),
        "⚛️",
    ));
    r.push(declare(
        "affinity-legacy-bridge",
        "Affinity Legacy Bridge",
        "Bridge to run Affinity on Linux LTS using Bottles/Flatpak. Solution for systems with old GLIBC.",
        "Puente para ejecutar Affinity en Linux LTS usando Bottles/Flatpak. Solución para sistemas con GLIBC antiguo.",
        "Installation kit using Bottles (Flatpak) as a bridge to run Affinity Photo/Designer/Publisher on Linux LTS systems with GLIBC 2.35. Contains isolated modern libraries (GLIBC 2.42+) without breaking the host system.",
        "Kit de instalación que usa Bottles (Flatpak) como puente para ejecutar Affinity Photo/Designer/Publisher en sistemas Linux LTS con GLIBC 2.35. Contiene bibliotecas aisladas modernas (GLIBC 2.42+) sin romper el sistema.",
        &["Shell", "Flatpak", "Bottles", "Wine", "Linux"],
        ProjectStatus::Featured,
        Some("https://github.com/enerBydev/Affinity-Legacy-Bridge"),
        None,
        "🎨",
    ));
    r.push(declare(
        "videoginiusai",
        "VideoGIniusAI",
        "AI-powered video analysis and generation platform. Content automation with Nuxt 3.",
        "Plataforma de edición de video potenciada por IA. Creación de contenido automatizada con Nuxt 3.",
        "Web application for video generation/edition using AI. Built with Nuxt 3, integrates AI models to automate multimedia content creation.",
        "Aplicación web para generación y edición de video usando inteligencia artificial. Construida con Nuxt 3, integra modelos de IA para automatizar la creación de contenido multimedia.",
        &["Nuxt 4", "Vue.js", "AI", "TypeScript"],
        ProjectStatus::Active,
        Some("https://github.com/enerBydev/VideoGIniusAI"),
        None,
        "🎬",
    ));
    let ghost t = project_table();
    assert(r@[0]@.id == t[0].id);
    assert(r@[0]@.title == t[0].title);
    assert(r@[0]@.description_en == t[0].description_en);
    assert(r@[0]@.description_es == t[0].description_es);
    assert(r@[0]@.long_description_en == t[0].long_description_en);
    assert(r@[0]@.long_description_es == t[0].long_description_es);
    assert(r@[0]@.technologies == t[0].technologies);
    assert(r@[0]@.github_url == t[0].github_url);
    assert(r@[0]@.demo_url == t[0].demo_url);
    assert(r@[0]@.image_fallback == t[0].image_fallback);
    assert(r@[0]@ == t[0]);
    assert(r@[1]@.id == t[1].id);
    assert(r@[1]@.title == t[1].title);
    assert(r@[1]@.description_en == t[1].description_en);
    assert(r@[1]@.description_es == t[1].description_es);
    assert(r@[1]@.long_description_en == t[1].long_description_en);
    assert(r@[1]@.long_description_es == t[1].long_description_es);
    assert(r@[1]@.technologies == t[1].technologies);
    assert(r@[1]@.github_url == t[1].github_url);
    assert(r@[1]@.demo_url == t[1].demo_url);
    assert(r@[1]@.image_fallback == t[1].image_fallback);
    assert(r@[1]@ == t[1]);
    assert(r@[2]@.id == t[2].id);
    assert(r@[2]@.title == t[2].title);
    assert(r@[2]@.description_en == t[2].description_en);
    assert(r@[2]@.description_es == t[2].description_es);
    assert(r@[2]@.long_description_en == t[2].long_description_en);
    assert(r@[2]@.long_description_es == t[2].long_description_es);
    assert(r@[2]@.technologies == t[2].technologies);
    assert(r@[2]@.github_url == t[2].github_url);
    assert(r@[2]@.demo_url == t[2].demo_url);
    assert(r@[2]@.image_fallback == t[2].image_fallback);
    assert(r@[2]@ == t[2]);
    assert(r@[3]@.id == t[3].id);
    assert(r@[3]@.title == t[3].title);
    assert(r@[3]@.description_en == t[3].description_en);
    assert(r@[3]@.description_es == t[3].description_es);
    assert(r@[3]@.long_description_en == t[3].long_description_en);
    assert(r@[3]@.long_description_es == t[3].long_description_es);
    assert(r@[3]@.technologies == t[3].technologies);
    assert(r@[3]@.github_url == t[3].github_url);
    assert(r@[3]@.demo_url == t[3].demo_url);
    assert(r@[3]@.image_fallback == t[3].image_fallback);
    assert(r@[3]@ == t[3]);
    assert(project_views(r@) =~= project_table());
    r
}

/// The first record of `table` with this id.
pub open spec fn find_project(table: Seq<ProjectView>, id: Seq<char>) -> Option<ProjectView>
    decreases table.len(),
{
    if table.len() == 0 {
        None
    } else if table[0].id == id {
        Some(table[0])
    } else {
        find_project(table.drop_first(), id)
    }
}

/// The view of an optional project record.
pub open spec fn opt_project_view(r: Option<Project>) -> Option<ProjectView> {
    match r {
        Some(p) => Some(p@),
        None => None,
    }
}

/// The declared project with this id.
pub fn get_project_by_id(id: &str) -> (r: Option<Project>)
    ensures
        opt_project_view(r) == find_project(project_table(), id@),
{
    let projects = get_projects();
    let ghost views = project_views(projects@);
    let mut i: usize = 0;
    assert(views.subrange(0, views.len() as int) =~= views);
    while i < projects.len()
        invariant
            i <= projects@.len(),
            views == project_views(projects@),
            views == project_table(),
            find_project(views, id@) == find_project(views.subrange(i as int, views.len() as int), id@),
        decreases projects@.len() - i,
    {
        let ghost rest = views.subrange(i as int, views.len() as int);
        assert(rest[0] == projects@[i as int]@);
        if str_eq(projects[i].id.as_str(), id) {
            return Some(projects[i].clone());
        }
        assert(rest.drop_first() =~= views.subrange(i as int + 1, views.len() as int));
        i = i + 1;
    }
    None
}

/// Every declared project, enriched from the bundled repository metadata.
pub fn get_projects_enriched() -> (r: Vec<EnrichedProject>)
    ensures
        r@.len() == project_table().len(),
        forall|i: int|
            0 <= i < r@.len() ==> (#[trigger] r@[i])@ == enriched_view(project_table()[i], static_repo_table()),
{
    let projects = get_projects();
    let mut r: Vec<EnrichedProject> = Vec::new();
    let mut i: usize = 0;
    while i < projects.len()
        invariant
            i <= projects@.len(),
            project_views(projects@) == project_table(),
            r@.len() == i,
            forall|k: int|
                0 <= k < i ==> (#[trigger] r@[k])@ == enriched_view(project_table()[k], static_repo_table()),
        decreases projects@.len() - i,
    {
        assert(projects@[i as int]@ == project_table()[i as int]);
        r.push(enrich_project_with_github(projects[i].clone()));
        i = i + 1;
    }
    r
}

/// The declared project with this id, enriched from the bundled repository metadata.
pub fn get_enriched_project_by_id(id: &str) -> (r: Option<EnrichedProject>)
    ensures
        match find_project(project_table(), id@) {
            Some(p) => r is Some && r->0@ == enriched_view(p, static_repo_table()),
            None => r is None,
        },
{
    match get_project_by_id(id) {
        Some(p) => Some(enrich_project_with_github(p)),
        None => None,
    }
}

// ---------------------------------------------------------------------------
// Statistics
// ---------------------------------------------------------------------------

/// How many projects have each kind of demo URL.
#[derive(Debug, Clone, Copy, PartialEq, Eq, Structural)]
pub struct EnrichmentStats {
    pub total_projects: usize,
    pub manual_demo_urls: usize,
    pub github_demo_urls: usize,
    pub no_demo_url: usize,
}

/// How many of `s` have a demo URL from `source`.
pub open spec fn count_source(s: Seq<ProjectView>, source: DemoUrlSource) -> nat
    decreases s.len(),
{
    if s.len() == 0 {
        0
    } else {
        count_source(s.drop_last(), source) + if s.last().demo_url_source == source {
            1nat
        } else {
            0nat
        }
    }
}

/// Every project is counted under exactly one source.
pub proof fn lemma_sources_partition(s: Seq<ProjectView>)
    ensures
        count_source(s, DemoUrlSource::Manual) + count_source(s, DemoUrlSource::GitHub) + count_source(
            s,
            DemoUrlSource::Absent,
        ) == s.len(),
    decreases s.len(),
{
    if s.len() > 0 {
        lemma_sources_partition(s.drop_last());
    }
}

/// Counts the demo URL sources of `projects`.
pub fn enrichment_stats_of(projects: &Vec<EnrichedProject>) -> (r: EnrichmentStats)
    ensures
        r.total_projects == projects@.len(),
        r.manual_demo_urls == count_source(enriched_views(projects@), DemoUrlSource::Manual),
        r.github_demo_urls == count_source(enriched_views(projects@), DemoUrlSource::GitHub),
        r.no_demo_url == count_source(enriched_views(projects@), DemoUrlSource::Absent),
        r.total_projects == r.manual_demo_urls + r.github_demo_urls + r.no_demo_url,
{
    let ghost views = enriched_views(projects@);
    let mut manual: usize = 0;
    let mut github: usize = 0;
    let mut none: usize = 0;
    let mut i: usize = 0;
    while i < projects.len()
        invariant
            i <= projects@.len(),
            views == enriched_views(projects@),
            manual == count_source(views.subrange(0, i as int), DemoUrlSource::Manual),
            github == count_source(views.subrange(0, i as int), DemoUrlSource::GitHub),
            none == count_source(views.subrange(0, i as int), DemoUrlSource::Absent),
            manual + github + none == i,
        decreases projects@.len() - i,
    {
        let ghost next = views.subrange(0, i as int + 1);
        assert(next.drop_last() =~= views.subrange(0, i as int));
        assert(next.last() == projects@[i as int]@);
        proof {
            lemma_sources_partition(views.subrange(0, i as int));
        }
        match projects[i].demo_url_source {
            DemoUrlSource::Manual => manual = manual + 1,
            DemoUrlSource::GitHub => github = github + 1,
            DemoUrlSource::Absent => none = none + 1,
        }
        i = i + 1;
    }
    assert(views.subrange(0, views.len() as int) =~= views);
    EnrichmentStats {
        total_projects: projects.len(),
        manual_demo_urls: manual,
        github_demo_urls: github,
        no_demo_url: none,
    }
}

/// Counts the demo URL sources of the enriched declared projects.
pub fn get_enrichment_stats() -> (r: EnrichmentStats)
    ensures
        r.total_projects == project_table().len(),
        r.total_projects == r.manual_demo_urls + r.github_demo_urls + r.no_demo_url,
        exists|e: Seq<ProjectView>|
            e.len() == project_table().len() && (forall|i: int|
                0 <= i < e.len() ==> #[trigger] e[i] == enriched_view(project_table()[i], static_repo_table()))
                && r.manual_demo_urls == count_source(e, DemoUrlSource::Manual) && r.github_demo_urls
                == count_source(e, DemoUrlSource::GitHub) && r.no_demo_url == count_source(
                e,
                DemoUrlSource::Absent,
            ),
{
    let enriched = get_projects_enriched();
    let r = enrichment_stats_of(&enriched);
    let ghost e = enriched_views(enriched@);
    assert(forall|i: int| 0 <= i < e.len() ==> #[trigger] e[i] == enriched@[i]@);
    r
}

} // verus!
