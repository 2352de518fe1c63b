//! Plain content records shared by the pages.
use vstd::prelude::*;

verus! {

/// What a visitor types into the contact form.
#[derive(Debug, Clone, Default)]
pub struct ContactForm {
    pub name: String,
    pub email: String,
    pub subject: String,
    pub message: String,
}

/// One entry of the about page's timeline.
#[derive(Debug, Clone)]
pub struct TimelineItem {
    pub year: String,
    pub title: String,
    pub description: String,
    pub icon: String,
}

/// A group of skills on the skills section.
#[derive(Debug, Clone, Copy, PartialEq, Eq, Structural)]
pub enum SkillCategory {
    Languages,
    Frameworks,
    Tools,
    Concepts,
}

impl SkillCategory {
    /// The heading of the group.
    pub fn label(&self) -> (r: &'static str)
        ensures
            r@ == match self {
                SkillCategory::Languages => "Languages"@,
                SkillCategory::Frameworks => "Frameworks & Libraries"@,
                SkillCategory::Tools => "Tools & Platforms"@,
                SkillCategory::Concepts => "Concepts & Practices"@,
            },
    {
        match self {
            SkillCategory::Languages => "Languages",
            SkillCategory::Frameworks => "Frameworks & Libraries",
            SkillCategory::Tools => "Tools & Platforms",
            SkillCategory::Concepts => "Concepts & Practices",
        }
    }

    /// The accent colour of the group.
    pub fn color(&self) -> (r: &'static str)
        ensures
            r@ == match self {
                SkillCategory::Languages => "cyan"@,
                SkillCategory::Frameworks => "pink"@,
                SkillCategory::Tools => "purple"@,
                SkillCategory::Concepts => "orange"@,
            },
    {
        match self {
            SkillCategory::Languages => "cyan",
            SkillCategory::Frameworks => "pink",
            SkillCategory::Tools => "purple",
            SkillCategory::Concepts => "orange",
        }
    }
}

} // verus!
