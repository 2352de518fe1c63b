//! Languages of the site and their dictionaries.
use vstd::prelude::*;

use crate::text::{lower_of, str_starts_with, to_lowercase};

verus! {

/// A language the site is written in.
#[derive(Debug, Clone, Copy, PartialEq, Eq, Structural)]
pub enum Language {
    EN,
    ES,
}

impl Default for Language {
    fn default() -> (r: Self)
        ensures
            r == Language::EN,
    {
        Language::EN
    }
}

/// The language a lower-cased tag such as `es-mx` names: Spanish for a tag
/// starting with `es`, English for one starting with `en`.
pub open spec fn language_of_tag(lowered: Seq<char>) -> Option<Language> {
    if "es"@.is_prefix_of(lowered) {
        Some(Language::ES)
    } else if "en"@.is_prefix_of(lowered) {
        Some(Language::EN)
    } else {
        None
    }
}

impl Language {
    /// The two-letter code of the language.
    pub open spec fn code(&self) -> Seq<char> {
        match self {
            Language::EN => "en"@,
            Language::ES => "es"@,
        }
    }

    /// The two-letter code of the language, `en` or `es`.
    pub fn to_string(&self) -> (r: String)
        ensures
            r@ == self.code(),
    {
        match self {
            Language::EN => "en".to_owned(),
            Language::ES => "es".to_owned(),
        }
    }

    /// The language a tag such as `es-MX` or `EN` names, without regard to case.
    pub fn from_str(s: &str) -> (r: Option<Language>)
        ensures
            r == language_of_tag(lower_of(s@)),
    {
        let lowered = to_lowercase(s);
        if str_starts_with(lowered.as_str(), "es") {
            Some(Language::ES)
        } else if str_starts_with(lowered.as_str(), "en") {
            Some(Language::EN)
        } else {
            None
        }
    }

    /// The other language: the one the language toggle switches to.
    pub fn toggled(&self) -> (r: Language)
        ensures
            r != *self,
    {
        match self {
            Language::EN => Language::ES,
            Language::ES => Language::EN,
        }
    }
}

} // verus!
