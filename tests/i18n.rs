use enerby_dev::data::SkillCategory;
use enerby_dev::i18n::Language;

#[test]
fn test_language_display() {
    assert_eq!(Language::EN.to_string(), "en");
    assert_eq!(Language::ES.to_string(), "es");
}

#[test]
fn test_parsing_logic() {
    assert_eq!(Language::from_str("en"), Some(Language::EN));
    assert_eq!(Language::from_str("es"), Some(Language::ES));
    assert_eq!(Language::from_str("es-MX"), Some(Language::ES));
    assert_eq!(Language::from_str("en-US"), Some(Language::EN));
    assert_eq!(Language::from_str("de"), None);
    assert_eq!(Language::from_str("ES"), Some(Language::ES));
}

#[test]
fn language_default_and_toggle() {
    assert_eq!(Language::default(), Language::EN);
    assert_eq!(Language::EN.toggled(), Language::ES);
    assert_eq!(Language::ES.toggled(), Language::EN);
    assert_eq!(Language::from_str(""), None);
}

#[test]
fn test_skill_category_labels() {
    assert_eq!(SkillCategory::Languages.label(), "Languages");
    assert_eq!(SkillCategory::Frameworks.label(), "Frameworks & Libraries");
    assert_eq!(SkillCategory::Tools.label(), "Tools & Platforms");
    assert_eq!(SkillCategory::Concepts.label(), "Concepts & Practices");
}

#[test]
fn test_skill_category_colors() {
    assert!(!SkillCategory::Languages.color().is_empty());
    assert!(!SkillCategory::Frameworks.color().is_empty());
    assert!(!SkillCategory::Tools.color().is_empty());
    assert!(!SkillCategory::Concepts.color().is_empty());
}

#[test]
fn test_message_length_validation() {
    let short_msg = "Hi";
    let valid_msg = "This is a valid message that is long enough";
    assert!(short_msg.len() < 20);
    assert!(valid_msg.len() >= 20);
}

fn is_valid_email(email: &str) -> bool {
    email.contains('@') && email.contains('.') && email.len() > 5
}

#[test]
fn test_email_validation_logic() {
    assert!(is_valid_email("test@example.com"));
    assert!(is_valid_email("user@domain.org"));
    assert!(!is_valid_email("invalid"));
    assert!(!is_valid_email("no@dot"));
    assert!(!is_valid_email("a@b.c"));
}
