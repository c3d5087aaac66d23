use deploynest_worker::slug::slugify;

#[test]
fn creates_dns_safe_project_slug() {
    assert_eq!(slugify(" My Cool_App! "), "my-cool-app");
    assert_eq!(slugify("---"), "app");
}

#[test]
fn slug_of_nothing_is_app() {
    assert_eq!(slugify(""), "app");
    assert_eq!(slugify("\u{e9}\u{4e2d}"), "app");
}

#[test]
fn slug_splits_at_everything_but_ascii_letters_and_digits() {
    assert_eq!(slugify("Caf\u{e9} 24/7"), "caf-24-7");
    assert_eq!(slugify("a__b--c..d"), "a-b-c-d");
    assert_eq!(slugify("-x-"), "x");
    assert_eq!(slugify("ABCxyz019"), "abcxyz019");
    assert_eq!(slugify("@[`{/:"), "app");
}

#[test]
fn slug_of_a_slug_is_that_slug() {
    for name in [" My Cool_App! ", "---", "", "A1 b2", "x--y", "\u{212a}elvin"] {
        let slug = slugify(name);
        assert_eq!(slugify(&slug), slug);
    }
}

#[test]
fn slug_ignores_case() {
    assert_eq!(slugify("Hello World"), slugify("hELLO wORLD"));
    assert_eq!(slugify("Hello World"), slugify("hello world"));
}

#[test]
fn slug_is_a_label() {
    for name in ["  a b  ", "--x", "y--", "Z", "1-2-3", "a\u{2014}b", "!!"] {
        let slug = slugify(name);
        assert!(!slug.is_empty());
        assert!(!slug.starts_with('-') && !slug.ends_with('-') && !slug.contains("--"));
        assert!(slug.chars().all(|c| c.is_ascii_lowercase() || c.is_ascii_digit() || c == '-'));
    }
}
