use rambit::slug::{strict_slugify, StrictSlug};

#[test]
fn test_strict_slugify_basic() {
    // Basic ASCII input
    assert_eq!(strict_slugify("hello-world"), "hello-world");
    assert_eq!(strict_slugify("Hello World"), "hello-world");
    assert_eq!(strict_slugify("rust+rocks"), "rust-rocks");
}

#[test]
fn test_strict_slugify_unicode() {
    // Unicode characters that should be replaced with dashes
    assert_eq!(strict_slugify("你好世界"), "ni-hao-shi-jie");
    assert_eq!(strict_slugify("こんにちは"), "konnitiha");
    assert_eq!(strict_slugify("¡Hola!"), "hola");
}

#[test]
fn test_strict_slugify_mixed() {
    // Mixed ASCII and Unicode
    assert_eq!(strict_slugify("rust编程语言"), "rustbian-cheng-yu-yan");
    assert_eq!(strict_slugify("Lörem Ipsum"), "lorem-ipsum");
    assert_eq!(strict_slugify("foo@bar.com"), "foo-bar-com");
}

#[test]
fn test_strict_slugify_special_characters() {
    // Input with special characters
    assert_eq!(strict_slugify("foo_bar.baz+qux"), "foo-bar-baz-qux");
    assert_eq!(strict_slugify("foo/bar\\baz"), "foo-bar-baz");
    assert_eq!(strict_slugify("hello*world"), "hello-world");
}

#[test]
fn test_strict_slugify_edge_cases() {
    // Edge cases
    assert_eq!(strict_slugify(""), "");
    assert_eq!(strict_slugify("  "), "");
    assert_eq!(strict_slugify("..."), "");
    assert_eq!(strict_slugify("a"), "a");
    assert_eq!(strict_slugify("-_-"), "");
}

#[test]
fn strict_slugify_is_idempotent_on_examples() {
    for s in ["Hello World", "你好世界", "--a--b--", "Lörem Ipsum", "x", ""] {
        let once = strict_slugify(s);
        assert_eq!(strict_slugify(&once), once);
    }
}

#[test]
fn strict_slugify_collapses_separators_and_trims() {
    assert_eq!(strict_slugify("--Foo---BAR--"), "foo-bar");
    assert_eq!(strict_slugify("  leading and trailing  "), "leading-and-trailing");
    assert_eq!(strict_slugify("ABC123xyz"), "abc123xyz");
}

#[test]
fn strict_slug_new_sanitizes() {
    let slug = StrictSlug::new("Hello, World!");
    assert_eq!(slug.as_str(), "hello-world");
    assert_eq!(slug.clone().into_inner(), "hello-world".to_string());
}

#[test]
fn strict_slug_confident_accepts_valid_slugs() {
    let slug = StrictSlug::confident("already-a-slug");
    assert_eq!(slug.as_str(), "already-a-slug");
    assert_eq!(slug, StrictSlug::new("Already A Slug"));
}

#[test]
fn strict_slug_equality_compares_text() {
    assert!(StrictSlug::new("a b").same_as(&StrictSlug::new("A-B")));
    assert!(!StrictSlug::new("a").same_as(&StrictSlug::new("b")));
}
