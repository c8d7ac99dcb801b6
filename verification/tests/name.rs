use tvgrep::name::{ArticleName, GroupName, NameError, article_from_url, article_url, related_url};
use tvgrep::text::Order;

fn a(s: &str) -> ArticleName {
    ArticleName::from_str(s).unwrap()
}

fn g(s: &str) -> GroupName {
    GroupName::from_str(s).unwrap()
}

#[test]
fn article_name_display_defaults_to_main() {
    assert_eq!(a("Foo").to_string(), "Main/Foo");
}

#[test]
fn article_name_display_without_main() {
    assert_eq!(a("Foo").display_without_main(), "Foo");
    assert_eq!(a("Other/Foo").display_without_main(), "Other/Foo");
}

#[test]
fn article_name_partial_eq() {
    assert!(a("A/B").eq_str("A/B"));
    assert!(a("Foo").eq_str("Main/Foo"));
    assert!(a("Main/Foo").eq_str("Main/Foo"));
}

#[test]
fn article_name_main_sorts_first() {
    let subject = a("Foo");
    let before = a("A_Before/Bar");
    let after = a("Z_After/Baz");

    let mut items = vec![before.clone(), subject.clone(), after.clone()];
    items.sort();

    assert_eq!(items, [subject, before, after]);
}

#[test]
fn group_name_main_sorts_first() {
    let subject = g("Main");
    let before = g("A_Before");
    let after = g("Z_After");

    let mut items = vec![before.clone(), subject.clone(), after.clone()];
    items.sort();

    assert_eq!(items, [subject, before, after]);
}

#[test]
fn main_sorts_first() {
    let item = g("Main");
    let before = g("A_Before");
    let after = g("Z_After");

    let mut items = vec![before.clone(), item.clone(), after.clone()];
    items.sort();

    assert_eq!(items, vec![item, before, after]);
}

#[test]
fn defaults_to_main_group() {
    assert_eq!(a("Foo").to_string(), "Main/Foo");
}

#[test]
fn display_without_main_group() {
    assert_eq!(a("Main/Foo").display_without_main(), "Foo");
    assert_eq!(a("Other/Bar").display_without_main(), "Other/Bar");
}

#[test]
fn main_group_sorts_first() {
    let item = a("Foo");
    let before = a("A_Before/Bar");
    let after = a("Z_After/Baz");

    let mut items = vec![before.clone(), item.clone(), after.clone()];
    items.sort();

    assert_eq!(items, vec![item, before, after])
}

#[test]
fn parse_errors() {
    assert_eq!(ArticleName::from_str("/Foo"), Err(NameError::EmptyGroup));
    assert_eq!(ArticleName::from_str("Foo/"), Err(NameError::EmptyPage));
    assert_eq!(ArticleName::from_str(""), Err(NameError::EmptyPage));
    assert_eq!(GroupName::from_str(""), Err(NameError::EmptyGroup));
}

#[test]
fn slash_in_page_is_kept() {
    let n = a("Film/Foo/Bar");
    assert_eq!(n.group.as_str(), "Film");
    assert_eq!(n.page.as_str(), "Foo/Bar");
    assert_eq!(n.to_string(), "Film/Foo/Bar");
}

#[test]
fn parse_display_roundtrip() {
    for s in ["Main/Foo", "Film/Bar", "A/B"] {
        assert_eq!(a(&a(s).to_string()), a(s));
    }
}

#[test]
fn main_group_is_main() {
    assert!(GroupName::main().is_main());
    assert!(g("Main").is_main());
    assert!(!g("Film").is_main());
    assert_eq!(GroupName::default(), GroupName::main());
}

#[test]
fn urls() {
    let n = a("Film/Foo");
    assert_eq!(n.url(), "https://tvtropes.org/pmwiki/pmwiki.php/Film/Foo");
    assert_eq!(article_url(&n), "https://tvtropes.org/pmwiki/pmwiki.php/Film/Foo");
    assert_eq!(n.relative_url(), "/pmwiki/pmwiki.php/Film/Foo");
}

#[test]
fn relative_url_roundtrip() {
    let n = a("Film/Foo");
    assert_eq!(ArticleName::from_relative_url(&n.relative_url()), Ok(n.clone()));
    assert!(n.matches_relative_url("/pmwiki/pmwiki.php/Film/Foo"));
    assert!(!n.matches_relative_url("/pmwiki/pmwiki.php/Film/Bar"));
    assert!(a("Foo").matches_relative_url("/pmwiki/pmwiki.php/Foo"));
}

#[test]
fn relative_url_errors() {
    assert_eq!(ArticleName::from_relative_url("/wiki/Foo"), Err(NameError::NotArticleUrl));
    assert_eq!(ArticleName::from_relative_url("/pmwiki/pmwiki.php/"), Err(NameError::EmptyPage));
    assert_eq!(article_from_url("/pmwiki/pmwiki.php/Main/Foo"), Ok(a("Foo")));
}

#[test]
fn related_urls() {
    let n = a("Main/Foo");
    assert_eq!(related_url(&n).build(), "https://tvtropes.org/pmwiki/relatedsearch.php?term=Main/Foo");
    let film = g("Film");
    let mut b = n.related_url();
    b.group(Some(&film)).page(3);
    assert_eq!(
        b.build(),
        "https://tvtropes.org/pmwiki/relatedsearch.php?term=Main/Foo&groupname_search=Film&page=3"
    );
}

#[test]
fn display_link_is_osc8() {
    let n = a("Film/Foo");
    assert_eq!(
        n.display_link(),
        "\x1B]8;;https://tvtropes.org/pmwiki/pmwiki.php/Film/Foo\x1B\\Film/Foo\x1B]8;;\x1B\\"
    );
}

#[test]
fn compare_and_same() {
    assert_eq!(a("Foo").compare(&a("A/Foo")), Order::Less);
    assert_eq!(a("B/Foo").compare(&a("A/Foo")), Order::Greater);
    assert_eq!(a("A/Foo").compare(&a("A/Foo")), Order::Equal);
    assert!(a("Foo").same(&a("Main/Foo")));
    assert!(!a("Foo").same(&a("Film/Foo")));
}
