use tvgrep::crawl::article::{
    ArticleCrawl, ArticleCrawlSingleTrope, ArticlePage, ArticleSingleTropeBody, ListItemLink,
    SummaryChild, TitleElement, TropeLink, get_summary, get_title,
};
use tvgrep::crawl::related::{RelatedCrawl, after_page, crawl_listing_text, crawl_page, find_total_count, total_count};
use tvgrep::crawl::page::{link_targets, list_links, read_article_page};
use tvgrep::crawl::trope::{FlatList, Single, Stub, TropeListLink, TropeQueryFlatList, TropeQueryIgnore};
use tvgrep::crawl::{CrawlError, entry_text_of, text_range};
use tvgrep::list::ArticleList;
use tvgrep::name::{ArticleName, GroupName, NameError};

fn a(s: &str) -> ArticleName {
    ArticleName::from_str(s).unwrap()
}

fn strings(v: &[&str]) -> Vec<String> {
    v.iter().map(|s| s.to_string()).collect()
}

#[test]
fn entry_text_skips_name_and_colon() {
    let pieces = strings(&["Foo", "  ", ": A thing ", "happens", "\n"]);
    assert_eq!(entry_text_of(&pieces), "A thing happens");
    assert_eq!(entry_text_of(&strings(&["Foo"])), "");
    assert_eq!(entry_text_of(&strings(&["Foo", "no colon"])), "no colon");
}

#[test]
fn text_range_is_in_bytes() {
    assert_eq!(text_range("héllo world", "world"), Some(7..12));
    assert_eq!(text_range("abc", "d"), None);
    assert_eq!(text_range("abcabc", "c"), Some(2..3));
}

#[test]
fn title_first_kind_takes_last_nonempty() {
    let t = Some(TitleElement { text_nodes: strings(&["  The ", " Title ", "  "]), is_first_kind: true });
    assert_eq!(get_title(&t), Ok("Title".to_string()));
}

#[test]
fn title_second_kind_skips_prefix() {
    let t = Some(TitleElement { text_nodes: strings(&["Film: ", "  "]), is_first_kind: false });
    assert_eq!(get_title(&t), Err(CrawlError::EmptyTitle));
    let t = Some(TitleElement { text_nodes: strings(&["Film: ", "Foo"]), is_first_kind: false });
    assert_eq!(get_title(&t), Ok("Foo".to_string()));
    assert_eq!(get_title(&None), Err(CrawlError::NoTitle));
}

#[test]
fn summary_joins_paragraphs_until_rule() {
    let children = vec![
        SummaryChild::Paragraph { text_nodes: strings(&["One ", "two"]) },
        SummaryChild::Other,
        SummaryChild::Rule { has_data_format: false },
        SummaryChild::Paragraph { text_nodes: strings(&["Three"]) },
        SummaryChild::Rule { has_data_format: true },
        SummaryChild::Paragraph { text_nodes: strings(&["Hidden"]) },
    ];
    assert_eq!(get_summary(&children), "One two\n\nThree");
    let empty_first = vec![
        SummaryChild::Paragraph { text_nodes: vec![] },
        SummaryChild::Paragraph { text_nodes: strings(&["X"]) },
    ];
    assert_eq!(get_summary(&empty_first), "X");
}

#[test]
fn link_selector_uses_relative_url() {
    let c = ArticleCrawlSingleTrope(a("Main/Foo"));
    assert_eq!(c.link_selector(), "a.twikilink[href=\"/pmwiki/pmwiki.php/Main/Foo\"]");
}

#[test]
fn body_top_level() {
    let c = ArticleCrawlSingleTrope(a("Main/Foo"));
    let link = Some(TropeLink {
        link_text: "Foo".to_string(),
        list_item: Some(ListItemLink {
            text_nodes: strings(&["Foo", ": Text"]),
            first_is_link: true,
            first_href: Some("/pmwiki/pmwiki.php/Main/Foo".to_string()),
        }),
        block_text: None,
    });
    match c.crawl_body(&link) {
        Ok(ArticleSingleTropeBody::TopLevel { article_name, text }) => {
            assert_eq!(article_name, a("Main/Foo"));
            assert_eq!(text, "Text");
        }
        other => panic!("unexpected {other:?}"),
    }
}

#[test]
fn body_in_other() {
    let c = ArticleCrawlSingleTrope(a("Main/Foo"));
    let link = Some(TropeLink {
        link_text: "Foo".to_string(),
        list_item: Some(ListItemLink {
            text_nodes: strings(&["Bar", ": like ", "Foo", " here"]),
            first_is_link: false,
            first_href: Some("/pmwiki/pmwiki.php/Main/Bar".to_string()),
        }),
        block_text: Some("ignored".to_string()),
    });
    match c.crawl_body(&link) {
        Ok(ArticleSingleTropeBody::InOther { other_article_name, text, own_article_url_range }) => {
            assert_eq!(other_article_name, a("Main/Bar"));
            assert_eq!(text, "like Foo here");
            assert_eq!(own_article_url_range, Some(5..8));
        }
        other => panic!("unexpected {other:?}"),
    }
}

#[test]
fn body_elsewhere_and_errors() {
    let c = ArticleCrawlSingleTrope(a("Main/Foo"));
    let link = Some(TropeLink {
        link_text: "Foo".to_string(),
        list_item: None,
        block_text: Some("See Foo.".to_string()),
    });
    match c.crawl_body(&link) {
        Ok(ArticleSingleTropeBody::Elsewhere { nearest_block_parent_text, url_range }) => {
            assert_eq!(nearest_block_parent_text, "See Foo.");
            assert_eq!(url_range, Some(4..7));
        }
        other => panic!("unexpected {other:?}"),
    }
    assert!(matches!(c.crawl_body(&None), Err(CrawlError::MissingTrope)));
    let no_block = Some(TropeLink { link_text: "Foo".to_string(), list_item: None, block_text: None });
    assert!(matches!(c.crawl_body(&no_block), Err(CrawlError::NoBlockParent)));
    let no_href = Some(TropeLink {
        link_text: "Foo".to_string(),
        list_item: Some(ListItemLink { text_nodes: vec![], first_is_link: false, first_href: None }),
        block_text: None,
    });
    assert!(matches!(c.crawl_body(&no_href), Err(CrawlError::FirstLinkMissingHref)));
    let bad_href = Some(TropeLink {
        link_text: "Foo".to_string(),
        list_item: Some(ListItemLink {
            text_nodes: vec![],
            first_is_link: false,
            first_href: Some("/elsewhere".to_string()),
        }),
        block_text: None,
    });
    assert!(matches!(
        c.crawl_body(&bad_href),
        Err(CrawlError::InvalidName(NameError::NotArticleUrl))
    ));
}

#[test]
fn article_crawl_reads_page() {
    let c = ArticleCrawl {
        article_name: a("Film/X"),
        crawl_body: ArticleCrawlSingleTrope(a("Main/Foo")),
    };
    assert_eq!(c.url(), "https://tvtropes.org/pmwiki/pmwiki.php/Film/X");
    let page = ArticlePage {
        main: Some(vec![SummaryChild::Paragraph { text_nodes: strings(&["Sum"]) }]),
        title: Some(TitleElement { text_nodes: strings(&["X"]), is_first_kind: true }),
        trope_link: Some(TropeLink {
            link_text: "Foo".to_string(),
            list_item: None,
            block_text: Some("Foo".to_string()),
        }),
    };
    let info = c.crawl("https://example/x", &page).unwrap();
    assert_eq!(info.url, "https://example/x");
    assert_eq!(info.name, a("Film/X"));
    assert_eq!(info.title, "X");
    assert_eq!(info.summary, "Sum");
    let no_main = ArticlePage { main: None, title: None, trope_link: None };
    assert!(matches!(c.crawl("u", &no_main), Err(CrawlError::NoMain)));
}

#[test]
fn single_query() {
    let foo = a("Main/Foo");
    let q = Single(&foo);
    let links = vec![
        TropeListLink { href: None, parent_text_nodes: None },
        TropeListLink {
            href: Some("/pmwiki/pmwiki.php/Main/Bar".to_string()),
            parent_text_nodes: Some(strings(&["Bar", ": no"])),
        },
        TropeListLink {
            href: Some("/pmwiki/pmwiki.php/Main/Foo".to_string()),
            parent_text_nodes: Some(strings(&["Foo", ": yes"])),
        },
    ];
    let d = q.query(&links).unwrap();
    assert_eq!(d.trope, foo);
    assert_eq!(d.text.as_deref(), Some("yes"));
    let missing = q.query(&vec![]).unwrap();
    assert_eq!(missing.text, None);
    let blank = vec![TropeListLink {
        href: Some("/pmwiki/pmwiki.php/Main/Foo".to_string()),
        parent_text_nodes: Some(strings(&["Foo"])),
    }];
    assert_eq!(q.query(&blank).unwrap().text, None);
    let orphan = vec![TropeListLink {
        href: Some("/pmwiki/pmwiki.php/Main/Foo".to_string()),
        parent_text_nodes: None,
    }];
    assert!(matches!(q.query(&orphan), Err(CrawlError::ParentMissing)));
}

#[test]
fn flat_list_query() {
    let hrefs = vec![
        Some("/pmwiki/pmwiki.php/Main/A".to_string()),
        Some("/pmwiki/pmwiki.php/Film/B".to_string()),
    ];
    let d = FlatList.query(&hrefs).unwrap();
    assert_eq!(d.0, vec![a("Main/A"), a("Film/B")]);
    let missing = vec![Some("/pmwiki/pmwiki.php/Main/A".to_string()), None];
    assert!(matches!(FlatList.query(&missing), Err(CrawlError::LinkMissingHref)));
    let bad = vec![Some("/x".to_string())];
    assert!(matches!(FlatList.query(&bad), Err(CrawlError::InvalidName(NameError::NotArticleUrl))));
}

#[test]
fn trope_query_flat_list_and_stub() {
    let links = vec![strings(&["A", "b"]), strings(&[])];
    assert_eq!(TropeQueryFlatList::query(&links), vec!["Ab".to_string(), String::new()]);
    TropeQueryIgnore::query();
    let _ = Stub.query();
}

#[test]
fn related_crawl_page() {
    let c = RelatedCrawl {
        article_name: a("Main/Foo"),
        group_name: Some(GroupName::from_str("Film").unwrap()),
        page: 2,
    };
    assert_eq!(
        c.url(),
        "https://tvtropes.org/pmwiki/relatedsearch.php?term=Main/Foo&groupname_search=Film&page=2"
    );
    let hrefs = vec![Some("/pmwiki/pmwiki.php/Film/B".to_string())];
    assert_eq!(c.crawl(&hrefs), Ok(vec![a("Film/B")]));
    let mut out = ArticleList::new();
    assert_eq!(crawl_page(&mut out, &hrefs), Ok(1));
    assert_eq!(crawl_page(&mut out, &vec![]), Ok(0));
    assert_eq!(out.as_slice(), &[a("Film/B")]);
}

#[test]
fn paging_and_count() {
    assert_eq!(after_page(1, 0), None);
    assert_eq!(after_page(1, 5), Some(2));
    assert_eq!(find_total_count(&Some("123".to_string())), Some(123));
    assert_eq!(find_total_count(&Some("12 results".to_string())), None);
    assert_eq!(find_total_count(&None), None);
}

#[test]
fn text_range_slices_the_pattern() {
    for (text, pat) in [("héllo wörld", "wörld"), ("日本語のテキスト", "テキ"), ("a€b", "€")] {
        let r = text_range(text, pat).unwrap();
        assert_eq!(&text[r], pat);
    }
}

const ARTICLE_HTML: &str = r#"<html><head><title>x</title></head><body>
<h1 class="entry-title"><span class="wrapped_title">  Some Film  </span></h1>
<div id="main-article">
<p>First <b>para</b>.</p>
<div>aside</div>
<p>Second.</p>
<hr data-format="x">
<p>Hidden.</p>
<ul>
<li><a class="twikilink" href="/pmwiki/pmwiki.php/Main/Own">Own</a>: own text</li>
<li><a class="twikilink" href="/pmwiki/pmwiki.php/Main/Other">Other</a>: like <a class="twikilink" href="/pmwiki/pmwiki.php/Main/Foo">Foo</a> here</li>
</ul>
</div>
</body></html>"#;

#[test]
fn article_page_read_from_html() {
    let sel = ArticleCrawlSingleTrope(a("Main/Foo")).link_selector();
    let page = read_article_page(ARTICLE_HTML, Some(&sel));
    assert_eq!(get_summary(page.main.as_ref().unwrap()), "First para.\n\nSecond.");
    assert_eq!(get_title(&page.title), Ok("Some Film".to_string()));
    let link = page.trope_link.as_ref().unwrap();
    assert_eq!(link.link_text, "Foo");
    let li = link.list_item.as_ref().unwrap();
    assert!(!li.first_is_link);
    assert_eq!(li.first_href.as_deref(), Some("/pmwiki/pmwiki.php/Main/Other"));
    assert_eq!(link.block_text.as_deref(), Some("Other: like Foo here"));
}

#[test]
fn article_crawl_from_html() {
    let c = ArticleCrawl {
        article_name: a("Film/SomeFilm"),
        crawl_body: ArticleCrawlSingleTrope(a("Main/Foo")),
    };
    let info = c.crawl_text("u", ARTICLE_HTML).unwrap();
    assert_eq!(info.title, "Some Film");
    match info.body {
        ArticleSingleTropeBody::InOther { other_article_name, text, own_article_url_range } => {
            assert_eq!(other_article_name, a("Main/Other"));
            assert_eq!(text, "like Foo here");
            assert_eq!(own_article_url_range, Some(5..8));
        }
        other => panic!("unexpected {other:?}"),
    }
    let own = ArticleCrawl {
        article_name: a("Film/SomeFilm"),
        crawl_body: ArticleCrawlSingleTrope(a("Main/Own")),
    };
    match own.crawl_text("u", ARTICLE_HTML).unwrap().body {
        ArticleSingleTropeBody::TopLevel { article_name, text } => {
            assert_eq!(article_name, a("Main/Own"));
            assert_eq!(text, "own text");
        }
        other => panic!("unexpected {other:?}"),
    }
    let missing = ArticleCrawl {
        article_name: a("Film/SomeFilm"),
        crawl_body: ArticleCrawlSingleTrope(a("Main/Nowhere")),
    };
    assert!(matches!(missing.crawl_text("u", ARTICLE_HTML), Err(CrawlError::MissingTrope)));
}

#[test]
fn trope_queries_from_html() {
    let own = a("Main/Own");
    let d = Single(&own).query_text(ARTICLE_HTML).unwrap();
    assert_eq!(d.text.as_deref(), Some("own text"));
    let all = FlatList.query_text(ARTICLE_HTML).unwrap();
    assert_eq!(all.0, vec![a("Main/Own"), a("Main/Other")]);
}

#[test]
fn related_listing_from_html() {
    let search = r#"<html><body><ul class="no-bullets"><li><a href="/pmwiki/pmwiki.php/Film/A">A</a></li><li><a href="/pmwiki/pmwiki.php/Main/B">B</a></li></ul></body></html>"#;
    let c = RelatedCrawl { article_name: a("Main/Foo"), group_name: None, page: 1 };
    assert_eq!(c.crawl_text(search), Ok(vec![a("Film/A"), a("Main/B")]));
    let listing = r#"<html><body><p><strong>42</strong> results</p><h2 class="examples-header">x</h2><ul><li><a href="/pmwiki/pmwiki.php/Film/C">C</a></li></ul></body></html>"#;
    assert_eq!(total_count(listing), Some(42));
    let mut out = ArticleList::new();
    assert_eq!(crawl_listing_text(&mut out, listing), Ok(1));
    assert_eq!(out.as_slice(), &[a("Film/C")]);
}

#[test]
fn picked_links_come_in_the_order_the_parser_made_them() {
    // The second link sits in the table outside a cell, so the parser puts
    // it before the table, after it made the first one.
    let html = "<html><body><div><table><tr><td>\
        <a class=\"x\" href=\"/first\">F</a></td></tr>\
        <a class=\"x\" href=\"/second\">S</a></table></div></body></html>";
    assert_eq!(
        link_targets(html, "a.x"),
        vec![Some("/first".to_string()), Some("/second".to_string())]
    );
    let links = list_links(html, "a.x");
    assert_eq!(links.len(), 2);
    assert_eq!(links[1].href, Some("/second".to_string()));
    assert_eq!(links[1].parent_text_nodes, Some(vec!["S".to_string(), "F".to_string()]));
}

#[test]
fn namespaced_href_is_no_target() {
    let html = "<html><body><svg><a class=\"x\" xlink:href=\"/x\">X</a></svg>\
        <a class=\"x\" href=\"/y\">Y</a></body></html>";
    assert_eq!(link_targets(html, "a.x"), vec![None, Some("/y".to_string())]);
}

#[test]
fn flat_list_texts_from_html() {
    assert_eq!(
        TropeQueryFlatList::query_text(ARTICLE_HTML),
        vec!["Own".to_string(), "Other".to_string()]
    );
    let html = r#"<html><body><ul><li><a class="twikilink" href="/x">Big <b>Bad</b></a> text</li>
<li><b>plain</b> <a class="twikilink" href="/y">Not first</a></li></ul></body></html>"#;
    assert_eq!(TropeQueryFlatList::query_text(html), vec!["Big Bad".to_string()]);
}
