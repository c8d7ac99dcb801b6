use tvgrep::data::styled::TextStyle;
use tvgrep::data::trope::TropeDisplay;
use tvgrep::data::{ArticleData, ArticleSummaryData, TropeDataFlatList, TropeDataSingle, TropeDataStub};
use tvgrep::name::ArticleName;
use tvgrep::progress::Progress;

fn a(s: &str) -> ArticleName {
    ArticleName::from_str(s).unwrap()
}

fn summary(paras: &[&str]) -> ArticleSummaryData {
    let mut b = ArticleSummaryData::builder();
    for p in paras {
        b.push_para();
        b.push_str(p);
    }
    b.build()
}

#[test]
fn builder_separates_paragraphs() {
    let s = summary(&["One", "Two"]);
    assert_eq!(s.0, "One\n\nTwo");
    let mut b = ArticleSummaryData::builder();
    b.push_para();
    assert_eq!(b.0, "");
}

#[test]
fn summary_display_lines() {
    assert_eq!(summary(&["One", "Two"]).to_string(), "One\n\nTwo\n");
    assert_eq!(ArticleSummaryData("A\n\n\n\nB".to_string()).to_string(), "A\n\nB\n");
    assert_eq!(ArticleSummaryData(String::new()).to_string(), "");
}

#[test]
fn summary_cutoff_counts_the_rest() {
    let long = "x".repeat(2001);
    let s = summary(&[&long, "Two", "Three"]);
    assert_eq!(s.to_string(), format!("{long}\n\n(2 more paragraphs)\n"));
    let exact = "y".repeat(2000);
    let s = summary(&[&exact, "Two"]);
    assert_eq!(s.to_string(), format!("{exact}\n\nTwo\n"));
}

#[test]
fn single_display_text() {
    let missing = TropeDataSingle { trope: a("Main/Foo"), text: None };
    let t = missing.display_text();
    assert_eq!(t.text, "(trope missing)");
    assert_eq!(t.style, TextStyle::OnRed);
    let blank = TropeDataSingle { trope: a("Main/Foo"), text: Some(String::new()) };
    assert_eq!(blank.display_text().text, "(trope blank)");
    assert_eq!(blank.display_text().style, TextStyle::Dim);
    let text = TropeDataSingle { trope: a("Main/Foo"), text: Some("Hi".to_string()) };
    assert_eq!(text.display_text().text, "Hi");
    let seg = text.segments();
    assert_eq!(seg.len(), 3);
    assert_eq!(seg[0].text, format!("{}: ", a("Main/Foo").display_link()));
    assert_eq!(seg[2].text, "\n");
}

#[test]
fn flat_list_display() {
    let l = TropeDataFlatList(vec![a("Main/A"), a("Film/B")]);
    let seg = l.segments();
    assert_eq!(seg.len(), 1);
    assert_eq!(
        seg[0].text,
        format!("\n{}\n{}\n\n", a("Main/A").display_link(), a("Film/B").display_link())
    );
    assert!(TropeDataStub.segments().is_empty());
}

#[test]
fn article_display_with_progress() {
    let d = ArticleData {
        url: "https://x".to_string(),
        title: "T".to_string(),
        summary: summary(&["S"]),
        tropes: TropeDataStub,
    };
    let seg = d.display_with_progress(Progress::new(0, Some(3)));
    assert_eq!(seg[0].text, "\n=== \x1B]8;;https://x\x1B\\T\x1B]8;;\x1B\\ === (1/3)\n\n");
    assert_eq!(seg[1].text, "S\n");
    assert_eq!(seg[1].style, TextStyle::Dim);
    assert_eq!(seg.len(), 4);
    let plain = d.display();
    assert_eq!(plain[0].text, "\n=== \x1B]8;;https://x\x1B\\T\x1B]8;;\x1B\\ ===\n\n");
}
