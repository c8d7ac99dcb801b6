use tvgrep::data::styled::TextStyle;
use tvgrep::database::{InvalidVerdict, Verdict as DbVerdict};
use tvgrep::errors::{Errors, TIMER_MAX};
use tvgrep::files::{History, UnexpectedVerdict, Verdict};
use tvgrep::list::{ArticleList, ArticleMap};
use tvgrep::list_state::ListState;
use tvgrep::name::ArticleName;
use tvgrep::print::{PrinterState, print};
use tvgrep::progress::Progress;
use tvgrep::prompt::{Choice, InvalidChoice, apply_choice};
use tvgrep::term::{VerdictPrompt, link};

fn a(s: &str) -> ArticleName {
    ArticleName::from_str(s).unwrap()
}

#[test]
fn db_verdict_codes_roundtrip() {
    for v in DbVerdict::variants() {
        assert_eq!(DbVerdict::decode(v.encode()), Ok(v));
    }
    assert_eq!(DbVerdict::Yes.encode(), "y");
    assert_eq!(DbVerdict::Ignore.name(), "Ignore");
    assert_eq!(DbVerdict::decode("x"), Err(InvalidVerdict { value: "x".to_string() }));
    assert_eq!(DbVerdict::from_index(2), Some(DbVerdict::Ignore));
    assert_eq!(DbVerdict::from_index(3), None);
}

#[test]
fn history_verdict_text() {
    assert_eq!(Verdict::from_str("YeS"), Ok(Verdict::Yes));
    assert_eq!(Verdict::from_str("no"), Ok(Verdict::No));
    assert_eq!(Verdict::from_str("maybe"), Err(UnexpectedVerdict { value: "maybe".to_string() }));
    assert_eq!(Verdict::from_str(Verdict::No.as_str()), Ok(Verdict::No));
    assert_eq!(Verdict::Yes.display().style, TextStyle::Green);
    assert_eq!(Verdict::No.display().text, "no");
}

#[test]
fn history_insert_then_has() {
    let mut h = History::from_map(ArticleMap::new());
    assert!(!h.has(&a("A")));
    assert_eq!(h.insert(a("A"), Verdict::Yes), None);
    assert!(h.has(&a("Main/A")));
    assert_eq!(h.insert(a("Main/A"), Verdict::No), Some(Verdict::Yes));
    assert!(!h.has(&a("B")));
    assert_eq!(h.entries().len(), 1);
}

#[test]
fn choices() {
    assert_eq!(Choice::strs(), ["Yes", "No", "Skip", "Quit"]);
    for (i, s) in Choice::strs().iter().enumerate() {
        assert_eq!(Choice::try_from(i).unwrap().as_str(), *s);
    }
    assert_eq!(Choice::try_from(4), Err(InvalidChoice { n: 4 }));
    assert_eq!(Choice::default_index(), 0);
    let mut h = History::from_map(ArticleMap::new());
    assert!(apply_choice(&mut h, &a("A"), Choice::Yes));
    assert!(h.has(&a("A")));
    assert!(apply_choice(&mut h, &a("B"), Choice::Skip));
    assert!(!h.has(&a("B")));
    assert!(!apply_choice(&mut h, &a("B"), Choice::Quit));
}

#[test]
fn prompt_keys() {
    assert_eq!(VerdictPrompt::from_key('y'), Some(VerdictPrompt::Yes));
    assert_eq!(VerdictPrompt::from_key('N'), Some(VerdictPrompt::No));
    assert_eq!(VerdictPrompt::from_key('s'), Some(VerdictPrompt::Skip));
    assert_eq!(VerdictPrompt::from_key('Q'), Some(VerdictPrompt::Quit));
    assert_eq!(VerdictPrompt::from_key('x'), None);
    assert_eq!(VerdictPrompt::help(), "[y = yes, n = no, s = skip, q = quit]");
}

#[test]
fn errors_show_oldest_for_a_while() {
    let mut e: Errors<&str> = Errors::new();
    assert_eq!(e.peek(), None);
    e.push("first");
    e.push("second");
    assert_eq!(e.peek(), Some(&"first"));
    for _ in 0..TIMER_MAX {
        e.tick();
    }
    assert_eq!(e.peek(), Some(&"first"));
    e.tick();
    assert_eq!(e.peek(), Some(&"second"));
}

#[test]
fn progress_text() {
    assert_eq!(Progress::new(0, Some(10)).to_string(), "(1/10)");
    assert_eq!(Progress::new(4, None).to_string(), "(5/?)");
}

#[test]
fn osc8_link() {
    assert_eq!(link("n", "u"), "\x1B]8;;u\x1B\\n\x1B]8;;\x1B\\");
}

#[test]
fn article_list_stays_sorted() {
    let mut l = ArticleList::new();
    l.push(a("Z/A"));
    l.push(a("Foo"));
    l.push(a("B/C"));
    assert_eq!(l.as_slice(), &[a("Foo"), a("B/C"), a("Z/A")]);
    l.push_assume_sorted(a("A/A"));
    assert_eq!(l.len(), 4);
}

#[test]
fn article_map_insert_get() {
    let mut m: ArticleMap<u32> = ArticleMap::new();
    assert_eq!(m.insert(a("A"), 1), None);
    assert_eq!(m.insert(a("B/B"), 2), None);
    assert_eq!(m.insert(a("Main/A"), 3), Some(1));
    assert_eq!(m.get(&a("A")), Some(&3));
    assert_eq!(m.get(&a("C")), None);
    assert_eq!(m.len(), 2);
}

#[test]
fn list_state_moves() {
    let mut s = ListState::new();
    s.select_next();
    assert_eq!(s.selected(), Some(0));
    s.select(None);
    assert_eq!(s.offset(), 0);
    s.select_last();
    assert_eq!(s.selected(), Some(usize::MAX));
}

#[test]
fn printing_groups_and_counts() {
    let entries = vec![a("Foo"), a("Bar"), a("Film/X")];
    let (lines, end) = print(Some(5), &entries);
    let text: String = lines.iter().map(|s| s.text.as_str()).collect();
    assert_eq!(
        text,
        format!(
            "\nMain\n\n\t{}\n\t{}\n\nFilm\n\n\t{}\n",
            a("Foo").display_link(),
            a("Bar").display_link(),
            a("Film/X").display_link()
        )
    );
    assert_eq!(end, "\n(3 results)\n(2 results filtered out)\n");
    let p = PrinterState::new();
    assert_eq!(p.finish(None), "\n(0 results)\n");
}

#[test]
fn errors_tick_on_empty_queue_changes_nothing() {
    let mut e: Errors<&str> = Errors::new();
    for _ in 0..(TIMER_MAX + 3) {
        e.tick();
    }
    assert_eq!(e.peek(), None);
    e.push("only");
    assert_eq!(e.peek(), Some(&"only"));
    for _ in 0..=TIMER_MAX {
        e.tick();
    }
    assert_eq!(e.peek(), None);
    e.tick();
    assert_eq!(e.peek(), None);
}

#[test]
fn article_map_keeps_first_insertion_order() {
    let mut m: ArticleMap<u32> = ArticleMap::new();
    m.insert(a("Film/Z"), 1);
    m.insert(a("A"), 2);
    m.insert(a("Film/Z"), 3);
    assert!(m.has(&a("A")));
    assert!(!m.has(&a("Film/A")));
    let s = m.as_slice();
    assert_eq!(s.len(), 2);
    assert_eq!(s[0], (a("Film/Z"), 3));
    assert_eq!(s[1], (a("A"), 2));
}
