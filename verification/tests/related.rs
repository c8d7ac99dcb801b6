use tvgrep::database::{ArticleVerdict, Verdict};
use tvgrep::name::{ArticleName, GroupName, NameError};
use tvgrep::related::RelatedMessage;
use tvgrep::related::app::{KeyCode, RelatedApp, RelatedMessageOkOutput, RelatedModal};
use tvgrep::related::list::{RelatedArticleEntry, RelatedArticleList, VerdictFilter};
use tvgrep::related::loader::RelatedLoader;
use tvgrep::related::verdicts::related_entries;

fn a(s: &str) -> ArticleName {
    ArticleName::from_str(s).unwrap()
}

fn entry(s: &str, v: Option<Verdict>) -> RelatedArticleEntry {
    RelatedArticleEntry { article_name: a(s), verdict: v }
}

fn press(app: &mut RelatedApp, code: KeyCode) -> (Vec<RelatedMessage>, bool) {
    assert!(app.key_ok(code));
    let mut quit = false;
    let msgs = app.handle_impl(code, &mut quit);
    (msgs, quit)
}

fn loaded_app(entries: Vec<RelatedArticleEntry>) -> RelatedApp {
    let mut app = RelatedApp::new(a("Main/Origin"));
    let out = RelatedMessageOkOutput::Load { entries };
    assert!(app.can_apply(&out));
    app.apply_message(out);
    app
}

#[test]
fn verdict_filter_matches() {
    assert!(VerdictFilter::Eq(Verdict::Yes).matches(Some(Verdict::Yes)));
    assert!(!VerdictFilter::Eq(Verdict::Yes).matches(Some(Verdict::No)));
    assert!(!VerdictFilter::Eq(Verdict::Yes).matches(None));
    assert!(VerdictFilter::Unset.matches(None));
    assert!(!VerdictFilter::Unset.matches(Some(Verdict::Ignore)));
    assert!(VerdictFilter::All.matches(Some(Verdict::No)));
    assert!(VerdictFilter::All.matches(None));
}

#[test]
fn list_loads_pages_and_filters() {
    let mut l = RelatedArticleList::new();
    assert!(l.never_loaded_any());
    match l.load() {
        RelatedMessage::LoadRelated { group_name, page } => {
            assert_eq!(group_name, None);
            assert_eq!(page, 1);
        }
        _ => panic!(),
    }
    l.loaded(vec![entry("A", Some(Verdict::Yes)), entry("B", None)]);
    assert_eq!(l.len(), 2);
    assert_eq!(l.len_including_virtual(), 3);
    assert!(!l.never_loaded_any());
    l.set_verdict(VerdictFilter::Unset);
    assert_eq!(l.len(), 1);
    assert_eq!(l.iter().len(), 1);
    assert_eq!(l.iter()[0].article_name, a("B"));
    l.loaded(vec![]);
    assert!(l.exhausted());
    assert_eq!(l.len_including_virtual(), 1);
}

#[test]
fn group_change_replaces_entries() {
    let mut l = RelatedArticleList::new();
    l.loaded(vec![entry("A", None)]);
    let film = GroupName::from_str("Film").unwrap();
    match l.set_group_name(Some(film.clone())) {
        RelatedMessage::LoadRelated { group_name, page } => {
            assert_eq!(group_name, Some(film));
            assert_eq!(page, 1);
        }
        _ => panic!(),
    }
    l.loaded(vec![entry("Film/X", None)]);
    assert_eq!(l.len(), 1);
    assert_eq!(l.iter()[0].article_name, a("Film/X"));
}

#[test]
fn keys_move_the_selection_and_wrap() {
    let mut app = loaded_app(vec![entry("A", None), entry("B", None)]);
    press(&mut app, KeyCode::Down);
    assert_eq!(app.list().selected_idx(), Some(0));
    press(&mut app, KeyCode::Down);
    press(&mut app, KeyCode::Down);
    assert_eq!(app.list().selected_idx(), Some(2));
    assert!(app.list().selected_load_more());
    press(&mut app, KeyCode::Down);
    assert_eq!(app.list().selected_idx(), Some(0));
    press(&mut app, KeyCode::Up);
    assert_eq!(app.list().selected_idx(), Some(usize::MAX));
}

#[test]
fn enter_loads_more_or_details() {
    let mut app = loaded_app(vec![entry("A", None)]);
    press(&mut app, KeyCode::Down);
    let (msgs, _) = press(&mut app, KeyCode::Enter);
    assert!(matches!(&msgs[..], [RelatedMessage::LoadArticleInfo { article_name }] if *article_name == a("A")));
    press(&mut app, KeyCode::Down);
    let (msgs, _) = press(&mut app, KeyCode::Enter);
    assert!(matches!(&msgs[..], [RelatedMessage::LoadRelated { group_name: None, page: 2 }]));
}

#[test]
fn quitting() {
    let mut app = loaded_app(vec![]);
    let (_, quit) = press(&mut app, KeyCode::Char('q'));
    assert!(quit);
    let (_, quit) = press(&mut app, KeyCode::Esc);
    assert!(quit);
    let (_, quit) = press(&mut app, KeyCode::Char('x'));
    assert!(!quit);
}

#[test]
fn set_verdict_dialog() {
    let mut app = loaded_app(vec![entry("A", None)]);
    press(&mut app, KeyCode::Down);
    press(&mut app, KeyCode::Char('w'));
    assert!(matches!(app.modal(), Some(RelatedModal::SetVerdict { .. })));
    let (_, quit) = press(&mut app, KeyCode::Char('q'));
    assert!(!quit);
    let (msgs, _) = press(&mut app, KeyCode::Char('2'));
    assert!(app.modal().is_none());
    assert!(matches!(
        &msgs[..],
        [RelatedMessage::SetVerdict { article_name, verdict: Some(Verdict::No) }] if *article_name == a("A")
    ));
    assert_eq!(app.list().selected().unwrap().verdict, Some(Verdict::No));
}

#[test]
fn filter_verdict_dialog() {
    let mut app = loaded_app(vec![entry("A", Some(Verdict::Yes)), entry("B", None)]);
    press(&mut app, KeyCode::Char('f'));
    press(&mut app, KeyCode::Char('1'));
    assert!(app.modal().is_none());
    assert_eq!(app.list().verdict(), VerdictFilter::Eq(Verdict::Yes));
    assert_eq!(app.list().len(), 1);
}

#[test]
fn filter_group_dialog() {
    let mut app = loaded_app(vec![entry("A", None)]);
    press(&mut app, KeyCode::Char('g'));
    for c in "Filmx".chars() {
        press(&mut app, KeyCode::Char(c));
    }
    press(&mut app, KeyCode::Backspace);
    let (msgs, _) = press(&mut app, KeyCode::Enter);
    assert!(app.modal().is_none());
    let film = GroupName::from_str("Film").unwrap();
    assert!(matches!(
        &msgs[..],
        [RelatedMessage::LoadRelated { group_name: Some(g), page: 1 }] if *g == film
    ));
    press(&mut app, KeyCode::Char('g'));
    let (msgs, _) = press(&mut app, KeyCode::Esc);
    assert!(msgs.is_empty());
    assert!(app.modal().is_none());
}

#[test]
fn page_keys_move_by_the_shown_height() {
    let entries = (0..10).map(|i| entry(&format!("A{i}"), None)).collect();
    let mut app = loaded_app(entries);
    app.set_list_block_inner_height(Some(4));
    press(&mut app, KeyCode::PageDown);
    assert_eq!(app.list().selected_idx(), Some(4));
    press(&mut app, KeyCode::PageDown);
    press(&mut app, KeyCode::PageDown);
    assert_eq!(app.list().selected_idx(), Some(10));
    press(&mut app, KeyCode::PageUp);
    assert_eq!(app.list().selected_idx(), Some(6));
}

#[test]
fn related_entries_take_last_stored_verdict() {
    let names = vec![a("A"), a("Film/B")];
    let rows = vec![
        ArticleVerdict { name: "Main/A".to_string(), verdict: Verdict::Yes },
        ArticleVerdict { name: "A".to_string(), verdict: Verdict::No },
    ];
    let entries = related_entries(&names, &rows).unwrap();
    assert_eq!(entries.len(), 2);
    assert_eq!(entries[0].verdict, Some(Verdict::No));
    assert_eq!(entries[1].verdict, None);
    let bad = vec![ArticleVerdict { name: "/x".to_string(), verdict: Verdict::Yes }];
    assert!(matches!(related_entries(&names, &bad), Err(NameError::EmptyGroup)));
}

#[test]
fn loader_requests_and_takes_pages() {
    let mut l = RelatedLoader::new();
    assert_eq!(l.on_start(), (None, 1));
    assert_eq!(l.request(false), Some((None, 1)));
    assert_eq!(l.request(true), None);
    let page = vec![entry("A", None)];
    assert!(l.can_take(&page));
    l.take_output(page);
    assert_eq!(l.entries().len(), 1);
    assert_eq!(l.request(false), None);
    let film = GroupName::from_str("Film").unwrap();
    assert_eq!(l.set_filter_group(Some(film.clone())), (Some(film.clone()), 1));
    assert_eq!(l.tick(false, Some(vec![entry("Film/B", None)])), None);
    assert_eq!(l.entries().len(), 1);
    assert_eq!(l.entries()[0].article_name, a("Film/B"));
    l.take_output(vec![]);
    assert_eq!(l.filter_group(), Some(&film));
}

#[test]
fn all_filter_shows_everything() {
    let mut l = RelatedArticleList::new();
    l.loaded(vec![entry("A", Some(Verdict::Yes)), entry("B", None), entry("C", Some(Verdict::Ignore))]);
    assert_eq!(l.verdict(), VerdictFilter::All);
    let shown: Vec<ArticleName> = l.iter().into_iter().map(|e| e.article_name.clone()).collect();
    assert_eq!(shown, vec![a("A"), a("B"), a("C")]);
}

#[test]
fn empty_page_stops_loading() {
    let mut l = RelatedLoader::new();
    l.take_output(vec![]);
    assert_eq!(l.request(false), None);
}

#[test]
fn dialog_state_as_drawn_decides_enter() {
    let mut app = loaded_app(vec![entry("A", Some(Verdict::Ignore)), entry("B", None)]);
    press(&mut app, KeyCode::Char('f'));
    app.set_modal_list_state(tvgrep::list_state::ListState { offset: 0, selected: Some(2) });
    press(&mut app, KeyCode::Enter);
    assert!(app.modal().is_none());
    assert_eq!(app.list().verdict(), VerdictFilter::Eq(Verdict::Ignore));
    assert_eq!(app.list().len(), 1);
}

#[test]
fn dialog_then_esc_changes_nothing() {
    let mut app = loaded_app(vec![entry("A", None), entry("B", Some(Verdict::Yes))]);
    press(&mut app, KeyCode::Down);
    for c in ['f', 'g', 'w'] {
        let (m1, q1) = press(&mut app, KeyCode::Char(c));
        assert!(app.modal().is_some());
        let (m2, q2) = press(&mut app, KeyCode::Esc);
        assert!(m1.is_empty() && m2.is_empty() && !q1 && !q2);
        assert!(app.modal().is_none());
        assert_eq!(app.list().selected_idx(), Some(0));
        assert_eq!(app.list().verdict(), VerdictFilter::All);
        assert_eq!(app.list().len(), 2);
    }
}

#[test]
fn loaded_after_group_change_replaces_then_appends() {
    let mut l = RelatedArticleList::new();
    l.loaded(vec![entry("A", None), entry("B", None)]);
    let film = GroupName::from_str("Film").unwrap();
    l.set_group_name(Some(film));
    assert_eq!(l.iter().len(), 2);
    assert!(!l.exhausted());
    assert_eq!(l.selected_idx(), None);
    l.loaded(vec![entry("Film/X", None)]);
    assert_eq!(l.len(), 1);
    l.loaded(vec![entry("Film/Y", None)]);
    assert_eq!(l.len(), 2);
    assert_eq!(l.iter()[0].article_name, a("Film/X"));
    assert_eq!(l.iter()[1].article_name, a("Film/Y"));
}
