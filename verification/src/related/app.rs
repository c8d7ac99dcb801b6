//! The related-articles browser: what each key does, and how the results
//! of requests are taken in.

use vstd::prelude::*;
use crate::crawl::article::{ArticleInfo, ArticleSingleTropeBody};
use crate::database::{Verdict, verdict_at};
use crate::list_state::{ListState, ListStateExt, prev_or_last, next_or_first};
use crate::name::{ArticleName, GroupName};
use crate::text::push_char;
use super::article::{RelatedArticleInfo, RelatedArticleInfoTab};
use super::list::{RelatedArticleEntry, RelatedArticleList, RelatedListView, VerdictFilter};
use super::message::RelatedMessage;

verus! {

broadcast use vstd::string::group_string_axioms;

/// A key press, as far as the browser tells keys apart.
#[derive(Debug, Clone, Copy, PartialEq, Eq, Structural)]
pub enum KeyCode {
    Up,
    Down,
    Left,
    Right,
    Home,
    End,
    PageUp,
    PageDown,
    Enter,
    Esc,
    Backspace,
    Char(char),
    Other,
}

/// A dialog over the list.
#[derive(Debug)]
pub enum RelatedModal {
    /// Choose the verdict on an article: the three verdicts, then "unset".
    SetVerdict { article_name: ArticleName, list_state: ListState },
    /// Choose which entries to show: the three verdicts, "unset", "all".
    FilterVerdict { list_state: ListState },
    /// Type the group to search in; empty for all groups.
    FilterGroup { buffer: String },
}

/// What a dialog holds.
pub ghost enum ModalView {
    SetVerdict { article_name: ArticleName, list_state: ListState },
    FilterVerdict { list_state: ListState },
    FilterGroup { buffer: Seq<char> },
}

pub open spec fn modal_view(m: Option<RelatedModal>) -> Option<ModalView> {
    match m {
        Some(RelatedModal::SetVerdict { article_name, list_state }) => Some(
            ModalView::SetVerdict { article_name, list_state },
        ),
        Some(RelatedModal::FilterVerdict { list_state }) => Some(
            ModalView::FilterVerdict { list_state },
        ),
        Some(RelatedModal::FilterGroup { buffer }) => Some(ModalView::FilterGroup { buffer: buffer@ }),
        None => None,
    }
}

/// What the reply to a request brings back.
pub enum RelatedMessageOkOutput {
    /// A loaded page of related articles.
    Load { entries: Vec<RelatedArticleEntry> },
    /// The details of an article.
    ArticleInfo { info: ArticleInfo<ArticleSingleTropeBody> },
    /// Nothing.
    Void,
}

/// Whether taking in `output` stays within the machine's limits: a page that
/// replaces the entries needs room for itself; one that is appended needs
/// room beside them and a next page number.
pub open spec fn apply_ok(v: RelatedAppView, output: RelatedMessageOkOutput) -> bool {
    match output {
        RelatedMessageOkOutput::Load { entries } => if v.list.needs_reload {
            entries@.len() < usize::MAX
        } else {
            v.list.entries.len() + entries@.len() < usize::MAX && v.list.page < u8::MAX
        },
        _ => true,
    }
}

/// The browser after taking in `output`: a page goes into the list, details
/// are shown on their first tab.
pub open spec fn applied(v: RelatedAppView, output: RelatedMessageOkOutput, w: RelatedAppView) -> bool {
    match output {
        RelatedMessageOkOutput::Load { entries } => w == RelatedAppView {
            list: v.list.with_loaded(entries@),
            ..v
        },
        RelatedMessageOkOutput::ArticleInfo { info } => {
            &&& w.article_name == v.article_name
            &&& w.list == v.list
            &&& w.modal == v.modal
            &&& w.list_block_inner_height == v.list_block_inner_height
            &&& w.article_info matches Some(a) && a.info() == info && a.shown_tab()
                == RelatedArticleInfoTab::Summary
        },
        RelatedMessageOkOutput::Void => w == v,
    }
}

/// The browser's state.
pub struct RelatedApp {
    article_name: ArticleName,
    list: RelatedArticleList,
    modal: Option<RelatedModal>,
    article_info: Option<RelatedArticleInfo>,
    list_block_inner_height: Option<usize>,
}

/// What the browser holds.
pub ghost struct RelatedAppView {
    pub article_name: ArticleName,
    pub list: RelatedListView,
    pub modal: Option<ModalView>,
    pub article_info: Option<RelatedArticleInfo>,
    pub list_block_inner_height: Option<usize>,
}

impl View for RelatedApp {
    type V = RelatedAppView;

    closed spec fn view(&self) -> RelatedAppView {
        RelatedAppView {
            article_name: self.article_name,
            list: self.list@,
            modal: modal_view(self.modal),
            article_info: self.article_info,
            list_block_inner_height: self.list_block_inner_height,
        }
    }
}

/// The request for the details of the selected entry, if one is selected.
pub open spec fn info_request(l: RelatedListView) -> Seq<RelatedMessage> {
    match l.selected_entry() {
        Some(e) => seq![RelatedMessage::LoadArticleInfo { article_name: e.article_name }],
        None => Seq::empty(),
    }
}

/// Whether a key makes the browser quit.
pub open spec fn quits(v: RelatedAppView, code: KeyCode) -> bool {
    v.modal is None && match code {
        KeyCode::Esc => v.article_info is None,
        KeyCode::Char(c) => c == 'q',
        _ => false,
    }
}

/// Whether handling the key stays within the machine's limits: moving down
/// needs a line to move to, and moving a page down a selection that a page
/// more does not overflow.
pub open spec fn key_ok(v: RelatedAppView, code: KeyCode) -> bool {
    v.modal is None ==> match code {
        KeyCode::Down | KeyCode::Right => v.list.state.selected is Some
            ==> v.list.len_including_virtual() > 0,
        KeyCode::PageDown => match v.list_block_inner_height {
            Some(skip) => v.list.len_including_virtual() > 0 && match v.list.state.selected {
                Some(i) => i + skip <= usize::MAX,
                None => skip <= usize::MAX,
            },
            None => true,
        },
        _ => true,
    }
}

/// A key without a dialog.
pub open spec fn main_step(
    v: RelatedAppView,
    code: KeyCode,
    w: RelatedAppView,
    msgs: Seq<RelatedMessage>,
) -> bool {
    let l = v.list;
    match code {
        KeyCode::Up => w == RelatedAppView { list: l.prev_or_last(), ..v } && msgs.len() == 0,
        KeyCode::Down => w == RelatedAppView { list: l.next_or_first(), ..v } && msgs.len() == 0,
        KeyCode::Left => w == RelatedAppView { list: l.prev_or_last(), ..v } && msgs == if v.article_info
            is Some {
            info_request(l.prev_or_last())
        } else {
            Seq::empty()
        },
        KeyCode::Right => w == RelatedAppView { list: l.next_or_first(), ..v } && msgs == if v.article_info
            is Some {
            info_request(l.next_or_first())
        } else {
            Seq::empty()
        },
        KeyCode::Home => w == RelatedAppView { list: l.with_selection(Some(0usize)), ..v } && msgs.len()
            == 0,
        KeyCode::End => w == RelatedAppView { list: l.with_selection(Some(usize::MAX)), ..v }
            && msgs.len() == 0,
        KeyCode::PageUp => msgs.len() == 0 && match v.list_block_inner_height {
            Some(skip) => w == RelatedAppView {
                list: l.with_selection(
                    Some(
                        match l.state.selected {
                            Some(i) => if i >= skip {
                                (i - skip) as usize
                            } else {
                                0usize
                            },
                            None => 0usize,
                        },
                    ),
                ),
                ..v
            },
            None => w == v,
        },
        KeyCode::PageDown => msgs.len() == 0 && match v.list_block_inner_height {
            Some(skip) => {
                let target = match l.state.selected {
                    Some(i) => i + skip,
                    None => skip as int,
                };
                let last = l.len_including_virtual() - 1;
                w == RelatedAppView {
                    list: l.with_selection(
                        Some(
                            if target < last {
                                target as usize
                            } else {
                                last as usize
                            },
                        ),
                    ),
                    ..v
                }
            },
            None => w == v,
        },
        KeyCode::Enter => w == v && msgs == if l.load_more_selected() {
            seq![l.load_request()]
        } else {
            info_request(l)
        },
        KeyCode::Esc => msgs.len() == 0 && w == if v.article_info is Some {
            RelatedAppView { article_info: None, ..v }
        } else {
            v
        },
        KeyCode::Char(c) => (if c == 'o' {
            match v.article_info {
                Some(info) => msgs.len() == 1 && (msgs[0] matches RelatedMessage::OpenUrlInBrowser {
                    url,
                } && url@ == info.info().url@),
                None => msgs.len() == 0,
            }
        } else {
            msgs.len() == 0
        }) && w == if c == 'g' {
            RelatedAppView {
                modal: Some(
                    ModalView::FilterGroup {
                        buffer: match l.group_name {
                            Some(g) => g@,
                            None => Seq::empty(),
                        },
                    },
                ),
                ..v
            }
        } else if c == 'f' {
            RelatedAppView {
                modal: Some(
                    ModalView::FilterVerdict { list_state: ListState { offset: 0, selected: None } },
                ),
                ..v
            }
        } else if c == 'w' {
            match l.selected_entry() {
                Some(e) => RelatedAppView {
                    modal: Some(
                        ModalView::SetVerdict {
                            article_name: e.article_name,
                            list_state: ListState { offset: 0, selected: None },
                        },
                    ),
                    ..v
                },
                None => v,
            }
        } else {
            v
        },
        _ => w == v && msgs.len() == 0,
    }
}

/// Closes the dialog after setting the verdict of the selected entry to
/// `verdict` and asking to store it for the dialog's article.
pub open spec fn verdict_set(
    v: RelatedAppView,
    article_name: ArticleName,
    verdict: Option<Verdict>,
    w: RelatedAppView,
    msgs: Seq<RelatedMessage>,
) -> bool {
    &&& w == RelatedAppView { list: v.list.with_selected_verdict(verdict), modal: None, ..v }
    &&& msgs == seq![RelatedMessage::SetVerdict { article_name, verdict }]
}

/// A key in the dialog that sets a verdict.
pub open spec fn set_verdict_step(
    v: RelatedAppView,
    article_name: ArticleName,
    list_state: ListState,
    code: KeyCode,
    w: RelatedAppView,
    msgs: Seq<RelatedMessage>,
) -> bool {
    match code {
        KeyCode::Up => msgs.len() == 0 && w == RelatedAppView {
            modal: Some(ModalView::SetVerdict { article_name, list_state: prev_or_last(list_state) }),
            ..v
        },
        KeyCode::Down => msgs.len() == 0 && w == RelatedAppView {
            modal: Some(
                ModalView::SetVerdict { article_name, list_state: next_or_first(list_state, 4) },
            ),
            ..v
        },
        KeyCode::Esc => msgs.len() == 0 && w == RelatedAppView { modal: None, ..v },
        KeyCode::Enter => match list_state.selected {
            Some(s) => verdict_set(v, article_name, verdict_at(s as int), w, msgs),
            None => msgs.len() == 0 && w == v,
        },
        KeyCode::Char(c) => if c == '1' {
            verdict_set(v, article_name, Some(Verdict::Yes), w, msgs)
        } else if c == '2' {
            verdict_set(v, article_name, Some(Verdict::No), w, msgs)
        } else if c == '3' {
            verdict_set(v, article_name, Some(Verdict::Ignore), w, msgs)
        } else if c == '4' {
            verdict_set(v, article_name, None, w, msgs)
        } else {
            msgs.len() == 0 && w == v
        },
        _ => msgs.len() == 0 && w == v,
    }
}

/// The filter at a position of the filter dialog: the three verdicts,
/// "unset", then "all".
pub open spec fn filter_at(s: int) -> VerdictFilter {
    if 0 <= s < 3 {
        VerdictFilter::Eq(verdict_at(s)->0)
    } else if s == 3 {
        VerdictFilter::Unset
    } else {
        VerdictFilter::All
    }
}

/// Closes the dialog after changing the filter.
pub open spec fn filter_set(
    v: RelatedAppView,
    f: VerdictFilter,
    w: RelatedAppView,
    msgs: Seq<RelatedMessage>,
) -> bool {
    w == RelatedAppView { list: v.list.with_verdict_filter(f), modal: None, ..v } && msgs.len() == 0
}

/// A key in the dialog that chooses the verdict filter.
pub open spec fn filter_verdict_step(
    v: RelatedAppView,
    list_state: ListState,
    code: KeyCode,
    w: RelatedAppView,
    msgs: Seq<RelatedMessage>,
) -> bool {
    match code {
        KeyCode::Up => msgs.len() == 0 && w == RelatedAppView {
            modal: Some(ModalView::FilterVerdict { list_state: prev_or_last(list_state) }),
            ..v
        },
        KeyCode::Down => msgs.len() == 0 && w == RelatedAppView {
            modal: Some(ModalView::FilterVerdict { list_state: next_or_first(list_state, 5) }),
            ..v
        },
        KeyCode::Esc => msgs.len() == 0 && w == RelatedAppView { modal: None, ..v },
        KeyCode::Enter => match list_state.selected {
            Some(s) => filter_set(v, filter_at(s as int), w, msgs),
            None => msgs.len() == 0 && w == v,
        },
        KeyCode::Char(c) => if c == '1' {
            filter_set(v, VerdictFilter::Eq(Verdict::Yes), w, msgs)
        } else if c == '2' {
            filter_set(v, VerdictFilter::Eq(Verdict::No), w, msgs)
        } else if c == '3' {
            filter_set(v, VerdictFilter::Eq(Verdict::Ignore), w, msgs)
        } else if c == '4' {
            filter_set(v, VerdictFilter::Unset, w, msgs)
        } else if c == '5' {
            filter_set(v, VerdictFilter::All, w, msgs)
        } else {
            msgs.len() == 0 && w == v
        },
        _ => msgs.len() == 0 && w == v,
    }
}

/// A key in the dialog where the group is typed.
pub open spec fn filter_group_step(
    v: RelatedAppView,
    buffer: Seq<char>,
    code: KeyCode,
    w: RelatedAppView,
    msgs: Seq<RelatedMessage>,
) -> bool {
    match code {
        KeyCode::Backspace => msgs.len() == 0 && w == RelatedAppView {
            modal: Some(
                ModalView::FilterGroup {
                    buffer: if buffer.len() > 0 {
                        buffer.drop_last()
                    } else {
                        buffer
                    },
                },
            ),
            ..v
        },
        KeyCode::Char(c) => msgs.len() == 0 && w == RelatedAppView {
            modal: Some(ModalView::FilterGroup { buffer: buffer.push(c) }),
            ..v
        },
        KeyCode::Esc => msgs.len() == 0 && w == RelatedAppView { modal: None, ..v },
        KeyCode::Enter => {
            &&& w == RelatedAppView {
                list: v.list.with_group(w.list.group_name),
                modal: None,
                ..v
            }
            &&& buffer.len() == 0 ==> w.list.group_name is None
            &&& buffer.len() > 0 ==> (w.list.group_name matches Some(g) && g@ == buffer)
            &&& msgs == seq![w.list.load_request()]
        },
        _ => msgs.len() == 0 && w == v,
    }
}

/// What a key does.
pub open spec fn step(
    v: RelatedAppView,
    code: KeyCode,
    w: RelatedAppView,
    msgs: Seq<RelatedMessage>,
) -> bool {
    match v.modal {
        Some(ModalView::SetVerdict { article_name, list_state }) => set_verdict_step(
            v,
            article_name,
            list_state,
            code,
            w,
            msgs,
        ),
        Some(ModalView::FilterVerdict { list_state }) => filter_verdict_step(
            v,
            list_state,
            code,
            w,
            msgs,
        ),
        Some(ModalView::FilterGroup { buffer }) => filter_group_step(v, buffer, code, w, msgs),
        None => main_step(v, code, w, msgs),
    }
}

/// Opening a dialog and leaving it with Esc gives the browser back as it
/// was, asks for nothing, and never quits.
pub proof fn lemma_dialog_esc_undoes(
    v: RelatedAppView,
    c: char,
    w1: RelatedAppView,
    m1: Seq<RelatedMessage>,
    w2: RelatedAppView,
    m2: Seq<RelatedMessage>,
)
    requires
        v.modal is None,
        c == 'f' || c == 'g' || c == 'w',
        step(v, KeyCode::Char(c), w1, m1),
        w1.modal is Some,
        step(w1, KeyCode::Esc, w2, m2),
    ensures
        w2 == v,
        m1.len() == 0,
        m2.len() == 0,
        !quits(w1, KeyCode::Esc),
{
}

/// Removes the last character of a string (`String::pop`).
#[verifier::external_body]
fn pop_char(s: &mut String) -> (r: Option<char>)
    ensures
        old(s)@.len() == 0 ==> r is None && final(s)@ == old(s)@,
        old(s)@.len() > 0 ==> r == Some(old(s)@.last()) && final(s)@ == old(s)@.drop_last(),
{
    s.pop()
}

impl RelatedApp {
    /// A browser of the articles related to `article_name`, with nothing
    /// loaded, no dialog and no details shown.
    pub fn new(article_name: ArticleName) -> (r: RelatedApp)
        ensures
            r@.article_name == article_name,
            r@.list == RelatedArticleList::new_view(),
            r@.modal is None,
            r@.article_info is None,
            r@.list_block_inner_height is None,
            r@.list.wf(),
    {
        RelatedApp {
            article_name,
            list: RelatedArticleList::new(),
            modal: None,
            article_info: None,
            list_block_inner_height: None,
        }
    }

    /// Whether `code` can be handled within the machine's limits.
    pub fn key_ok(&self, code: KeyCode) -> (r: bool)
        requires
            self@.list.wf(),
        ensures
            r == key_ok(self@, code),
    {
        if self.modal.is_some() {
            return true;
        }
        match code {
            KeyCode::Down | KeyCode::Right => match self.list.selected_idx() {
                Some(_) => self.list.len_including_virtual() > 0,
                None => true,
            },
            KeyCode::PageDown => match self.list_block_inner_height {
                Some(skip) => {
                    let idx = match self.list.selected_idx() {
                        Some(i) => i,
                        None => 0,
                    };
                    self.list.len_including_virtual() > 0 && idx <= usize::MAX - skip
                },
                None => true,
            },
            _ => true,
        }
    }

    /// The request that starts loading: the first page.
    pub fn on_start(&self) -> (r: RelatedMessage)
        ensures
            r == self@.list.load_request(),
    {
        self.list.load()
    }

    /// Whether `output` can be taken in within the machine's limits.
    pub fn can_apply(&self, output: &RelatedMessageOkOutput) -> (r: bool)
        requires
            self@.list.wf(),
        ensures
            r == apply_ok(self@, *output),
    {
        match output {
            RelatedMessageOkOutput::Load { entries } => {
                let more = entries.len();
                if self.list.needs_reload() {
                    more < usize::MAX
                } else {
                    more < usize::MAX - self.list.entries_len() && self.list.page() < u8::MAX
                }
            },
            _ => true,
        }
    }

    /// Takes in the reply to a request.
    pub fn apply_message(&mut self, output: RelatedMessageOkOutput)
        requires
            old(self)@.list.wf(),
            apply_ok(old(self)@, output),
        ensures
            applied(old(self)@, output, final(self)@),
            final(self)@.list.wf(),
    {
        match output {
            RelatedMessageOkOutput::Load { entries } => {
                self.list.loaded(entries);
            },
            RelatedMessageOkOutput::ArticleInfo { info } => {
                self.article_info = Some(RelatedArticleInfo::new(info));
            },
            RelatedMessageOkOutput::Void => {},
        }
    }

    /// The article whose related articles are browsed.
    pub fn article_name(&self) -> (r: &ArticleName)
        ensures
            *r == self@.article_name,
    {
        &self.article_name
    }

    /// The list of related articles.
    pub fn list(&self) -> (r: &RelatedArticleList)
        ensures
            r@ == self@.list,
    {
        &self.list
    }

    /// The open dialog.
    pub fn modal(&self) -> (r: Option<&RelatedModal>)
        ensures
            r matches Some(m) ==> self@.modal == modal_view(Some(*m)),
            r is None ==> self@.modal is None,
    {
        match &self.modal {
            Some(m) => Some(m),
            None => None,
        }
    }

    /// The shown details of an article.
    pub fn article_info(&self) -> (r: Option<&RelatedArticleInfo>)
        ensures
            r matches Some(a) ==> self@.article_info == Some(*a),
            r is None ==> self@.article_info is None,
    {
        match &self.article_info {
            Some(a) => Some(a),
            None => None,
        }
    }

    /// The selection state of the list, for drawing.
    pub fn list_state(&mut self) -> (r: &mut ListState)
        ensures
            *r == old(self)@.list.state,
            final(self)@ == (RelatedAppView {
                list: old(self)@.list.with_state(*final(r)),
                ..old(self)@
            }),
    {
        self.list.state()
    }

    /// Records the state of the dialog's list as drawn; a dialog without a
    /// list is left as it is.
    pub fn set_modal_list_state(&mut self, state: ListState)
        ensures
            final(self)@ == (RelatedAppView {
                modal: match old(self)@.modal {
                    Some(ModalView::SetVerdict { article_name, list_state: _ }) => Some(
                        ModalView::SetVerdict { article_name, list_state: state },
                    ),
                    Some(ModalView::FilterVerdict { list_state: _ }) => Some(
                        ModalView::FilterVerdict { list_state: state },
                    ),
                    m => m,
                },
                ..old(self)@
            }),
    {
        let mut modal: Option<RelatedModal> = None;
        std::mem::swap(&mut modal, &mut self.modal);
        self.modal = match modal {
            Some(RelatedModal::SetVerdict { article_name, list_state: _ }) => Some(
                RelatedModal::SetVerdict { article_name, list_state: state },
            ),
            Some(RelatedModal::FilterVerdict { list_state: _ }) => Some(
                RelatedModal::FilterVerdict { list_state: state },
            ),
            other => other,
        };
    }

    /// Records how many lines the list shows at once; moving by pages moves
    /// by that many.
    pub fn set_list_block_inner_height(&mut self, height: Option<usize>)
        ensures
            final(self)@ == (RelatedAppView { list_block_inner_height: height, ..old(self)@ }),
    {
        self.list_block_inner_height = height;
    }

    /// Handles a key; returns the requests it makes.
    pub fn handle_impl(&mut self, code: KeyCode, quit: &mut bool) -> (r: Vec<RelatedMessage>)
        requires
            old(self)@.list.wf(),
            key_ok(old(self)@, code),
        ensures
            step(old(self)@, code, final(self)@, r@),
            *final(quit) == (*old(quit) || quits(old(self)@, code)),
            final(self)@.list.wf(),
            final(self)@.article_name == old(self)@.article_name,
    {
        let mut modal: Option<RelatedModal> = None;
        std::mem::swap(&mut modal, &mut self.modal);
        match modal {
            Some(RelatedModal::SetVerdict { article_name, list_state }) => {
                self.handle_set_verdict(article_name, list_state, code)
            },
            Some(RelatedModal::FilterVerdict { list_state }) => {
                self.handle_filter_verdict(list_state, code)
            },
            Some(RelatedModal::FilterGroup { buffer }) => self.handle_filter_group(buffer, code),
            None => self.handle_main(code, quit),
        }
    }

    fn set_verdict(&mut self, article_name: ArticleName, verdict: Option<Verdict>) -> (r: Vec<
        RelatedMessage,
    >)
        requires
            old(self).modal is None,
            old(self)@.list.wf(),
        ensures
            final(self)@ == (RelatedAppView {
                list: old(self)@.list.with_selected_verdict(verdict),
                ..old(self)@
            }),
            r@ == seq![RelatedMessage::SetVerdict { article_name, verdict }],
            final(self)@.list.wf(),
    {
        self.list.set_selected_verdict(verdict);
        vec![RelatedMessage::SetVerdict { article_name, verdict }]
    }

    fn handle_set_verdict(&mut self, article_name: ArticleName, list_state: ListState, code: KeyCode) -> (r: Vec<
        RelatedMessage,
    >)
        requires
            old(self).modal is None,
            old(self)@.list.wf(),
        ensures
            set_verdict_step(
                RelatedAppView {
                    modal: Some(ModalView::SetVerdict { article_name, list_state }),
                    ..old(self)@
                },
                article_name,
                list_state,
                code,
                final(self)@,
                r@,
            ),
            final(self)@.list.wf(),
    {
        let mut list_state = list_state;
        match code {
            KeyCode::Up => {
                list_state.select_prev_or_last();
                self.modal = Some(RelatedModal::SetVerdict { article_name, list_state });
                Vec::new()
            },
            KeyCode::Down => {
                list_state.select_next_or_first(Verdict::VARIANT_COUNT + 1);
                self.modal = Some(RelatedModal::SetVerdict { article_name, list_state });
                Vec::new()
            },
            KeyCode::Esc => Vec::new(),
            KeyCode::Enter => match list_state.selected() {
                Some(selected) => self.set_verdict(article_name, Verdict::from_index(selected)),
                None => {
                    self.modal = Some(RelatedModal::SetVerdict { article_name, list_state });
                    Vec::new()
                },
            },
            KeyCode::Char(c) => {
                if c == '1' {
                    self.set_verdict(article_name, Some(Verdict::Yes))
                } else if c == '2' {
                    self.set_verdict(article_name, Some(Verdict::No))
                } else if c == '3' {
                    self.set_verdict(article_name, Some(Verdict::Ignore))
                } else if c == '4' {
                    self.set_verdict(article_name, None)
                } else {
                    self.modal = Some(RelatedModal::SetVerdict { article_name, list_state });
                    Vec::new()
                }
            },
            _ => {
                self.modal = Some(RelatedModal::SetVerdict { article_name, list_state });
                Vec::new()
            },
        }
    }

    fn handle_filter_verdict(&mut self, list_state: ListState, code: KeyCode) -> (r: Vec<
        RelatedMessage,
    >)
        requires
            old(self).modal is None,
            old(self)@.list.wf(),
        ensures
            filter_verdict_step(
                RelatedAppView {
                    modal: Some(ModalView::FilterVerdict { list_state }),
                    ..old(self)@
                },
                list_state,
                code,
                final(self)@,
                r@,
            ),
            final(self)@.list.wf(),
    {
        let mut list_state = list_state;
        match code {
            KeyCode::Up => {
                list_state.select_prev_or_last();
                self.modal = Some(RelatedModal::FilterVerdict { list_state });
            },
            KeyCode::Down => {
                list_state.select_next_or_first(Verdict::VARIANT_COUNT + 2);
                self.modal = Some(RelatedModal::FilterVerdict { list_state });
            },
            KeyCode::Esc => {},
            KeyCode::Enter => match list_state.selected() {
                Some(selected) => {
                    let filter = if selected < Verdict::VARIANT_COUNT {
                        match Verdict::from_index(selected) {
                            Some(v) => VerdictFilter::Eq(v),
                            None => VerdictFilter::All,
                        }
                    } else if selected == Verdict::VARIANT_COUNT {
                        VerdictFilter::Unset
                    } else {
                        VerdictFilter::All
                    };
                    self.list.set_verdict(filter);
                },
                None => {
                    self.modal = Some(RelatedModal::FilterVerdict { list_state });
                },
            },
            KeyCode::Char(c) => {
                if c == '1' {
                    self.list.set_verdict(VerdictFilter::Eq(Verdict::Yes));
                } else if c == '2' {
                    self.list.set_verdict(VerdictFilter::Eq(Verdict::No));
                } else if c == '3' {
                    self.list.set_verdict(VerdictFilter::Eq(Verdict::Ignore));
                } else if c == '4' {
                    self.list.set_verdict(VerdictFilter::Unset);
                } else if c == '5' {
                    self.list.set_verdict(VerdictFilter::All);
                } else {
                    self.modal = Some(RelatedModal::FilterVerdict { list_state });
                }
            },
            _ => {
                self.modal = Some(RelatedModal::FilterVerdict { list_state });
            },
        }
        Vec::new()
    }

    fn handle_filter_group(&mut self, buffer: String, code: KeyCode) -> (r: Vec<RelatedMessage>)
        requires
            old(self).modal is None,
            old(self)@.list.wf(),
        ensures
            filter_group_step(
                RelatedAppView {
                    modal: Some(ModalView::FilterGroup { buffer: buffer@ }),
                    ..old(self)@
                },
                buffer@,
                code,
                final(self)@,
                r@,
            ),
            final(self)@.list.wf(),
    {
        let mut buffer = buffer;
        match code {
            KeyCode::Backspace => {
                let _ = pop_char(&mut buffer);
                self.modal = Some(RelatedModal::FilterGroup { buffer });
                Vec::new()
            },
            KeyCode::Char(c) => {
                push_char(&mut buffer, c);
                self.modal = Some(RelatedModal::FilterGroup { buffer });
                Vec::new()
            },
            KeyCode::Esc => Vec::new(),
            KeyCode::Enter => {
                let group = match GroupName::from_str(buffer.as_str()) {
                    Ok(g) => Some(g),
                    Err(_) => None,
                };
                let message = self.list.set_group_name(group);
                let mut out: Vec<RelatedMessage> = Vec::new();
                out.push(message);
                assert(out@ =~= seq![self@.list.load_request()]);
                out
            },
            _ => {
                self.modal = Some(RelatedModal::FilterGroup { buffer });
                Vec::new()
            },
        }
    }

    /// The request for the details of the selected entry.
    fn article_info_request(&self) -> (r: Vec<RelatedMessage>)
        ensures
            r@ == info_request(self@.list),
    {
        match self.list.selected() {
            Some(entry) => vec![RelatedMessage::LoadArticleInfo { article_name: entry.article_name.clone() }],
            None => Vec::new(),
        }
    }

    fn handle_main(&mut self, code: KeyCode, quit: &mut bool) -> (r: Vec<RelatedMessage>)
        requires
            old(self).modal is None,
            old(self)@.list.wf(),
            key_ok(old(self)@, code),
        ensures
            main_step(old(self)@, code, final(self)@, r@),
            *final(quit) == (*old(quit) || quits(old(self)@, code)),
            final(self)@.list.wf(),
    {
        match code {
            KeyCode::Up => {
                self.list.select_prev_or_last();
                Vec::new()
            },
            KeyCode::Down => {
                self.list.select_next_or_first();
                Vec::new()
            },
            KeyCode::Left => {
                self.list.select_prev_or_last();
                if self.article_info.is_some() {
                    self.article_info_request()
                } else {
                    Vec::new()
                }
            },
            KeyCode::Right => {
                self.list.select_next_or_first();
                if self.article_info.is_some() {
                    self.article_info_request()
                } else {
                    Vec::new()
                }
            },
            KeyCode::Home => {
                self.list.select_first();
                Vec::new()
            },
            KeyCode::End => {
                self.list.select_last();
                Vec::new()
            },
            KeyCode::PageUp => {
                if let Some(skip) = self.list_block_inner_height {
                    let new_idx = match self.list.selected_idx() {
                        Some(i) => i.saturating_sub(skip),
                        None => 0,
                    };
                    self.list.state().select(Some(new_idx));
                }
                Vec::new()
            },
            KeyCode::PageDown => {
                if let Some(skip) = self.list_block_inner_height {
                    let max = self.list.len_including_virtual() - 1;
                    let idx = match self.list.selected_idx() {
                        Some(i) => i,
                        None => 0,
                    };
                    let target = idx + skip;
                    let new_idx = if target < max {
                        target
                    } else {
                        max
                    };
                    self.list.state().select(Some(new_idx));
                }
                Vec::new()
            },
            KeyCode::Enter => {
                if self.list.selected_load_more() {
                    let request = self.list.load();
                    let r = vec![request];
                    assert(r@ == seq![request]);
                    r
                } else {
                    self.article_info_request()
                }
            },
            KeyCode::Esc => {
                if self.article_info.is_some() {
                    self.article_info = None;
                } else {
                    *quit = true;
                }
                Vec::new()
            },
            KeyCode::Char(c) => {
                if c == 'g' {
                    let buffer = match self.list.group_name() {
                        Some(g) => g.to_string(),
                        None => String::new(),
                    };
                    self.modal = Some(RelatedModal::FilterGroup { buffer });
                    Vec::new()
                } else if c == 'f' {
                    self.modal = Some(RelatedModal::FilterVerdict { list_state: ListState::new() });
                    Vec::new()
                } else if c == 'w' {
                    match self.list.selected() {
                        Some(entry) => {
                            let article_name = entry.article_name.clone();
                            self.modal = Some(
                                RelatedModal::SetVerdict { article_name, list_state: ListState::new() },
                            );
                        },
                        None => {},
                    }
                    Vec::new()
                } else if c == 'o' {
                    match &self.article_info {
                        Some(info) => vec![RelatedMessage::OpenUrlInBrowser { url: info.url().clone() }],
                        None => Vec::new(),
                    }
                } else {
                    if c == 'q' {
                        *quit = true;
                    }
                    Vec::new()
                }
            },
            _ => Vec::new(),
        }
    }
}

} // verus!
