//! A parsed page, walked node by node in document order, and the reading of
//! the elements that the crawls look at: which elements a selector picks,
//! in the order in which the parser made them, the nodes inside an element,
//! its texts, its ancestors and attributes.

use vstd::prelude::*;
use ego_tree::NodeId;
use ego_tree::iter::Edge;
use scraper::{Html, Node, Selector};
use crate::text::{push_str, str_eq};
use super::texts;
use super::article::{
    ArticlePage, ArticlePageView, ListItemLink, ListItemLinkView, SummaryChild, SummaryChildView,
    TitleElement, TitleView, TropeLink, TropeLinkView,
};
use super::concat_all;
use super::trope::TropeListLink;

verus! {

#[verifier::external_type_specification]
#[verifier::external_body]
pub struct ExHtml(Html);

#[verifier::external_type_specification]
#[verifier::external_body]
pub struct ExNodeId(NodeId);

/// An attribute: its namespace prefix, its namespace, its local name and
/// its value.
pub type Attr = (Option<String>, String, String, String);

/// A step of the walk through a page: a node is entered (an element with
/// its name and attributes, a text, or a node of another kind), or the node
/// entered last and not yet left is left.
#[derive(Debug)]
pub enum DomEvent {
    Element { name: String, attrs: Vec<Attr> },
    Text { text: String },
    OtherNode,
    Close,
}

/// A step of the walk, by its contents.
pub ghost enum DomEventView {
    Element { name: Seq<char>, attrs: Seq<(bool, Seq<char>, Seq<char>)> },
    Text { text: Seq<char> },
    OtherNode,
    Close,
}

/// Whether an attribute stands in no namespace and has no prefix.
pub open spec fn plain_attr(a: Attr) -> bool {
    a.0 is None && a.1@.len() == 0
}

/// Attributes by their characters: whether each is plain, its local name
/// and its value.
pub open spec fn attrs_view(a: Seq<Attr>) -> Seq<(bool, Seq<char>, Seq<char>)> {
    Seq::new(a.len(), |i: int| (plain_attr(a[i]), a[i].2@, a[i].3@))
}

impl View for DomEvent {
    type V = DomEventView;

    open spec fn view(&self) -> DomEventView {
        match self {
            DomEvent::Element { name, attrs } => DomEventView::Element {
                name: name@,
                attrs: attrs_view(attrs@),
            },
            DomEvent::Text { text } => DomEventView::Text { text: text@ },
            DomEvent::OtherNode => DomEventView::OtherNode,
            DomEvent::Close => DomEventView::Close,
        }
    }
}

/// A walk by its contents.
pub open spec fn events_view(v: Seq<DomEvent>) -> Seq<DomEventView> {
    Seq::new(v.len(), |i: int| v[i]@)
}

/// The walk through the page that `text` parses to, from the document
/// node on.
pub uninterp spec fn walk_of(text: Seq<char>) -> Seq<DomEventView>;

/// Whether `selector` parses as a CSS selector.
pub uninterp spec fn selector_parses(selector: Seq<char>) -> bool;

/// The elements that `selector` picks on the page that `text` parses to,
/// in the order in which the parser made the page's nodes: for each, the
/// step of the walk that enters it, or `None` where the walk from the
/// document node does not reach it.
pub uninterp spec fn selected_of(text: Seq<char>, selector: Seq<char>) -> Seq<Option<int>>;

/// A parsed page, with the text it was parsed from.
pub struct Page {
    html: Html,
    source: Ghost<Seq<char>>,
}

impl Page {
    /// The text the page was parsed from.
    pub closed spec fn source(&self) -> Seq<char> {
        self.source@
    }
}

/// Parses a page (`scraper::Html::parse_document`).  The page keeps the
/// text it was parsed from.
#[verifier::external_body]
pub(crate) fn parse_page(text: &str) -> (r: Page)
    ensures
        r.source() == text@,
{
    Page { html: Html::parse_document(text), source: Ghost(text@) }
}

/// The walk through the page in document order (`NodeRef::traverse` from
/// the document node), each step converted: an element's name and its
/// attributes (prefix, namespace, local name, value), a text's characters.
/// Claims that the walk is the one named by `walk_of` for the page's text.
#[verifier::external_body]
fn walk(page: &Page) -> (r: Vec<DomEvent>)
    ensures
        events_view(r@) == walk_of(page.source()),
{
    page.html.tree.root().traverse().map(|edge| match edge {
        Edge::Open(node) => match node.value() {
            Node::Element(e) => DomEvent::Element {
                name: e.name().to_owned(),
                attrs: e.attrs.iter().map(|(q, v)| (
                    q.prefix.as_ref().map(|x| x.to_string()), q.ns.to_string(), q.local.to_string(),
                    v.to_string(),
                )).collect(),
            },
            Node::Text(t) => DomEvent::Text { text: (**t).to_owned() },
            _ => DomEvent::OtherNode,
        },
        Edge::Close(_) => DomEvent::Close,
    }).collect()
}

/// Parses `selector` (`Selector::parse`) and, when it parses, gives the
/// node entered at each step of the walk (`NodeRef::traverse`, none where a
/// node is left) and the nodes of the elements that the selector picks, in
/// the order in which `Html::select` gives them.  Claims that the result is
/// present exactly when `selector_parses` holds; that the walk's nodes are
/// distinct and entered where `walk_of` enters a node; and that each
/// element picked is the node entered at the step that `selected_of`
/// gives, and is entered at no step where that is `None`.
#[verifier::external_body]
fn select(page: &Page, selector: &str) -> (r: Option<(Vec<Option<NodeId>>, Vec<NodeId>)>)
    ensures
        (r is Some) == selector_parses(selector@),
        r matches Some(x) ==> select_facts(
            walk_of(page.source()),
            selected_of(page.source(), selector@),
            x.0@,
            x.1@,
        ),
{
    let sel = Selector::parse(selector).ok()?;
    let nodes = page.html.tree.root().traverse().map(|edge| match edge {
        Edge::Open(node) => Some(node.id()),
        Edge::Close(_) => None,
    }).collect();
    Some((nodes, page.html.select(&sel).map(|e| e.id()).collect()))
}

/// What `select` gives of a page: the walk's nodes, and the elements picked.
pub open spec fn select_facts(
    ev: Seq<DomEventView>,
    sel: Seq<Option<int>>,
    nodes: Seq<Option<NodeId>>,
    picked: Seq<NodeId>,
) -> bool {
    &&& nodes.len() == ev.len()
    &&& forall|p: int| 0 <= p < nodes.len() ==> ((#[trigger] nodes[p]) is Some) == !(ev[p] is Close)
    &&& forall|p: int, q: int|
        0 <= p < q < nodes.len() && nodes[p] is Some ==> #[trigger] nodes[p] != #[trigger] nodes[q]
    &&& picked.len() == sel.len()
    &&& forall|k: int| 0 <= k < picked.len() ==> match #[trigger] sel[k] {
        Some(p) => 0 <= p < nodes.len() && nodes[p] == Some(picked[k]),
        None => !nodes.contains(Some(picked[k])),
    }
}

/// `NodeId`'s `==` (ego-tree): whether two ids are the same.
#[verifier::external_body]
fn same_node(a: &NodeId, b: &NodeId) -> (r: bool)
    ensures
        r == (*a == *b),
{
    a == b
}

/// The steps of the walk that enter what `selected` picks, in order, with
/// what the walk does not reach left out.
pub open spec fn reached(selected: Seq<Option<int>>) -> Seq<int>
    decreases selected.len(),
{
    if selected.len() == 0 {
        Seq::empty()
    } else {
        reached(selected.drop_last()) + match selected.last() {
            Some(p) => seq![p],
            None => Seq::empty(),
        }
    }
}

/// The step of `nodes` that holds `id`, if one does.
fn step_of(nodes: &Vec<Option<NodeId>>, id: &NodeId) -> (r: Option<usize>)
    ensures
        r matches Some(p) ==> p < nodes@.len() && nodes@[p as int] == Some(*id),
        r is None ==> !nodes@.contains(Some(*id)),
{
    let mut p: usize = 0;
    while p < nodes.len()
        invariant
            p <= nodes@.len(),
            forall|q: int| 0 <= q < p ==> nodes@[q] != Some(*id),
        decreases nodes@.len() - p,
    {
        match &nodes[p] {
            Some(x) => {
                if same_node(x, id) {
                    return Some(p);
                }
            },
            None => {},
        }
        p = p + 1;
    }
    None
}

/// The steps that enter the elements that `selector` picks on the page, in
/// the order in which they are picked; none when it does not parse.
fn picks(page: &Page, selector: &str) -> (r: Option<Vec<usize>>)
    ensures
        opt_steps(r) == sel_of(page.source(), selector@),
        r matches Some(v) ==> forall|k: int|
            0 <= k < v@.len() ==> #[trigger] v@[k] < walk_of(page.source()).len(),
{
    let found = select(page, selector);
    match found {
        None => None,
        Some((nodes, picked)) => {
            let ghost sel = selected_of(page.source(), selector@);
            let ghost n = walk_of(page.source()).len();
            let mut out: Vec<usize> = Vec::new();
            let mut k: usize = 0;
            while k < picked.len()
                invariant
                    k <= picked@.len(),
                    select_facts(walk_of(page.source()), sel, nodes@, picked@),
                    sel == selected_of(page.source(), selector@),
                    n == walk_of(page.source()).len(),
                    out@.map_values(|p: usize| p as int) == reached(sel.take(k as int)),
                    forall|i: int| 0 <= i < out@.len() ==> #[trigger] out@[i] < n,
                decreases picked@.len() - k,
            {
                let ghost before = out@;
                assert(sel.take(k + 1).drop_last() =~= sel.take(k as int));
                let st = step_of(&nodes, &picked[k]);
                proof {
                    match st {
                        Some(p) => {
                            match sel[k as int] {
                                Some(q) => {
                                    if p < q {
                                        assert(nodes@[p as int] != nodes@[q]);
                                    } else if q < p {
                                        assert(nodes@[q] != nodes@[p as int]);
                                    }
                                },
                                None => {
                                    assert(nodes@.contains(Some(picked@[k as int])));
                                },
                            }
                        },
                        None => {
                            if let Some(q) = sel[k as int] {
                                assert(nodes@[q] == Some(picked@[k as int]));
                                assert(nodes@.contains(Some(picked@[k as int])));
                            }
                        },
                    }
                }
                match st {
                    Some(p) => {
                        out.push(p);
                    },
                    None => {},
                }
                assert(out@.map_values(|p: usize| p as int) =~= reached(sel.take(k + 1)));
                k = k + 1;
            }
            assert(sel.take(k as int) =~= sel);
            Some(out)
        },
    }
}

/// The element picked first.
fn first_of(m: &Option<Vec<usize>>) -> (r: Option<usize>)
    ensures
        r matches Some(p) ==> (m matches Some(v) && v@.len() > 0 && p == v@[0]
            && first_picked(opt_steps(*m)) == Some(p as int)),
        r is None ==> first_picked(opt_steps(*m)) is None,
{
    match m {
        Some(v) => if v.len() > 0 {
            Some(v[0])
        } else {
            None
        },
        None => None,
    }
}

/// Whether `i` is among the picked steps.
fn is_picked(m: &Option<Vec<usize>>, i: usize) -> (r: bool)
    ensures
        r == matched(opt_steps(*m), i as int),
{
    match m {
        Some(v) => {
            let ghost w = v@.map_values(|p: usize| p as int);
            let mut k: usize = 0;
            while k < v.len()
                invariant
                    k <= v@.len(),
                    w == v@.map_values(|p: usize| p as int),
                    *m == Some(*v),
                    forall|j: int| 0 <= j < k ==> #[trigger] w[j] != i,
                decreases v@.len() - k,
            {
                if v[k] == i {
                    assert(w[k as int] == i);
                    return true;
                }
                k = k + 1;
            }
            assert(!w.contains(i as int)) by {
                if w.contains(i as int) {
                    let j = choose|j: int| 0 <= j < w.len() && w[j] == i;
                    assert(w[j] != i);
                }
            }
            false
        },
        None => false,
    }
}

/// The steps that enter the elements a selector picks, in the order in
/// which they are picked; none when the selector does not parse.
pub open spec fn sel_of(text: Seq<char>, selector: Seq<char>) -> Option<Seq<int>> {
    if selector_parses(selector) {
        Some(reached(selected_of(text, selector)))
    } else {
        None
    }
}

pub open spec fn opt_steps(m: Option<Vec<usize>>) -> Option<Seq<int>> {
    match m {
        Some(v) => Some(v@.map_values(|p: usize| p as int)),
        None => None,
    }
}

/// Whether the step at `i` enters a picked element.
pub open spec fn matched(m: Option<Seq<int>>, i: int) -> bool {
    m matches Some(v) && v.contains(i)
}

/// The step that enters the element picked first.
pub open spec fn first_picked(m: Option<Seq<int>>) -> Option<int> {
    match m {
        Some(v) => if v.len() > 0 {
            Some(v[0])
        } else {
            None
        },
        None => None,
    }
}

/// The step that leaves the node whose contents start at `j`, when `depth`
/// nodes entered since then are still open; the end of the walk if none.
pub open spec fn close_from(ev: Seq<DomEventView>, j: int, depth: nat) -> int
    decreases ev.len() - j,
{
    if !(0 <= j < ev.len()) {
        ev.len() as int
    } else if ev[j] is Close {
        if depth == 0 {
            j
        } else {
            close_from(ev, j + 1, (depth - 1) as nat)
        }
    } else {
        close_from(ev, j + 1, depth + 1)
    }
}

/// The step that leaves the node entered at `p`.
pub open spec fn subtree_end(ev: Seq<DomEventView>, p: int) -> int {
    close_from(ev, p + 1, 0)
}

pub proof fn lemma_close_from_bounds(ev: Seq<DomEventView>, j: int, depth: nat)
    requires
        0 <= j <= ev.len(),
    ensures
        j <= close_from(ev, j, depth) <= ev.len(),
    decreases ev.len() - j,
{
    if j < ev.len() {
        if ev[j] is Close {
            if depth > 0 {
                lemma_close_from_bounds(ev, j + 1, (depth - 1) as nat);
            }
        } else {
            lemma_close_from_bounds(ev, j + 1, depth + 1);
        }
    }
}

/// The first step in `j..end` that enters a picked element (in document
/// order, as `ElementRef::select` goes through an element's contents).
pub open spec fn first_match(m: Option<Seq<int>>, j: int, end: int) -> Option<int>
    decreases end - j,
{
    if j >= end {
        None
    } else if matched(m, j) {
        Some(j)
    } else {
        first_match(m, j + 1, end)
    }
}

/// The texts entered in `j..end`, in order.
pub open spec fn texts_from(ev: Seq<DomEventView>, j: int, end: int) -> Seq<Seq<char>>
    decreases end - j,
{
    if j >= end || !(0 <= j < ev.len()) {
        Seq::empty()
    } else {
        (match ev[j] {
            DomEventView::Text { text } => seq![text],
            _ => Seq::empty(),
        }) + texts_from(ev, j + 1, end)
    }
}

/// The texts inside the node entered at `p` (`ElementRef::text`).
pub open spec fn element_texts(ev: Seq<DomEventView>, p: int) -> Seq<Seq<char>> {
    texts_from(ev, p + 1, subtree_end(ev, p))
}

/// Which ancestors are looked for.
#[derive(Debug, Clone, Copy, PartialEq, Eq, Structural)]
pub enum AncestorKind {
    /// The nearest one of any kind: the parent.
    Parent,
    /// The nearest list item.
    ListItem,
    /// The nearest list item, paragraph or division.
    Block,
}

/// Whether an entered node is of the kind looked for.
pub open spec fn is_kind(e: DomEventView, kind: AncestorKind) -> bool {
    match kind {
        AncestorKind::Parent => true,
        AncestorKind::ListItem => e matches DomEventView::Element { name, .. } && name == "li"@,
        AncestorKind::Block => e matches DomEventView::Element { name, .. } && (name == "li"@
            || name == "p"@ || name == "div"@),
    }
}

/// Walking back from `j`, with `skip` nodes left that were entered and left
/// again, the first node still open that is of the kind looked for.
pub open spec fn ancestor_back(ev: Seq<DomEventView>, j: int, skip: nat, kind: AncestorKind) -> Option<
    int,
>
    decreases j + 1,
{
    if !(0 <= j < ev.len()) {
        None
    } else if ev[j] is Close {
        ancestor_back(ev, j - 1, skip + 1, kind)
    } else if skip > 0 {
        ancestor_back(ev, j - 1, (skip - 1) as nat, kind)
    } else if is_kind(ev[j], kind) {
        Some(j)
    } else {
        ancestor_back(ev, j - 1, 0, kind)
    }
}

/// The nearest ancestor of the node entered at `a` of the kind looked for
/// (`NodeRef::ancestors`, nearest first).
pub open spec fn ancestor(ev: Seq<DomEventView>, a: int, kind: AncestorKind) -> Option<int> {
    ancestor_back(ev, a - 1, 0, kind)
}

/// Walking back in the same way, the block looked for is the first open
/// node that is an element named `li`, `p` or `div`.
proof fn lemma_block_back(ev: Seq<DomEventView>, j: int, skip: nat)
    ensures
        ancestor_back(ev, j, skip, AncestorKind::Block) == match ancestor_back(
            ev,
            j,
            skip,
            AncestorKind::Parent,
        ) {
            None => None,
            Some(q) => if ev[q] matches DomEventView::Element { name, .. } && (name == "li"@ || name
                == "p"@ || name == "div"@) {
                Some(q)
            } else {
                ancestor_back(ev, q - 1, 0, AncestorKind::Block)
            },
        },
        ancestor_back(ev, j, skip, AncestorKind::Block) matches Some(b) ==> 0 <= b <= j,
    decreases j + 1,
{
    if 0 <= j < ev.len() {
        if ev[j] is Close {
            lemma_block_back(ev, j - 1, skip + 1);
        } else if skip > 0 {
            lemma_block_back(ev, j - 1, (skip - 1) as nat);
        } else {
            lemma_block_back(ev, j - 1, 0);
        }
    }
}

/// The block around a node (whose text an article's mention of a trope is
/// read from) is its nearest ancestor element named `li`, `p` or `div`:
/// the parent when it is one, else the block around the parent.  It is
/// always such an element, and lies before the node.
pub proof fn lemma_block_is_nearest_li_p_or_div(ev: Seq<DomEventView>, a: int)
    ensures
        ancestor(ev, a, AncestorKind::Block) == match ancestor(ev, a, AncestorKind::Parent) {
            None => None,
            Some(q) => if ev[q] matches DomEventView::Element { name, .. } && (name == "li"@ || name
                == "p"@ || name == "div"@) {
                Some(q)
            } else {
                ancestor(ev, q, AncestorKind::Block)
            },
        },
        ancestor(ev, a, AncestorKind::Block) matches Some(b) ==> 0 <= b < a && (ev[b] matches DomEventView::Element {
            name,
            ..
        } && (name == "li"@ || name == "p"@ || name == "div"@)),
    decreases a,
{
    lemma_block_back(ev, a - 1, 0);
    if let Some(q) = ancestor(ev, a, AncestorKind::Parent) {
        lemma_parent_back_bounds(ev, a - 1, 0);
        if !(ev[q] matches DomEventView::Element { name, .. } && (name == "li"@ || name == "p"@
            || name == "div"@)) {
            lemma_block_is_nearest_li_p_or_div(ev, q);
        }
    }
}

/// Walking back in the same way, the list item looked for is the first open
/// node that is an element named `li`.
proof fn lemma_list_item_back(ev: Seq<DomEventView>, j: int, skip: nat)
    ensures
        ancestor_back(ev, j, skip, AncestorKind::ListItem) == match ancestor_back(
            ev,
            j,
            skip,
            AncestorKind::Parent,
        ) {
            None => None,
            Some(q) => if ev[q] matches DomEventView::Element { name, .. } && name == "li"@ {
                Some(q)
            } else {
                ancestor_back(ev, q - 1, 0, AncestorKind::ListItem)
            },
        },
    decreases j + 1,
{
    if 0 <= j < ev.len() {
        if ev[j] is Close {
            lemma_list_item_back(ev, j - 1, skip + 1);
        } else if skip > 0 {
            lemma_list_item_back(ev, j - 1, (skip - 1) as nat);
        } else {
            lemma_list_item_back(ev, j - 1, 0);
        }
    }
}

/// The list item around a node (where an article's mention of a trope is
/// looked for as an entry) is its nearest ancestor element named `li`: the
/// parent when it is one, else the list item around the parent.  It is
/// always an `li` element, and lies before the node.
pub proof fn lemma_list_item_is_nearest_li(ev: Seq<DomEventView>, a: int)
    ensures
        ancestor(ev, a, AncestorKind::ListItem) == match ancestor(ev, a, AncestorKind::Parent) {
            None => None,
            Some(q) => if ev[q] matches DomEventView::Element { name, .. } && name == "li"@ {
                Some(q)
            } else {
                ancestor(ev, q, AncestorKind::ListItem)
            },
        },
        ancestor(ev, a, AncestorKind::ListItem) matches Some(b) ==> 0 <= b < a && (ev[b] matches DomEventView::Element {
            name,
            ..
        } && name == "li"@),
    decreases a,
{
    lemma_list_item_back(ev, a - 1, 0);
    if let Some(q) = ancestor(ev, a, AncestorKind::Parent) {
        lemma_parent_back_bounds(ev, a - 1, 0);
        if !(ev[q] matches DomEventView::Element { name, .. } && name == "li"@) {
            lemma_list_item_is_nearest_li(ev, q);
        }
    }
}

/// The parent found walking back from `j` lies at or before `j`.
proof fn lemma_parent_back_bounds(ev: Seq<DomEventView>, j: int, skip: nat)
    ensures
        ancestor_back(ev, j, skip, AncestorKind::Parent) matches Some(q) ==> 0 <= q <= j,
    decreases j + 1,
{
    if 0 <= j < ev.len() {
        if ev[j] is Close {
            lemma_parent_back_bounds(ev, j - 1, skip + 1);
        } else if skip > 0 {
            lemma_parent_back_bounds(ev, j - 1, (skip - 1) as nat);
        } else {
            lemma_parent_back_bounds(ev, j - 1, 0);
        }
    }
}

/// The value of the first plain attribute called `name` (`Element::attr`
/// looks for the name with no prefix and no namespace).
pub open spec fn attr_value(attrs: Seq<(bool, Seq<char>, Seq<char>)>, name: Seq<char>) -> Option<
    Seq<char>,
>
    decreases attrs.len(),
{
    if attrs.len() == 0 {
        None
    } else if attrs[0].0 && attrs[0].1 == name {
        Some(attrs[0].2)
    } else {
        attr_value(attrs.drop_first(), name)
    }
}

/// The `href` of the element entered at `i`.
pub open spec fn href_at(ev: Seq<DomEventView>, i: int) -> Option<Seq<char>> {
    match ev[i] {
        DomEventView::Element { attrs, .. } => attr_value(attrs, "href"@),
        _ => None,
    }
}

/// A child of the main article, by what the summary reads of it: a rule
/// and whether it has a `data-format`, a paragraph and its texts, or
/// another element.
pub open spec fn summary_child_at(ev: Seq<DomEventView>, k: int) -> SummaryChildView {
    match ev[k] {
        DomEventView::Element { name, attrs } => if name == "hr"@ {
            SummaryChildView::Rule { has_data_format: attr_value(attrs, "data-format"@) is Some }
        } else if name == "p"@ {
            SummaryChildView::Paragraph { text_nodes: element_texts(ev, k) }
        } else {
            SummaryChildView::Other
        },
        _ => SummaryChildView::Other,
    }
}

/// The element children from the child entered at `k` on, until the
/// parent is left (`ElementRef::children`, elements only).
pub open spec fn children_from(ev: Seq<DomEventView>, k: int) -> Seq<SummaryChildView>
    decreases ev.len() + 1 - k,
{
    if !(0 <= k < ev.len()) || ev[k] is Close {
        Seq::empty()
    } else {
        let next = subtree_end(ev, k) + 1;
        proof {
            lemma_close_from_bounds(ev, k + 1, 0);
        }
        let rest = children_from(ev, next);
        if ev[k] is Element {
            seq![summary_child_at(ev, k)] + rest
        } else {
            rest
        }
    }
}

/// The targets of the picked elements, in the order in which they are
/// picked.
pub open spec fn hrefs_from(ev: Seq<DomEventView>, m: Option<Seq<int>>) -> Seq<Option<Seq<char>>> {
    match m {
        Some(v) => Seq::new(v.len(), |k: int| href_at(ev, v[k])),
        None => Seq::empty(),
    }
}

/// What is read around the trope's link entered at `a`: its text; the
/// nearest list item around it, when that item holds a trope link; the
/// text of the nearest list item, paragraph or division around it.
/// `first_link` is what the selector of the first link picks on the whole
/// page; the list item's first link is the first of those inside the item,
/// in document order.  That is what selecting inside the item gives
/// (`ElementRef::select`), since that selector does not use `:scope`, the
/// one part of a selector that matches otherwise inside an element.
pub open spec fn trope_link_spec(ev: Seq<DomEventView>, first_link: Option<Seq<int>>, a: int) -> TropeLinkView {
    TropeLinkView {
        link_text: concat_all(element_texts(ev, a)),
        list_item: match ancestor(ev, a, AncestorKind::ListItem) {
            Some(li) => match first_match(first_link, li + 1, subtree_end(ev, li)) {
                Some(f) => Some(
                    ListItemLinkView {
                        text_nodes: element_texts(ev, li),
                        first_is_link: f == a,
                        first_href: href_at(ev, f),
                    },
                ),
                None => None,
            },
            None => None,
        },
        block_text: match ancestor(ev, a, AncestorKind::Block) {
            Some(b) => Some(concat_all(element_texts(ev, b))),
            None => None,
        },
    }
}

/// The selectors of the article page's parts.
pub open spec fn main_selector() -> Seq<char> {
    "#main-article"@
}

pub open spec fn title_selector_first() -> Seq<char> {
    "h1.entry-title > .wrapped_title"@
}

pub open spec fn title_selector_second() -> Seq<char> {
    ".wrapped_title > h1.entry-title strong"@
}

pub open spec fn first_link_selector() -> Seq<char> {
    "a.twikilink:first-of-type"@
}

/// What an article page offers: the children of the first main article;
/// the first title element of the first kind, else of the second; and,
/// when a selector of the trope's link is given, the first link it picks
/// with what surrounds it.
pub open spec fn article_page_spec(text: Seq<char>, link_selector: Option<Seq<char>>) -> ArticlePageView {
    let ev = walk_of(text);
    ArticlePageView {
        main: match first_picked(sel_of(text, main_selector())) {
            Some(p) => Some(children_from(ev, p + 1)),
            None => None,
        },
        title: match first_picked(sel_of(text, title_selector_first())) {
            Some(p) => Some(TitleView { text_nodes: element_texts(ev, p), is_first_kind: true }),
            None => match first_picked(sel_of(text, title_selector_second())) {
                Some(p) => Some(TitleView { text_nodes: element_texts(ev, p), is_first_kind: false }),
                None => None,
            },
        },
        trope_link: match link_selector {
            Some(s) => match first_picked(sel_of(text, s)) {
                Some(a) => Some(trope_link_spec(ev, sel_of(text, first_link_selector()), a)),
                None => None,
            },
            None => None,
        },
    }
}

/// The step that leaves the node entered at `p`.
fn subtree_end_of(ev: &Vec<DomEvent>, p: usize) -> (r: usize)
    requires
        p < ev@.len(),
    ensures
        r == subtree_end(events_view(ev@), p as int),
        p < r <= ev@.len(),
{
    let ghost evv = events_view(ev@);
    proof {
        lemma_close_from_bounds(evv, p + 1, 0);
    }
    let n = ev.len();
    assert(p < n);
    let mut j = p + 1;
    let mut depth: usize = 0;
    while j < ev.len()
        invariant
            p < j <= ev@.len(),
            depth <= j,
            evv == events_view(ev@),
            close_from(evv, p + 1, 0) == close_from(evv, j as int, depth as nat),
        decreases ev@.len() - j,
    {
        match &ev[j] {
            DomEvent::Close => {
                if depth == 0 {
                    return j;
                }
                depth = depth - 1;
            },
            _ => {
                depth = depth + 1;
            },
        }
        j = j + 1;
    }
    j
}

/// The first step in `from..to` that enters a matched element.
fn first_match_in(m: &Option<Vec<usize>>, from: usize, to: usize) -> (r: Option<usize>)
    ensures
        r matches Some(i) ==> first_match(opt_steps(*m), from as int, to as int) == Some(i as int)
            && from <= i < to,
        r is None ==> first_match(opt_steps(*m), from as int, to as int) is None,
{
    let mut i = from;
    while i < to
        invariant
            from <= i,
            first_match(opt_steps(*m), from as int, to as int) == first_match(
                opt_steps(*m),
                i as int,
                to as int,
            ),
        decreases to - i,
    {
        if is_picked(m, i) {
            return Some(i);
        }
        i = i + 1;
    }
    None
}

/// The texts inside the node entered at `p`.
fn element_texts_of(ev: &Vec<DomEvent>, p: usize) -> (r: Vec<String>)
    requires
        p < ev@.len(),
    ensures
        texts(r@) == element_texts(events_view(ev@), p as int),
{
    let ghost evv = events_view(ev@);
    let end = subtree_end_of(ev, p);
    let mut out: Vec<String> = Vec::new();
    let mut j = p + 1;
    while j < end
        invariant
            p < j <= end <= ev@.len(),
            evv == events_view(ev@),
            texts_from(evv, p + 1, end as int) == texts(out@) + texts_from(evv, j as int, end as int),
        decreases end - j,
    {
        let ghost before = out@;
        match &ev[j] {
            DomEvent::Text { text } => {
                out.push(text.clone());
                assert(texts(out@) =~= texts(before) + seq![text@]);
            },
            _ => {},
        }
        assert(texts_from(evv, p + 1, end as int) =~= texts(out@) + texts_from(
            evv,
            j + 1,
            end as int,
        ));
        j = j + 1;
    }
    assert(texts_from(evv, j as int, end as int) =~= Seq::<Seq<char>>::empty());
    assert(texts(out@) + Seq::<Seq<char>>::empty() =~= texts(out@));
    out
}

/// Whether an entered node is of the kind looked for.
fn is_kind_of(e: &DomEvent, kind: AncestorKind) -> (r: bool)
    ensures
        r == is_kind(e@, kind),
{
    match kind {
        AncestorKind::Parent => true,
        AncestorKind::ListItem => match e {
            DomEvent::Element { name, .. } => str_eq(name.as_str(), "li"),
            _ => false,
        },
        AncestorKind::Block => match e {
            DomEvent::Element { name, .. } => str_eq(name.as_str(), "li") || str_eq(
                name.as_str(),
                "p",
            ) || str_eq(name.as_str(), "div"),
            _ => false,
        },
    }
}

/// The nearest ancestor of the node entered at `a` of the kind looked for.
fn ancestor_of(ev: &Vec<DomEvent>, a: usize, kind: AncestorKind) -> (r: Option<usize>)
    requires
        a < ev@.len(),
    ensures
        r matches Some(i) ==> ancestor(events_view(ev@), a as int, kind) == Some(i as int) && i
            < a,
        r is None ==> ancestor(events_view(ev@), a as int, kind) is None,
{
    let ghost evv = events_view(ev@);
    let mut j = a;
    let mut skip: usize = 0;
    while j > 0
        invariant
            j <= a < ev@.len(),
            skip <= a - j,
            evv == events_view(ev@),
            ancestor_back(evv, a - 1, 0, kind) == ancestor_back(evv, j - 1, skip as nat, kind),
        decreases j,
    {
        let k = j - 1;
        match &ev[k] {
            DomEvent::Close => {
                skip = skip + 1;
            },
            e => {
                if skip > 0 {
                    skip = skip - 1;
                } else if is_kind_of(e, kind) {
                    return Some(k);
                }
            },
        }
        j = k;
    }
    None
}

/// The value of the first plain attribute called `name`.
fn attr_value_of(attrs: &Vec<Attr>, name: &str) -> (r: Option<String>)
    ensures
        opt_text_view(r) == attr_value(attrs_view(attrs@), name@),
{
    let ghost av = attrs_view(attrs@);
    let mut i: usize = 0;
    assert(av.skip(0) =~= av);
    while i < attrs.len()
        invariant
            i <= attrs@.len(),
            av == attrs_view(attrs@),
            attr_value(av, name@) == attr_value(av.skip(i as int), name@),
        decreases attrs@.len() - i,
    {
        assert(av.skip(i as int).drop_first() =~= av.skip(i + 1));
        let a = &attrs[i];
        assert(av.skip(i as int)[0] == (plain_attr(*a), a.2@, a.3@));
        if a.0.is_none() && a.1.as_str().is_empty() && str_eq(a.2.as_str(), name) {
            return Some(a.3.clone());
        }
        i = i + 1;
    }
    assert(av.skip(i as int).len() == 0);
    None
}

pub open spec fn opt_text_view(o: Option<String>) -> Option<Seq<char>> {
    match o {
        Some(s) => Some(s@),
        None => None,
    }
}

/// The `href` of the element entered at `i`.
fn href_of(ev: &Vec<DomEvent>, i: usize) -> (r: Option<String>)
    requires
        i < ev@.len(),
    ensures
        opt_text_view(r) == href_at(events_view(ev@), i as int),
{
    match &ev[i] {
        DomEvent::Element { attrs, .. } => attr_value_of(attrs, "href"),
        _ => None,
    }
}

/// The element children of the node entered just before `start`.
fn children_of(ev: &Vec<DomEvent>, start: usize) -> (r: Vec<SummaryChild>)
    requires
        start <= ev@.len(),
    ensures
        super::article::children_view(r@) == children_from(events_view(ev@), start as int),
{
    let ghost evv = events_view(ev@);
    let mut out: Vec<SummaryChild> = Vec::new();
    let mut k = start;
    while k < ev.len()
        invariant
            start <= k <= ev@.len(),
            evv == events_view(ev@),
            children_from(evv, start as int) == super::article::children_view(out@)
                + children_from(evv, k as int),
        decreases ev@.len() - k,
    {
        if let DomEvent::Close = &ev[k] {
            assert(children_from(evv, k as int) =~= Seq::<SummaryChildView>::empty());
            assert(super::article::children_view(out@) + Seq::<SummaryChildView>::empty()
                =~= super::article::children_view(out@));
            return out;
        }
        let end = subtree_end_of(ev, k);
        let ghost before = out@;
        match &ev[k] {
            DomEvent::Element { name, attrs } => {
                let child = if str_eq(name.as_str(), "hr") {
                    let d = attr_value_of(attrs, "data-format");
                    SummaryChild::Rule { has_data_format: d.is_some() }
                } else if str_eq(name.as_str(), "p") {
                    SummaryChild::Paragraph { text_nodes: element_texts_of(ev, k) }
                } else {
                    SummaryChild::Other
                };
                assert(child@ == summary_child_at(evv, k as int));
                out.push(child);
                assert(super::article::children_view(out@) =~= super::article::children_view(
                    before,
                ) + seq![summary_child_at(evv, k as int)]);
            },
            _ => {},
        }
        if end < ev.len() {
            k = end + 1;
        } else {
            assert(children_from(evv, end + 1) =~= Seq::<SummaryChildView>::empty());
            assert(children_from(evv, ev@.len() as int) =~= Seq::<SummaryChildView>::empty());
            k = ev.len();
        }
    }
    assert(children_from(evv, k as int) =~= Seq::<SummaryChildView>::empty());
    assert(super::article::children_view(out@) + Seq::<SummaryChildView>::empty()
        =~= super::article::children_view(out@));
    out
}

/// The targets of the picked elements, in the order in which they are
/// picked.
fn hrefs_of(ev: &Vec<DomEvent>, m: &Option<Vec<usize>>) -> (r: Vec<Option<String>>)
    requires
        m matches Some(v) ==> forall|k: int| 0 <= k < v@.len() ==> #[trigger] v@[k] < ev@.len(),
    ensures
        opt_texts(r@) == hrefs_from(events_view(ev@), opt_steps(*m)),
{
    let ghost evv = events_view(ev@);
    let mut out: Vec<Option<String>> = Vec::new();
    match m {
        Some(v) => {
            let mut k: usize = 0;
            while k < v.len()
                invariant
                    k <= v@.len(),
                    evv == events_view(ev@),
                    forall|i: int| 0 <= i < v@.len() ==> #[trigger] v@[i] < ev@.len(),
                    *m == Some(*v),
                    opt_texts(out@) =~= hrefs_from(evv, opt_steps(*m)).take(k as int),
                decreases v@.len() - k,
            {
                let ghost before = out@;
                let h = href_of(ev, v[k]);
                out.push(h);
                proof {
                    let want = hrefs_from(evv, opt_steps(*m));
                    assert(want[k as int] == href_at(evv, v@[k as int] as int));
                    assert(opt_texts(out@) =~= opt_texts(before).push(want[k as int]));
                    assert(want.take(k + 1) =~= want.take(k as int).push(want[k as int]));
                }
                k = k + 1;
            }
            assert(hrefs_from(evv, opt_steps(*m)).take(k as int) =~= hrefs_from(evv, opt_steps(*m)));
        },
        None => {
            assert(opt_texts(out@) =~= Seq::<Option<Seq<char>>>::empty());
        },
    }
    out
}

/// Optional texts by their characters.
pub open spec fn opt_texts(v: Seq<Option<String>>) -> Seq<Option<Seq<char>>> {
    Seq::new(v.len(), |i: int| opt_text_view(v[i]))
}

/// The texts joined.
fn concat_texts(v: &Vec<String>) -> (r: String)
    ensures
        r@ == concat_all(texts(v@)),
{
    let mut out = String::new();
    let mut k: usize = 0;
    while k < v.len()
        invariant
            k <= v@.len(),
            out@ == concat_all(texts(v@).take(k as int)),
        decreases v@.len() - k,
    {
        assert(texts(v@).take(k + 1).drop_last() =~= texts(v@).take(k as int));
        push_str(&mut out, v[k].as_str());
        k = k + 1;
    }
    assert(texts(v@).take(k as int) =~= texts(v@));
    out
}

pub open spec fn opt_str(o: Option<&str>) -> Option<Seq<char>> {
    match o {
        Some(s) => Some(s@),
        None => None,
    }
}

/// Reads an article page from its text: the children of its main article,
/// its title element and, when a selector of the trope's link is given,
/// the first link it picks with what surrounds that link.
pub fn read_article_page(text: &str, link_selector: Option<&str>) -> (r: ArticlePage)
    ensures
        r@ == article_page_spec(text@, opt_str(link_selector)),
{
    let page = parse_page(text);
    let ev = walk(&page);
    let ghost evv = events_view(ev@);
    assert(evv == walk_of(text@));
    assert(ev@.len() == evv.len());

    let main_m = picks(&page, "#main-article");
    let main = match first_of(&main_m) {
        Some(p) => Some(children_of(&ev, p + 1)),
        None => None,
    };

    let first_m = picks(&page, "h1.entry-title > .wrapped_title");
    let title = match first_of(&first_m) {
        Some(p) => Some(TitleElement { text_nodes: element_texts_of(&ev, p), is_first_kind: true }),
        None => {
            let second_m = picks(&page, ".wrapped_title > h1.entry-title strong");
            match first_of(&second_m) {
                Some(p) => Some(
                    TitleElement { text_nodes: element_texts_of(&ev, p), is_first_kind: false },
                ),
                None => None,
            }
        },
    };

    let trope_link = match link_selector {
        Some(s) => {
            let link_m = picks(&page, s);
            match first_of(&link_m) {
                Some(a) => {
                    let first_link_m = picks(&page, "a.twikilink:first-of-type");
                    Some(read_trope_link(&ev, &first_link_m, a))
                },
                None => None,
            }
        },
        None => None,
    };

    let r = ArticlePage { main, title, trope_link };
    assert(r@.main == article_page_spec(text@, opt_str(link_selector)).main);
    assert(r@.title == article_page_spec(text@, opt_str(link_selector)).title);
    assert(r@.trope_link == article_page_spec(text@, opt_str(link_selector)).trope_link);
    r
}

/// What is read around the trope's link entered at `a`.
fn read_trope_link(ev: &Vec<DomEvent>, first_link_m: &Option<Vec<usize>>, a: usize) -> (r: TropeLink)
    requires
        a < ev@.len(),
    ensures
        r@ == trope_link_spec(events_view(ev@), opt_steps(*first_link_m), a as int),
{
    let link_text = concat_texts(&element_texts_of(ev, a));
    let list_item = match ancestor_of(ev, a, AncestorKind::ListItem) {
        Some(li) => {
            let end = subtree_end_of(ev, li);
            match first_match_in(first_link_m, li + 1, end) {
                Some(f) => Some(
                    ListItemLink {
                        text_nodes: element_texts_of(ev, li),
                        first_is_link: f == a,
                        first_href: href_of(ev, f),
                    },
                ),
                None => None,
            }
        },
        None => None,
    };
    let block_text = match ancestor_of(ev, a, AncestorKind::Block) {
        Some(b) => Some(concat_texts(&element_texts_of(ev, b))),
        None => None,
    };
    TropeLink { link_text, list_item, block_text }
}

/// The targets of the elements that `selector` picks on the page that
/// `text` parses to, in order.
pub open spec fn link_targets_spec(text: Seq<char>, selector: Seq<char>) -> Seq<Option<Seq<char>>> {
    hrefs_from(walk_of(text), sel_of(text, selector))
}

/// The targets of the elements that `selector` picks, in order; none when
/// the selector does not parse.
pub fn link_targets(text: &str, selector: &str) -> (r: Vec<Option<String>>)
    ensures
        opt_texts(r@) == link_targets_spec(text@, selector@),
{
    let page = parse_page(text);
    let ev = walk(&page);
    let m = picks(&page, selector);
    hrefs_of(&ev, &m)
}

/// The texts inside each element that `selector` picks on the page that
/// `text` parses to, in the order in which they are picked; none when the
/// selector does not parse.
pub open spec fn link_texts_spec(text: Seq<char>, selector: Seq<char>) -> Seq<Seq<Seq<char>>> {
    match sel_of(text, selector) {
        Some(v) => Seq::new(v.len(), |k: int| element_texts(walk_of(text), v[k])),
        None => Seq::empty(),
    }
}

/// The texts inside each element that `selector` picks, in the order in
/// which they are picked (`ElementRef::text` of each); none when the
/// selector does not parse.
pub fn link_texts(text: &str, selector: &str) -> (r: Vec<Vec<String>>)
    ensures
        r@.len() == link_texts_spec(text@, selector@).len(),
        forall|i: int|
            0 <= i < r@.len() ==> texts((#[trigger] r@[i])@) == link_texts_spec(text@, selector@)[i],
{
    let page = parse_page(text);
    let ev = walk(&page);
    let m = picks(&page, selector);
    let ghost evv = events_view(ev@);
    let ghost want = link_texts_spec(text@, selector@);
    let mut out: Vec<Vec<String>> = Vec::new();
    match &m {
        Some(v) => {
            let mut k: usize = 0;
            while k < v.len()
                invariant
                    k <= v@.len(),
                    evv == events_view(ev@),
                    evv == walk_of(text@),
                    m == Some(*v),
                    want == link_texts_spec(text@, selector@),
                    opt_steps(m) == sel_of(text@, selector@),
                    want.len() == v@.len(),
                    forall|i: int| 0 <= i < v@.len() ==> #[trigger] v@[i] < evv.len(),
                    out@.len() == k,
                    forall|i: int| 0 <= i < k ==> texts((#[trigger] out@[i])@) == want[i],
                decreases v@.len() - k,
            {
                let t = element_texts_of(&ev, v[k]);
                assert(want[k as int] == element_texts(evv, v@[k as int] as int));
                out.push(t);
                k = k + 1;
            }
        },
        None => {},
    }
    out
}

/// The first text inside the first element that `selector` picks.
pub open spec fn first_text_spec(text: Seq<char>, selector: Seq<char>) -> Option<Seq<char>> {
    let ev = walk_of(text);
    match first_picked(sel_of(text, selector)) {
        Some(p) => if element_texts(ev, p).len() > 0 {
            Some(element_texts(ev, p)[0])
        } else {
            None
        },
        None => None,
    }
}

/// The first text inside the first element that `selector` picks.
pub fn first_text(text: &str, selector: &str) -> (r: Option<String>)
    ensures
        opt_text_view(r) == first_text_spec(text@, selector@),
{
    let page = parse_page(text);
    let ev = walk(&page);
    let m = picks(&page, selector);
    assert(events_view(ev@).len() == ev@.len());
    match first_of(&m) {
        Some(p) => {
            let t = element_texts_of(&ev, p);
            if t.len() > 0 {
                assert(texts(t@)[0] == t@[0]@);
                Some(t[0].clone())
            } else {
                None
            }
        },
        None => None,
    }
}

/// A link of a trope list: its target, and the texts of its parent when
/// that is an element.
pub open spec fn list_link_at(ev: Seq<DomEventView>, i: int) -> (Option<Seq<char>>, Option<Seq<Seq<char>>>) {
    (href_at(ev, i), match ancestor(ev, i, AncestorKind::Parent) {
        Some(q) => if ev[q] is Element {
            Some(element_texts(ev, q))
        } else {
            None
        },
        None => None,
    })
}

/// The links picked, in the order in which they are picked.
pub open spec fn list_links_from(ev: Seq<DomEventView>, m: Option<Seq<int>>) -> Seq<
    (Option<Seq<char>>, Option<Seq<Seq<char>>>),
> {
    match m {
        Some(v) => Seq::new(v.len(), |k: int| list_link_at(ev, v[k])),
        None => Seq::empty(),
    }
}

/// The links that `selector` picks on the page that `text` parses to.
pub open spec fn list_links_spec(text: Seq<char>, selector: Seq<char>) -> Seq<
    (Option<Seq<char>>, Option<Seq<Seq<char>>>),
> {
    list_links_from(walk_of(text), sel_of(text, selector))
}

/// A link of a trope list by its contents.
pub open spec fn list_link_view(l: TropeListLink) -> (Option<Seq<char>>, Option<Seq<Seq<char>>>) {
    (opt_text_view(l.href), match l.parent_text_nodes {
        Some(v) => Some(texts(v@)),
        None => None,
    })
}

pub open spec fn list_links_view(v: Seq<TropeListLink>) -> Seq<(Option<Seq<char>>, Option<Seq<Seq<char>>>)> {
    Seq::new(v.len(), |i: int| list_link_view(v[i]))
}

/// The links that `selector` picks, with their targets and the texts of
/// their parents.
pub fn list_links(text: &str, selector: &str) -> (r: Vec<TropeListLink>)
    ensures
        list_links_view(r@) == list_links_spec(text@, selector@),
{
    let page = parse_page(text);
    let ev = walk(&page);
    let m = picks(&page, selector);
    let ghost evv = events_view(ev@);
    let ghost want = list_links_from(evv, opt_steps(m));
    let mut out: Vec<TropeListLink> = Vec::new();
    match &m {
        Some(v) => {
            let mut k: usize = 0;
            while k < v.len()
                invariant
                    k <= v@.len(),
                    evv == events_view(ev@),
                    evv == walk_of(text@),
                    m == Some(*v),
                    want == list_links_from(evv, opt_steps(m)),
                    forall|i: int| 0 <= i < v@.len() ==> #[trigger] v@[i] < evv.len(),
                    list_links_view(out@) =~= want.take(k as int),
                decreases v@.len() - k,
            {
                let j = v[k];
                let href = href_of(&ev, j);
                let parent_text_nodes = match ancestor_of(&ev, j, AncestorKind::Parent) {
                    Some(q) => match &ev[q] {
                        DomEvent::Element { .. } => Some(element_texts_of(&ev, q)),
                        _ => None,
                    },
                    None => None,
                };
                let link = TropeListLink { href, parent_text_nodes };
                assert(list_link_view(link) == list_link_at(evv, j as int));
                let ghost before = out@;
                out.push(link);
                proof {
                    assert(want[k as int] == list_link_at(evv, v@[k as int] as int));
                    assert(list_links_view(out@) =~= list_links_view(before).push(want[k as int]));
                    assert(want.take(k + 1) =~= want.take(k as int).push(want[k as int]));
                }
                k = k + 1;
            }
            assert(want.take(k as int) =~= want);
        },
        None => {
            assert(list_links_view(out@) =~= want);
        },
    }
    out
}

} // verus!
