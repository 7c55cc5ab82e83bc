//! The normalizer: HTML bytes to a document tree, as a browser's parser
//! would build it.
use vstd::prelude::*;
use std::rc::Rc;
use html5ever::tendril::TendrilSink;
use crate::query::is_named;
use crate::dom::{lemma_nodes_view_index, attrs_view, element_names, node_view, nodes_view, doc_view, Attr, Document, Element, NodeView, TreeNode};

verus! {

/// markup5ever_rcdom's tree node, carried through opaque: only the trusted
/// readers below look inside it.
#[verifier::external_type_specification]
#[verifier::external_body]
pub struct ExRcdomNode(markup5ever_rcdom::Node);

/// The tree, rooted at the document node, that the HTML tree-construction
/// algorithm builds from `bytes` read as UTF-8 with invalid sequences
/// replaced.
pub uninterp spec fn html_tree(bytes: Seq<u8>) -> NodeView;

/// What the subtree of markup5ever_rcdom below `h` holds.
pub uninterp spec fn rcdom_view(h: Rc<markup5ever_rcdom::Node>) -> NodeView;

/// The children of a parsed node.
pub open spec fn view_children(v: NodeView) -> Seq<NodeView> {
    match v {
        NodeView::Element(_, _, cs) => cs,
        NodeView::Text(_) => Seq::empty(),
        NodeView::Other(cs) => cs,
    }
}

/// A parsed node with every node of another kind below it left out.
pub open spec fn pruned(v: NodeView) -> NodeView
    decreases v, 0nat,
{
    match v {
        NodeView::Element(n, a, cs) => NodeView::Element(n, a, pruned_all(cs, cs.len())),
        NodeView::Text(t) => NodeView::Text(t),
        NodeView::Other(cs) => NodeView::Other(pruned_all(cs, cs.len())),
    }
}

/// The first `k` nodes of `vs` without those of another kind, each pruned.
pub open spec fn pruned_all(vs: Seq<NodeView>, k: nat) -> Seq<NodeView>
    decreases vs, k,
{
    if k == 0 || k > vs.len() {
        Seq::empty()
    } else {
        let prev = pruned_all(vs, (k - 1) as nat);
        match vs[k - 1] {
            NodeView::Other(_) => prev,
            _ => prev.push(pruned(vs[k - 1])),
        }
    }
}

/// The nodes that a document keeps from the parsed document node `root`.
pub open spec fn kept_nodes(root: NodeView) -> Seq<NodeView> {
    pruned_all(view_children(root), view_children(root).len())
}

/// The shape every parsed document has: one element under the document node
/// besides doctypes and comments, `html`, whose element children begin with
/// `head` and then `body` (or `frameset`).
pub open spec fn html_shape(root: NodeView) -> bool {
    let top = kept_nodes(root);
    &&& top.len() == 1
    &&& top[0] is Element
    &&& top[0]->Element_0 == "html"@
    &&& element_names(top[0]->Element_2).len() >= 2
    &&& element_names(top[0]->Element_2)[0] == "head"@
    &&& (element_names(top[0]->Element_2)[1] == "body"@ || element_names(top[0]->Element_2)[1]
        == "frameset"@)
}

/// The longest input that html5ever's tendrils take: one tendril holds at
/// most `u32::MAX` bytes, and each replaced byte grows to three.
pub open spec fn max_html_len() -> nat {
    0x5555_5555
}

/// Whether `bytes` is short enough for `normalize`.
pub fn fits_html_limit(bytes: &[u8]) -> (r: bool)
    ensures
        r == (bytes@.len() <= max_html_len()),
{
    bytes.len() <= 0x5555_5555
}

/// What a parsed node holds that the tree keeps.
enum ParsedKind {
    Element(String, Vec<Attr>),
    Text(String),
    /// The document node, a doctype, a comment or a processing instruction.
    Other,
}

/// Relies on html5ever::parse_document with markup5ever_rcdom's RcDom, fed
/// through html5ever's lossy UTF-8 decoder: the document node of the tree
/// that the HTML tree-construction algorithm builds from `bytes`, which
/// always holds `html` with `head` and then `body` or `frameset`. Inputs
/// past tendril's length limit are left out.
#[verifier::external_body]
fn parse_html(bytes: &[u8]) -> (r: Rc<markup5ever_rcdom::Node>)
    requires
        bytes@.len() <= max_html_len(),
    ensures
        rcdom_view(r) == html_tree(bytes@),
        html_shape(rcdom_view(r)),
{
    let dom = html5ever::parse_document(
        markup5ever_rcdom::RcDom::default(),
        html5ever::ParseOpts::default(),
    ).from_utf8().one(bytes);
    dom.document
}

/// Relies on markup5ever_rcdom::Node's `children`: the node's children, in
/// document order.
#[verifier::external_body]
fn child_handles(h: &Rc<markup5ever_rcdom::Node>) -> (r: Vec<Rc<markup5ever_rcdom::Node>>)
    ensures
        r@.len() == view_children(rcdom_view(*h)).len(),
        forall|i: int| 0 <= i < r@.len() ==> rcdom_view(#[trigger] r@[i]) == view_children(rcdom_view(*h))[i],
{
    h.children.borrow().clone()
}

/// Relies on markup5ever_rcdom::Node's `data`: an element's local name and
/// its attributes by local name, in order, or a text node's contents.
#[verifier::external_body]
fn node_kind(h: &Rc<markup5ever_rcdom::Node>) -> (r: ParsedKind)
    ensures
        match (r, rcdom_view(*h)) {
            (ParsedKind::Element(n, a), NodeView::Element(vn, va, _)) => n@ == vn && attrs_view(a@) == va,
            (ParsedKind::Text(t), NodeView::Text(vt)) => t@ == vt,
            (ParsedKind::Other, NodeView::Other(_)) => true,
            _ => false,
        },
{
    match &h.data {
        markup5ever_rcdom::NodeData::Element { name, attrs, .. } => ParsedKind::Element(
            name.local.to_string(),
            attrs.borrow().iter().map(
                |a| Attr { name: a.name.local.to_string(), value: a.value.to_string() },
            ).collect(),
        ),
        markup5ever_rcdom::NodeData::Text { contents } => ParsedKind::Text(
            contents.borrow().to_string(),
        ),
        _ => ParsedKind::Other,
    }
}

/// The tree below the parsed node `h`; `None` for a node of another kind.
fn convert(h: &Rc<markup5ever_rcdom::Node>) -> (r: Option<TreeNode>)
    ensures
        match r {
            Some(n) => !(rcdom_view(*h) is Other) && node_view(n) == pruned(rcdom_view(*h)),
            None => rcdom_view(*h) is Other,
        },
    decreases rcdom_view(*h), 1nat,
{
    match node_kind(h) {
        ParsedKind::Text(s) => Some(TreeNode::Text(s)),
        ParsedKind::Other => None,
        ParsedKind::Element(name, attrs) => {
            let children = convert_all(h);
            let r = Element { name, attrs, children };
            assert(node_view(TreeNode::Element(r)) == pruned(rcdom_view(*h)));
            Some(TreeNode::Element(r))
        },
    }
}

/// The trees below the children of the parsed node `parent`, in order,
/// without the nodes of another kind.
fn convert_all(parent: &Rc<markup5ever_rcdom::Node>) -> (r: Vec<TreeNode>)
    ensures
        nodes_view(r@, r@.len()) == pruned_all(
            view_children(rcdom_view(*parent)),
            view_children(rcdom_view(*parent)).len(),
        ),
    decreases rcdom_view(*parent), 0nat,
{
    let hs = child_handles(parent);
    let ghost vs = view_children(rcdom_view(*parent));
    let mut out: Vec<TreeNode> = Vec::new();
    let mut i: usize = 0;
    while i < hs.len()
        invariant
            vs == view_children(rcdom_view(*parent)),
            hs@.len() == vs.len(),
            forall|k: int| 0 <= k < hs@.len() ==> rcdom_view(#[trigger] hs@[k]) == vs[k],
            i <= hs@.len(),
            nodes_view(out@, out@.len()) == pruned_all(vs, i as nat),
        decreases hs@.len() - i,
    {
        proof {
            assert(rcdom_view(hs@[i as int]) == vs[i as int]);
            assert(decreases_to!(rcdom_view(*parent) => vs));
            assert(decreases_to!(vs => vs[i as int]));
        }
        match convert(&hs[i]) {
            Some(n) => {
                let ghost before = out@;
                out.push(n);
                proof {
                    lemma_nodes_view_push(before, n);
                }
            },
            None => {},
        }
        i = i + 1;
    }
    out
}

/// The views of `kids` with `n` added are those of `kids` with its view added.
proof fn lemma_nodes_view_push(kids: Seq<TreeNode>, n: TreeNode)
    ensures
        nodes_view(kids.push(n), kids.len() + 1) == nodes_view(kids, kids.len()).push(node_view(n)),
{
    lemma_nodes_view_prefix(kids.push(n), kids, kids.len());
}

/// The views of the first `k` nodes depend on those nodes alone.
proof fn lemma_nodes_view_prefix(a: Seq<TreeNode>, b: Seq<TreeNode>, k: nat)
    requires
        k <= a.len(),
        k <= b.len(),
        forall|i: int| 0 <= i < k ==> a[i] == b[i],
    ensures
        nodes_view(a, k) == nodes_view(b, k),
    decreases k,
{
    if k > 0 {
        lemma_nodes_view_prefix(a, b, (k - 1) as nat);
    }
}

/// The document that `bytes`, read as UTF-8 with invalid sequences replaced,
/// parses to under the HTML tree-construction algorithm: elements and text,
/// with implied elements inserted and unclosed ones closed; doctypes,
/// comments and processing instructions are left out. It holds one element,
/// `html`, whose element children begin with `head` and then `body` (or
/// `frameset`).
pub fn normalize(bytes: &[u8]) -> (r: Document)
    requires
        bytes@.len() <= max_html_len(),
    ensures
        doc_view(r) == kept_nodes(html_tree(bytes@)),
        html_shape(html_tree(bytes@)),
        r.nodes@.len() == 1,
        is_named(r.nodes@[0], "html"@),
{
    let root = parse_html(bytes);
    let r = Document { nodes: convert_all(&root) };
    proof {
        lemma_nodes_view_index(r.nodes@, r.nodes@.len());
        assert(node_view(r.nodes@[0]) == doc_view(r)[0]);
    }
    r
}

/// Normalizing the same bytes twice gives the same document.
pub proof fn lemma_normalize_deterministic(bytes: Seq<u8>, a: Document, b: Document)
    requires
        doc_view(a) == kept_nodes(html_tree(bytes)),
        doc_view(b) == kept_nodes(html_tree(bytes)),
    ensures
        doc_view(a) == doc_view(b),
{
}

} // verus!
