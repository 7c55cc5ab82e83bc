//! The normalized document tree and the field extractor.
use vstd::prelude::*;

verus! {

broadcast use vstd::std_specs::vec::group_vec_axioms;

/// One attribute of an element.
pub struct Attr {
    pub name: String,
    pub value: String,
}

/// An element: its tag name, its attributes (keys unique, in source order)
/// and its children in document order.
pub struct Element {
    pub name: String,
    pub attrs: Vec<Attr>,
    pub children: Vec<TreeNode>,
}

/// A node of a normalized document.
pub enum TreeNode {
    Element(Element),
    Text(String),
}

/// A normalized document: the nodes directly under the document node.
pub struct Document {
    pub nodes: Vec<TreeNode>,
}

/// A reference to one node of a document: the child index taken at each
/// level, starting from the document node. The empty path names no node.
pub struct NodeMatch {
    pub path: Vec<usize>,
}

/// The concatenated character data of every text node under `n`, depth first.
pub open spec fn text_of(n: TreeNode) -> Seq<char>
    decreases n, 0nat,
{
    match n {
        TreeNode::Text(s) => s@,
        TreeNode::Element(e) => texts_of(e.children@, e.children@.len()),
    }
}

/// The text of the first `k` nodes of `kids`, one after the other.
pub open spec fn texts_of(kids: Seq<TreeNode>, k: nat) -> Seq<char>
    decreases kids, k,
{
    if k == 0 || k > kids.len() {
        Seq::empty()
    } else {
        texts_of(kids, (k - 1) as nat) + text_of(kids[k - 1])
    }
}

/// The children of a node: those of an element, none for text.
pub open spec fn children_of(n: TreeNode) -> Seq<TreeNode> {
    match n {
        TreeNode::Element(e) => e.children@,
        TreeNode::Text(_) => Seq::empty(),
    }
}

/// The node that `p` leads to from the list of siblings `kids`, if any.
pub open spec fn node_at(kids: Seq<TreeNode>, p: Seq<usize>) -> Option<TreeNode>
    decreases p.len(),
{
    if p.len() == 0 || p[0] >= kids.len() {
        None
    } else if p.len() == 1 {
        Some(kids[p[0] as int])
    } else {
        node_at(children_of(kids[p[0] as int]), p.drop_first())
    }
}

/// The node of `doc` that `p` leads to, if any.
pub open spec fn resolve(doc: Document, p: Seq<usize>) -> Option<TreeNode> {
    node_at(doc.nodes@, p)
}

/// The value of the first attribute of `attrs` named `name`.
pub open spec fn find_attr(attrs: Seq<Attr>, name: Seq<char>) -> Option<Seq<char>>
    decreases attrs.len(),
{
    if attrs.len() == 0 {
        None
    } else if attrs[0].name@ == name {
        Some(attrs[0].value@)
    } else {
        find_attr(attrs.drop_first(), name)
    }
}

/// The value of the attribute `name` of `n`; text nodes have no attributes.
pub open spec fn attr_of(n: TreeNode, name: Seq<char>) -> Option<Seq<char>> {
    match n {
        TreeNode::Element(e) => find_attr(e.attrs@, name),
        TreeNode::Text(_) => None,
    }
}

/// The view of an optional string.
pub open spec fn opt_view(o: Option<String>) -> Option<Seq<char>> {
    match o {
        Some(s) => Some(s@),
        None => None,
    }
}

/// Whether two strings hold the same characters.
pub fn same_chars(a: &str, b: &str) -> (r: bool)
    ensures
        r == (a@ == b@),
{
    let n = a.unicode_len();
    if n != b.unicode_len() {
        return false;
    }
    let mut i: usize = 0;
    while i < n
        invariant
            n == a@.len(),
            n == b@.len(),
            i <= n,
            a@.take(i as int) =~= b@.take(i as int),
        decreases n - i,
    {
        if a.get_char(i) != b.get_char(i) {
            return false;
        }
        assert(a@.take(i + 1) =~= a@.take(i as int).push(a@[i as int]));
        assert(b@.take(i + 1) =~= b@.take(i as int).push(b@[i as int]));
        i = i + 1;
    }
    assert(a@ =~= a@.take(n as int));
    assert(b@ =~= b@.take(n as int));
    true
}

/// Appends the text under `n` to `out`.
fn collect_text(n: &TreeNode, out: &mut String)
    ensures
        final(out)@ == old(out)@ + text_of(*n),
    decreases n,
{
    match n {
        TreeNode::Text(s) => {
            out.append(s.as_str());
        },
        TreeNode::Element(e) => {
            let mut i: usize = 0;
            while i < e.children.len()
                invariant
                    *n == TreeNode::Element(*e),
                    i <= e.children@.len(),
                    out@ == old(out)@ + texts_of(e.children@, i as nat),
                decreases e.children@.len() - i,
            {
                proof {
                    let ghost nn: TreeNode = *n;
                    assert(decreases_to!(nn => nn->Element_0));
                    assert(decreases_to!(nn->Element_0 => nn->Element_0.children));
                    assert(decreases_to!(nn->Element_0.children => nn->Element_0.children@));
                    assert(decreases_to!(nn->Element_0.children@ => nn->Element_0.children@[i as int]));
                }
                collect_text(&e.children[i], out);
                proof {
                    assert(texts_of(e.children@, (i + 1) as nat) == texts_of(e.children@, i as nat)
                        + text_of(e.children@[i as int]));
                    vstd::seq_lib::lemma_concat_associative(old(out)@, texts_of(e.children@, i as nat), text_of(e.children@[i as int]));
                }
                i = i + 1;
            }
        },
    }
}

/// The text content of `n`: its descendant text, concatenated depth first.
pub fn node_text(n: &TreeNode) -> (r: String)
    ensures
        r@ == text_of(*n),
{
    let mut out = String::new();
    collect_text(n, &mut out);
    assert(out@ =~= text_of(*n));
    out
}

/// The value of the attribute `name` of `n`, or `None` where `n` has no such
/// attribute.
pub fn attribute(n: &TreeNode, name: &str) -> (r: Option<String>)
    ensures
        opt_view(r) == attr_of(*n, name@),
{
    match n {
        TreeNode::Text(_) => None,
        TreeNode::Element(e) => {
            let mut i: usize = 0;
            assert(e.attrs@.skip(0) =~= e.attrs@);
            while i < e.attrs.len()
                invariant
                    *n == TreeNode::Element(*e),
                    i <= e.attrs@.len(),
                    find_attr(e.attrs@, name@) == find_attr(e.attrs@.skip(i as int), name@),
                decreases e.attrs@.len() - i,
            {
                assert(e.attrs@.skip(i as int)[0] == e.attrs@[i as int]);
                if same_chars(e.attrs[i].name.as_str(), name) {
                    assert(find_attr(e.attrs@.skip(i as int), name@) == Some(e.attrs@[i as int].value@));
                    return Some(e.attrs[i].value.clone());
                }
                assert(e.attrs@.skip(i as int).drop_first() =~= e.attrs@.skip(i + 1));
                i = i + 1;
            }
            None
        },
    }
}

/// The node that `p` leads to from the siblings `kids`, if any.
pub fn node_at_path<'a>(kids: &'a Vec<TreeNode>, p: &Vec<usize>) -> (r: Option<&'a TreeNode>)
    ensures
        match r {
            Some(x) => node_at(kids@, p@) == Some(*x),
            None => node_at(kids@, p@) is None,
        },
{
    if p.len() == 0 {
        return None;
    }
    let mut cur: &Vec<TreeNode> = kids;
    let mut i: usize = 0;
    assert(p@.skip(0) =~= p@);
    loop
        invariant
            i < p@.len(),
            node_at(kids@, p@) == node_at(cur@, p@.skip(i as int)),
        decreases p@.len() - i,
    {
        let j = p[i];
        assert(p@.skip(i as int)[0] == j);
        assert(p@.skip(i as int).drop_first() =~= p@.skip(i + 1));
        if j >= cur.len() {
            return None;
        }
        if i == p.len() - 1 {
            return Some(&cur[j]);
        }
        match &cur[j] {
            TreeNode::Element(e) => {
                cur = &e.children;
            },
            TreeNode::Text(_) => {
                assert(node_at(Seq::<TreeNode>::empty(), p@.skip(i + 1)) is None);
                return None;
            },
        }
        i = i + 1;
    }
}

/// The text content of the node that `m` names in `doc`, or `None` where `m`
/// names no node of `doc`. A node without text below it gives `Some("")`.
pub fn text(doc: &Document, m: &NodeMatch) -> (r: Option<String>)
    ensures
        opt_view(r) == match resolve(*doc, m.path@) {
            Some(n) => Some(text_of(n)),
            None => None,
        },
{
    match node_at_path(&doc.nodes, &m.path) {
        Some(n) => Some(node_text(n)),
        None => None,
    }
}

/// Whether no text node lies at or below `n`.
pub open spec fn text_free(n: TreeNode) -> bool
    decreases n, 0nat,
{
    match n {
        TreeNode::Text(_) => false,
        TreeNode::Element(e) => all_text_free(e.children@, e.children@.len()),
    }
}

/// Whether no text node lies at or below any of the first `k` nodes of `kids`.
pub open spec fn all_text_free(kids: Seq<TreeNode>, k: nat) -> bool
    decreases kids, k,
{
    if k == 0 || k > kids.len() {
        true
    } else {
        all_text_free(kids, (k - 1) as nat) && text_free(kids[k - 1])
    }
}

/// A node with no text below it has the empty text, which `text` returns
/// as `Some("")`, apart from the `None` of a match that names no node.
pub proof fn lemma_text_free_node_has_empty_text(n: TreeNode)
    requires
        text_free(n),
    ensures
        text_of(n) == Seq::<char>::empty(),
    decreases n, 0nat,
{
    match n {
        TreeNode::Text(_) => {},
        TreeNode::Element(e) => {
            lemma_text_free_nodes_have_empty_text(e.children@, e.children@.len());
        },
    }
}

/// The first `k` nodes of `kids`, with no text below them, have the empty text.
pub proof fn lemma_text_free_nodes_have_empty_text(kids: Seq<TreeNode>, k: nat)
    requires
        all_text_free(kids, k),
    ensures
        texts_of(kids, k) == Seq::<char>::empty(),
    decreases kids, k,
{
    if k > 0 && k <= kids.len() {
        lemma_text_free_nodes_have_empty_text(kids, (k - 1) as nat);
        lemma_text_free_node_has_empty_text(kids[k - 1]);
        assert(Seq::<char>::empty() + Seq::<char>::empty() =~= Seq::<char>::empty());
    }
}

/// A parsed node as plain values: an element with its tag name, its
/// attributes as name and value, and its children; a text node; or another
/// kind of node (the document node, a doctype, a comment) with its children.
pub enum NodeView {
    Element(Seq<char>, Seq<(Seq<char>, Seq<char>)>, Seq<NodeView>),
    Text(Seq<char>),
    Other(Seq<NodeView>),
}

/// The attributes of an element, as names and values.
pub open spec fn attrs_view(attrs: Seq<Attr>) -> Seq<(Seq<char>, Seq<char>)> {
    attrs.map_values(|a: Attr| (a.name@, a.value@))
}

/// The view of a node of the tree.
pub open spec fn node_view(n: TreeNode) -> NodeView
    decreases n, 0nat,
{
    match n {
        TreeNode::Text(s) => NodeView::Text(s@),
        TreeNode::Element(e) => NodeView::Element(
            e.name@,
            attrs_view(e.attrs@),
            nodes_view(e.children@, e.children@.len()),
        ),
    }
}

/// The views of the first `k` nodes of `kids`.
pub open spec fn nodes_view(kids: Seq<TreeNode>, k: nat) -> Seq<NodeView>
    decreases kids, k,
{
    if k == 0 || k > kids.len() {
        Seq::empty()
    } else {
        nodes_view(kids, (k - 1) as nat).push(node_view(kids[k - 1]))
    }
}

/// The view of a document: the views of the nodes under the document node.
pub open spec fn doc_view(doc: Document) -> Seq<NodeView> {
    nodes_view(doc.nodes@, doc.nodes@.len())
}

/// The tag names of the elements among `vs`, in order.
pub open spec fn element_names(vs: Seq<NodeView>) -> Seq<Seq<char>>
    decreases vs.len(),
{
    if vs.len() == 0 {
        Seq::empty()
    } else {
        let rest = element_names(vs.drop_last());
        match vs.last() {
            NodeView::Element(name, _, _) => rest.push(name),
            _ => rest,
        }
    }
}

/// The views of the first `k` nodes are `k` views, each of its node.
pub proof fn lemma_nodes_view_index(kids: Seq<TreeNode>, k: nat)
    requires
        k <= kids.len(),
    ensures
        nodes_view(kids, k).len() == k,
        forall|i: int| 0 <= i < k ==> #[trigger] nodes_view(kids, k)[i] == node_view(kids[i]),
    decreases k,
{
    if k > 0 {
        lemma_nodes_view_index(kids, (k - 1) as nat);
    }
}

} // verus!
