//! Positional path queries over a normalized document.
use vstd::prelude::*;
use crate::dom::{children_of, node_at, node_at_path, resolve, same_chars, Document, TreeNode, NodeMatch};

verus! {

/// One step of a path: the children named `name`, or only the
/// `position`-th of them (counted from 1) where a position is given.
pub struct Step {
    pub name: String,
    pub position: Option<usize>,
}

/// A positional path expression: its steps, from the context node down.
pub struct PathExpr {
    pub steps: Vec<Step>,
}

/// Whether `n` is an element with the tag name `name`.
pub open spec fn is_named(n: TreeNode, name: Seq<char>) -> bool {
    match n {
        TreeNode::Element(e) => e.name@ == name,
        TreeNode::Text(_) => false,
    }
}

/// The positions below `k` of the elements of `kids` named `name`, in order.
pub open spec fn named_positions(kids: Seq<TreeNode>, name: Seq<char>, k: nat) -> Seq<usize>
    decreases k,
{
    if k == 0 || k > kids.len() {
        Seq::empty()
    } else {
        let prev = named_positions(kids, name, (k - 1) as nat);
        if is_named(kids[k - 1], name) {
            prev.push((k - 1) as usize)
        } else {
            prev
        }
    }
}

/// The positions among `kids` that `step` selects, in document order.
pub open spec fn selected(kids: Seq<TreeNode>, step: Step) -> Seq<usize> {
    let all = named_positions(kids, step.name@, kids.len());
    match step.position {
        None => all,
        Some(p) => if 1 <= p <= all.len() {
            seq![all[p - 1]]
        } else {
            Seq::empty()
        },
    }
}

/// Each path of `ps`, with `j` put in front.
pub open spec fn prefixed(j: usize, ps: Seq<Seq<usize>>) -> Seq<Seq<usize>> {
    ps.map_values(|p: Seq<usize>| seq![j] + p)
}

/// The paths, relative to the siblings `kids`, of the nodes that `steps`
/// selects, in document order. No steps select nothing.
pub open spec fn eval_in(kids: Seq<TreeNode>, steps: Seq<Step>) -> Seq<Seq<usize>>
    decreases steps.len(), 1nat, 0nat,
{
    if steps.len() == 0 {
        Seq::empty()
    } else {
        let sel = selected(kids, steps[0]);
        gather(kids, sel, steps.drop_first(), sel.len())
    }
}

/// The matches of `rest` under each of the first `k` positions of `sel`.
pub open spec fn gather(kids: Seq<TreeNode>, sel: Seq<usize>, rest: Seq<Step>, k: nat) -> Seq<Seq<usize>>
    decreases rest.len() + 1, 0nat, k,
{
    if k == 0 || k > sel.len() {
        Seq::empty()
    } else {
        let j = sel[k - 1];
        gather(kids, sel, rest, (k - 1) as nat) + if rest.len() == 0 {
            seq![seq![j]]
        } else {
            prefixed(j, eval_in(children_of(kids[j as int]), rest))
        }
    }
}

/// The paths that a sequence of matches holds.
pub open spec fn paths_of(ms: Seq<NodeMatch>) -> Seq<Seq<usize>> {
    ms.map_values(|m: NodeMatch| m.path@)
}

/// What `evaluate` returns: the matches of `expr` from the document node.
pub open spec fn evaluate_spec(doc: Document, expr: PathExpr) -> Seq<Seq<usize>> {
    eval_in(doc.nodes@, expr.steps@)
}

/// What `evaluate_relative` returns: the matches of `expr` below the node
/// that `ctx` names, as paths from the document node; none where `ctx`
/// names no node.
pub open spec fn evaluate_relative_spec(doc: Document, ctx: Seq<usize>, expr: PathExpr) -> Seq<Seq<usize>> {
    match resolve(doc, ctx) {
        Some(n) => eval_in(children_of(n), expr.steps@).map_values(|p: Seq<usize>| ctx + p),
        None => Seq::empty(),
    }
}

/// Following `a` and then `b` leads where following `b` from the node at `a` does.
pub proof fn lemma_node_at_concat(kids: Seq<TreeNode>, a: Seq<usize>, b: Seq<usize>)
    requires
        node_at(kids, a) is Some,
        b.len() > 0,
    ensures
        node_at(kids, a + b) == node_at(children_of(node_at(kids, a)->0), b),
    decreases a.len(),
{
    assert((a + b)[0] == a[0]);
    if a.len() == 1 {
        assert((a + b).drop_first() =~= b);
    } else {
        assert((a + b).drop_first() =~= a.drop_first() + b);
        lemma_node_at_concat(children_of(kids[a[0] as int]), a.drop_first(), b);
    }
}

/// The path `a` followed by `b`.
fn join_paths(a: &Vec<usize>, b: &Vec<usize>) -> (r: Vec<usize>)
    ensures
        r@ == a@ + b@,
{
    let mut r: Vec<usize> = Vec::new();
    let mut i: usize = 0;
    while i < a.len()
        invariant
            i <= a@.len(),
            r@ == a@.take(i as int),
        decreases a@.len() - i,
    {
        r.push(a[i]);
        assert(a@.take(i + 1) =~= a@.take(i as int).push(a@[i as int]));
        i = i + 1;
    }
    let mut t: usize = 0;
    assert(a@.take(a@.len() as int) =~= a@);
    while t < b.len()
        invariant
            t <= b@.len(),
            r@ == a@ + b@.take(t as int),
        decreases b@.len() - t,
    {
        r.push(b[t]);
        assert(a@ + b@.take(t + 1) =~= (a@ + b@.take(t as int)).push(b@[t as int]));
        t = t + 1;
    }
    assert(b@.take(b@.len() as int) =~= b@);
    r
}

/// The positions among `kids` that `step` selects.
fn select(kids: &Vec<TreeNode>, step: &Step) -> (r: Vec<usize>)
    ensures
        r@ == selected(kids@, *step),
        forall|t: int| 0 <= t < r@.len() ==> r@[t] < kids@.len(),
{
    let mut all: Vec<usize> = Vec::new();
    let mut i: usize = 0;
    while i < kids.len()
        invariant
            i <= kids@.len(),
            all@ == named_positions(kids@, step.name@, i as nat),
            forall|t: int| 0 <= t < all@.len() ==> all@[t] < i,
        decreases kids@.len() - i,
    {
        let hit = match &kids[i] {
            TreeNode::Element(e) => same_chars(e.name.as_str(), step.name.as_str()),
            TreeNode::Text(_) => false,
        };
        if hit {
            all.push(i);
        }
        i = i + 1;
    }
    match step.position {
        None => all,
        Some(p) => {
            let mut r: Vec<usize> = Vec::new();
            if 1 <= p && p <= all.len() {
                r.push(all[p - 1]);
            }
            assert(r@ =~= selected(kids@, *step));
            r
        },
    }
}

/// The matches of `steps[from..]` below the siblings `kids`.
fn eval_from(kids: &Vec<TreeNode>, steps: &Vec<Step>, from: usize) -> (r: Vec<NodeMatch>)
    requires
        from <= steps@.len(),
    ensures
        paths_of(r@) == eval_in(kids@, steps@.skip(from as int)),
        forall|t: int| 0 <= t < r@.len() ==> node_at(kids@, #[trigger] r@[t].path@) is Some,
    decreases steps@.len() - from,
{
    if from == steps.len() {
        let r: Vec<NodeMatch> = Vec::new();
        assert(paths_of(r@) =~= Seq::empty());
        return r;
    }
    let sel = select(kids, &steps[from]);
    let ghost rest = steps@.skip(from + 1);
    assert(steps@.skip(from as int).drop_first() =~= rest);
    assert(steps@.skip(from as int)[0] == steps@[from as int]);
    let mut out: Vec<NodeMatch> = Vec::new();
    let mut k: usize = 0;
    assert(paths_of(out@) =~= Seq::empty());
    while k < sel.len()
        invariant
            from < steps@.len(),
            rest == steps@.skip(from + 1),
            k <= sel@.len(),
            sel@ == selected(kids@, steps@[from as int]),
            forall|t: int| 0 <= t < sel@.len() ==> sel@[t] < kids@.len(),
            paths_of(out@) == gather(kids@, sel@, rest, k as nat),
            forall|t: int| 0 <= t < out@.len() ==> node_at(kids@, #[trigger] out@[t].path@) is Some,
        decreases sel@.len() - k,
    {
        let j = sel[k];
        if from == steps.len() - 1 {
            let mut p: Vec<usize> = Vec::new();
            p.push(j);
            let ghost before = out@;
            out.push(NodeMatch { path: p });
            assert(paths_of(out@) =~= paths_of(before) + seq![seq![j]]);
            assert(out@[out@.len() - 1].path@ == seq![j]);
        } else {
            match &kids[j] {
                TreeNode::Element(e) => {
                    let sub = eval_from(&e.children, steps, from + 1);
                    let ghost before = out@;
                    let mut head: Vec<usize> = Vec::new();
                    head.push(j);
                    let mut t: usize = 0;
                    while t < sub.len()
                        invariant
                            kids@[j as int] == TreeNode::Element(*e),
                            j < kids@.len(),
                            head@ == seq![j],
                            t <= sub@.len(),
                            paths_of(sub@) == eval_in(e.children@, rest),
                            forall|u: int| 0 <= u < sub@.len() ==> node_at(e.children@, #[trigger] sub@[u].path@) is Some,
                            paths_of(out@) == paths_of(before) + prefixed(j, paths_of(sub@)).take(t as int),
                            forall|u: int| 0 <= u < out@.len() ==> node_at(kids@, #[trigger] out@[u].path@) is Some,
                        decreases sub@.len() - t,
                    {
                        let q = join_paths(&head, &sub[t].path);
                        proof {
                            let sp = sub@[t as int].path@;
                            assert(node_at(e.children@, sp) is Some);
                            assert(sp.len() > 0);
                            assert(q@[0] == j);
                            assert(q@.drop_first() =~= sp);
                        }
                        let ghost mid = out@;
                        out.push(NodeMatch { path: q });
                        assert(prefixed(j, paths_of(sub@)).take(t + 1) =~= prefixed(j, paths_of(sub@)).take(t as int).push(q@));
                        assert(paths_of(out@) =~= paths_of(mid).push(q@));
                        assert(out@[out@.len() - 1].path@ == q@);
                        t = t + 1;
                    }
                    assert(prefixed(j, paths_of(sub@)).take(sub@.len() as int) =~= prefixed(j, paths_of(sub@)));
                },
                TreeNode::Text(_) => {
                    assert(named_positions(Seq::<TreeNode>::empty(), rest[0].name@, 0) =~= Seq::empty());
                    assert(eval_in(Seq::<TreeNode>::empty(), rest) =~= Seq::empty());
                    assert(prefixed(j, Seq::empty()) =~= Seq::empty());
                    assert(gather(kids@, sel@, rest, (k + 1) as nat) =~= gather(kids@, sel@, rest, k as nat));
                },
            }
        }
        k = k + 1;
    }
    out
}

/// The nodes of `doc` that `expr` selects from the document node, in
/// document order. Every match names a node of `doc`; an expression without
/// steps, or one that nothing satisfies, gives no match.
pub fn evaluate(doc: &Document, expr: &PathExpr) -> (r: Vec<NodeMatch>)
    ensures
        paths_of(r@) == evaluate_spec(*doc, *expr),
        forall|t: int| 0 <= t < r@.len() ==> resolve(*doc, #[trigger] r@[t].path@) is Some,
{
    assert(expr.steps@.skip(0) =~= expr.steps@);
    eval_from(&doc.nodes, &expr.steps, 0)
}

/// The nodes below the node that `ctx` names that `expr` selects, in
/// document order, as matches in `doc`. A context that names no node, or a
/// text node, gives no match.
pub fn evaluate_relative(doc: &Document, ctx: &NodeMatch, expr: &PathExpr) -> (r: Vec<NodeMatch>)
    ensures
        paths_of(r@) == evaluate_relative_spec(*doc, ctx.path@, *expr),
        forall|t: int| 0 <= t < r@.len() ==> resolve(*doc, #[trigger] r@[t].path@) is Some,
{
    let mut out: Vec<NodeMatch> = Vec::new();
    match node_at_path(&doc.nodes, &ctx.path) {
        None => {
            assert(paths_of(out@) =~= evaluate_relative_spec(*doc, ctx.path@, *expr));
            out
        },
        Some(TreeNode::Text(_)) => {
            assert(named_positions(Seq::<TreeNode>::empty(), expr.steps@[0].name@, 0) =~= Seq::empty());
            assert(eval_in(Seq::<TreeNode>::empty(), expr.steps@) =~= Seq::empty());
            assert(paths_of(out@) =~= evaluate_relative_spec(*doc, ctx.path@, *expr));
            out
        },
        Some(TreeNode::Element(e)) => {
            assert(expr.steps@.skip(0) =~= expr.steps@);
            let sub = eval_from(&e.children, &expr.steps, 0);
            let ghost whole = paths_of(sub@).map_values(|p: Seq<usize>| ctx.path@ + p);
            let mut t: usize = 0;
            while t < sub.len()
                invariant
                    resolve(*doc, ctx.path@) == Some(TreeNode::Element(*e)),
                    t <= sub@.len(),
                    whole == paths_of(sub@).map_values(|p: Seq<usize>| ctx.path@ + p),
                    forall|u: int| 0 <= u < sub@.len() ==> node_at(e.children@, #[trigger] sub@[u].path@) is Some,
                    paths_of(out@) == whole.take(t as int),
                    forall|u: int| 0 <= u < out@.len() ==> resolve(*doc, #[trigger] out@[u].path@) is Some,
                decreases sub@.len() - t,
            {
                let q = join_paths(&ctx.path, &sub[t].path);
                proof {
                    let sp = sub@[t as int].path@;
                    assert(node_at(e.children@, sp) is Some);
                    assert(sp.len() > 0);
                    lemma_node_at_concat(doc.nodes@, ctx.path@, sp);
                }
                let ghost mid = out@;
                out.push(NodeMatch { path: q });
                assert(whole.take(t + 1) =~= whole.take(t as int).push(q@));
                assert(paths_of(out@) =~= paths_of(mid).push(q@));
                assert(out@[out@.len() - 1].path@ == q@);
                t = t + 1;
            }
            assert(whole.take(sub@.len() as int) =~= whole);
            out
        },
    }
}

/// An expression without steps selects nothing, from any context.
pub proof fn lemma_empty_expression_matches_nothing(doc: Document, ctx: Seq<usize>, expr: PathExpr)
    requires
        expr.steps@.len() == 0,
    ensures
        evaluate_spec(doc, expr) == Seq::<Seq<usize>>::empty(),
        evaluate_relative_spec(doc, ctx, expr) =~= Seq::<Seq<usize>>::empty(),
{
}

/// An expression whose first step selects nothing from the document node
/// has no match.
pub proof fn lemma_unmatched_first_step_matches_nothing(doc: Document, expr: PathExpr)
    requires
        expr.steps@.len() > 0,
        selected(doc.nodes@, expr.steps@[0]).len() == 0,
    ensures
        evaluate_spec(doc, expr) == Seq::<Seq<usize>>::empty(),
{
}

} // verus!
