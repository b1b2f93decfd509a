//! The visitor bridge: depth-first traversal of a parsed AST, directed per
//! node by the caller's decision — continue with siblings, break off the
//! whole traversal, or recurse into the node's children first.
//!
//! The traversal's meaning is pinned down by `trace_from`: the exact ordered
//! sequence of (node, parent) pairs visited, together with whether a break
//! cut the walk short. The executable traversal is proved to follow it, and
//! to leave the visitor with exactly the state of one `on_visit` step per
//! visited node, in visit order (`fold_visits`).

use vstd::prelude::*;
use crate::ast::Tree;
use crate::cursor::Cursor;

verus! {

/// A caller's per-node traversal directive.
#[derive(Clone, Copy, Debug, PartialEq, Eq)]
pub enum ChildVisitResult {
    /// Skip this node's children; continue with its siblings.
    Continue,
    /// Terminate the entire traversal immediately.
    Break,
    /// Descend into this node's children before continuing with siblings.
    Recurse,
}

/// The engine's integer encoding of traversal directives, which crosses the
/// foreign-callback boundary as a raw value.
pub open spec fn visit_result_raw(r: ChildVisitResult) -> u32 {
    match r {
        ChildVisitResult::Break => 0,
        ChildVisitResult::Continue => 1,
        ChildVisitResult::Recurse => 2,
    }
}

impl ChildVisitResult {
    /// Encodes the directive exactly as the engine expects it.
    pub fn to_raw(&self) -> (r: u32)
        ensures
            r == visit_result_raw(*self),
    {
        match self {
            ChildVisitResult::Break => 0,
            ChildVisitResult::Continue => 1,
            ChildVisitResult::Recurse => 2,
        }
    }

    /// Decodes the engine's integer encoding; `None` outside it.
    pub fn from_raw(raw: u32) -> (r: Option<ChildVisitResult>)
        ensures
            raw == 0 ==> r == Some(ChildVisitResult::Break),
            raw == 1 ==> r == Some(ChildVisitResult::Continue),
            raw == 2 ==> r == Some(ChildVisitResult::Recurse),
            raw > 2 ==> r is None,
    {
        if raw == 0 {
            Some(ChildVisitResult::Break)
        } else if raw == 1 {
            Some(ChildVisitResult::Continue)
        } else if raw == 2 {
            Some(ChildVisitResult::Recurse)
        } else {
            None
        }
    }
}

/// Caller-supplied traversal logic together with the state it accumulates.
///
/// `decide` is the logical decision function: what the visitor answers for a
/// given node. `state` abstracts what the visitor accumulates, and
/// `on_visit` says how one visit changes it. `visit` is the executable
/// callback; it must answer as `decide` says, must change its state exactly
/// as `on_visit` says, and must not change what `decide` would answer. That
/// discipline is what makes both the visit order and the accumulated result
/// of a traversal functions of the tree and the visitor alone.
pub trait Visitor: Sized {
    /// The abstraction of the state this visitor accumulates.
    type State;

    /// The state this visitor has accumulated so far.
    spec fn state(&self) -> Self::State;

    /// The directive this visitor answers for the node at index `node` of
    /// `tree`, visited from parent index `parent`.
    spec fn decide(&self, tree: Tree, node: int, parent: int) -> ChildVisitResult;

    /// The state after one visit of the node at index `node` of `tree`,
    /// from parent index `parent`, starting from state `s`.
    spec fn on_visit(s: Self::State, tree: Tree, node: int, parent: int) -> Self::State;

    /// Visits one node and answers a directive.
    fn visit(&mut self, cursor: Cursor<'_>, parent: Cursor<'_>) -> (r: ChildVisitResult)
        requires
            cursor.wf(),
            parent.wf(),
            cursor.tree == parent.tree,
        ensures
            r == old(self).decide(*cursor.tree, cursor.node as int, parent.node as int),
            final(self).state() == Self::on_visit(
                old(self).state(),
                *cursor.tree,
                cursor.node as int,
                parent.node as int,
            ),
            forall|t: Tree, n: int, p: int|
                #[trigger] final(self).decide(t, n, p) == old(self).decide(t, n, p),
    ;
}

/// The state a visitor has accumulated after being called once per pair of a
/// trace, in order: the left fold of `on_visit` over the trace.
pub open spec fn fold_visits<V: Visitor>(s: V::State, trace: Seq<(int, int)>, tree: Tree) -> V::State
    decreases trace.len(),
{
    if trace.len() <= 0 {
        s
    } else {
        fold_visits::<V>(V::on_visit(s, tree, trace[0].0, trace[0].1), trace.drop_first(), tree)
    }
}

/// Folding along a concatenation of traces is folding along the first, then
/// along the second.
pub proof fn lemma_fold_concat<V: Visitor>(
    s: V::State,
    t1: Seq<(int, int)>,
    t2: Seq<(int, int)>,
    tree: Tree,
)
    ensures
        fold_visits::<V>(s, t1 + t2, tree) == fold_visits::<V>(
            fold_visits::<V>(s, t1, tree),
            t2,
            tree,
        ),
    decreases t1.len(),
{
    if t1.len() == 0 {
        assert(t1 + t2 =~= t2);
    } else {
        assert((t1 + t2).drop_first() =~= t1.drop_first() + t2);
        assert((t1 + t2)[0] == t1[0]);
        lemma_fold_concat::<V>(V::on_visit(s, tree, t1[0].0, t1[0].1), t1.drop_first(), t2, tree);
    }
}

/// Folding along a trace extended by one pair is folding along the trace and
/// then taking one `on_visit` step.
pub proof fn lemma_fold_one<V: Visitor>(s: V::State, t: Seq<(int, int)>, p: (int, int), tree: Tree)
    ensures
        fold_visits::<V>(s, t + seq![p], tree) == V::on_visit(
            fold_visits::<V>(s, t, tree),
            tree,
            p.0,
            p.1,
        ),
{
    lemma_fold_concat::<V>(s, t, seq![p], tree);
    let single = seq![p];
    let mid = fold_visits::<V>(s, t, tree);
    assert(single.drop_first() =~= Seq::<(int, int)>::empty());
    assert(fold_visits::<V>(mid, single, tree) == fold_visits::<V>(
        V::on_visit(mid, tree, p.0, p.1),
        single.drop_first(),
        tree,
    ));
    assert(fold_visits::<V>(V::on_visit(mid, tree, p.0, p.1), single.drop_first(), tree)
        == V::on_visit(mid, tree, p.0, p.1));
}

/// The visited (node, parent) pairs, in order, when the traversal stands at
/// child position `k` of the node at `parent`, together with whether a break
/// ended the whole traversal. This is the meaning of the visitation
/// protocol: visit the child; on `Break` stop everything; on `Continue` move
/// to the next sibling; on `Recurse` first walk the child's own children,
/// stopping everything if that walk broke.
pub open spec fn trace_from<V: Visitor>(tree: Tree, parent: int, k: int, v: V) -> (Seq<(int, int)>,
    bool)
    decreases tree.nodes@.len() - parent, tree.kids(parent).len() - k,
        when tree.wf() && 0 <= parent < tree.nodes@.len() && 0 <= k
{
    if k >= tree.kids(parent).len() {
        (Seq::empty(), false)
    } else {
        let c = tree.kids(parent)[k] as int;
        let first = seq![(c, parent)];
        match v.decide(tree, c, parent) {
            ChildVisitResult::Break => (first, true),
            ChildVisitResult::Continue => {
                let rest = trace_from(tree, parent, k + 1, v);
                (first + rest.0, rest.1)
            },
            ChildVisitResult::Recurse => {
                let sub = trace_from(tree, c, 0, v);
                if sub.1 {
                    (first + sub.0, true)
                } else {
                    let rest = trace_from(tree, parent, k + 1, v);
                    (first + sub.0 + rest.0, rest.1)
                }
            },
        }
    }
}

/// The full visit order of a traversal started at `root`.
pub open spec fn visit_trace<V: Visitor>(tree: Tree, root: int, v: V) -> Seq<(int, int)> {
    trace_from(tree, root, 0, v).0
}

/// The visit order depends on the decision function alone: two visitors that
/// answer alike on every node are traced alike, whatever other state they
/// carry.
pub proof fn lemma_trace_congruence<V: Visitor, W: Visitor>(
    tree: Tree,
    parent: int,
    k: int,
    v: V,
    w: W,
)
    requires
        tree.wf(),
        0 <= parent < tree.nodes@.len(),
        0 <= k,
        forall|t: Tree, n: int, p: int| #[trigger] v.decide(t, n, p) == w.decide(t, n, p),
    ensures
        trace_from(tree, parent, k, v) == trace_from(tree, parent, k, w),
    decreases tree.nodes@.len() - parent, tree.kids(parent).len() - k,
{
    if k >= tree.kids(parent).len() {
    } else {
        let c = tree.kids(parent)[k] as int;
        match v.decide(tree, c, parent) {
            ChildVisitResult::Break => {},
            ChildVisitResult::Continue => {
                lemma_trace_congruence(tree, parent, k + 1, v, w);
            },
            ChildVisitResult::Recurse => {
                lemma_trace_congruence(tree, c, 0, v, w);
                lemma_trace_congruence(tree, parent, k + 1, v, w);
            },
        }
    }
}

/// Walks the children of the node at `parent`, calling the visitor once per
/// visited node, exactly in the order `trace_from` gives. Returns the visit
/// order and whether a break ended the traversal.
#[verifier::loop_isolation(false)]
fn walk_from<V: Visitor>(tree: &Tree, parent: usize, v: &mut V) -> (res: (
    Ghost<Seq<(int, int)>>,
    bool,
))
    requires
        tree.wf(),
        parent < tree.nodes@.len(),
    ensures
        res.0@ == trace_from(*tree, parent as int, 0, *old(v)).0,
        res.1 == trace_from(*tree, parent as int, 0, *old(v)).1,
        final(v).state() == fold_visits::<V>(
            old(v).state(),
            trace_from(*tree, parent as int, 0, *old(v)).0,
            *tree,
        ),
        forall|t: Tree, n: int, p: int|
            #[trigger] final(v).decide(t, n, p) == old(v).decide(t, n, p),
    decreases tree.nodes@.len() - parent,
{
    let ghost v0 = *old(v);
    let ghost mut acc: Seq<(int, int)> = Seq::empty();
    let mut k: usize = 0;
    let n_kids = tree.nodes[parent].children.len();
    while k < n_kids
        invariant
            0 <= k <= n_kids,
            v.state() == fold_visits::<V>(v0.state(), acc, *tree),
            forall|t: Tree, n: int, p: int| #[trigger] v.decide(t, n, p) == v0.decide(t, n, p),
            trace_from(*tree, parent as int, 0, v0).0 == acc + trace_from(
                *tree,
                parent as int,
                k as int,
                v0,
            ).0,
            trace_from(*tree, parent as int, 0, v0).1 == trace_from(
                *tree,
                parent as int,
                k as int,
                v0,
            ).1,
        decreases n_kids - k,
    {
        let c = tree.nodes[parent].children[k];
        proof {
            assert(c == tree.kids(parent as int)[k as int]);
            assert((parent as int) < c < tree.nodes@.len());
        }
        let cursor = Cursor { tree, node: c };
        let parent_cursor = Cursor { tree, node: parent };
        let r = v.visit(cursor, parent_cursor);
        let ghost first: Seq<(int, int)> = seq![(c as int, parent as int)];
        proof {
            assert(r == v0.decide(*tree, c as int, parent as int));
            lemma_fold_one::<V>(v0.state(), acc, (c as int, parent as int), *tree);
            assert(v.state() == fold_visits::<V>(v0.state(), acc + first, *tree));
        }
        match r {
            ChildVisitResult::Break => {
                proof {
                    assert(trace_from(*tree, parent as int, k as int, v0) == (first, true));
                    acc = acc + first;
                }
                return (Ghost(acc), true);
            },
            ChildVisitResult::Continue => {
                proof {
                    let rest = trace_from(*tree, parent as int, k as int + 1, v0);
                    assert(trace_from(*tree, parent as int, k as int, v0).0 == first + rest.0);
                    assert((acc + first) + rest.0 =~= acc + (first + rest.0));
                    acc = acc + first;
                }
                k = k + 1;
            },
            ChildVisitResult::Recurse => {
                let ghost v_pre = *v;
                let sub = walk_from(tree, c, v);
                proof {
                    lemma_trace_congruence(*tree, c as int, 0, v_pre, v0);
                    let subt = trace_from(*tree, c as int, 0, v0);
                    assert(sub.0@ == subt.0 && sub.1 == subt.1);
                    lemma_fold_concat::<V>(v0.state(), acc + first, sub.0@, *tree);
                    assert(v.state() == fold_visits::<V>(v0.state(), (acc + first) + sub.0@, *tree));
                    if sub.1 {
                        assert(trace_from(*tree, parent as int, k as int, v0) == (
                            first + subt.0,
                            true,
                        ));
                        assert((acc + first) + subt.0 =~= acc + (first + subt.0));
                    } else {
                        let rest = trace_from(*tree, parent as int, k as int + 1, v0);
                        assert(trace_from(*tree, parent as int, k as int, v0) == (
                            first + subt.0 + rest.0,
                            rest.1,
                        ));
                        assert(((acc + first) + subt.0) + rest.0 =~= acc + (first + subt.0
                            + rest.0));
                    }
                    acc = acc + first + sub.0@;
                }
                if sub.1 {
                    return (Ghost(acc), true);
                }
                k = k + 1;
            },
        }
    }
    proof {
        assert(trace_from(*tree, parent as int, k as int, v0) == (Seq::<(int, int)>::empty(),
            false));
        assert(acc + Seq::<(int, int)>::empty() =~= acc);
    }
    (Ghost(acc), false)
}

/// The (node, parent) pairs of the immediate children of the node at
/// `parent`, in source order: the visit order of a traversal that never
/// recurses and never breaks.
pub open spec fn kid_pairs(tree: Tree, parent: int) -> Seq<(int, int)> {
    Seq::new(tree.kids(parent).len(), |j: int| (tree.kids(parent)[j] as int, parent))
}

/// Traversal idempotence: two traversals from the same root of the same
/// tree, under visitors whose decision functions agree on every node, visit
/// the same nodes in the same order — whatever other state the visitors
/// carry or accumulate.
pub proof fn lemma_traversal_idempotent<V: Visitor, W: Visitor>(tree: Tree, root: int, v: V, w: W)
    requires
        tree.wf(),
        0 <= root < tree.nodes@.len(),
        forall|t: Tree, n: int, p: int| #[trigger] v.decide(t, n, p) == w.decide(t, n, p),
    ensures
        visit_trace(tree, root, v) == visit_trace(tree, root, w),
{
    lemma_trace_congruence(tree, root, 0, v, w);
}

/// Break semantics: a visitor that answers `Break` for the first node
/// visited ends the traversal with exactly that one node visited, however
/// many children and descendants the tree holds.
pub proof fn lemma_break_stops_at_first<V: Visitor>(tree: Tree, root: int, v: V)
    requires
        tree.wf(),
        0 <= root < tree.nodes@.len(),
        tree.kids(root).len() > 0,
        v.decide(tree, tree.kids(root)[0] as int, root) == ChildVisitResult::Break,
    ensures
        visit_trace(tree, root, v) == seq![(tree.kids(root)[0] as int, root)],
        visit_trace(tree, root, v).len() == 1,
{
}

/// A stretch of siblings all answered `Continue` is visited once each, in
/// order, with no descent and no break.
pub proof fn lemma_all_continue<V: Visitor>(tree: Tree, parent: int, k: int, v: V)
    requires
        tree.wf(),
        0 <= parent < tree.nodes@.len(),
        0 <= k <= tree.kids(parent).len(),
        forall|j: int|
            k <= j < tree.kids(parent).len() ==> v.decide(
                tree,
                #[trigger] tree.kids(parent)[j] as int,
                parent,
            ) == ChildVisitResult::Continue,
    ensures
        trace_from(tree, parent, k, v).0 == kid_pairs(tree, parent).subrange(
            k,
            tree.kids(parent).len() as int,
        ),
        trace_from(tree, parent, k, v).1 == false,
    decreases tree.kids(parent).len() - k,
{
    let len = tree.kids(parent).len() as int;
    if k >= len {
        assert(trace_from(tree, parent, k, v).0 =~= kid_pairs(tree, parent).subrange(k, len));
    } else {
        lemma_all_continue(tree, parent, k + 1, v);
        assert(seq![(tree.kids(parent)[k] as int, parent)] + kid_pairs(tree, parent).subrange(
            k + 1,
            len,
        ) =~= kid_pairs(tree, parent).subrange(k, len));
    }
}

/// Recurse semantics, from child position `k` on: with the child at
/// position `m` answered `Recurse` and every other node answered `Continue`,
/// the walk visits the siblings before `m` once each, then the child at `m`,
/// then that child's own children once each, then the siblings after `m` —
/// and never breaks.
proof fn lemma_recurse_aux<V: Visitor>(tree: Tree, root: int, k: int, m: int, v: V)
    requires
        tree.wf(),
        0 <= root < tree.nodes@.len(),
        0 <= k <= m < tree.kids(root).len(),
        v.decide(tree, tree.kids(root)[m] as int, root) == ChildVisitResult::Recurse,
        forall|n: int, p: int|
            !(n == tree.kids(root)[m] as int && p == root) ==> #[trigger] v.decide(tree, n, p)
                == ChildVisitResult::Continue,
    ensures
        trace_from(tree, root, k, v).0 == kid_pairs(tree, root).subrange(k, m) + seq![
            (tree.kids(root)[m] as int, root),
        ] + kid_pairs(tree, tree.kids(root)[m] as int) + kid_pairs(tree, root).subrange(
            m + 1,
            tree.kids(root).len() as int,
        ),
        trace_from(tree, root, k, v).1 == false,
    decreases m - k,
{
    let ks = tree.kids(root);
    let len = ks.len() as int;
    let a = ks[m] as int;
    assert(root < a < tree.nodes@.len());
    let c = ks[k] as int;
    if k == m {
        assert forall|j: int| 0 <= j < tree.kids(a).len() implies v.decide(
            tree,
            #[trigger] tree.kids(a)[j] as int,
            a,
        ) == ChildVisitResult::Continue by {
            assert(a != root);
        }
        lemma_all_continue(tree, a, 0, v);
        assert(kid_pairs(tree, a).subrange(0, tree.kids(a).len() as int) =~= kid_pairs(tree, a));
        assert forall|j: int| m + 1 <= j < len implies v.decide(
            tree,
            #[trigger] ks[j] as int,
            root,
        ) == ChildVisitResult::Continue by {
            assert(ks[j] != ks[m]);
        }
        lemma_all_continue(tree, root, m + 1, v);
        assert(trace_from(tree, root, k, v).0 =~= kid_pairs(tree, root).subrange(k, m) + seq![
            (a, root),
        ] + kid_pairs(tree, a) + kid_pairs(tree, root).subrange(m + 1, len));
    } else {
        assert(ks[k] != ks[m]);
        assert(v.decide(tree, c, root) == ChildVisitResult::Continue);
        lemma_recurse_aux(tree, root, k + 1, m, v);
        assert(trace_from(tree, root, k, v).0 =~= kid_pairs(tree, root).subrange(k, m) + seq![
            (a, root),
        ] + kid_pairs(tree, a) + kid_pairs(tree, root).subrange(m + 1, len));
    }
}

/// Recurse semantics: a visitor that answers `Recurse` for the child at
/// position `m` of the root and `Continue` for every other node visits the
/// root's children in order, with the children of the one recursed-into
/// child inserted right after it — and the traversal runs to completion.
pub proof fn lemma_recurse_descends<V: Visitor>(tree: Tree, root: int, m: int, v: V)
    requires
        tree.wf(),
        0 <= root < tree.nodes@.len(),
        0 <= m < tree.kids(root).len(),
        v.decide(tree, tree.kids(root)[m] as int, root) == ChildVisitResult::Recurse,
        forall|n: int, p: int|
            !(n == tree.kids(root)[m] as int && p == root) ==> #[trigger] v.decide(tree, n, p)
                == ChildVisitResult::Continue,
    ensures
        visit_trace(tree, root, v) == kid_pairs(tree, root).subrange(0, m) + seq![
            (tree.kids(root)[m] as int, root),
        ] + kid_pairs(tree, tree.kids(root)[m] as int) + kid_pairs(tree, root).subrange(
            m + 1,
            tree.kids(root).len() as int,
        ),
{
    lemma_recurse_aux(tree, root, 0, m, v);
}

/// Continue semantics: a visitor that answers `Continue` for every node
/// visits exactly the root's immediate children, once each, in order; no
/// grandchild is ever visited.
pub proof fn lemma_continue_skips_descendants<V: Visitor>(
    tree: Tree,
    root: int,
    m: int,
    l: int,
    v: V,
)
    requires
        tree.wf(),
        0 <= root < tree.nodes@.len(),
        0 <= m < tree.kids(root).len(),
        0 <= l < tree.kids(tree.kids(root)[m] as int).len(),
        forall|n: int, p: int| #[trigger] v.decide(tree, n, p) == ChildVisitResult::Continue,
    ensures
        visit_trace(tree, root, v) == kid_pairs(tree, root),
        forall|p: int|
            !(#[trigger] visit_trace(tree, root, v).contains(
                (tree.kids(tree.kids(root)[m] as int)[l] as int, p),
            )),
{
    let a = tree.kids(root)[m] as int;
    assert(root < a < tree.nodes@.len());
    let b = tree.kids(a)[l] as int;
    lemma_all_continue(tree, root, 0, v);
    assert(kid_pairs(tree, root).subrange(0, tree.kids(root).len() as int) =~= kid_pairs(
        tree,
        root,
    ));
    assert forall|p: int| !(#[trigger] visit_trace(tree, root, v).contains((b, p))) by {
        if visit_trace(tree, root, v).contains((b, p)) {
            let j = choose|j: int|
                0 <= j < kid_pairs(tree, root).len() && kid_pairs(tree, root)[j] == (b, p);
            assert(tree.kids(root)[j] == tree.kids(a)[l]);
            assert(a != root);
            assert(false);
        }
    }
}

impl<'a> Cursor<'a> {
    /// Depth-first traversal entry point: visits this node's children, and
    /// recursively any descendants the visitor directs it into, in exactly
    /// the order `visit_trace` gives, until the walk completes or the
    /// visitor breaks it off. Results accumulate in the visitor's own state:
    /// the visitor leaves with exactly the state of one `on_visit` step per
    /// visited node, in visit order.
    pub fn visit_children<V: Visitor>(&self, v: &mut V) -> (trace: Ghost<Seq<(int, int)>>)
        requires
            self.wf(),
        ensures
            trace@ == visit_trace(*self.tree, self.node as int, *old(v)),
            final(v).state() == fold_visits::<V>(
                old(v).state(),
                visit_trace(*self.tree, self.node as int, *old(v)),
                *self.tree,
            ),
            forall|t: Tree, n: int, p: int|
                #[trigger] final(v).decide(t, n, p) == old(v).decide(t, n, p),
    {
        let res = walk_from(self.tree, self.node, v);
        res.0
    }
}

} // verus!
