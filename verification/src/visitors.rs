//! Ready-made visitors: traversal state that records each visited node's
//! spelling in visit order, under simple decision rules.

use vstd::prelude::*;
use crate::ast::Tree;
use crate::cursor::Cursor;
use crate::visit::ChildVisitResult;
use crate::visit::Visitor;
use crate::visit::fold_visits;
use crate::visit::lemma_break_stops_at_first;
use crate::visit::lemma_traversal_idempotent;
use crate::visit::visit_trace;

verus! {

/// Records every visited node's spelling, in visit order, and answers every
/// node with one fixed directive.
pub struct DirectiveRecorder {
    /// The directive answered for every node.
    pub directive: ChildVisitResult,
    /// The spellings of the visited nodes, in visit order.
    pub visited: Vec<Option<String>>,
}

impl DirectiveRecorder {
    /// A fresh recorder that answers `directive` everywhere.
    pub fn new(directive: ChildVisitResult) -> (r: DirectiveRecorder)
        ensures
            r.directive == directive,
            r.visited@ == Seq::<Option<String>>::empty(),
    {
        DirectiveRecorder { directive, visited: Vec::new() }
    }
}

impl Visitor for DirectiveRecorder {
    type State = Seq<Option<String>>;

    open spec fn state(&self) -> Seq<Option<String>> {
        self.visited@
    }

    open spec fn decide(&self, tree: Tree, node: int, parent: int) -> ChildVisitResult {
        self.directive
    }

    open spec fn on_visit(s: Seq<Option<String>>, tree: Tree, node: int, parent: int) -> Seq<
        Option<String>,
    > {
        s.push(tree.nodes@[node].spelling)
    }

    fn visit(&mut self, cursor: Cursor<'_>, parent: Cursor<'_>) -> (r: ChildVisitResult) {
        let s = cursor.get_spelling();
        self.visited.push(s);
        self.directive
    }
}

/// Records every visited node's spelling, in visit order; descends into
/// nodes of one raw kind and continues past all others.
pub struct KindRecurser {
    /// The raw node kind that is recursed into.
    pub recurse_kind: u32,
    /// The spellings of the visited nodes, in visit order.
    pub visited: Vec<Option<String>>,
}

impl KindRecurser {
    /// A fresh recorder that descends into nodes of raw kind `recurse_kind`.
    pub fn new(recurse_kind: u32) -> (r: KindRecurser)
        ensures
            r.recurse_kind == recurse_kind,
            r.visited@ == Seq::<Option<String>>::empty(),
    {
        KindRecurser { recurse_kind, visited: Vec::new() }
    }
}

impl Visitor for KindRecurser {
    type State = Seq<Option<String>>;

    open spec fn state(&self) -> Seq<Option<String>> {
        self.visited@
    }

    open spec fn decide(&self, tree: Tree, node: int, parent: int) -> ChildVisitResult {
        if 0 <= node < tree.nodes@.len() && tree.nodes@[node].kind_raw == self.recurse_kind {
            ChildVisitResult::Recurse
        } else {
            ChildVisitResult::Continue
        }
    }

    open spec fn on_visit(s: Seq<Option<String>>, tree: Tree, node: int, parent: int) -> Seq<
        Option<String>,
    > {
        s.push(tree.nodes@[node].spelling)
    }

    fn visit(&mut self, cursor: Cursor<'_>, parent: Cursor<'_>) -> (r: ChildVisitResult) {
        let s = cursor.get_spelling();
        self.visited.push(s);
        if cursor.kind_raw() == self.recurse_kind {
            ChildVisitResult::Recurse
        } else {
            ChildVisitResult::Continue
        }
    }
}

/// The spelling of each visited node of a trace, in visit order: what a
/// spelling recorder appends over that trace.
pub open spec fn trace_spellings(tree: Tree, trace: Seq<(int, int)>) -> Seq<Option<String>> {
    Seq::new(trace.len(), |j: int| tree.nodes@[trace[j].0].spelling)
}

/// A `DirectiveRecorder` called once per pair of a trace appends exactly the
/// visited nodes' spellings, in visit order.
pub proof fn lemma_directive_recorder_fold(s: Seq<Option<String>>, trace: Seq<(int, int)>, tree: Tree)
    ensures
        fold_visits::<DirectiveRecorder>(s, trace, tree) == s + trace_spellings(tree, trace),
    decreases trace.len(),
{
    if trace.len() == 0 {
        assert(s + trace_spellings(tree, trace) =~= s);
    } else {
        let stepped = s.push(tree.nodes@[trace[0].0].spelling);
        lemma_directive_recorder_fold(stepped, trace.drop_first(), tree);
        assert(stepped + trace_spellings(tree, trace.drop_first()) =~= s + trace_spellings(
            tree,
            trace,
        ));
    }
}

/// A `KindRecurser` called once per pair of a trace appends exactly the
/// visited nodes' spellings, in visit order.
pub proof fn lemma_kind_recurser_fold(s: Seq<Option<String>>, trace: Seq<(int, int)>, tree: Tree)
    ensures
        fold_visits::<KindRecurser>(s, trace, tree) == s + trace_spellings(tree, trace),
    decreases trace.len(),
{
    if trace.len() == 0 {
        assert(s + trace_spellings(tree, trace) =~= s);
    } else {
        let stepped = s.push(tree.nodes@[trace[0].0].spelling);
        lemma_kind_recurser_fold(stepped, trace.drop_first(), tree);
        assert(stepped + trace_spellings(tree, trace.drop_first()) =~= s + trace_spellings(
            tree,
            trace,
        ));
    }
}

/// Recorded idempotence: two traversals from the same root of the same
/// tree, under recorders that answer the same fixed directive and start
/// from the same recorded state, leave identical recorded spelling
/// sequences — the state `visit_children` guarantees each run ends in.
pub proof fn lemma_recorded_idempotent(
    tree: Tree,
    root: int,
    v1: DirectiveRecorder,
    v2: DirectiveRecorder,
)
    requires
        tree.wf(),
        0 <= root < tree.nodes@.len(),
        v1.directive == v2.directive,
        v1.visited@ == v2.visited@,
    ensures
        fold_visits::<DirectiveRecorder>(v1.state(), visit_trace(tree, root, v1), tree)
            == fold_visits::<DirectiveRecorder>(v2.state(), visit_trace(tree, root, v2), tree),
{
    lemma_traversal_idempotent(tree, root, v1, v2);
    lemma_directive_recorder_fold(v1.visited@, visit_trace(tree, root, v1), tree);
    lemma_directive_recorder_fold(v2.visited@, visit_trace(tree, root, v2), tree);
}

/// Break records exactly one node: a recorder answering `Break` leaves the
/// traversal — whatever the tree holds below the first child — with exactly
/// one spelling appended to its recorded state, the first child's.
pub proof fn lemma_break_records_one(tree: Tree, root: int, v: DirectiveRecorder)
    requires
        tree.wf(),
        0 <= root < tree.nodes@.len(),
        tree.kids(root).len() > 0,
        v.directive == ChildVisitResult::Break,
    ensures
        fold_visits::<DirectiveRecorder>(v.state(), visit_trace(tree, root, v), tree).len()
            == v.visited@.len() + 1,
        fold_visits::<DirectiveRecorder>(v.state(), visit_trace(tree, root, v), tree)
            == v.visited@.push(tree.nodes@[tree.kids(root)[0] as int].spelling),
{
    lemma_break_stops_at_first(tree, root, v);
    lemma_directive_recorder_fold(v.visited@, visit_trace(tree, root, v), tree);
    assert(v.visited@ + trace_spellings(tree, visit_trace(tree, root, v)) =~= v.visited@.push(
        tree.nodes@[tree.kids(root)[0] as int].spelling,
    ));
}

} // verus!
