//! The model of a parsed abstract syntax tree: an arena of nodes, each
//! carrying the data a cursor can observe — raw kind, spelling, attached
//! documentation comment — and the indices of its children.
//!
//! Well-formedness makes the arena a tree: every child index points past its
//! parent (so traversal terminates) and no node is the child of two parents
//! or listed twice.

use vstd::prelude::*;
use crate::comment::ParsedComment;
use crate::comment::CommentKind;

verus! {

/// One AST node, as a cursor observes it.
#[derive(Clone, Debug)]
pub struct Node {
    /// The engine's raw node-kind code.
    pub kind_raw: u32,
    /// The node's declared name; `None` for an anonymous node.
    pub spelling: Option<String>,
    /// The verbatim documentation comment attached to the node, if any.
    pub raw_comment: Option<String>,
    /// The structured form of the attached documentation comment.
    pub comment: ParsedComment,
    /// Indices of the node's children, in source order.
    pub children: Vec<usize>,
}

impl Node {
    /// A node's comment data is consistent: a raw comment is present exactly
    /// when the parsed comment is a full comment, and the parsed comment is
    /// itself well formed.
    pub open spec fn wf(self) -> bool {
        &&& self.comment.wf()
        &&& (self.raw_comment is Some <==> self.comment.kind is FullComment)
    }

    /// Checks the node's comment consistency at run time.
    pub fn check_wf(&self) -> (r: bool)
        ensures
            r == self.wf(),
    {
        let comment_ok = self.comment.check_wf();
        let has_raw = self.raw_comment.is_some();
        let is_full = matches!(self.comment.kind, CommentKind::FullComment);
        comment_ok && (has_raw == is_full)
    }
}

/// The parsed AST: an arena of nodes whose entry `0` is the root.
#[derive(Clone, Debug)]
pub struct Tree {
    /// The nodes, root first.
    pub nodes: Vec<Node>,
}

impl Tree {
    /// The children indices of the node at `p`.
    pub open spec fn kids(self, p: int) -> Seq<usize> {
        self.nodes@[p].children@
    }

    /// Well-formedness: the arena is non-empty; every node's comment data is
    /// consistent; every child index lies strictly between its parent's
    /// index and the arena's length; and no index appears in two child lists
    /// or twice in one.
    pub open spec fn wf(self) -> bool {
        &&& self.nodes@.len() > 0
        &&& forall|i: int| 0 <= i < self.nodes@.len() ==> (#[trigger] self.nodes@[i]).wf()
        &&& forall|i: int, k: int|
            0 <= i < self.nodes@.len() && 0 <= k < self.kids(i).len()
                ==> i < #[trigger] self.kids(i)[k] < self.nodes@.len()
        &&& forall|i: int, k: int, j: int, l: int|
            0 <= i < self.nodes@.len() && 0 <= k < self.kids(i).len() && 0 <= j
                < self.nodes@.len() && 0 <= l < self.kids(j).len() && (i != j || k != l)
                ==> #[trigger] self.kids(i)[k] != #[trigger] self.kids(j)[l]
    }

    /// The number of nodes in the arena.
    pub fn len(&self) -> (r: usize)
        ensures
            r == self.nodes@.len(),
    {
        self.nodes.len()
    }
}

/// Whether child slot (`i1`, `k1`) comes before slot (`i2`, `k2`) in a scan
/// of all child lists, node by node.
pub open spec fn slot_before(i1: int, k1: int, i2: int, k2: int) -> bool {
    i1 < i2 || (i1 == i2 && k1 < k2)
}

/// Whether (`i`, `k`) names an existing child slot of `t`.
pub open spec fn slot_valid(t: Tree, i: int, k: int) -> bool {
    0 <= i < t.nodes@.len() && 0 <= k < t.kids(i).len()
}

/// The child slots strictly before (`i`, `k`) in scan order hold pairwise
/// distinct node indices.
pub open spec fn slots_distinct_before(t: Tree, i: int, k: int) -> bool {
    forall|i1: int, k1: int, i2: int, k2: int|
        slot_valid(t, i1, k1) && slot_valid(t, i2, k2) && slot_before(i1, k1, i, k) && slot_before(
            i2,
            k2,
            i,
            k,
        ) && (i1 != i2 || k1 != k2) ==> #[trigger] t.kids(i1)[k1] != #[trigger] t.kids(i2)[k2]
}

/// `seen` marks exactly the node indices held by child slots strictly before
/// (`i`, `k`) in scan order.
pub open spec fn seen_matches(t: Tree, seen: Seq<bool>, i: int, k: int) -> bool {
    forall|c: int|
        0 <= c < seen.len() ==> ((#[trigger] seen[c]) <==> (exists|i1: int, k1: int|
            #[trigger] slot_valid(t, i1, k1) && slot_before(i1, k1, i, k) && t.kids(i1)[k1] == c))
}

/// Moving the scan frontier from the end of node `i`'s child list to the
/// start of node `i + 1`'s covers the same set of slots.
proof fn lemma_scan_frontier_advance(t: Tree, seen: Seq<bool>, i: int)
    requires
        0 <= i < t.nodes@.len(),
        seen_matches(t, seen, i, t.kids(i).len() as int),
        slots_distinct_before(t, i, t.kids(i).len() as int),
    ensures
        seen_matches(t, seen, i + 1, 0),
        slots_distinct_before(t, i + 1, 0),
{
    let len = t.kids(i).len() as int;
    assert forall|i1: int, k1: int| slot_valid(t, i1, k1) implies (slot_before(i1, k1, i, len)
        <==> slot_before(i1, k1, i + 1, 0)) by {
        if i1 == i {
            assert(k1 < t.kids(i).len());
        }
    }
    assert forall|c: int| 0 <= c < seen.len() implies ((seen[c]) <==> exists|i1: int, k1: int|
        #[trigger] slot_valid(t, i1, k1) && slot_before(i1, k1, i + 1, 0) && t.kids(i1)[k1]
            == c) by {
        if seen[c] {
            let (i1, k1) = choose|i1: int, k1: int|
                #[trigger] slot_valid(t, i1, k1) && slot_before(i1, k1, i, len) && t.kids(i1)[k1]
                    == c;
            assert(slot_valid(t, i1, k1) && slot_before(i1, k1, i + 1, 0) && t.kids(i1)[k1] == c);
        }
        if exists|i1: int, k1: int|
            #[trigger] slot_valid(t, i1, k1) && slot_before(i1, k1, i + 1, 0) && t.kids(i1)[k1]
                == c {
            let (i1, k1) = choose|i1: int, k1: int|
                #[trigger] slot_valid(t, i1, k1) && slot_before(i1, k1, i + 1, 0) && t.kids(
                    i1,
                )[k1] == c;
            assert(slot_valid(t, i1, k1) && slot_before(i1, k1, i, len) && t.kids(i1)[k1] == c);
        }
    }
}

impl Tree {
    /// Checks well-formedness at run time, so that a tree received from
    /// outside — say, rebuilt from a live engine AST — can be validated
    /// before any cursor or traversal is used on it.
    #[verifier::loop_isolation(false)]
    pub fn check_wf(&self) -> (r: bool)
        ensures
            r == self.wf(),
    {
        let n = self.nodes.len();
        if n == 0 {
            return false;
        }
        // Per-node consistency and child-index bounds.
        let mut i: usize = 0;
        while i < n
            invariant
                0 <= i <= n,
                forall|j: int| 0 <= j < i ==> (#[trigger] self.nodes@[j]).wf(),
                forall|j: int, k: int|
                    0 <= j < i && 0 <= k < self.kids(j).len() ==> j < #[trigger] self.kids(j)[k]
                        < n,
            decreases n - i,
        {
            if !self.nodes[i].check_wf() {
                proof {
                    assert(!self.nodes@[i as int].wf());
                }
                return false;
            }
            let kids_len = self.nodes[i].children.len();
            let mut k: usize = 0;
            while k < kids_len
                invariant
                    0 <= k <= kids_len,
                    forall|l: int|
                        0 <= l < k ==> (i as int) < #[trigger] self.kids(i as int)[l] < n,
                decreases kids_len - k,
            {
                let c = self.nodes[i].children[k];
                if c <= i || c >= n {
                    proof {
                        assert(c == self.kids(i as int)[k as int]);
                    }
                    return false;
                }
                k += 1;
            }
            i += 1;
        }
        // No node index appears in two child slots: scan every slot once,
        // marking the indices already taken.
        let mut seen: Vec<bool> = Vec::new();
        while seen.len() < n
            invariant
                seen@.len() <= n,
                forall|c: int| 0 <= c < seen@.len() ==> !(#[trigger] seen@[c]),
            decreases n - seen.len(),
        {
            seen.push(false);
        }
        let mut i: usize = 0;
        while i < n
            invariant
                0 <= i <= n,
                seen@.len() == n,
                seen_matches(*self, seen@, i as int, 0),
                slots_distinct_before(*self, i as int, 0),
            decreases n - i,
        {
            let kids_len = self.nodes[i].children.len();
            let mut k: usize = 0;
            while k < kids_len
                invariant
                    0 <= k <= kids_len,
                    seen@.len() == n,
                    seen_matches(*self, seen@, i as int, k as int),
                    slots_distinct_before(*self, i as int, k as int),
                decreases kids_len - k,
            {
                let c = self.nodes[i].children[k];
                proof {
                    assert(c == self.kids(i as int)[k as int]);
                    assert((i as int) < c < n);
                }
                if seen[c] {
                    proof {
                        let (i1, k1) = choose|i1: int, k1: int|
                            #[trigger] slot_valid(*self, i1, k1) && slot_before(
                                i1,
                                k1,
                                i as int,
                                k as int,
                            ) && self.kids(i1)[k1] == c as int;
                        assert(self.kids(i1)[k1] == self.kids(i as int)[k as int]);
                        assert(!self.wf());
                    }
                    return false;
                }
                let ghost old_seen = seen@;
                seen[c] = true;
                proof {
                    let t = *self;
                    assert(seen@ == old_seen.update(c as int, true));
                    assert forall|c2: int| 0 <= c2 < seen@.len() implies ((seen@[c2])
                        <==> exists|i1: int, k1: int|
                        #[trigger] slot_valid(t, i1, k1) && slot_before(
                            i1,
                            k1,
                            i as int,
                            k as int + 1,
                        ) && t.kids(i1)[k1] == c2) by {
                        if c2 == c as int {
                            assert(slot_valid(t, i as int, k as int) && slot_before(
                                i as int,
                                k as int,
                                i as int,
                                k as int + 1,
                            ) && t.kids(i as int)[k as int] == c2);
                        } else {
                            if seen@[c2] {
                                let (i1, k1) = choose|i1: int, k1: int|
                                    #[trigger] slot_valid(t, i1, k1) && slot_before(
                                        i1,
                                        k1,
                                        i as int,
                                        k as int,
                                    ) && t.kids(i1)[k1] == c2;
                                assert(slot_valid(t, i1, k1) && slot_before(
                                    i1,
                                    k1,
                                    i as int,
                                    k as int + 1,
                                ) && t.kids(i1)[k1] == c2);
                            }
                            if exists|i1: int, k1: int|
                                #[trigger] slot_valid(t, i1, k1) && slot_before(
                                    i1,
                                    k1,
                                    i as int,
                                    k as int + 1,
                                ) && t.kids(i1)[k1] == c2 {
                                let (i1, k1) = choose|i1: int, k1: int|
                                    #[trigger] slot_valid(t, i1, k1) && slot_before(
                                        i1,
                                        k1,
                                        i as int,
                                        k as int + 1,
                                    ) && t.kids(i1)[k1] == c2;
                                assert(!(i1 == i as int && k1 == k as int));
                                assert(slot_before(i1, k1, i as int, k as int));
                            }
                        }
                    }
                    assert forall|i1: int, k1: int, i2: int, k2: int|
                        slot_valid(t, i1, k1) && slot_valid(t, i2, k2) && slot_before(
                            i1,
                            k1,
                            i as int,
                            k as int + 1,
                        ) && slot_before(i2, k2, i as int, k as int + 1) && (i1 != i2 || k1
                        != k2) implies #[trigger] t.kids(i1)[k1] != #[trigger] t.kids(i2)[k2] by {
                        if i1 == i as int && k1 == k as int {
                            assert(slot_before(i2, k2, i as int, k as int));
                            if t.kids(i2)[k2] == c as int {
                                assert(old_seen[c as int]);
                                assert(false);
                            }
                        } else if i2 == i as int && k2 == k as int {
                            assert(slot_before(i1, k1, i as int, k as int));
                            if t.kids(i1)[k1] == c as int {
                                assert(old_seen[c as int]);
                                assert(false);
                            }
                        }
                    }
                }
                k += 1;
            }
            proof {
                lemma_scan_frontier_advance(*self, seen@, i as int);
            }
            i += 1;
        }
        proof {
            assert forall|i1: int, k1: int, i2: int, k2: int|
                0 <= i1 < self.nodes@.len() && 0 <= k1 < self.kids(i1).len() && 0 <= i2
                    < self.nodes@.len() && 0 <= k2 < self.kids(i2).len() && (i1 != i2 || k1
                != k2) implies #[trigger] self.kids(i1)[k1] != #[trigger] self.kids(i2)[k2] by {
                assert(slot_valid(*self, i1, k1) && slot_valid(*self, i2, k2));
                assert(slot_before(i1, k1, n as int, 0) && slot_before(i2, k2, n as int, 0));
            }
        }
        true
    }
}

/// A node with no attached documentation: anonymous construction helper for
/// building model trees.
pub fn plain_node(kind_raw: u32, spelling: Option<String>, children: Vec<usize>) -> (r: Node)
    ensures
        r.kind_raw == kind_raw,
        r.spelling == spelling,
        r.raw_comment is None,
        r.comment.kind is Null,
        r.comment.html is None,
        r.children == children,
        r.wf(),
{
    Node {
        kind_raw,
        spelling,
        raw_comment: None,
        comment: ParsedComment { kind: CommentKind::Null, html: None },
        children,
    }
}

} // verus!
