use vstd::prelude::*;

use crate::input_edit::{lemma_edit_preserves_range_before, InputEdit};
use crate::node::{edited_rel, node_eq, node_wf, Node};
use crate::point::{lemma_point_le_trans, point_le, Point};
use crate::range::Range;
use crate::tree_cursor::{node_at, path_valid};

verus! {

/// The smallest span that covers both given spans.
pub open spec fn range_hull(a: Range, b: Range) -> Range {
    Range {
        start_point: if point_le(a.start_point, b.start_point) {
            a.start_point
        } else {
            b.start_point
        },
        end_point: if point_le(a.end_point, b.end_point) {
            b.end_point
        } else {
            a.end_point
        },
        start_offset: if a.start_offset <= b.start_offset {
            a.start_offset
        } else {
            b.start_offset
        },
        end_offset: if a.end_offset <= b.end_offset {
            b.end_offset
        } else {
            a.end_offset
        },
    }
}

/// What `Tree::changed_ranges` reports: nothing for structurally equal trees,
/// and otherwise one conservative span covering everything either tree spans.
pub open spec fn changed_ranges_spec(a: Node, b: Node) -> Seq<Range> {
    if node_eq(a, b) {
        Seq::<Range>::empty()
    } else {
        seq![range_hull(a.range, b.range)]
    }
}

/// An immutable parse result: a snapshot owning its root node.
///
/// A tree whose parse ran out of its time budget is handed back marked
/// incomplete rather than thrown away; its structure stays usable.
#[derive(Debug)]
pub struct Tree {
    root: Node,
    completed: bool,
}

impl Tree {
    /// The root node of the snapshot.
    pub closed spec fn spec_root(self) -> Node {
        self.root
    }

    /// Whether the parse that produced this tree ran to completion.
    pub closed spec fn spec_completed(self) -> bool {
        self.completed
    }

    /// The snapshot value holding the given root and completion mark.
    pub closed spec fn new_spec(root: Node, completed: bool) -> Tree {
        Tree { root, completed }
    }

    /// Wraps an engine-reported root into a snapshot.
    pub fn new(root: Node, completed: bool) -> (r: Tree)
        ensures
            r == Tree::new_spec(root, completed),
            r.spec_root() == root,
            r.spec_completed() == completed,
    {
        Tree { root, completed }
    }

    /// The root node; always available for a completed parse.
    pub fn root_node(&self) -> (r: &Node)
        ensures
            *r == self.spec_root(),
    {
        &self.root
    }

    /// Whether the parse that produced this tree ran to completion, rather
    /// than being cut short by its time budget.
    pub fn is_completed(&self) -> (r: bool)
        ensures
            r == self.spec_completed(),
    {
        self.completed
    }

    /// Records one text edit by moving every node's recorded span, without
    /// re-parsing: structure and tags stay as they were, and content is only
    /// reconciled by the next parse. Must be called for every edit, in
    /// occurrence order, before this tree is passed back in as the previous
    /// tree.
    pub fn edit(&mut self, e: &InputEdit)
        ensures
            edited_rel(old(self).spec_root(), final(self).spec_root(), *e),
            final(self).spec_completed() == old(self).spec_completed(),
    {
        let new_root = self.root.edited(e);
        self.root = new_root;
    }

    /// The spans whose syntactic structure may differ between this tree and
    /// another of the same lineage. The report is conservative: a superset of
    /// the truly changed regions, never a subset — equal trees yield nothing,
    /// and differing trees yield one span covering everything either tree
    /// covers.
    pub fn changed_ranges(&self, other: &Tree) -> (r: Vec<Range>)
        ensures
            r@ == changed_ranges_spec(self.spec_root(), other.spec_root()),
    {
        if self.root.same_structure(&other.root) {
            let r: Vec<Range> = Vec::new();
            proof {
                assert(r@ =~= changed_ranges_spec(self.spec_root(), other.spec_root()));
            }
            r
        } else {
            let a = self.root.range;
            let b = other.root.range;
            let start_point = if a.start_point.le(&b.start_point) {
                a.start_point
            } else {
                b.start_point
            };
            let end_point = if a.end_point.le(&b.end_point) {
                b.end_point
            } else {
                a.end_point
            };
            let start_offset = if a.start_offset <= b.start_offset {
                a.start_offset
            } else {
                b.start_offset
            };
            let end_offset = if a.end_offset <= b.end_offset {
                b.end_offset
            } else {
                a.end_offset
            };
            let mut r: Vec<Range> = Vec::new();
            r.push(Range { start_point, end_point, start_offset, end_offset });
            proof {
                assert(r@ =~= changed_ranges_spec(self.spec_root(), other.spec_root()));
            }
            r
        }
    }
}

/// What `Tree::new_spec` holds: exactly the root and completion mark given.
pub proof fn lemma_tree_new_spec(root: Node, completed: bool)
    ensures
        Tree::new_spec(root, completed).spec_root() == root,
        Tree::new_spec(root, completed).spec_completed() == completed,
{
}

/// The changed-range report is a superset of any actual change: whenever two
/// trees differ at all, every offset covered by either tree — in particular
/// every offset of a textual difference between the sources that produced
/// them — lies inside a reported range.
pub proof fn lemma_changed_ranges_superset(a: Node, b: Node, o: u64)
    requires
        !node_eq(a, b),
        (a.range.start_offset <= o < a.range.end_offset) || (b.range.start_offset <= o
            < b.range.end_offset),
    ensures
        exists|k: int|
            0 <= k < changed_ranges_spec(a, b).len()
                && (#[trigger] changed_ranges_spec(a, b)[k]).start_offset <= o
                < changed_ranges_spec(a, b)[k].end_offset,
{
    assert(changed_ranges_spec(a, b)[0] == range_hull(a.range, b.range));
}

/// A node lying entirely at or before an edit's start keeps its whole
/// subtree: same structure, same recorded spans.
pub proof fn lemma_edit_preserves_nodes_before(a: Node, b: Node, e: InputEdit)
    requires
        edited_rel(a, b, e),
        node_wf(a),
        a.range.end_offset <= e.start_offset,
        point_le(a.range.end_point, e.start_point),
    ensures
        node_eq(b, a),
    decreases a,
{
    lemma_edit_preserves_range_before(e, a.range);
    assert forall|i: int| 0 <= i < b.children@.len() implies node_eq(
        #[trigger] b.children@[i],
        a.children@[i],
    ) by {
        lemma_point_le_trans(a.children@[i].range.end_point, a.range.end_point, e.start_point);
        lemma_edit_preserves_nodes_before(a.children@[i], b.children@[i], e);
    }
}

/// An edit reaches every node uniformly: along any path that was valid before
/// the edit, the edited tree holds the edited image of the original node.
pub proof fn lemma_edited_rel_at_path(a: Node, b: Node, e: InputEdit, p: Seq<usize>)
    requires
        edited_rel(a, b, e),
        path_valid(a, p),
    ensures
        path_valid(b, p),
        edited_rel(node_at(a, p), node_at(b, p), e),
    decreases p.len(),
{
    if p.len() > 0 {
        lemma_edited_rel_at_path(a.children@[p[0] as int], b.children@[p[0] as int], e, p.drop_first());
    }
}

/// Well-formedness descends: the node any valid path leads to is itself
/// well-formed.
pub proof fn lemma_node_wf_at_path(a: Node, p: Seq<usize>)
    requires
        node_wf(a),
        path_valid(a, p),
    ensures
        node_wf(node_at(a, p)),
    decreases p.len(),
{
    if p.len() > 0 {
        lemma_node_wf_at_path(a.children@[p[0] as int], p.drop_first());
    }
}

/// Wherever it sits in the tree, a node that lies entirely at or before an
/// edit's start is untouched by the edit.
pub proof fn lemma_edit_preserves_subtree_before(a: Node, b: Node, e: InputEdit, p: Seq<usize>)
    requires
        edited_rel(a, b, e),
        node_wf(a),
        path_valid(a, p),
        node_at(a, p).range.end_offset <= e.start_offset,
        point_le(node_at(a, p).range.end_point, e.start_point),
    ensures
        path_valid(b, p),
        node_eq(node_at(b, p), node_at(a, p)),
{
    lemma_edited_rel_at_path(a, b, e, p);
    lemma_node_wf_at_path(a, p);
    lemma_edit_preserves_nodes_before(node_at(a, p), node_at(b, p), e);
}

} // verus!
