use vstd::prelude::*;

use crate::input_edit::{adjusted_range, InputEdit};
use crate::range::{range_within, Range};
use crate::text::str_eq;

verus! {

/// One position in a parsed tree: a kind tag, structural flags, the span it
/// covers, and its children in source order.
///
/// A node is data the engine reported, not something the facade computes:
/// engine adapters build nodes bottom-up and hand the root to a `Tree`.
#[derive(Debug)]
pub struct Node {
    /// The grammar's tag for this node.
    pub kind: String,
    /// Named nodes correspond to grammar rules; anonymous ones to bare
    /// punctuation and keyword tokens.
    pub named: bool,
    /// An error-recovery placeholder the grammar inserted; not present in the
    /// original text.
    pub missing: bool,
    /// This node itself is an error marker.
    pub error: bool,
    /// The grammar field under which this node hangs from its parent, if any.
    pub field_name: Option<String>,
    /// The span of text this node covers.
    pub range: Range,
    /// The children, in source order.
    pub children: Vec<Node>,
}

/// Equality of optional field names, by their characters.
pub open spec fn opt_str_eq(a: Option<String>, b: Option<String>) -> bool {
    match (a, b) {
        (Option::None, Option::None) => true,
        (Option::Some(x), Option::Some(y)) => x@ == y@,
        _ => false,
    }
}

/// Structural equality of two subtrees: same tags, flags, spans, and
/// children, position for position.
pub open spec fn node_eq(a: Node, b: Node) -> bool
    decreases a,
{
    &&& a.kind@ == b.kind@
    &&& a.named == b.named
    &&& a.missing == b.missing
    &&& a.error == b.error
    &&& opt_str_eq(a.field_name, b.field_name)
    &&& a.range == b.range
    &&& a.children@.len() == b.children@.len()
    &&& forall|i: int|
        0 <= i < a.children@.len() ==> node_eq(#[trigger] a.children@[i], b.children@[i])
}

/// Well-formedness of a subtree: every span is forwards, and every child lies
/// within its parent's span.
pub open spec fn node_wf(n: Node) -> bool
    decreases n,
{
    &&& n.range.wf()
    &&& forall|i: int|
        0 <= i < n.children@.len() ==> range_within(#[trigger] n.children@[i].range, n.range)
    &&& forall|i: int| 0 <= i < n.children@.len() ==> node_wf(#[trigger] n.children@[i])
}

/// Whether the subtree rooted here contains an error marker or a missing
/// node at any depth.
pub open spec fn subtree_has_error(n: Node) -> bool
    decreases n,
{
    ||| n.error
    ||| n.missing
    ||| exists|i: int| 0 <= i < n.children@.len() && subtree_has_error(#[trigger] n.children@[i])
}

/// How many of the first `k` children are named.
pub open spec fn count_named(cs: Seq<Node>, k: int) -> int
    decreases k,
{
    if k <= 0 {
        0
    } else {
        count_named(cs, k - 1) + (if cs[k - 1].named {
            1int
        } else {
            0int
        })
    }
}

/// Child `i` is the `j`-th named child: it is named, and exactly `j` named
/// children precede it.
pub open spec fn is_named_child(n: Node, j: int, i: int) -> bool {
    &&& 0 <= i < n.children@.len()
    &&& n.children@[i].named
    &&& count_named(n.children@, i) == j
}

/// Whether a child hangs from its parent under the given grammar field.
pub open spec fn field_matches(c: Node, name: Seq<char>) -> bool {
    c.field_name matches Some(f) && f@ == name
}

/// What one edit does to a whole subtree: every span is moved as
/// `adjusted_range` says, and nothing else changes.
pub open spec fn edited_rel(a: Node, b: Node, e: InputEdit) -> bool
    decreases a,
{
    &&& b.kind@ == a.kind@
    &&& b.named == a.named
    &&& b.missing == a.missing
    &&& b.error == a.error
    &&& opt_str_eq(b.field_name, a.field_name)
    &&& b.range == adjusted_range(e, a.range)
    &&& b.children@.len() == a.children@.len()
    &&& forall|i: int|
        0 <= i < a.children@.len() ==> edited_rel(#[trigger] a.children@[i], b.children@[i], e)
}

/// The named-child count is non-decreasing and grows by at most one per child.
pub proof fn lemma_count_named_mono(cs: Seq<Node>, a: int, b: int)
    requires
        0 <= a <= b,
    ensures
        count_named(cs, a) <= count_named(cs, b) <= count_named(cs, a) + (b - a),
    decreases b,
{
    if a < b {
        lemma_count_named_mono(cs, a, b - 1);
    }
}

/// Indexing consistency: every named child is reachable through named-child
/// indexing, at the index given by how many named children precede it.
pub proof fn lemma_child_named_child_consistent(n: Node, i: int)
    requires
        0 <= i < n.children@.len(),
        n.children@[i].named,
    ensures
        is_named_child(n, count_named(n.children@, i), i),
        0 <= count_named(n.children@, i),
        count_named(n.children@, i) < count_named(n.children@, n.children@.len() as int),
{
    lemma_count_named_mono(n.children@, 0, i);
    assert(count_named(n.children@, i + 1) == count_named(n.children@, i) + 1);
    lemma_count_named_mono(n.children@, i + 1, n.children@.len() as int);
}

/// Two subtrees structurally equal to a third are structurally equal to each
/// other.
pub proof fn lemma_node_eq_joint(x: Node, y: Node, z: Node)
    requires
        node_eq(x, z),
        node_eq(y, z),
    ensures
        node_eq(x, y),
    decreases x,
{
    assert forall|i: int| 0 <= i < x.children@.len() implies node_eq(
        #[trigger] x.children@[i],
        y.children@[i],
    ) by {
        lemma_node_eq_joint(x.children@[i], y.children@[i], z.children@[i]);
    }
}

/// Named-child indexing is unambiguous: one index names one child.
pub proof fn lemma_named_child_unique(n: Node, j: int, i1: int, i2: int)
    requires
        is_named_child(n, j, i1),
        is_named_child(n, j, i2),
    ensures
        i1 == i2,
{
    if i1 < i2 {
        assert(count_named(n.children@, i1 + 1) == count_named(n.children@, i1) + 1);
        lemma_count_named_mono(n.children@, i1 + 1, i2);
    }
    if i2 < i1 {
        assert(count_named(n.children@, i2 + 1) == count_named(n.children@, i2) + 1);
        lemma_count_named_mono(n.children@, i2 + 1, i1);
    }
}

impl Node {
    /// Builds a node from what an engine reported about one tree position.
    pub fn new(
        kind: String,
        named: bool,
        missing: bool,
        error: bool,
        field_name: Option<String>,
        range: Range,
        children: Vec<Node>,
    ) -> (r: Node)
        ensures
            r.kind@ == kind@,
            r.named == named,
            r.missing == missing,
            r.error == error,
            r.field_name == field_name,
            r.range == range,
            r.children@ == children@,
    {
        Node { kind, named, missing, error, field_name, range, children }
    }

    /// The grammar's tag for this node.
    pub fn kind(&self) -> (r: &str)
        ensures
            r@ == self.kind@,
    {
        self.kind.as_str()
    }

    /// Whether this node corresponds to a grammar rule rather than a bare
    /// token.
    pub fn is_named(&self) -> (r: bool)
        ensures
            r == self.named,
    {
        self.named
    }

    /// True only for error-recovery placeholders; such nodes cover no text.
    pub fn is_missing(&self) -> (r: bool)
        ensures
            r == self.missing,
    {
        self.missing
    }

    /// Whether this node itself is an error marker.
    pub fn is_error(&self) -> (r: bool)
        ensures
            r == self.error,
    {
        self.error
    }

    /// The span of text this node covers.
    pub fn range(&self) -> (r: Range)
        ensures
            r == self.range,
    {
        self.range
    }

    /// How many children this node has, anonymous tokens included.
    pub fn child_count(&self) -> (r: usize)
        ensures
            r == self.children@.len(),
    {
        self.children.len()
    }

    /// Whether any node of this subtree, at any depth, is an error marker or
    /// a missing placeholder.
    pub fn has_error(&self) -> (r: bool)
        ensures
            r == subtree_has_error(*self),
        decreases *self,
    {
        if self.error || self.missing {
            return true;
        }
        let mut i: usize = 0;
        while i < self.children.len()
            invariant
                i <= self.children@.len(),
                !self.error,
                !self.missing,
                forall|k: int| 0 <= k < i ==> !subtree_has_error(#[trigger] self.children@[k]),
            decreases self.children@.len() - i,
        {
            proof {
                assert(decreases_to!(*self => self.children@[i as int]));
            }
            if self.children[i].has_error() {
                return true;
            }
            i += 1;
        }
        false
    }

    /// The child at the given position, anonymous tokens included; an
    /// out-of-range index yields an absent result, not an error.
    pub fn child(&self, i: usize) -> (r: Option<&Node>)
        ensures
            match r {
                Some(c) => i < self.children@.len() && *c == self.children@[i as int],
                None => i >= self.children@.len(),
            },
    {
        if i < self.children.len() {
            Some(&self.children[i])
        } else {
            None
        }
    }

    /// How many children are named.
    pub fn named_child_count(&self) -> (r: usize)
        ensures
            r == count_named(self.children@, self.children@.len() as int),
    {
        let mut i: usize = 0;
        let mut cnt: usize = 0;
        while i < self.children.len()
            invariant
                i <= self.children@.len(),
                cnt as int == count_named(self.children@, i as int),
                cnt <= i,
            decreases self.children@.len() - i,
        {
            if self.children[i].named {
                cnt += 1;
            }
            i += 1;
        }
        cnt
    }

    /// The `j`-th named child: anonymous tokens do not count in this indexing
    /// space. An out-of-range index yields an absent result.
    pub fn named_child(&self, j: usize) -> (r: Option<&Node>)
        ensures
            match r {
                Some(c) => exists|i: int|
                    is_named_child(*self, j as int, i) && *c == self.children@[i],
                None => count_named(self.children@, self.children@.len() as int) <= j as int,
            },
    {
        let mut i: usize = 0;
        let mut cnt: usize = 0;
        while i < self.children.len()
            invariant
                i <= self.children@.len(),
                cnt as int == count_named(self.children@, i as int),
                cnt <= i,
                cnt as int <= j as int,
            decreases self.children@.len() - i,
        {
            if self.children[i].named {
                if cnt == j {
                    proof {
                        assert(is_named_child(*self, j as int, i as int));
                    }
                    return Some(&self.children[i]);
                }
                cnt += 1;
            }
            i += 1;
        }
        None
    }

    /// The first child attached under the given grammar field. The result is
    /// absent both when the grammar defines no such field on this node's kind
    /// and when the field is optional and not present in this instance; the
    /// two cases are indistinguishable by design.
    pub fn child_by_field_name(&self, name: &str) -> (r: Option<&Node>)
        ensures
            match r {
                Some(c) => exists|i: int|
                    {
                        &&& 0 <= i < self.children@.len()
                        &&& field_matches(#[trigger] self.children@[i], name@)
                        &&& *c == self.children@[i]
                        &&& forall|k: int|
                            0 <= k < i ==> !field_matches(#[trigger] self.children@[k], name@)
                    },
                None => forall|i: int|
                    0 <= i < self.children@.len() ==> !field_matches(
                        #[trigger] self.children@[i],
                        name@,
                    ),
            },
    {
        let mut i: usize = 0;
        while i < self.children.len()
            invariant
                i <= self.children@.len(),
                forall|k: int| 0 <= k < i ==> !field_matches(#[trigger] self.children@[k], name@),
            decreases self.children@.len() - i,
        {
            let hit = match &self.children[i].field_name {
                Some(f) => str_eq(f.as_str(), name),
                None => false,
            };
            if hit {
                return Some(&self.children[i]);
            }
            i += 1;
        }
        None
    }

    /// A copy of this subtree with every recorded span moved as the edit
    /// says; tags, flags, and structure are untouched.
    pub fn edited(&self, e: &InputEdit) -> (r: Node)
        ensures
            edited_rel(*self, r, *e),
        decreases *self,
    {
        let mut kids: Vec<Node> = Vec::new();
        let mut i: usize = 0;
        while i < self.children.len()
            invariant
                i <= self.children@.len(),
                kids@.len() == i as int,
                forall|k: int|
                    0 <= k < i ==> edited_rel(self.children@[k], #[trigger] kids@[k], *e),
            decreases self.children@.len() - i,
        {
            proof {
                assert(decreases_to!(*self => self.children@[i as int]));
            }
            let c = self.children[i].edited(e);
            kids.push(c);
            i += 1;
        }
        Node {
            kind: self.kind.clone(),
            named: self.named,
            missing: self.missing,
            error: self.error,
            field_name: match &self.field_name {
                Some(f) => Some(f.clone()),
                None => None,
            },
            range: e.adjust_range(&self.range),
            children: kids,
        }
    }

    /// Structural equality with another subtree: same tags, flags, spans, and
    /// children, position for position.
    pub fn same_structure(&self, other: &Node) -> (r: bool)
        ensures
            r == node_eq(*self, *other),
        decreases *self,
    {
        if !str_eq(self.kind.as_str(), other.kind.as_str()) {
            return false;
        }
        if self.named != other.named || self.missing != other.missing || self.error
            != other.error {
            return false;
        }
        let fields_agree = match (&self.field_name, &other.field_name) {
            (None, None) => true,
            (Some(a), Some(b)) => str_eq(a.as_str(), b.as_str()),
            _ => false,
        };
        if !fields_agree {
            return false;
        }
        if self.range.start_offset != other.range.start_offset || self.range.end_offset
            != other.range.end_offset || self.range.start_point.row != other.range.start_point.row
            || self.range.start_point.column != other.range.start_point.column
            || self.range.end_point.row != other.range.end_point.row
            || self.range.end_point.column != other.range.end_point.column {
            return false;
        }
        if self.children.len() != other.children.len() {
            return false;
        }
        let mut i: usize = 0;
        while i < self.children.len()
            invariant
                i <= self.children@.len(),
                self.children@.len() == other.children@.len(),
                forall|k: int|
                    0 <= k < i ==> node_eq(#[trigger] self.children@[k], other.children@[k]),
            decreases self.children@.len() - i,
        {
            proof {
                assert(decreases_to!(*self => self.children@[i as int]));
            }
            if !self.children[i].same_structure(&other.children[i]) {
                return false;
            }
            i += 1;
        }
        true
    }
}

impl Clone for Node {
    /// A deep copy, structurally equal to the original.
    fn clone(&self) -> (r: Node)
        ensures
            node_eq(r, *self),
        decreases *self,
    {
        let mut kids: Vec<Node> = Vec::new();
        let mut i: usize = 0;
        while i < self.children.len()
            invariant
                i <= self.children@.len(),
                kids@.len() == i as int,
                forall|k: int| 0 <= k < i ==> node_eq(#[trigger] kids@[k], self.children@[k]),
            decreases self.children@.len() - i,
        {
            proof {
                assert(decreases_to!(*self => self.children@[i as int]));
            }
            let c = self.children[i].clone();
            kids.push(c);
            i += 1;
        }
        Node {
            kind: self.kind.clone(),
            named: self.named,
            missing: self.missing,
            error: self.error,
            field_name: match &self.field_name {
                Some(f) => Some(f.clone()),
                None => None,
            },
            range: self.range,
            children: kids,
        }
    }
}

} // verus!
