use vstd::prelude::*;

use crate::node::Node;
use crate::point::{point_le, point_lt, Point};

verus! {

/// Whether a path of child indices is walkable from the given node: each
/// step indexes an existing child of the node the previous steps reached.
pub open spec fn path_valid(n: Node, p: Seq<usize>) -> bool
    decreases p.len(),
{
    p.len() == 0 || ((p[0] as int) < n.children@.len() && path_valid(
        n.children@[p[0] as int],
        p.drop_first(),
    ))
}

/// The node a path of child indices leads to.
pub open spec fn node_at(n: Node, p: Seq<usize>) -> Node
    decreases p.len(),
{
    if p.len() == 0 {
        n
    } else {
        node_at(n.children@[p[0] as int], p.drop_first())
    }
}

/// Extending a valid path by one in-range child index stays valid and lands
/// on that child.
pub proof fn lemma_path_snoc(n: Node, p: Seq<usize>, x: usize)
    requires
        path_valid(n, p),
        (x as int) < node_at(n, p).children@.len(),
    ensures
        path_valid(n, p.push(x)),
        node_at(n, p.push(x)) == node_at(n, p).children@[x as int],
    decreases p.len(),
{
    if p.len() == 0 {
        assert(p.push(x)[0] == x);
        assert(p.push(x).drop_first() =~= Seq::<usize>::empty());
        assert(node_at(n, p) == n);
        assert(path_valid(n.children@[x as int], p.push(x).drop_first()));
        assert(node_at(n.children@[x as int], p.push(x).drop_first()) == n.children@[x as int]);
        assert(path_valid(n, p.push(x)));
        assert(node_at(n, p.push(x)) == n.children@[x as int]);
    } else {
        assert(p.push(x)[0] == p[0]);
        assert(p.push(x).drop_first() =~= p.drop_first().push(x));
        assert(node_at(n, p) == node_at(n.children@[p[0] as int], p.drop_first()));
        lemma_path_snoc(n.children@[p[0] as int], p.drop_first(), x);
        assert(path_valid(n, p.push(x)));
        assert(node_at(n, p.push(x)) == node_at(n.children@[p[0] as int], p.drop_first().push(x)));
    }
}

/// A valid path decomposes at any cut point: the prefix is valid, the suffix
/// is valid from where the prefix lands, and walking both pieces walks the
/// whole path.
pub proof fn lemma_path_decompose(n: Node, p: Seq<usize>, k: int)
    requires
        path_valid(n, p),
        0 <= k <= p.len(),
    ensures
        path_valid(n, p.take(k)),
        path_valid(node_at(n, p.take(k)), p.skip(k)),
        node_at(n, p) == node_at(node_at(n, p.take(k)), p.skip(k)),
    decreases p.len(),
{
    if k == 0 {
        assert(p.take(0) =~= Seq::<usize>::empty());
        assert(p.skip(0) =~= p);
    } else {
        assert(p.take(k).drop_first() =~= p.drop_first().take(k - 1));
        assert(p.skip(k) =~= p.drop_first().skip(k - 1));
        lemma_path_decompose(n.children@[p[0] as int], p.drop_first(), k - 1);
    }
}

/// A mutable traversal cursor bound to one subtree. It is repositioned in
/// place by the navigation operations; a failed move leaves it exactly where
/// it was, with no error. A cursor never reaches a terminal state: it stays
/// repositionable until dropped.
pub struct TreeCursor<'a> {
    root: &'a Node,
    path: Vec<usize>,
}

impl<'a> TreeCursor<'a> {
    /// The node this cursor was created from; navigation never leaves its
    /// subtree.
    pub closed spec fn origin(self) -> Node {
        *self.root
    }

    /// The child indices leading from the origin to the current node.
    pub closed spec fn spec_path(self) -> Seq<usize> {
        self.path@
    }

    /// The cursor's path is walkable from its origin.
    pub open spec fn wf(self) -> bool {
        path_valid(self.origin(), self.spec_path())
    }

    /// The node the cursor currently stands on.
    pub open spec fn current(self) -> Node {
        node_at(self.origin(), self.spec_path())
    }

    /// A cursor positioned at the given node.
    pub fn new(root: &'a Node) -> (r: TreeCursor<'a>)
        ensures
            r.wf(),
            r.origin() == *root,
            r.spec_path() == Seq::<usize>::empty(),
            r.current() == *root,
    {
        TreeCursor { root, path: Vec::new() }
    }

    /// The node the first `k` steps of the path lead to.
    fn node_at_prefix(&self, k: usize) -> (r: &'a Node)
        requires
            self.wf(),
            k <= self.spec_path().len(),
        ensures
            *r == node_at(self.origin(), self.spec_path().take(k as int)),
    {
        let mut cur: &'a Node = self.root;
        let mut i: usize = 0;
        proof {
            assert(self.spec_path().take(0) =~= Seq::<usize>::empty());
        }
        while i < k
            invariant
                self.wf(),
                k <= self.spec_path().len(),
                i <= k,
                *cur == node_at(self.origin(), self.spec_path().take(i as int)),
            decreases k - i,
        {
            proof {
                lemma_path_decompose(self.origin(), self.spec_path(), i as int);
                assert(self.spec_path().skip(i as int)[0] == self.spec_path()[i as int]);
                lemma_path_snoc(self.origin(), self.spec_path().take(i as int), self.spec_path()[i as int]);
                assert(self.spec_path().take(i as int).push(self.spec_path()[i as int]) =~= self
                    .spec_path()
                    .take(i as int + 1));
            }
            cur = &cur.children[self.path[i]];
            i += 1;
        }
        cur
    }

    /// The node the cursor currently stands on.
    pub fn node(&self) -> (r: &'a Node)
        requires
            self.wf(),
        ensures
            *r == self.current(),
    {
        proof {
            assert(self.spec_path().take(self.spec_path().len() as int) =~= self.spec_path());
        }
        self.node_at_prefix(self.path.len())
    }

    /// Moves to the current node's first child. Reports failure, and stays
    /// put, when the current node has no children.
    pub fn goto_first_child(&mut self) -> (r: bool)
        requires
            old(self).wf(),
        ensures
            final(self).wf(),
            final(self).origin() == old(self).origin(),
            r == (old(self).current().children@.len() > 0),
            r ==> final(self).spec_path() == old(self).spec_path().push(0usize) && final(self).current() == old(self).current().children@[0],
            !r ==> final(self).spec_path() == old(self).spec_path(),
    {
        let n = self.node();
        if n.children.len() > 0 {
            proof {
                lemma_path_snoc(self.origin(), self.spec_path(), 0usize);
            }
            self.path.push(0);
            true
        } else {
            false
        }
    }

    /// Moves to the current node's parent. Reports failure, and stays put,
    /// at the cursor's origin.
    pub fn goto_parent(&mut self) -> (r: bool)
        requires
            old(self).wf(),
        ensures
            final(self).wf(),
            final(self).origin() == old(self).origin(),
            r == (old(self).spec_path().len() > 0),
            r ==> final(self).spec_path() == old(self).spec_path().take(
                old(self).spec_path().len() - 1,
            ),
            !r ==> final(self).spec_path() == old(self).spec_path(),
    {
        if self.path.len() == 0 {
            false
        } else {
            proof {
                lemma_path_decompose(
                    self.origin(),
                    self.spec_path(),
                    self.spec_path().len() - 1,
                );
            }
            self.path.pop();
            proof {
                assert(self.spec_path() =~= old(self).spec_path().take(
                    old(self).spec_path().len() - 1,
                ));
            }
            true
        }
    }

    /// Moves to the current node's next sibling. Reports failure, and stays
    /// put, at a last sibling or at the cursor's origin.
    pub fn goto_next_sibling(&mut self) -> (r: bool)
        requires
            old(self).wf(),
        ensures
            final(self).wf(),
            final(self).origin() == old(self).origin(),
            old(self).spec_path().len() == 0 ==> !r && final(self).spec_path() == old(self).spec_path(),
            old(self).spec_path().len() > 0 ==> r == ((old(self).spec_path().last() as int) + 1
                < node_at(
                old(self).origin(),
                old(self).spec_path().drop_last(),
            ).children@.len()),
            old(self).spec_path().len() > 0 && r ==> final(self).spec_path() == old(self).spec_path().update(
                old(self).spec_path().len() - 1,
                (old(self).spec_path().last() + 1) as usize,
            ),
            old(self).spec_path().len() > 0 && !r ==> final(self).spec_path() == old(self).spec_path(),
    {
        if self.path.len() == 0 {
            return false;
        }
        let k = self.path.len() - 1;
        let idx = self.path[k];
        let parent = self.node_at_prefix(k);
        proof {
            assert(self.spec_path().take(k as int) =~= self.spec_path().drop_last());
            lemma_path_decompose(self.origin(), self.spec_path(), k as int);
            assert(self.spec_path().skip(k as int)[0] == self.spec_path()[k as int]);
            assert(self.spec_path().skip(k as int).len() == 1);
            assert((idx as int) < node_at(
                self.origin(),
                self.spec_path().take(k as int),
            ).children@.len());
        }
        let sibling_count = parent.children.len();
        proof {
            assert(idx < sibling_count);
        }
        if idx + 1 < sibling_count {
            proof {
                lemma_path_snoc(self.origin(), self.spec_path().take(k as int), (idx + 1) as usize);
            }
            self.path.pop();
            self.path.push(idx + 1);
            proof {
                assert(self.spec_path() =~= old(self).spec_path().take(k as int).push(
                    (idx + 1) as usize,
                ));
                assert(old(self).spec_path().take(k as int).push((idx + 1) as usize) =~= old(self).spec_path().update(k as int, (idx + 1) as usize));
            }
            true
        } else {
            false
        }
    }

    /// Descends to the first child whose span contains the given offset.
    /// Reports failure, and stays put, when no child contains it.
    pub fn goto_first_child_for_offset(&mut self, offset: u64) -> (r: bool)
        requires
            old(self).wf(),
        ensures
            final(self).wf(),
            final(self).origin() == old(self).origin(),
            r == exists|i: int|
                0 <= i < old(self).current().children@.len()
                    && (#[trigger] old(self).current().children@[i].range).start_offset <= offset
                    < old(self).current().children@[i].range.end_offset,
            !r ==> final(self).spec_path() == old(self).spec_path(),
            r ==> exists|i: int|
                {
                    &&& 0 <= i < old(self).current().children@.len()
                    &&& (#[trigger] old(self).current().children@[i].range).start_offset <= offset
                        < old(self).current().children@[i].range.end_offset
                    &&& forall|k: int|
                        0 <= k < i ==> !((#[trigger] old(self).current().children@[k].range).start_offset <= offset < old(self).current().children@[k].range.end_offset)
                    &&& final(self).spec_path() == old(self).spec_path().push(i as usize)
                    &&& final(self).current() == old(self).current().children@[i]
                },
    {
        let n = self.node();
        let mut i: usize = 0;
        while i < n.children.len()
            invariant
                old(self).wf(),
                self == old(self),
                *n == old(self).current(),
                i <= n.children@.len(),
                forall|k: int|
                    0 <= k < i ==> !((#[trigger] n.children@[k].range).start_offset <= offset
                        < n.children@[k].range.end_offset),
            decreases n.children@.len() - i,
        {
            if n.children[i].range.start_offset <= offset && offset
                < n.children[i].range.end_offset {
                proof {
                    lemma_path_snoc(self.origin(), self.spec_path(), i);
                }
                self.path.push(i);
                return true;
            }
            i += 1;
        }
        false
    }

    /// Descends to the first child whose span contains the given point.
    /// Reports failure, and stays put, when no child contains it.
    pub fn goto_first_child_for_point(&mut self, p: &Point) -> (r: bool)
        requires
            old(self).wf(),
        ensures
            final(self).wf(),
            final(self).origin() == old(self).origin(),
            r == exists|i: int|
                0 <= i < old(self).current().children@.len() && point_le(
                    (#[trigger] old(self).current().children@[i].range).start_point,
                    *p,
                ) && point_lt(*p, old(self).current().children@[i].range.end_point),
            !r ==> final(self).spec_path() == old(self).spec_path(),
            r ==> exists|i: int|
                {
                    &&& 0 <= i < old(self).current().children@.len()
                    &&& point_le(
                        (#[trigger] old(self).current().children@[i].range).start_point,
                        *p,
                    ) && point_lt(*p, old(self).current().children@[i].range.end_point)
                    &&& forall|k: int|
                        0 <= k < i ==> !(point_le(
                            (#[trigger] old(self).current().children@[k].range).start_point,
                            *p,
                        ) && point_lt(*p, old(self).current().children@[k].range.end_point))
                    &&& final(self).spec_path() == old(self).spec_path().push(i as usize)
                    &&& final(self).current() == old(self).current().children@[i]
                },
    {
        let n = self.node();
        let mut i: usize = 0;
        while i < n.children.len()
            invariant
                old(self).wf(),
                self == old(self),
                *n == old(self).current(),
                i <= n.children@.len(),
                forall|k: int|
                    0 <= k < i ==> !(point_le(
                        (#[trigger] n.children@[k].range).start_point,
                        *p,
                    ) && point_lt(*p, n.children@[k].range.end_point)),
            decreases n.children@.len() - i,
        {
            if n.children[i].range.contains_point(p) {
                proof {
                    lemma_path_snoc(self.origin(), self.spec_path(), i);
                }
                self.path.push(i);
                return true;
            }
            i += 1;
        }
        false
    }
}

impl Node {
    /// A cursor rooted at this node.
    pub fn walk(&self) -> (r: TreeCursor<'_>)
        ensures
            r.wf(),
            r.origin() == *self,
            r.spec_path() == Seq::<usize>::empty(),
            r.current() == *self,
    {
        TreeCursor::new(self)
    }
}

} // verus!
