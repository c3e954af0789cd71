//! The comparison of a new tree with an old one, in two modes, and its driver.
//!
//! In recycled mode a new node is compared with the old node whose place it
//! takes. Where the two differ, the new node is fresh: its printed text replaces
//! the old node's text, and the comparison goes on in fresh mode. In fresh mode a
//! new node is compared with the parse of its own printed text. Where the new node
//! still carries the span and identity of an old node, it is recycled: the old
//! text replaces the printed text, and the comparison goes on in recycled mode.

use vstd::prelude::*;
use crate::context::{RewriteCtxt, RewriteCtxtRef};
use crate::edit::{extends, nested_in, TextAdjust, TextRewrite};
use crate::node::{Category, Node};
use crate::plan::{
    fresh_children, fresh_edits, fresh_edits_nest, fresh_rank, paired, recycled_children,
    recycled_edits, recycled_edits_nest,
};
use crate::step::VisitStep;
use crate::table::OldNodes;

verus! {

/// The printer and the parser, taken together.
pub trait Reprint {
    /// Prints `node` as source text and parses that text again. The tree handed
    /// back is expected to be `node` with spans in the printed text; nothing here
    /// relies on that.
    fn reprint(&self, node: &Node) -> Node;
}

/// The two comparisons, for one kind of node.
pub trait Rewrite: Sized {
    /// Compares `self`, a node of the new tree, with the old node in its place.
    /// The result says whether the two differ in a way that shows in the text.
    fn rewrite_recycled<'s, S: Reprint>(
        &self,
        old_node: &Self,
        rcx: &mut RewriteCtxtRef<'s, S>,
    ) -> bool;

    /// Compares `self`, a node of the new tree, with the parse of its printed
    /// text.
    fn rewrite_fresh<'s, S: Reprint>(&self, reparsed: &Self, rcx: &mut RewriteCtxtRef<'s, S>);
}

impl Rewrite for Node {
    fn rewrite_recycled<'s, S: Reprint>(
        &self,
        old_node: &Node,
        rcx: &mut RewriteCtxtRef<'s, S>,
    ) -> (need: bool)
        ensures
            need == !self.equivalent(*old_node),
            final(rcx).cx.agrees(old(rcx).cx),
            extends(final(rcx).rewrites@, old(rcx).rewrites@),
            need == (final(rcx).rewrites@.len() > old(rcx).rewrites@.len()),
            recycled_edits(
                *self,
                *old_node,
                top(old(rcx).cx.visit_steps@),
                old(rcx).cx.old_nodes,
                final(rcx).rewrites@.skip(old(rcx).rewrites@.len() as int),
            ),
            old_node.well_nested() && old(rcx).cx.old_nodes.well_nested() ==> nested_in(
                final(rcx).rewrites@.skip(old(rcx).rewrites@.len() as int),
                old_node.span,
            ),
    {
        self.compare_recycled(old_node, rcx)
    }

    fn rewrite_fresh<'s, S: Reprint>(&self, reparsed: &Node, rcx: &mut RewriteCtxtRef<'s, S>)
        ensures
            final(rcx).cx.agrees(old(rcx).cx),
            extends(final(rcx).rewrites@, old(rcx).rewrites@),
            fresh_edits(
                *self,
                *reparsed,
                top(old(rcx).cx.visit_steps@),
                old(rcx).cx.fresh_start,
                old(rcx).cx.old_nodes,
                final(rcx).rewrites@.skip(old(rcx).rewrites@.len() as int),
            ),
            reparsed.well_nested() && old(rcx).cx.old_nodes.well_nested() ==> nested_in(
                final(rcx).rewrites@.skip(old(rcx).rewrites@.len() as int),
                reparsed.span,
            ),
    {
        self.compare_fresh(reparsed, rcx)
    }
}

/// The step on top of the stack.
pub open spec fn top(steps: Seq<VisitStep>) -> Option<VisitStep> {
    if steps.len() > 0 {
        Some(steps.last())
    } else {
        None
    }
}

impl<'s, S> RewriteCtxt<'s, S> {
    /// The two contexts have the same session, index, guard and steps.
    pub open spec fn agrees(self, other: RewriteCtxt<'s, S>) -> bool {
        &&& self.sess == other.sess
        &&& self.old_nodes == other.old_nodes
        &&& self.fresh_start == other.fresh_start
        &&& self.visit_steps@ == other.visit_steps@
    }
}

impl Node {
    /// Compares this new node with `old_node` in recycled mode and records the edits
    /// that turn the text of `old_node` into text for this node. The result says
    /// whether anything was recorded, which is so exactly if the trees differ.
    /// Where the spans of the old trees nest, the edits recorded replace pieces of
    /// `old_node` that do not overlap.
    pub fn compare_recycled<'s, S: Reprint>(
        &self,
        old_node: &Node,
        rcx: &mut RewriteCtxtRef<'s, S>,
    ) -> (need: bool)
        ensures
            need == !self.equivalent(*old_node),
            final(rcx).cx.agrees(old(rcx).cx),
            extends(final(rcx).rewrites@, old(rcx).rewrites@),
            need == (final(rcx).rewrites@.len() > old(rcx).rewrites@.len()),
            recycled_edits(
                *self,
                *old_node,
                top(old(rcx).cx.visit_steps@),
                old(rcx).cx.old_nodes,
                final(rcx).rewrites@.skip(old(rcx).rewrites@.len() as int),
            ),
            old_node.well_nested() && old(rcx).cx.old_nodes.well_nested() ==> nested_in(
                final(rcx).rewrites@.skip(old(rcx).rewrites@.len() as int),
                old_node.span,
            ),
        decreases self, 2nat,
    {
        let ghost base = rcx.rewrites@.len() as int;
        let ghost index = rcx.cx.old_nodes;
        if !self.shape_eq(old_node) {
            let adjust = self.adjust_under(rcx.cx.parent_step());
            let reparsed = rcx.cx.sess.reprint(self);
            let outer = rcx.with_rewrites(Vec::new());
            if reparsed.is_well_nested() {
                let guard = rcx.cx.replace_fresh_start(self.span);
                self.compare_fresh(&reparsed, rcx);
                rcx.cx.replace_fresh_start(guard);
                assert(rcx.rewrites@.skip(0) =~= rcx.rewrites@);
            }
            let nested = rcx.with_rewrites(outer);
            rcx.record(old_node.span, reparsed.span, nested, adjust);
            proof {
                let edits = rcx.rewrites@.skip(base);
                assert(edits.len() == 1 && edits[0] == rcx.rewrites@[base]);
                assert(edits[0].new_span == reparsed.span && if reparsed.well_nested() {
                    fresh_edits(
                        *self,
                        reparsed,
                        top(old(rcx).cx.visit_steps@),
                        self.span,
                        index,
                        edits[0].rewrites@,
                    )
                } else {
                    edits[0].rewrites@.len() == 0
                });
                if old_node.well_nested() && index.well_nested() {
                    recycled_edits_nest(*self, *old_node, top(old(rcx).cx.visit_steps@), index, edits);
                }
            }
            return true;
        }
        let n: usize = self.children.len();
        let mut need = false;
        let mut i: usize = 0;
        assert(rcx.rewrites@.skip(base).len() == 0);
        while i < n
            invariant
                i <= n,
                n == self.children@.len(),
                n == old_node.children@.len(),
                base == old(rcx).rewrites@.len(),
                index == old(rcx).cx.old_nodes,
                rcx.cx.agrees(old(rcx).cx),
                extends(rcx.rewrites@, old(rcx).rewrites@),
                need == (rcx.rewrites@.len() > base),
                !need <==> forall|j: int|
                    0 <= j < i ==> (#[trigger] self.children@[j]).equivalent(old_node.children@[j]),
                recycled_children(*self, *old_node, index, i as nat, rcx.rewrites@.skip(base)),
            decreases n - i,
        {
            let ghost steps = rcx.cx.visit_steps@;
            let ghost before = rcx.rewrites@;
            let step = self.step_into(i);
            rcx.cx.push_step(step);
            let mark = rcx.mark();
            let changed = self.children[i].compare_recycled(&old_node.children[i], rcx);
            let ghost after = rcx.rewrites@;
            if !changed {
                rcx.rewind(mark);
                assert(rcx.rewrites@ =~= before);
                assert(after =~= before);
            }
            assert(rcx.rewrites@ == after);
            rcx.cx.pop_step();
            assert(rcx.cx.visit_steps@ =~= steps);
            proof {
                let edits = rcx.rewrites@.skip(base);
                let cut = before.len() - base;
                assert(edits.take(cut) =~= before.skip(base));
                assert(edits.skip(cut) =~= rcx.rewrites@.skip(before.len() as int));
                assert(top(steps.push(step)) == Some(step));
            }
            need = need || changed;
            i += 1;
        }
        proof {
            if old_node.well_nested() && index.well_nested() {
                recycled_edits_nest(
                    *self,
                    *old_node,
                    top(old(rcx).cx.visit_steps@),
                    index,
                    rcx.rewrites@.skip(base),
                );
            }
        }
        need
    }

    /// Compares this new node with `reparsed`, the parse of its printed text, in
    /// fresh mode. Where this node is recycled, one edit puts the old text in the
    /// place of the printed text; where it is not, its children are compared
    /// with those of `reparsed`, pair by pair. Where the spans of `reparsed` and of
    /// the old trees nest, the edits recorded replace pieces of `reparsed` that do
    /// not overlap.
    pub fn compare_fresh<'s, S: Reprint>(&self, reparsed: &Node, rcx: &mut RewriteCtxtRef<'s, S>)
        ensures
            final(rcx).cx.agrees(old(rcx).cx),
            extends(final(rcx).rewrites@, old(rcx).rewrites@),
            fresh_edits(
                *self,
                *reparsed,
                top(old(rcx).cx.visit_steps@),
                old(rcx).cx.fresh_start,
                old(rcx).cx.old_nodes,
                final(rcx).rewrites@.skip(old(rcx).rewrites@.len() as int),
            ),
            reparsed.well_nested() && old(rcx).cx.old_nodes.well_nested() ==> nested_in(
                final(rcx).rewrites@.skip(old(rcx).rewrites@.len() as int),
                reparsed.span,
            ),
        decreases self, fresh_rank(old(rcx).cx.fresh_start, self.span),
    {
        let ghost base = rcx.rewrites@.len() as int;
        let ghost index = rcx.cx.old_nodes;
        let ghost guard = rcx.cx.fresh_start;
        if self.span.is_old() && !rcx.cx.fresh_start.contains(self.span) {
            match rcx.cx.old_nodes.get(self.category, self.id) {
                Some(from) => {
                    if from.span == self.span {
                        let outer = rcx.with_rewrites(Vec::new());
                        self.compare_recycled(from, rcx);
                        assert(rcx.rewrites@.skip(0) =~= rcx.rewrites@);
                        let nested = rcx.with_rewrites(outer);
                        rcx.record(reparsed.span, from.span, nested, TextAdjust::Unchanged);
                        proof {
                            let edits = rcx.rewrites@.skip(base);
                            assert(edits.len() == 1 && edits[0] == rcx.rewrites@[base]);
                            assert(self.recycled_from(index, guard) == Some(from));
                            if reparsed.well_nested() && index.well_nested() {
                                fresh_edits_nest(
                                    *self,
                                    *reparsed,
                                    top(old(rcx).cx.visit_steps@),
                                    guard,
                                    index,
                                    edits,
                                );
                            }
                        }
                        return;
                    }
                },
                None => {},
            }
        }
        assert(self.recycled_from(index, guard).is_none());
        let n: usize = if self.children.len() <= reparsed.children.len() {
            self.children.len()
        } else {
            reparsed.children.len()
        };
        let mut i: usize = 0;
        assert(rcx.rewrites@.skip(base).len() == 0);
        while i < n
            invariant
                i <= n,
                n == paired(*self, *reparsed),
                base == old(rcx).rewrites@.len(),
                index == old(rcx).cx.old_nodes,
                guard == old(rcx).cx.fresh_start,
                rcx.cx.agrees(old(rcx).cx),
                extends(rcx.rewrites@, old(rcx).rewrites@),
                fresh_children(*self, *reparsed, guard, index, i as nat, rcx.rewrites@.skip(base)),
            decreases n - i,
        {
            let ghost steps = rcx.cx.visit_steps@;
            let ghost before = rcx.rewrites@;
            let step = self.step_into(i);
            rcx.cx.push_step(step);
            self.children[i].compare_fresh(&reparsed.children[i], rcx);
            rcx.cx.pop_step();
            assert(rcx.cx.visit_steps@ =~= steps);
            proof {
                let edits = rcx.rewrites@.skip(base);
                let cut = before.len() - base;
                assert(edits.take(cut) =~= before.skip(base));
                assert(edits.skip(cut) =~= rcx.rewrites@.skip(before.len() as int));
                assert(top(steps.push(step)) == Some(step));
            }
            i += 1;
        }
        proof {
            if reparsed.well_nested() && index.well_nested() {
                fresh_edits_nest(
                    *self,
                    *reparsed,
                    top(old(rcx).cx.visit_steps@),
                    guard,
                    index,
                    rcx.rewrites@.skip(base),
                );
            }
        }
    }
}

/// Compares the tree `new` with the tree `old` that it was made from, starting in
/// recycled mode at the roots with an empty stack of steps and no guard. Hands
/// back whether the trees differ, and the edits.
pub fn compare_roots<S: Reprint>(sess: &S, old: &Node, new: &Node) -> (r: (bool, Vec<TextRewrite>))
    requires
        old.ids_unique(),
    ensures
        r.0 == !new.equivalent(*old),
        r.0 == (r.1@.len() > 0),
        exists|index: OldNodes| #[trigger]
            index.indexes(old.preorder()) && recycled_edits(*new, *old, None, index, r.1@),
        old.well_nested() ==> nested_in(r.1@, old.span),
{
    let index = OldNodes::index(old);
    proof {
        if old.well_nested() {
            old.preorder_well_nested(old.children@.len() as nat);
            assert forall|c: Category, id: u32| #[trigger]
                index.table(c).contains_key(id) implies index.table(c)[id].well_nested() by {
                let nodes = old.preorder();
                assert(nodes == old.preorder_upto(old.children@.len()));
                assert(crate::table::keyed_in(nodes, c, id));
                let k = choose|k: int|
                    0 <= k < nodes.len() && (#[trigger] nodes[k]).indexed() && nodes[k].category == c
                        && nodes[k].id == id;
                assert(index.table(nodes[k].category)[nodes[k].id] == nodes[k]);
            }
        }
    }
    let cx = RewriteCtxt::new(sess, index);
    let mut rcx = cx.with_rewrites(Vec::new());
    let need = new.compare_recycled(old, &mut rcx);
    assert(rcx.rewrites@.skip(0) =~= rcx.rewrites@);
    let (_, rewrites) = rcx.into_parts();
    (need, rewrites)
}

/// The edits that turn the source text of `old` into source text for `new`. The
/// comparison of the roots must not ask for a rewrite, which it does as soon as
/// the trees differ anywhere.
pub fn rewrite<S: Reprint>(sess: &S, old: &Node, new: &Node) -> (edits: Vec<TextRewrite>)
    requires
        old.ids_unique(),
        new.equivalent(*old),
    ensures
        edits@ == Seq::<TextRewrite>::empty(),
{
    let (need, rewrites) = compare_roots(sess, old, new);
    assert(rewrites@ =~= Seq::<TextRewrite>::empty());
    rewrites
}

} // verus!
