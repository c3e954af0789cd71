//! What a comparison records, as a relation between the trees and the edits.
//!
//! The printer decides where printed text lies, so the trees do not determine the
//! edits. They determine everything else: the relations here hold of a list of
//! edits exactly if some choice of printed trees leads the comparison to it.

use vstd::prelude::*;
use crate::edit::{nested_in, TextAdjust, TextRewrite};
use crate::node::Node;
use crate::span::Span;
use crate::step::VisitStep;
use crate::table::OldNodes;

verus! {

/// The rank of a comparison in fresh mode: one that starts inside the guard
/// cannot turn to recycled mode at its own node.
pub open spec fn fresh_rank(guard: Span, span: Span) -> nat {
    if guard.spec_contains(span) {
        1
    } else {
        3
    }
}

/// `edits` is what comparing `new` with `old_node` in recycled mode records, where
/// `new` was reached by `parent`. Nodes of the same shape leave it to their
/// children. Otherwise one edit puts printed text in the place of `old_node`; what
/// it holds inside comes from comparing `new` with the parse of that text, under
/// the guard of `new`'s span, or is nothing where the parse's spans do not nest.
pub open spec fn recycled_edits<'s>(
    new: Node,
    old_node: Node,
    parent: Option<VisitStep>,
    index: OldNodes<'s>,
    edits: Seq<TextRewrite>,
) -> bool
    decreases new, 2nat, 0nat,
{
    if new.same_shape(old_node) {
        recycled_children(new, old_node, index, new.children@.len(), edits)
    } else {
        &&& edits.len() == 1
        &&& edits[0].old_span == old_node.span
        &&& edits[0].adjust == new.adjustment(parent)
        &&& exists|reparsed: Node|
            edits[0].new_span == reparsed.span && if #[trigger] reparsed.well_nested() {
                fresh_edits(new, reparsed, parent, new.span, index, edits[0].rewrites@)
            } else {
                edits[0].rewrites@.len() == 0
            }
    }
}

/// `edits` is what the first `k` children of `new` record in recycled mode, each
/// compared with the child of `old_node` in its place, one after the other.
pub open spec fn recycled_children<'s>(
    new: Node,
    old_node: Node,
    index: OldNodes<'s>,
    k: nat,
    edits: Seq<TextRewrite>,
) -> bool
    decreases new, 0nat, k,
{
    if k == 0 {
        edits.len() == 0
    } else if k <= new.children@.len() && k <= old_node.children@.len() {
        exists|cut: int|
            0 <= cut <= edits.len() && recycled_children(
                new,
                old_node,
                index,
                (k - 1) as nat,
                #[trigger] edits.take(cut),
            ) && recycled_edits(
                new.children@[k - 1],
                old_node.children@[k - 1],
                Some(new.child_step(k - 1)),
                index,
                edits.skip(cut),
            )
    } else {
        false
    }
}

/// `edits` is what comparing `new` with `reparsed` in fresh mode records, where
/// `new` was reached by `parent`. A recycled node gets one edit that puts its old
/// text in the place of the printed text; what it holds inside comes from
/// comparing `new` with the old node in recycled mode. Any other node leaves it
/// to its children.
pub open spec fn fresh_edits<'s>(
    new: Node,
    reparsed: Node,
    parent: Option<VisitStep>,
    guard: Span,
    index: OldNodes<'s>,
    edits: Seq<TextRewrite>,
) -> bool
    decreases new, fresh_rank(guard, new.span), 0nat,
{
    match new.recycled_from(index, guard) {
        Some(from) => {
            &&& edits.len() == 1
            &&& edits[0].old_span == reparsed.span
            &&& edits[0].new_span == from.span
            &&& edits[0].adjust == TextAdjust::Unchanged
            &&& recycled_edits(new, *from, parent, index, edits[0].rewrites@)
        },
        None => fresh_children(new, reparsed, guard, index, paired(new, reparsed), edits),
    }
}

/// The number of children that `new` and `reparsed` both have.
pub open spec fn paired(new: Node, reparsed: Node) -> nat {
    if new.children@.len() <= reparsed.children@.len() {
        new.children@.len()
    } else {
        reparsed.children@.len()
    }
}

/// `edits` is what the first `k` children of `new` record in fresh mode, each
/// compared with the child of `reparsed` in its place, one after the other.
pub open spec fn fresh_children<'s>(
    new: Node,
    reparsed: Node,
    guard: Span,
    index: OldNodes<'s>,
    k: nat,
    edits: Seq<TextRewrite>,
) -> bool
    decreases new, 0nat, k,
{
    if k == 0 {
        edits.len() == 0
    } else if k <= new.children@.len() && k <= reparsed.children@.len() {
        exists|cut: int|
            0 <= cut <= edits.len() && fresh_children(
                new,
                reparsed,
                guard,
                index,
                (k - 1) as nat,
                #[trigger] edits.take(cut),
            ) && fresh_edits(
                new.children@[k - 1],
                reparsed.children@[k - 1],
                Some(new.child_step(k - 1)),
                guard,
                index,
                edits.skip(cut),
            )
    } else {
        false
    }
}

/// Under the guard of its own span a node is not taken for recycled code: a
/// comparison that has turned from recycled to fresh mode at a node does not turn
/// back at that node, and goes on in its children.
pub proof fn guarded_node_is_not_recycled<'s>(new: Node, index: OldNodes<'s>)
    ensures
        new.recycled_from(index, new.span).is_none(),
        fresh_rank(new.span, new.span) == 1,
{
}

/// Comparing equivalent trees in recycled mode records no edit: no text of a
/// subtree that did not change is replaced.
pub proof fn equivalent_trees_record_nothing<'s>(
    new: Node,
    old_node: Node,
    parent: Option<VisitStep>,
    index: OldNodes<'s>,
    edits: Seq<TextRewrite>,
)
    requires
        new.equivalent(old_node),
        recycled_edits(new, old_node, parent, index, edits),
    ensures
        edits.len() == 0,
    decreases new, 1nat, 0nat,
{
    equivalent_children_record_nothing(new, old_node, index, new.children@.len(), edits);
}

/// Comparing a tree with itself records no edit.
pub proof fn same_tree_records_nothing<'s>(
    tree: Node,
    parent: Option<VisitStep>,
    index: OldNodes<'s>,
    edits: Seq<TextRewrite>,
)
    requires
        recycled_edits(tree, tree, parent, index, edits),
    ensures
        edits.len() == 0,
{
    tree.equivalent_reflexive();
    equivalent_trees_record_nothing(tree, tree, parent, index, edits);
}

/// The first `k` children of equivalent trees record no edit.
pub proof fn equivalent_children_record_nothing<'s>(
    new: Node,
    old_node: Node,
    index: OldNodes<'s>,
    k: nat,
    edits: Seq<TextRewrite>,
)
    requires
        new.equivalent(old_node),
        k <= new.children@.len(),
        recycled_children(new, old_node, index, k, edits),
    ensures
        edits.len() == 0,
    decreases new, 0nat, k,
{
    if k > 0 {
        let cut = choose|cut: int|
            0 <= cut <= edits.len() && recycled_children(
                new,
                old_node,
                index,
                (k - 1) as nat,
                #[trigger] edits.take(cut),
            ) && recycled_edits(
                new.children@[k - 1],
                old_node.children@[k - 1],
                Some(new.child_step(k - 1)),
                index,
                edits.skip(cut),
            );
        equivalent_children_record_nothing(new, old_node, index, (k - 1) as nat, edits.take(cut));
        equivalent_trees_record_nothing(
            new.children@[k - 1],
            old_node.children@[k - 1],
            Some(new.child_step(k - 1)),
            index,
            edits.skip(cut),
        );
    }
}

/// Comparing trees that differ in recycled mode records an edit.
pub proof fn changed_trees_record_an_edit<'s>(
    new: Node,
    old_node: Node,
    parent: Option<VisitStep>,
    index: OldNodes<'s>,
    edits: Seq<TextRewrite>,
)
    requires
        !new.equivalent(old_node),
        recycled_edits(new, old_node, parent, index, edits),
    ensures
        edits.len() > 0,
    decreases new, 1nat, 0nat,
{
    if new.same_shape(old_node) {
        let j = choose|j: int|
            0 <= j < new.children@.len() && !(#[trigger] new.children@[j]).equivalent(
                old_node.children@[j],
            );
        changed_child_records_an_edit(new, old_node, index, new.children@.len(), j, edits);
    }
}

/// Where child `j` of two nodes differs, the first `k` children, `j` among them,
/// record an edit.
pub proof fn changed_child_records_an_edit<'s>(
    new: Node,
    old_node: Node,
    index: OldNodes<'s>,
    k: nat,
    j: int,
    edits: Seq<TextRewrite>,
)
    requires
        0 <= j < k,
        !new.children@[j].equivalent(old_node.children@[j]),
        recycled_children(new, old_node, index, k, edits),
    ensures
        edits.len() > 0,
    decreases new, 0nat, k,
{
    let cut = choose|cut: int|
        0 <= cut <= edits.len() && recycled_children(
            new,
            old_node,
            index,
            (k - 1) as nat,
            #[trigger] edits.take(cut),
        ) && recycled_edits(
            new.children@[k - 1],
            old_node.children@[k - 1],
            Some(new.child_step(k - 1)),
            index,
            edits.skip(cut),
        );
    if j == k - 1 {
        changed_trees_record_an_edit(
            new.children@[j],
            old_node.children@[j],
            Some(new.child_step(j)),
            index,
            edits.skip(cut),
        );
    } else {
        changed_child_records_an_edit(new, old_node, index, (k - 1) as nat, j, edits.take(cut));
    }
}

/// The edits that a comparison in recycled mode records do not overlap: where
/// the spans of the old trees nest, the edits replace pieces of `old_node` that
/// are pairwise disjoint, and the edits nested in an edit replace pairwise
/// disjoint pieces of that edit's new text, at every depth.
pub proof fn recycled_edits_nest<'s>(
    new: Node,
    old_node: Node,
    parent: Option<VisitStep>,
    index: OldNodes<'s>,
    edits: Seq<TextRewrite>,
)
    requires
        recycled_edits(new, old_node, parent, index, edits),
        old_node.well_nested(),
        index.well_nested(),
    ensures
        nested_in(edits, old_node.span),
    decreases new, 2nat, 0nat,
{
    if new.same_shape(old_node) {
        recycled_children_nest(new, old_node, index, new.children@.len(), edits);
    } else {
        let reparsed = choose|reparsed: Node|
            edits[0].new_span == reparsed.span && if #[trigger] reparsed.well_nested() {
                fresh_edits(new, reparsed, parent, new.span, index, edits[0].rewrites@)
            } else {
                edits[0].rewrites@.len() == 0
            };
        if reparsed.well_nested() {
            fresh_edits_nest(new, reparsed, parent, new.span, index, edits[0].rewrites@);
        }
        assert(edits[0].well_formed());
    }
}

/// The edits of the first `k` children in recycled mode do not overlap, and none
/// of them touches a later child of `old_node`.
pub proof fn recycled_children_nest<'s>(
    new: Node,
    old_node: Node,
    index: OldNodes<'s>,
    k: nat,
    edits: Seq<TextRewrite>,
)
    requires
        recycled_children(new, old_node, index, k, edits),
        old_node.well_nested(),
        index.well_nested(),
    ensures
        nested_in(edits, old_node.span),
        forall|i: int, j: int|
            0 <= i < edits.len() && k <= j < old_node.children@.len() ==> (#[trigger] edits[i]).old_span.spec_disjoint(
                (#[trigger] old_node.children@[j]).span,
            ),
    decreases new, 0nat, k,
{
    if k > 0 {
        let cut = choose|cut: int|
            0 <= cut <= edits.len() && recycled_children(
                new,
                old_node,
                index,
                (k - 1) as nat,
                #[trigger] edits.take(cut),
            ) && recycled_edits(
                new.children@[k - 1],
                old_node.children@[k - 1],
                Some(new.child_step(k - 1)),
                index,
                edits.skip(cut),
            );
        let head = edits.take(cut);
        let tail = edits.skip(cut);
        let place = old_node.children@[k - 1];
        recycled_children_nest(new, old_node, index, (k - 1) as nat, head);
        recycled_edits_nest(new.children@[k - 1], place, Some(new.child_step(k - 1)), index, tail);
        joined_edits_nest(edits, cut, old_node, k);
    }
}

/// The edits that a comparison in fresh mode records do not overlap: where the
/// spans of `reparsed` and of the old trees nest, the edits replace pieces of
/// `reparsed` that are pairwise disjoint, and so on inside them.
pub proof fn fresh_edits_nest<'s>(
    new: Node,
    reparsed: Node,
    parent: Option<VisitStep>,
    guard: Span,
    index: OldNodes<'s>,
    edits: Seq<TextRewrite>,
)
    requires
        fresh_edits(new, reparsed, parent, guard, index, edits),
        reparsed.well_nested(),
        index.well_nested(),
    ensures
        nested_in(edits, reparsed.span),
    decreases new, fresh_rank(guard, new.span), 0nat,
{
    match new.recycled_from(index, guard) {
        Some(from) => {
            assert(index.table(new.category).contains_key(new.id));
            recycled_edits_nest(new, *from, parent, index, edits[0].rewrites@);
            assert(edits[0].well_formed());
        },
        None => {
            fresh_children_nest(new, reparsed, guard, index, paired(new, reparsed), edits);
        },
    }
}

/// The edits of the first `k` children in fresh mode do not overlap, and none of
/// them touches a later child of `reparsed`.
pub proof fn fresh_children_nest<'s>(
    new: Node,
    reparsed: Node,
    guard: Span,
    index: OldNodes<'s>,
    k: nat,
    edits: Seq<TextRewrite>,
)
    requires
        fresh_children(new, reparsed, guard, index, k, edits),
        reparsed.well_nested(),
        index.well_nested(),
    ensures
        nested_in(edits, reparsed.span),
        forall|i: int, j: int|
            0 <= i < edits.len() && k <= j < reparsed.children@.len() ==> (#[trigger] edits[i]).old_span.spec_disjoint(
                (#[trigger] reparsed.children@[j]).span,
            ),
    decreases new, 0nat, k,
{
    if k > 0 {
        let cut = choose|cut: int|
            0 <= cut <= edits.len() && fresh_children(
                new,
                reparsed,
                guard,
                index,
                (k - 1) as nat,
                #[trigger] edits.take(cut),
            ) && fresh_edits(
                new.children@[k - 1],
                reparsed.children@[k - 1],
                Some(new.child_step(k - 1)),
                guard,
                index,
                edits.skip(cut),
            );
        let head = edits.take(cut);
        let tail = edits.skip(cut);
        let place = reparsed.children@[k - 1];
        fresh_children_nest(new, reparsed, guard, index, (k - 1) as nat, head);
        fresh_edits_nest(new.children@[k - 1], place, Some(new.child_step(k - 1)), guard, index, tail);
        joined_edits_nest(edits, cut, reparsed, k);
    }
}

/// Edits that lie in the first `k - 1` children of `place` and clear of the
/// later ones, followed by edits that lie in child `k - 1`, lie in `place` and
/// clear of the children from `k` on.
proof fn joined_edits_nest(edits: Seq<TextRewrite>, cut: int, place: Node, k: nat)
    requires
        0 < k <= place.children@.len(),
        0 <= cut <= edits.len(),
        place.well_nested(),
        nested_in(edits.take(cut), place.span),
        forall|i: int, j: int|
            0 <= i < cut && k - 1 <= j < place.children@.len() ==> (#[trigger] edits.take(cut)[i]).old_span.spec_disjoint(
                (#[trigger] place.children@[j]).span,
            ),
        nested_in(edits.skip(cut), place.children@[k - 1].span),
    ensures
        nested_in(edits, place.span),
        forall|i: int, j: int|
            0 <= i < edits.len() && k <= j < place.children@.len() ==> (#[trigger] edits[i]).old_span.spec_disjoint(
                (#[trigger] place.children@[j]).span,
            ),
{
    let head = edits.take(cut);
    let tail = edits.skip(cut);
    let child = place.children@[k - 1];
    assert(place.span.spec_contains(child.span));
    assert forall|i: int| 0 <= i < edits.len() implies place.span.spec_contains(
        (#[trigger] edits[i]).old_span,
    ) && edits[i].well_formed() && (i >= cut ==> child.span.spec_contains(edits[i].old_span))
        && (i < cut ==> edits[i].old_span.spec_disjoint(child.span)) by {
        if i < cut {
            assert(head[i] == edits[i]);
        } else {
            assert(tail[i - cut] == edits[i]);
        }
    }
    assert forall|i: int, j: int| 0 <= i < j < edits.len() implies (#[trigger] edits[i]).old_span.spec_disjoint(
        (#[trigger] edits[j]).old_span,
    ) by {
        if j < cut {
            assert(head[i] == edits[i] && head[j] == edits[j]);
        } else if i >= cut {
            assert(tail[i - cut] == edits[i] && tail[j - cut] == edits[j]);
        }
    }
    assert forall|i: int, j: int|
        0 <= i < edits.len() && k <= j < place.children@.len() implies (#[trigger] edits[i]).old_span.spec_disjoint(
        (#[trigger] place.children@[j]).span,
    ) by {
        if i < cut {
            assert(head[i] == edits[i]);
        } else {
            assert(child.span.spec_disjoint(place.children@[j].span));
        }
    }
}

} // verus!
