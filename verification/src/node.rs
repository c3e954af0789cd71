//! The syntax tree that the comparison reads.

use vstd::prelude::*;
use crate::edit::TextAdjust;
use crate::span::{Source, Span, DUMMY_NODE_ID};
use crate::step::VisitStep;
use crate::table::OldNodes;

verus! {

/// The syntactic category of a node. Identities are unique within a category only.
#[derive(Clone, Copy, Debug, PartialEq, Eq, Structural)]
pub enum Category {
    Expr,
    Pat,
    Ty,
    Stmt,
    Item,
}

/// What a node is apart from its children.
#[derive(Clone, Copy, Debug, PartialEq, Eq, Structural)]
pub struct ExprKind {
    /// The node's shape and the tokens it holds itself (operator, literal, name).
    pub tag: u32,
    /// How tightly the node's top-level operator binds; a larger number binds tighter.
    pub precedence: u8,
    /// A binary operation: the first child is the left operand, the second the right.
    pub binary: bool,
    /// A pair of parentheses around the one child.
    pub paren: bool,
}

/// A node of a syntax tree.
#[derive(Debug)]
pub struct Node {
    pub category: Category,
    pub id: u32,
    pub span: Span,
    pub kind: ExprKind,
    pub children: Vec<Node>,
}

impl Node {
    /// The two nodes agree in everything but their children's contents, their
    /// identities and their spans.
    pub open spec fn same_shape(self, other: Node) -> bool {
        &&& self.category == other.category
        &&& self.kind == other.kind
        &&& self.children@.len() == other.children@.len()
    }

    /// Structural equivalence: the trees agree node by node, identities and spans
    /// aside.
    pub open spec fn equivalent(self, other: Node) -> bool
        decreases self,
    {
        &&& self.same_shape(other)
        &&& forall|i: int|
            0 <= i < self.children@.len() ==> (#[trigger] self.children@[i]).equivalent(
                other.children@[i],
            )
    }

    /// The spans nest as the nodes do: every child's span lies in its parent's,
    /// and the spans of two children of one node do not overlap.
    pub open spec fn well_nested(self) -> bool
        decreases self,
    {
        &&& forall|i: int|
            0 <= i < self.children@.len() ==> self.span.spec_contains(
                (#[trigger] self.children@[i]).span,
            ) && self.children@[i].well_nested()
        &&& forall|i: int, j: int|
            0 <= i < j < self.children@.len() ==> (#[trigger] self.children@[i]).span.spec_disjoint(
                (#[trigger] self.children@[j]).span,
            )
    }

    /// The node is entered in the index of its tree: it has an identity and is no
    /// pair of parentheses, which shares its identity with the expression inside.
    pub open spec fn indexed(self) -> bool {
        self.id != DUMMY_NODE_ID && !(self.category == Category::Expr && self.kind.paren)
    }

    /// The old node that this new node is recycled from: the node of the index
    /// with this node's category, identity and span, where that span lies in the
    /// old text and outside `guard`.
    pub open spec fn recycled_from<'s>(self, old_nodes: OldNodes<'s>, guard: Span) -> Option<
        &'s Node,
    > {
        let t = old_nodes.table(self.category);
        if self.span.source == Source::Old && !guard.spec_contains(self.span) && t.contains_key(
            self.id,
        ) && t[self.id].span == self.span {
            Some(t[self.id])
        } else {
            None
        }
    }

    /// The step that the traversal takes from this node into its child `i`.
    pub open spec fn child_step(self, i: int) -> VisitStep {
        if self.category != Category::Expr {
            VisitStep::Other
        } else if self.kind.binary && self.children@.len() == 2 && i == 0 {
            VisitStep::ExprLeft(self.kind)
        } else if self.kind.binary && self.children@.len() == 2 {
            VisitStep::ExprRight(self.kind)
        } else {
            VisitStep::Expr(self.kind)
        }
    }

    /// What must be done to this node's text when it takes the place of a node
    /// that was reached by `parent`: an expression that becomes an operand of an
    /// operator binding tighter than its own needs parentheses.
    pub open spec fn adjustment(self, parent: Option<VisitStep>) -> TextAdjust {
        match parent {
            Some(VisitStep::ExprLeft(k)) | Some(VisitStep::ExprRight(k)) => {
                if self.category == Category::Expr && k.precedence > self.kind.precedence {
                    TextAdjust::Parenthesize
                } else {
                    TextAdjust::Unchanged
                }
            },
            _ => TextAdjust::Unchanged,
        }
    }

    /// This node, followed by the nodes of its first `k` children's trees, each
    /// tree in preorder.
    pub open spec fn preorder_upto(&self, k: nat) -> Seq<&Node>
        decreases self, k,
    {
        if k == 0 {
            seq![self]
        } else if k <= self.children@.len() {
            self.preorder_upto((k - 1) as nat) + (&self.children@[k - 1]).preorder()
        } else {
            self.preorder_upto(self.children@.len())
        }
    }

    /// The nodes of the tree in preorder.
    pub open spec fn preorder(&self) -> Seq<&Node>
        decreases self, self.children@.len() + 1,
    {
        self.preorder_upto(self.children@.len())
    }

    /// Among the nodes of the tree that an index holds, identities are unique
    /// within each category.
    pub open spec fn ids_unique(&self) -> bool {
        crate::table::distinct_ids(self.preorder())
    }

    /// Every tree is equivalent to itself.
    pub proof fn equivalent_reflexive(self)
        ensures
            self.equivalent(self),
        decreases self,
    {
        assert forall|i: int| 0 <= i < self.children@.len() implies (#[trigger] self.children@[i]).equivalent(
            self.children@[i],
        ) by {
            self.children@[i].equivalent_reflexive();
        }
    }

    /// In a tree whose spans nest, the spans of every subtree nest: of the node
    /// itself and of the trees of its first `k` children.
    pub proof fn preorder_well_nested(&self, k: nat)
        requires
            self.well_nested(),
            k <= self.children@.len(),
        ensures
            forall|i: int|
                0 <= i < self.preorder_upto(k).len() ==> (#[trigger] self.preorder_upto(
                    k,
                )[i]).well_nested(),
        decreases self, k,
    {
        if k > 0 {
            self.preorder_well_nested((k - 1) as nat);
            let child = &self.children@[k - 1];
            child.preorder_well_nested(child.children@.len());
            let before = self.preorder_upto((k - 1) as nat);
            let under = child.preorder_upto(child.children@.len());
            assert(self.preorder_upto(k) == before + child.preorder());
            assert(child.preorder() == under);
            assert forall|i: int| 0 <= i < self.preorder_upto(k).len() implies (#[trigger] self.preorder_upto(
                k,
            )[i]).well_nested() by {
                if i < before.len() {
                    assert(before[i].well_nested());
                } else {
                    assert(under[i - before.len()].well_nested());
                }
            }
        }
    }

    /// Whether the spans of the tree nest as its nodes do.
    pub fn is_well_nested(&self) -> (b: bool)
        ensures
            b == self.well_nested(),
        decreases self,
    {
        let n: usize = self.children.len();
        let mut i: usize = 0;
        while i < n
            invariant
                i <= n,
                n == self.children@.len(),
                forall|k: int|
                    0 <= k < i ==> self.span.spec_contains((#[trigger] self.children@[k]).span)
                        && self.children@[k].well_nested(),
                forall|k: int, l: int|
                    0 <= k < l < i ==> (#[trigger] self.children@[k]).span.spec_disjoint(
                        (#[trigger] self.children@[l]).span,
                    ),
            decreases n - i,
        {
            let child = &self.children[i];
            if !self.span.contains(child.span) || !child.is_well_nested() {
                return false;
            }
            let mut j: usize = 0;
            while j < i
                invariant
                    j <= i,
                    i < n,
                    n == self.children@.len(),
                    *child == self.children@[i as int],
                    forall|k: int|
                        0 <= k < j ==> (#[trigger] self.children@[k]).span.spec_disjoint(child.span),
                decreases i - j,
            {
                if !self.children[j].span.disjoint(child.span) {
                    return false;
                }
                j += 1;
            }
            i += 1;
        }
        true
    }

    /// Whether the tree can be indexed: no two of its nodes would share an entry.
    pub fn has_unique_ids(&self) -> (b: bool)
        ensures
            b == self.ids_unique(),
    {
        crate::table::OldNodes::try_index(self).is_some()
    }

    /// Whether an index of the node's tree holds the node.
    pub fn is_indexed(&self) -> (b: bool)
        ensures
            b == self.indexed(),
    {
        self.id != DUMMY_NODE_ID && !(self.category == Category::Expr && self.kind.paren)
    }

    /// The step to push before the traversal goes into child `i`.
    pub fn step_into(&self, i: usize) -> (step: VisitStep)
        ensures
            step == self.child_step(i as int),
    {
        if self.category != Category::Expr {
            VisitStep::Other
        } else if self.kind.binary && self.children.len() == 2 && i == 0 {
            VisitStep::ExprLeft(self.kind)
        } else if self.kind.binary && self.children.len() == 2 {
            VisitStep::ExprRight(self.kind)
        } else {
            VisitStep::Expr(self.kind)
        }
    }

    /// The adjustment that this node's text needs where `parent` led to it.
    pub fn adjust_under(&self, parent: Option<&VisitStep>) -> (adjust: TextAdjust)
        ensures
            adjust == self.adjustment(
                match parent {
                    Some(s) => Some(*s),
                    None => None,
                },
            ),
    {
        match parent {
            Some(VisitStep::ExprLeft(k)) | Some(VisitStep::ExprRight(k)) => {
                if self.category == Category::Expr && k.precedence > self.kind.precedence {
                    TextAdjust::Parenthesize
                } else {
                    TextAdjust::Unchanged
                }
            },
            _ => TextAdjust::Unchanged,
        }
    }

    /// Appends the nodes of the tree to `out`, in preorder.
    pub fn collect<'s>(&'s self, out: &mut Vec<&'s Node>)
        ensures
            final(out)@ == old(out)@ + self.preorder(),
        decreases self,
    {
        out.push(self);
        let n: usize = self.children.len();
        let mut i: usize = 0;
        while i < n
            invariant
                i <= n,
                n == self.children@.len(),
                out@ == old(out)@ + self.preorder_upto(i as nat),
            decreases n - i,
        {
            let ghost before = out@;
            self.children[i].collect(out);
            proof {
                assert(self.preorder_upto((i + 1) as nat) == self.preorder_upto(i as nat)
                    + (&self.children@[i as int]).preorder());
                assert(out@ =~= old(out)@ + self.preorder_upto((i + 1) as nat));
            }
            i += 1;
        }
    }

    /// Whether the two trees are equivalent.
    pub fn is_equivalent(&self, other: &Node) -> (b: bool)
        ensures
            b == self.equivalent(*other),
        decreases self,
    {
        if !self.shape_eq(other) {
            return false;
        }
        let n: usize = self.children.len();
        let mut i: usize = 0;
        while i < n
            invariant
                i <= n,
                n == self.children@.len(),
                n == other.children@.len(),
                forall|j: int|
                    0 <= j < i ==> (#[trigger] self.children@[j]).equivalent(other.children@[j]),
            decreases n - i,
        {
            if !self.children[i].is_equivalent(&other.children[i]) {
                return false;
            }
            i += 1;
        }
        true
    }

    /// Whether the two nodes agree in category, kind and number of children.
    pub fn shape_eq(&self, other: &Node) -> (b: bool)
        ensures
            b == self.same_shape(*other),
    {
        self.category == other.category && self.kind == other.kind && self.children.len()
            == other.children.len()
    }
}

} // verus!
