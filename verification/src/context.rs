//! The traversal context and the edit recorder.

use vstd::prelude::*;
use crate::edit::{TextAdjust, TextRewrite};
use crate::node::Node;
use crate::span::Span;
use crate::step::VisitStep;
use crate::table::{NodeTable, OldNodes};

verus! {

/// What one comparison of two trees carries along: the session, the index of the
/// old tree, the guard span and the steps taken from the root.
pub struct RewriteCtxt<'s, S> {
    pub sess: &'s S,
    pub old_nodes: OldNodes<'s>,
    /// The span of the new node at which fresh mode was last entered. A node
    /// inside it is not taken for recycled code.
    pub fresh_start: Span,
    pub visit_steps: Vec<VisitStep>,
}

impl<'s, S> RewriteCtxt<'s, S> {
    /// A context at the root: no step taken, no guard.
    pub fn new(sess: &'s S, old_nodes: OldNodes<'s>) -> (cx: RewriteCtxt<'s, S>)
        ensures
            cx.sess == sess,
            cx.old_nodes == old_nodes,
            cx.fresh_start == Span::spec_dummy(),
            cx.visit_steps@ == Seq::<VisitStep>::empty(),
    {
        RewriteCtxt { sess, old_nodes, fresh_start: Span::dummy(), visit_steps: Vec::new() }
    }

    /// The session that the collaborators work in.
    pub fn session(&self) -> (s: &'s S)
        ensures
            s == self.sess,
    {
        self.sess
    }

    /// The table of the old tree's expressions.
    pub fn old_exprs(&mut self) -> (t: &mut NodeTable<'s, Node>)
        ensures
            *t == old(self).old_nodes.exprs,
            *final(self) == (RewriteCtxt {
                old_nodes: OldNodes { exprs: *final(t), ..old(self).old_nodes },
                ..*old(self)
            }),
    {
        &mut self.old_nodes.exprs
    }

    /// The table of the old tree's patterns.
    pub fn old_pats(&mut self) -> (t: &mut NodeTable<'s, Node>)
        ensures
            *t == old(self).old_nodes.pats,
            *final(self) == (RewriteCtxt {
                old_nodes: OldNodes { pats: *final(t), ..old(self).old_nodes },
                ..*old(self)
            }),
    {
        &mut self.old_nodes.pats
    }

    /// The table of the old tree's types.
    pub fn old_tys(&mut self) -> (t: &mut NodeTable<'s, Node>)
        ensures
            *t == old(self).old_nodes.tys,
            *final(self) == (RewriteCtxt {
                old_nodes: OldNodes { tys: *final(t), ..old(self).old_nodes },
                ..*old(self)
            }),
    {
        &mut self.old_nodes.tys
    }

    /// The table of the old tree's statements.
    pub fn old_stmts(&mut self) -> (t: &mut NodeTable<'s, Node>)
        ensures
            *t == old(self).old_nodes.stmts,
            *final(self) == (RewriteCtxt {
                old_nodes: OldNodes { stmts: *final(t), ..old(self).old_nodes },
                ..*old(self)
            }),
    {
        &mut self.old_nodes.stmts
    }

    /// The table of the old tree's items.
    pub fn old_items(&mut self) -> (t: &mut NodeTable<'s, Node>)
        ensures
            *t == old(self).old_nodes.items,
            *final(self) == (RewriteCtxt {
                old_nodes: OldNodes { items: *final(t), ..old(self).old_nodes },
                ..*old(self)
            }),
    {
        &mut self.old_nodes.items
    }

    /// The guard span.
    pub fn fresh_start(&self) -> (s: Span)
        ensures
            s == self.fresh_start,
    {
        self.fresh_start
    }

    /// Installs `span` as the guard and hands back the one it replaces.
    pub fn replace_fresh_start(&mut self, span: Span) -> (prev: Span)
        ensures
            prev == old(self).fresh_start,
            *final(self) == (RewriteCtxt { fresh_start: span, ..*old(self) }),
    {
        let prev = self.fresh_start;
        self.fresh_start = span;
        prev
    }

    /// A recorder over this context that appends to `rewrites`.
    pub fn with_rewrites(self, rewrites: Vec<TextRewrite>) -> (rcx: RewriteCtxtRef<'s, S>)
        ensures
            rcx.cx == self,
            rcx.rewrites == rewrites,
    {
        RewriteCtxtRef { rewrites, cx: self }
    }

    /// Records a step into a child.
    pub fn push_step(&mut self, step: VisitStep)
        ensures
            final(self).visit_steps@ == old(self).visit_steps@.push(step),
            *final(self) == (RewriteCtxt { visit_steps: final(self).visit_steps, ..*old(self) }),
    {
        self.visit_steps.push(step);
    }

    /// Drops the last step; an empty stack stays empty.
    pub fn pop_step(&mut self)
        ensures
            old(self).visit_steps@.len() > 0 ==> final(self).visit_steps@ == old(
                self,
            ).visit_steps@.drop_last(),
            old(self).visit_steps@.len() == 0 ==> final(self).visit_steps@ == old(
                self,
            ).visit_steps@,
            *final(self) == (RewriteCtxt { visit_steps: final(self).visit_steps, ..*old(self) }),
    {
        self.visit_steps.pop();
    }

    /// The step that led to the current node; `None` at the root.
    pub fn parent_step(&self) -> (r: Option<&VisitStep>)
        ensures
            match r {
                Some(s) => self.visit_steps@.len() > 0 && *s == self.visit_steps@.last(),
                None => self.visit_steps@.len() == 0,
            },
    {
        let n: usize = self.visit_steps.len();
        if n == 0 {
            None
        } else {
            Some(&self.visit_steps[n - 1])
        }
    }
}

/// The edit recorder: a context together with the list that edits are appended to.
pub struct RewriteCtxtRef<'s, S> {
    pub rewrites: Vec<TextRewrite>,
    pub cx: RewriteCtxt<'s, S>,
}

impl<'s, S> RewriteCtxtRef<'s, S> {
    /// The context.
    pub fn deref(&self) -> (cx: &RewriteCtxt<'s, S>)
        ensures
            *cx == self.cx,
    {
        &self.cx
    }

    /// The context, to change it.
    pub fn deref_mut(&mut self) -> (cx: &mut RewriteCtxt<'s, S>)
        ensures
            *cx == old(self).cx,
            *final(self) == (RewriteCtxtRef { cx: *final(cx), ..*old(self) }),
    {
        &mut self.cx
    }

    /// The recorder itself, borrowed for a call.
    pub fn borrow(&mut self) -> (r: &mut RewriteCtxtRef<'s, S>)
        ensures
            *r == *old(self),
            *final(self) == *final(r),
    {
        self
    }

    /// Makes `rewrites` the list that edits go to, and hands back the list that
    /// they went to before.
    pub fn with_rewrites(&mut self, rewrites: Vec<TextRewrite>) -> (prev: Vec<TextRewrite>)
        ensures
            prev == old(self).rewrites,
            *final(self) == (RewriteCtxtRef { rewrites, ..*old(self) }),
    {
        let mut prev = rewrites;
        std::mem::swap(&mut self.rewrites, &mut prev);
        prev
    }

    /// Takes the recorder apart.
    pub fn into_parts(self) -> (r: (RewriteCtxt<'s, S>, Vec<TextRewrite>))
        ensures
            r.0 == self.cx,
            r.1 == self.rewrites,
    {
        (self.cx, self.rewrites)
    }

    /// The current length of the list.
    pub fn mark(&self) -> (m: usize)
        ensures
            m == self.rewrites@.len(),
    {
        self.rewrites.len()
    }

    /// Cuts the list back to `mark` entries; a list no longer than that stays.
    pub fn rewind(&mut self, mark: usize)
        ensures
            mark <= old(self).rewrites@.len() ==> final(self).rewrites@ == old(
                self,
            ).rewrites@.take(mark as int),
            mark > old(self).rewrites@.len() ==> final(self).rewrites@ == old(self).rewrites@,
            final(self).cx == old(self).cx,
    {
        self.rewrites.truncate(mark);
    }

    /// Appends one edit.
    pub fn record(
        &mut self,
        old_span: Span,
        new_span: Span,
        rewrites: Vec<TextRewrite>,
        adjust: TextAdjust,
    )
        ensures
            final(self).rewrites@ == old(self).rewrites@.push(
                (TextRewrite { old_span, new_span, rewrites, adjust }),
            ),
            final(self).cx == old(self).cx,
    {
        self.rewrites.push(TextRewrite { old_span, new_span, rewrites, adjust });
    }
}

} // verus!
