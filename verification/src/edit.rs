//! Edit records: the substitutions that a comparison plans.

use vstd::prelude::*;
use crate::span::Span;

verus! {

/// What to do to the replacement text besides putting it in place.
#[derive(Clone, Copy, PartialEq, Eq, Debug, Structural)]
pub enum TextAdjust {
    /// Nothing.
    Unchanged,
    /// Surround it with parentheses.
    Parenthesize,
}

/// Replace the text at `old_span` with the text at `new_span`, after applying
/// `rewrites` inside the replacement.
#[derive(PartialEq, Eq, Debug)]
pub struct TextRewrite {
    pub old_span: Span,
    pub new_span: Span,
    pub rewrites: Vec<TextRewrite>,
    pub adjust: TextAdjust,
}

impl TextRewrite {
    /// The edits nested in this one replace pieces of this edit's new text that do
    /// not overlap, and the same holds inside each of them.
    pub open spec fn well_formed(self) -> bool
        decreases self,
    {
        &&& forall|i: int|
            0 <= i < self.rewrites@.len() ==> self.new_span.spec_contains(
                (#[trigger] self.rewrites@[i]).old_span,
            ) && self.rewrites@[i].well_formed()
        &&& forall|i: int, j: int|
            0 <= i < j < self.rewrites@.len() ==> (#[trigger] self.rewrites@[i]).old_span.spec_disjoint(
                (#[trigger] self.rewrites@[j]).old_span,
            )
    }
}

/// The edits replace pieces of `bound` that do not overlap, and each of them is
/// well formed.
pub open spec fn nested_in(edits: Seq<TextRewrite>, bound: Span) -> bool {
    &&& forall|i: int|
        0 <= i < edits.len() ==> bound.spec_contains((#[trigger] edits[i]).old_span)
            && edits[i].well_formed()
    &&& forall|i: int, j: int|
        0 <= i < j < edits.len() ==> (#[trigger] edits[i]).old_span.spec_disjoint(
            (#[trigger] edits[j]).old_span,
        )
}

/// `longer` begins with the entries of `shorter`, in their order.
pub open spec fn extends(longer: Seq<TextRewrite>, shorter: Seq<TextRewrite>) -> bool {
    &&& shorter.len() <= longer.len()
    &&& forall|i: int| 0 <= i < shorter.len() ==> longer[i] == shorter[i]
}

/// A list that is marked, then grows by any number of entries, and is then cut
/// back to the mark, is the list that was marked.
pub proof fn mark_rewind_round_trip(list: Seq<TextRewrite>, appended: Seq<TextRewrite>)
    ensures
        (list + appended).take(list.len() as int) == list,
        (list + appended).take(list.len() as int).len() == list.len(),
{
    assert((list + appended).take(list.len() as int) =~= list);
}

} // verus!
