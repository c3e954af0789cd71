//! Steps of the traversal: how the current node was reached from its parent.

use vstd::prelude::*;
use crate::node::ExprKind;

verus! {

/// One step of the traversal. The nesting of expressions matters most, since it
/// decides where parentheses are needed.
#[derive(Clone, Copy, Debug, PartialEq, Eq, Structural)]
pub enum VisitStep {
    /// From an expression into one of its children.
    Expr(ExprKind),
    /// From a binary expression into its left operand.
    ExprLeft(ExprKind),
    /// From a binary expression into its right operand.
    ExprRight(ExprKind),
    /// From any other node into one of its children.
    Other,
}

impl VisitStep {
    /// The kind of the expression that the step left, if it left one.
    pub open spec fn expr_kind(self) -> Option<ExprKind> {
        match self {
            VisitStep::Expr(k) => Some(k),
            VisitStep::ExprLeft(k) => Some(k),
            VisitStep::ExprRight(k) => Some(k),
            VisitStep::Other => None,
        }
    }

    /// The kind of the expression that the step left, if it left one.
    pub fn get_expr_kind(&self) -> (r: Option<&ExprKind>)
        ensures
            match r {
                Some(k) => self.expr_kind() == Some(*k),
                None => self.expr_kind().is_none(),
            },
    {
        match self {
            VisitStep::Expr(k) => Some(k),
            VisitStep::ExprLeft(k) => Some(k),
            VisitStep::ExprRight(k) => Some(k),
            VisitStep::Other => None,
        }
    }

    /// Whether the step went into a left operand.
    pub fn is_left(&self) -> (b: bool)
        ensures
            b == (*self is ExprLeft),
    {
        match self {
            VisitStep::ExprLeft(_) => true,
            _ => false,
        }
    }

    /// Whether the step went into a right operand.
    pub fn is_right(&self) -> (b: bool)
        ensures
            b == (*self is ExprRight),
    {
        match self {
            VisitStep::ExprRight(_) => true,
            _ => false,
        }
    }
}

} // verus!
