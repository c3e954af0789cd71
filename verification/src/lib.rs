//! Text reconciliation for source-to-source refactoring.
//!
//! Given the syntax tree of some source text and a tree made from it by any
//! transformation, the comparison in `rewrite` plans the substitutions that turn
//! the old text into text for the new tree. Text is replaced only where the tree
//! changed, so that formatting, comments and macro invocations survive elsewhere.
//!
//! `span` and `node` hold the trees, `table` the index of the old tree by node
//! identity, `step` and `context` the state of a traversal with its edit
//! recorder, `edit` the edits, `plan` the relation between two trees and the
//! edits that comparing them records, and `rewrite` the comparison itself.

pub mod span;
pub mod edit;
pub mod node;
pub mod step;
pub mod table;
pub mod context;
pub mod plan;
pub mod rewrite;
