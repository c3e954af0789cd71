use ast_rewrite::context::RewriteCtxt;
use ast_rewrite::edit::{TextAdjust, TextRewrite};
use ast_rewrite::node::{Category, ExprKind, Node};
use ast_rewrite::span::{Source, Span, DUMMY_NODE_ID};
use ast_rewrite::step::VisitStep;
use ast_rewrite::table::{NodeTable, OldNodes};

fn kind(tag: u32, precedence: u8, binary: bool, paren: bool) -> ExprKind {
    ExprKind { tag, precedence, binary, paren }
}

fn node(category: Category, id: u32, k: ExprKind, children: Vec<Node>) -> Node {
    Node { category, id, span: Span::new(0, 1, Source::Old), kind: k, children }
}

fn edit(lo: u32) -> TextRewrite {
    TextRewrite {
        old_span: Span::new(lo, lo + 1, Source::Old),
        new_span: Span::new(lo, lo + 2, Source::Printed),
        rewrites: Vec::new(),
        adjust: TextAdjust::Unchanged,
    }
}

#[test]
fn table_insert_then_get() {
    let a = 7u64;
    let b = 8u64;
    let mut t: NodeTable<u64> = NodeTable::new();
    assert!(t.get(1).is_none());
    t.insert(1, &a);
    t.insert(2, &b);
    assert_eq!(t.get(1), Some(&7));
    assert_eq!(t.get(2), Some(&8));
    assert!(t.get(3).is_none());
    assert!(t.contains(2));
    assert!(!t.contains(3));
}

#[test]
fn table_ignores_the_reserved_identity() {
    let a = 7u64;
    let mut t: NodeTable<u64> = NodeTable::new();
    t.insert(DUMMY_NODE_ID, &a);
    t.insert(DUMMY_NODE_ID, &a);
    assert!(t.get(DUMMY_NODE_ID).is_none());
}

#[test]
fn index_is_kept_by_category_and_skips_parentheses() {
    let inner = node(Category::Expr, 1, kind(5, 100, false, false), Vec::new());
    let wrapped = node(Category::Expr, 1, kind(0, 100, false, true), vec![inner]);
    let pat = node(Category::Pat, 1, kind(6, 0, false, false), Vec::new());
    let ty = node(Category::Ty, 2, kind(7, 0, false, false), Vec::new());
    let synthetic = node(Category::Expr, DUMMY_NODE_ID, kind(8, 0, false, false), Vec::new());
    let stmt = node(Category::Stmt, 1, kind(9, 0, false, false), vec![pat, ty, wrapped, synthetic]);
    let item = node(Category::Item, 1, kind(10, 0, false, false), vec![stmt]);
    let index = OldNodes::index(&item);
    assert_eq!(index.get(Category::Item, 1).map(|n| n.kind.tag), Some(10));
    assert_eq!(index.get(Category::Stmt, 1).map(|n| n.kind.tag), Some(9));
    assert_eq!(index.get(Category::Pat, 1).map(|n| n.kind.tag), Some(6));
    assert_eq!(index.get(Category::Ty, 2).map(|n| n.kind.tag), Some(7));
    // the expression inside the parentheses, not the parentheses
    assert_eq!(index.get(Category::Expr, 1).map(|n| n.kind.tag), Some(5));
    assert!(index.get(Category::Ty, 1).is_none());
    assert!(index.get(Category::Expr, DUMMY_NODE_ID).is_none());
    assert!(!index.contains(Category::Item, 2));
}

#[test]
fn collect_lists_the_tree_in_preorder() {
    let a = node(Category::Expr, 1, kind(1, 0, false, false), Vec::new());
    let b = node(Category::Expr, 2, kind(2, 0, false, false), Vec::new());
    let c = node(Category::Expr, 3, kind(3, 0, false, false), vec![a]);
    let d = node(Category::Expr, 4, kind(4, 0, false, false), vec![c, b]);
    let mut out = Vec::new();
    d.collect(&mut out);
    let ids: Vec<u32> = out.iter().map(|n| n.id).collect();
    assert_eq!(ids, vec![4, 3, 1, 2]);
}

#[test]
fn visit_step_queries() {
    let k = kind(3, 20, true, false);
    assert_eq!(VisitStep::Expr(k).get_expr_kind(), Some(&k));
    assert_eq!(VisitStep::ExprLeft(k).get_expr_kind(), Some(&k));
    assert_eq!(VisitStep::ExprRight(k).get_expr_kind(), Some(&k));
    assert_eq!(VisitStep::Other.get_expr_kind(), None);
    assert!(VisitStep::ExprLeft(k).is_left());
    assert!(!VisitStep::ExprLeft(k).is_right());
    assert!(VisitStep::ExprRight(k).is_right());
    assert!(!VisitStep::ExprRight(k).is_left());
    assert!(!VisitStep::Expr(k).is_left());
    assert!(!VisitStep::Other.is_right());
}

#[test]
fn steps_into_children() {
    let k = kind(3, 20, true, false);
    let leaf = || node(Category::Expr, DUMMY_NODE_ID, kind(1, 100, false, false), Vec::new());
    let bin = node(Category::Expr, 1, k, vec![leaf(), leaf()]);
    assert_eq!(bin.step_into(0), VisitStep::ExprLeft(k));
    assert_eq!(bin.step_into(1), VisitStep::ExprRight(k));
    let u = kind(4, 50, false, false);
    let unary = node(Category::Expr, 2, u, vec![leaf()]);
    assert_eq!(unary.step_into(0), VisitStep::Expr(u));
    let stmt = node(Category::Stmt, 3, kind(5, 0, false, false), vec![leaf()]);
    assert_eq!(stmt.step_into(0), VisitStep::Other);
}

#[test]
fn adjustment_depends_on_operand_position_and_precedence() {
    let mul = kind(11, 20, true, false);
    let sum = node(Category::Expr, 1, kind(10, 10, true, false), Vec::new());
    let atom = node(Category::Expr, 2, kind(1, 100, false, false), Vec::new());
    assert_eq!(sum.adjust_under(Some(&VisitStep::ExprLeft(mul))), TextAdjust::Parenthesize);
    assert_eq!(sum.adjust_under(Some(&VisitStep::ExprRight(mul))), TextAdjust::Parenthesize);
    assert_eq!(sum.adjust_under(Some(&VisitStep::Expr(mul))), TextAdjust::Unchanged);
    assert_eq!(sum.adjust_under(Some(&VisitStep::Other)), TextAdjust::Unchanged);
    assert_eq!(sum.adjust_under(None), TextAdjust::Unchanged);
    assert_eq!(atom.adjust_under(Some(&VisitStep::ExprLeft(mul))), TextAdjust::Unchanged);
    let same = node(Category::Expr, 3, mul, Vec::new());
    assert_eq!(same.adjust_under(Some(&VisitStep::ExprLeft(mul))), TextAdjust::Unchanged);
}

#[test]
fn step_stack_push_pop_top() {
    let sess = ();
    let mut cx = RewriteCtxt::new(&sess, OldNodes::new());
    assert!(cx.parent_step().is_none());
    cx.pop_step();
    assert!(cx.parent_step().is_none());
    let k = kind(3, 20, true, false);
    cx.push_step(VisitStep::Other);
    cx.push_step(VisitStep::ExprLeft(k));
    assert_eq!(cx.parent_step(), Some(&VisitStep::ExprLeft(k)));
    cx.pop_step();
    assert_eq!(cx.parent_step(), Some(&VisitStep::Other));
    cx.pop_step();
    assert!(cx.parent_step().is_none());
}

#[test]
fn guard_starts_empty_and_is_swapped() {
    let sess = ();
    let mut cx = RewriteCtxt::new(&sess, OldNodes::new());
    assert_eq!(cx.fresh_start(), Span::dummy());
    let s = Span::new(3, 9, Source::Old);
    assert_eq!(cx.replace_fresh_start(s), Span::dummy());
    assert_eq!(cx.fresh_start(), s);
    assert_eq!(cx.replace_fresh_start(Span::dummy()), s);
    assert_eq!(cx.fresh_start(), Span::dummy());
}

#[test]
fn mark_then_rewind_restores_the_length() {
    let sess = ();
    let mut rcx = RewriteCtxt::new(&sess, OldNodes::new()).with_rewrites(vec![edit(0), edit(10)]);
    let mark = rcx.mark();
    assert_eq!(mark, 2);
    rcx.record(Span::new(20, 21, Source::Old), Span::new(0, 3, Source::Printed), Vec::new(), TextAdjust::Parenthesize);
    rcx.record(Span::new(30, 31, Source::Old), Span::new(3, 6, Source::Printed), vec![edit(4)], TextAdjust::Unchanged);
    rcx.record(Span::new(40, 41, Source::Old), Span::new(6, 9, Source::Printed), Vec::new(), TextAdjust::Unchanged);
    assert_eq!(rcx.mark(), 5);
    rcx.rewind(mark);
    assert_eq!(rcx.mark(), 2);
    let (_, rewrites) = rcx.into_parts();
    assert_eq!(rewrites, vec![edit(0), edit(10)]);
}

#[test]
fn rewind_past_the_end_changes_nothing() {
    let sess = ();
    let mut rcx = RewriteCtxt::new(&sess, OldNodes::new()).with_rewrites(vec![edit(0)]);
    rcx.rewind(5);
    assert_eq!(rcx.mark(), 1);
}

#[test]
fn record_appends_the_entry() {
    let sess = ();
    let mut rcx = RewriteCtxt::new(&sess, OldNodes::new()).with_rewrites(Vec::new());
    rcx.record(Span::new(20, 21, Source::Old), Span::new(0, 3, Source::Printed), vec![edit(1)], TextAdjust::Parenthesize);
    let (_, rewrites) = rcx.into_parts();
    assert_eq!(
        rewrites,
        vec![TextRewrite {
            old_span: Span::new(20, 21, Source::Old),
            new_span: Span::new(0, 3, Source::Printed),
            rewrites: vec![edit(1)],
            adjust: TextAdjust::Parenthesize,
        }]
    );
}

#[test]
fn with_rewrites_swaps_the_destination() {
    let sess = ();
    let mut rcx = RewriteCtxt::new(&sess, OldNodes::new()).with_rewrites(vec![edit(0)]);
    let outer = rcx.with_rewrites(Vec::new());
    assert_eq!(outer, vec![edit(0)]);
    assert_eq!(rcx.mark(), 0);
    rcx.record(Span::new(20, 21, Source::Old), Span::new(0, 3, Source::Printed), Vec::new(), TextAdjust::Unchanged);
    let nested = rcx.with_rewrites(outer);
    assert_eq!(nested.len(), 1);
    assert_eq!(rcx.mark(), 1);
    assert_eq!(rcx.borrow().mark(), 1);
    assert_eq!(rcx.deref().fresh_start(), Span::dummy());
    rcx.deref_mut().push_step(VisitStep::Other);
    assert_eq!(rcx.cx.parent_step(), Some(&VisitStep::Other));
}

#[test]
fn span_relations() {
    let a = Span::new(2, 8, Source::Old);
    assert!(a.contains(Span::new(2, 8, Source::Old)));
    assert!(a.contains(Span::new(3, 5, Source::Old)));
    assert!(!a.contains(Span::new(1, 5, Source::Old)));
    assert!(!a.contains(Span::new(3, 9, Source::Old)));
    assert!(!a.contains(Span::new(3, 5, Source::Printed)));
    assert!(a.disjoint(Span::new(8, 9, Source::Old)));
    assert!(a.disjoint(Span::new(0, 2, Source::Old)));
    assert!(!a.disjoint(Span::new(7, 9, Source::Old)));
    assert!(a.disjoint(Span::new(3, 5, Source::Printed)));
    assert!(a.is_old());
    assert!(!Span::dummy().is_old());
    assert_eq!(Span::dummy(), Span::new(0, 0, Source::Absent));
}

#[test]
fn shape_comparison_ignores_identity_and_span() {
    let k = kind(3, 20, false, false);
    let a = node(Category::Expr, 1, k, Vec::new());
    let mut b = node(Category::Expr, 2, k, Vec::new());
    b.span = Span::new(5, 6, Source::Printed);
    assert!(a.shape_eq(&b));
    assert!(!a.shape_eq(&node(Category::Pat, 1, k, Vec::new())));
    assert!(!a.shape_eq(&node(Category::Expr, 1, kind(4, 20, false, false), Vec::new())));
    assert!(!a.shape_eq(&node(Category::Expr, 1, k, vec![node(Category::Expr, 3, k, Vec::new())])));
    assert!(a.is_indexed());
    assert!(!node(Category::Expr, DUMMY_NODE_ID, k, Vec::new()).is_indexed());
    assert!(!node(Category::Expr, 1, kind(0, 0, false, true), Vec::new()).is_indexed());
    assert!(node(Category::Pat, 1, kind(0, 0, false, true), Vec::new()).is_indexed());
}
