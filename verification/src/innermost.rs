//! Why the innermost node is the only one of its kind: in a well-formed
//! tree, the node that the search finds at an offset is the one node whose
//! span holds the offset while none of its children's spans does. There are
//! no ties, because children lie within their parents and side by side
//! without overlap.

use crate::ast::{
    expr_spans, exprs_well_formed, ordered_within, program_well_formed, stmt_spans,
    stmts_well_formed, ExprView, Span, StmtView,
};
use crate::query::{
    innermost_expr, innermost_in_exprs, innermost_in_stmts, innermost_stmt,
    lemma_innermost_expr, lemma_innermost_in_exprs, lemma_innermost_in_stmts,
    lemma_innermost_stmt, none_holds, NodeView,
};
use vstd::prelude::*;

verus! {

/// Whether `x` is `e` or stands somewhere below `e`.
pub open spec fn expr_within(x: ExprView, e: ExprView) -> bool
    decreases e,
{
    x == e || match e {
        ExprView::Cst(_, _, _) => false,
        ExprView::Var(_, _, _) => false,
        ExprView::List(_, _, es) => expr_among(x, es),
        ExprView::ECall(_, _, _, es) => expr_among(x, es),
        ExprView::Prefix(_, _, _, a) => expr_within(x, *a),
        ExprView::Infix(_, _, a, _, b) => expr_within(x, *a) || expr_within(x, *b),
    }
}

/// Whether `x` is one of `es` or stands somewhere below one of them.
pub open spec fn expr_among(x: ExprView, es: Seq<ExprView>) -> bool
    decreases es,
{
    exists|i: int| 0 <= i < es.len() && expr_within(x, #[trigger] es[i])
}

/// Whether `n` is the statement `s` or a node somewhere below `s`.
pub open spec fn node_within(n: NodeView, s: StmtView) -> bool
    decreases s,
{
    n == NodeView::Statement(s) || match s {
        StmtView::Declr(_, _, _, e) => n matches NodeView::Expression(x) && expr_within(x, e),
        StmtView::Affect(_, _, _, e) => n matches NodeView::Expression(x) && expr_within(x, e),
        StmtView::Return(_, _, e) => n matches NodeView::Expression(x) && expr_within(x, e),
        StmtView::Call(_, _, _, es) => n matches NodeView::Expression(x) && expr_among(x, es),
        StmtView::If(_, _, c, t, f) => (n matches NodeView::Expression(x) && expr_within(x, c))
            || node_among(n, t) || (f matches Some(g) && node_among(n, g)),
        StmtView::While(_, _, c, b) => (n matches NodeView::Expression(x) && expr_within(x, c))
            || node_among(n, b),
        StmtView::Defun(_, _, _, _, b) => node_among(n, b),
    }
}

/// Whether `n` is one of the statements `ss` or a node somewhere below one
/// of them.
pub open spec fn node_among(n: NodeView, ss: Seq<StmtView>) -> bool
    decreases ss,
{
    exists|i: int| 0 <= i < ss.len() && node_within(n, #[trigger] ss[i])
}

/// The span of a node.
pub open spec fn node_span(n: NodeView) -> Span {
    match n {
        NodeView::Statement(s) => s.span(),
        NodeView::Expression(e) => e.span(),
        NodeView::NotFound => Span { start: 0, end: 0 },
    }
}

/// Whether `n` is a node whose span holds the offset `p` while none of its
/// children's spans does.
pub open spec fn innermost_at(n: NodeView, p: int) -> bool {
    match n {
        NodeView::Statement(s) => s.span().contains(p) && none_holds(s.child_spans(), p),
        NodeView::Expression(e) => e.span().contains(p) && none_holds(
            expr_spans(e.children()),
            p,
        ),
        NodeView::NotFound => false,
    }
}

/// In a well-formed expression, what stands below lies within.
pub proof fn lemma_expr_within_span(x: ExprView, e: ExprView)
    requires
        e.well_formed(),
        expr_within(x, e),
    ensures
        e.start() <= x.start() <= x.end() <= e.end(),
    decreases e,
{
    if x != e {
        match e {
            ExprView::List(_, _, es) => {
                lemma_expr_among_span(x, es, e.start(), e.end());
            },
            ExprView::ECall(_, _, _, es) => {
                lemma_expr_among_span(x, es, e.start(), e.end());
            },
            ExprView::Prefix(_, _, _, a) => {
                lemma_expr_within_span(x, *a);
                assert(expr_spans(e.children())[0] == a.span());
            },
            ExprView::Infix(_, _, a, _, b) => {
                assert(expr_spans(e.children())[0] == a.span());
                assert(expr_spans(e.children())[1] == b.span());
                if expr_within(x, *a) {
                    lemma_expr_within_span(x, *a);
                } else {
                    lemma_expr_within_span(x, *b);
                }
            },
            _ => {},
        }
    }
}

/// What stands below well-formed expressions that lie within bounds lies
/// within those bounds, and within one of the expressions.
pub proof fn lemma_expr_among_span(x: ExprView, es: Seq<ExprView>, lo: int, hi: int)
    requires
        exprs_well_formed(es),
        ordered_within(expr_spans(es), lo, hi),
        expr_among(x, es),
    ensures
        lo <= x.start() <= x.end() <= hi,
    decreases es,
{
    let i = choose|i: int| 0 <= i < es.len() && expr_within(x, #[trigger] es[i]);
    lemma_expr_within_span(x, es[i]);
    assert(expr_spans(es)[i] == es[i].span());
}

/// In a well-formed statement, what stands below lies within.
pub proof fn lemma_node_within_span(n: NodeView, s: StmtView)
    requires
        s.well_formed(),
        node_within(n, s),
    ensures
        s.start() <= node_span(n).start <= node_span(n).end <= s.end(),
    decreases s,
{
    if n != NodeView::Statement(s) {
        let spans = s.child_spans();
        match s {
            StmtView::Declr(_, _, _, e) => {
                lemma_expr_within_span(n->Expression_0, e);
                assert(spans[0] == e.span());
            },
            StmtView::Affect(_, _, _, e) => {
                lemma_expr_within_span(n->Expression_0, e);
                assert(spans[0] == e.span());
            },
            StmtView::Return(_, _, e) => {
                lemma_expr_within_span(n->Expression_0, e);
                assert(spans[0] == e.span());
            },
            StmtView::Call(_, _, _, es) => {
                lemma_expr_among_span(n->Expression_0, es, s.start(), s.end());
            },
            StmtView::If(_, _, c, t, f) => {
                lemma_if_parts(s);
                if n matches NodeView::Expression(x) && expr_within(x, c) {
                    lemma_expr_within_span(n->Expression_0, c);
                } else if node_among(n, t) {
                    lemma_node_among_span(n, t, c.end(), s.end());
                } else {
                    lemma_node_among_span(n, f->0, c.end(), s.end());
                }
            },
            StmtView::While(_, _, c, b) => {
                lemma_while_parts(s);
                if n matches NodeView::Expression(x) && expr_within(x, c) {
                    lemma_expr_within_span(n->Expression_0, c);
                } else {
                    lemma_node_among_span(n, b, c.end(), s.end());
                }
            },
            StmtView::Defun(_, _, _, _, b) => {
                lemma_node_among_span(n, b, s.start(), s.end());
            },
        }
    }
}

/// What stands below well-formed statements that lie within bounds lies
/// within those bounds.
pub proof fn lemma_node_among_span(n: NodeView, ss: Seq<StmtView>, lo: int, hi: int)
    requires
        stmts_well_formed(ss),
        ordered_within(stmt_spans(ss), lo, hi),
        node_among(n, ss),
    ensures
        lo <= node_span(n).start <= node_span(n).end <= hi,
    decreases ss,
{
    let i = choose|i: int| 0 <= i < ss.len() && node_within(n, #[trigger] ss[i]);
    lemma_node_within_span(n, ss[i]);
    assert(stmt_spans(ss)[i] == ss[i].span());
}

/// The parts of a well-formed conditional lie one behind the other: the
/// condition, then the first branch, then the second.
pub proof fn lemma_if_parts(s: StmtView)
    requires
        s is If,
        s.well_formed(),
    ensures
        s.start() <= s->If_2.start() <= s->If_2.end() <= s.end(),
        ordered_within(stmt_spans(s->If_3), s->If_2.end(), s.end()),
        s->If_4 matches Some(g) ==> ordered_within(stmt_spans(g), s->If_2.end(), s.end())
            && forall|i: int, j: int|
            0 <= i < s->If_3.len() && 0 <= j < g.len() ==> (#[trigger] s->If_3[i]).end() <= (
            #[trigger] g[j]).start(),
{
    let c = s->If_2;
    let t = s->If_3;
    let spans = s.child_spans();
    let ts = stmt_spans(t);
    assert(spans[0] == c.span());
    assert forall|i: int| 0 <= i < ts.len() implies #[trigger] ts[i] == spans[i + 1] by {}
    assert forall|i: int| 0 <= i < ts.len() implies c.end() <= (#[trigger] ts[i]).start
        <= ts[i].end <= s.end() by {
        assert(ts[i] == spans[i + 1]);
    }
    assert forall|i: int, j: int| 0 <= i < j < ts.len() implies (#[trigger] ts[i]).end <= (
    #[trigger] ts[j]).start by {
        assert(ts[i] == spans[i + 1]);
        assert(ts[j] == spans[j + 1]);
    }
    match s->If_4 {
        Some(g) => {
            let gs = stmt_spans(g);
            assert forall|j: int| 0 <= j < gs.len() implies #[trigger] gs[j] == spans[j + 1
                + ts.len()] by {}
            assert forall|j: int| 0 <= j < gs.len() implies c.end() <= (#[trigger] gs[j]).start
                <= gs[j].end <= s.end() by {
                assert(gs[j] == spans[j + 1 + ts.len()]);
            }
            assert forall|i: int, j: int| 0 <= i < j < gs.len() implies (#[trigger] gs[i]).end <= (
            #[trigger] gs[j]).start by {
                assert(gs[i] == spans[i + 1 + ts.len()]);
                assert(gs[j] == spans[j + 1 + ts.len()]);
            }
            assert forall|i: int, j: int| 0 <= i < t.len() && 0 <= j < g.len() implies (
            #[trigger] t[i]).end() <= (#[trigger] g[j]).start() by {
                assert(ts[i] == spans[i + 1]);
                assert(gs[j] == spans[j + 1 + ts.len()]);
                assert(ts[i] == t[i].span());
                assert(gs[j] == g[j].span());
            }
        },
        None => {},
    }
}

/// The parts of a well-formed loop lie one behind the other: the condition,
/// then the body.
pub proof fn lemma_while_parts(s: StmtView)
    requires
        s is While,
        s.well_formed(),
    ensures
        s.start() <= s->While_2.start() <= s->While_2.end() <= s.end(),
        ordered_within(stmt_spans(s->While_3), s->While_2.end(), s.end()),
{
    let c = s->While_2;
    let spans = s.child_spans();
    let bs = stmt_spans(s->While_3);
    assert(spans[0] == c.span());
    assert forall|i: int| 0 <= i < bs.len() implies c.end() <= (#[trigger] bs[i]).start
        <= bs[i].end <= s.end() by {
        assert(bs[i] == spans[i + 1]);
    }
    assert forall|i: int, j: int| 0 <= i < j < bs.len() implies (#[trigger] bs[i]).end <= (
    #[trigger] bs[j]).start by {
        assert(bs[i] == spans[i + 1]);
        assert(bs[j] == spans[j + 1]);
    }
}

/// Well-formed statements whose spans lie in order within bounds are well
/// formed as a sequence.
pub proof fn lemma_in_order(ss: Seq<StmtView>, lo: int, hi: int)
    requires
        stmts_well_formed(ss),
        ordered_within(stmt_spans(ss), lo, hi),
    ensures
        program_well_formed(ss),
{
    let spans = stmt_spans(ss);
    assert forall|i: int, j: int| 0 <= i < j < ss.len() implies (#[trigger] ss[i]).end() <= (
    #[trigger] ss[j]).start() by {
        assert(spans[i] == ss[i].span());
        assert(spans[j] == ss[j].span());
    }
}

/// Where none of the expressions before the one at `i` holds the offset,
/// the search among them finds what it finds in or behind that one.
proof fn lemma_exprs_skipped(es: Seq<ExprView>, p: int, i: int)
    requires
        0 <= i < es.len(),
        forall|j: int| 0 <= j < i ==> !(#[trigger] es[j]).span().contains(p),
        es[i].span().contains(p),
    ensures
        innermost_in_exprs(es, p) == innermost_expr(es[i], p),
    decreases i,
{
    lemma_innermost_expr(es[0], p);
    if i > 0 {
        let rest = es.drop_first();
        assert forall|j: int| 0 <= j < i - 1 implies !(#[trigger] rest[j]).span().contains(p) by {
            assert(rest[j] == es[j + 1]);
        }
        assert(rest[i - 1] == es[i]);
        lemma_exprs_skipped(rest, p, i - 1);
    }
}

/// Where none of the statements before the one at `i` holds the offset,
/// the search among them finds what it finds in that one.
proof fn lemma_stmts_skipped(ss: Seq<StmtView>, p: int, i: int)
    requires
        0 <= i < ss.len(),
        forall|j: int| 0 <= j < i ==> !(#[trigger] ss[j]).span().contains(p),
        ss[i].span().contains(p),
    ensures
        innermost_in_stmts(ss, p) == innermost_stmt(ss[i], p),
    decreases i,
{
    lemma_innermost_stmt(ss[0], p);
    if i > 0 {
        let rest = ss.drop_first();
        assert forall|j: int| 0 <= j < i - 1 implies !(#[trigger] rest[j]).span().contains(p) by {
            assert(rest[j] == ss[j + 1]);
        }
        assert(rest[i - 1] == ss[i]);
        lemma_stmts_skipped(rest, p, i - 1);
    }
}

/// In a well-formed expression, an expression whose span holds the offset
/// while none of its children's spans does is the one that the search
/// finds.
pub proof fn lemma_innermost_expr_unique(e: ExprView, p: int, x: ExprView)
    requires
        e.well_formed(),
        expr_within(x, e),
        innermost_at(NodeView::Expression(x), p),
    ensures
        innermost_expr(e, p) == Some(x),
    decreases e,
{
    lemma_expr_within_span(x, e);
    if x == e {
        match e {
            ExprView::List(_, _, es) => {
                lemma_innermost_in_exprs(es, p);
            },
            ExprView::ECall(_, _, _, es) => {
                lemma_innermost_in_exprs(es, p);
            },
            ExprView::Prefix(_, _, _, a) => {
                lemma_innermost_expr(*a, p);
                assert(expr_spans(e.children())[0] == a.span());
            },
            ExprView::Infix(_, _, a, _, b) => {
                lemma_innermost_expr(*a, p);
                lemma_innermost_expr(*b, p);
                assert(expr_spans(e.children())[0] == a.span());
                assert(expr_spans(e.children())[1] == b.span());
            },
            _ => {},
        }
    } else {
        match e {
            ExprView::List(_, _, es) => {
                lemma_innermost_among_exprs_unique(es, p, x, e.start(), e.end());
            },
            ExprView::ECall(_, _, _, es) => {
                lemma_innermost_among_exprs_unique(es, p, x, e.start(), e.end());
            },
            ExprView::Prefix(_, _, _, a) => {
                lemma_innermost_expr_unique(*a, p, x);
            },
            ExprView::Infix(_, _, a, _, b) => {
                let spans = expr_spans(e.children());
                assert(spans[0] == a.span());
                assert(spans[1] == b.span());
                if expr_within(x, *a) {
                    lemma_innermost_expr_unique(*a, p, x);
                } else {
                    lemma_expr_within_span(x, *b);
                    lemma_innermost_expr(*a, p);
                    lemma_innermost_expr_unique(*b, p, x);
                }
            },
            _ => {},
        }
    }
}

/// Among well-formed expressions that lie side by side, an expression
/// whose span holds the offset while none of its children's spans does is
/// the one that the search finds.
pub proof fn lemma_innermost_among_exprs_unique(
    es: Seq<ExprView>,
    p: int,
    x: ExprView,
    lo: int,
    hi: int,
)
    requires
        exprs_well_formed(es),
        ordered_within(expr_spans(es), lo, hi),
        expr_among(x, es),
        innermost_at(NodeView::Expression(x), p),
    ensures
        innermost_in_exprs(es, p) == Some(x),
    decreases es,
{
    let i = choose|i: int| 0 <= i < es.len() && expr_within(x, #[trigger] es[i]);
    lemma_expr_within_span(x, es[i]);
    let spans = expr_spans(es);
    assert(spans[i] == es[i].span());
    assert forall|j: int| 0 <= j < i implies !(#[trigger] es[j]).span().contains(p) by {
        assert(spans[j] == es[j].span());
        assert(spans[j].end <= spans[i].start);
    }
    lemma_exprs_skipped(es, p, i);
    lemma_innermost_expr_unique(es[i], p, x);
}

/// In a well-formed statement, a node whose span holds the offset while
/// none of its children's spans does is the one that the search finds.
pub proof fn lemma_innermost_stmt_unique(s: StmtView, p: int, n: NodeView)
    requires
        s.well_formed(),
        node_within(n, s),
        innermost_at(n, p),
    ensures
        innermost_stmt(s, p) == n,
    decreases s,
{
    lemma_node_within_span(n, s);
    let spans = s.child_spans();
    if n == NodeView::Statement(s) {
        match s {
            StmtView::Declr(_, _, _, e) => {
                lemma_innermost_expr(e, p);
                assert(spans[0] == e.span());
            },
            StmtView::Affect(_, _, _, e) => {
                lemma_innermost_expr(e, p);
                assert(spans[0] == e.span());
            },
            StmtView::Return(_, _, e) => {
                lemma_innermost_expr(e, p);
                assert(spans[0] == e.span());
            },
            StmtView::Call(_, _, _, es) => {
                lemma_innermost_in_exprs(es, p);
            },
            StmtView::If(_, _, c, t, f) => {
                lemma_innermost_expr(c, p);
                lemma_innermost_in_stmts(t, p);
                let ts = stmt_spans(t);
                assert(spans[0] == c.span());
                assert forall|i: int| 0 <= i < ts.len() implies !(#[trigger] ts[i]).contains(
                    p,
                ) by {
                    assert(ts[i] == spans[i + 1]);
                }
                match f {
                    Some(g) => {
                        lemma_innermost_in_stmts(g, p);
                        let gs = stmt_spans(g);
                        assert forall|j: int| 0 <= j < gs.len() implies !(
                        #[trigger] gs[j]).contains(p) by {
                            assert(gs[j] == spans[j + 1 + ts.len()]);
                        }
                    },
                    None => {},
                }
            },
            StmtView::While(_, _, c, b) => {
                lemma_innermost_expr(c, p);
                lemma_innermost_in_stmts(b, p);
                let bs = stmt_spans(b);
                assert(spans[0] == c.span());
                assert forall|i: int| 0 <= i < bs.len() implies !(#[trigger] bs[i]).contains(
                    p,
                ) by {
                    assert(bs[i] == spans[i + 1]);
                }
            },
            StmtView::Defun(_, _, _, _, b) => {
                lemma_innermost_in_stmts(b, p);
            },
        }
    } else {
        match s {
            StmtView::Declr(_, _, _, e) => {
                lemma_innermost_expr_unique(e, p, n->Expression_0);
            },
            StmtView::Affect(_, _, _, e) => {
                lemma_innermost_expr_unique(e, p, n->Expression_0);
            },
            StmtView::Return(_, _, e) => {
                lemma_innermost_expr_unique(e, p, n->Expression_0);
            },
            StmtView::Call(_, _, _, es) => {
                lemma_innermost_among_exprs_unique(es, p, n->Expression_0, s.start(), s.end());
            },
            StmtView::If(_, _, c, t, f) => {
                lemma_if_parts(s);
                lemma_innermost_expr(c, p);
                if n matches NodeView::Expression(x) && expr_within(x, c) {
                    lemma_innermost_expr_unique(c, p, n->Expression_0);
                } else if node_among(n, t) {
                    lemma_node_among_span(n, t, c.end(), s.end());
                    lemma_in_order(t, c.end(), s.end());
                    lemma_innermost_among_stmts_unique(t, p, n);
                } else {
                    let g = f->0;
                    lemma_node_among_span(n, g, c.end(), s.end());
                    lemma_in_order(g, c.end(), s.end());
                    lemma_innermost_among_stmts_unique(g, p, n);
                    lemma_innermost_in_stmts(t, p);
                    let k = choose|k: int| 0 <= k < g.len() && node_within(n, #[trigger] g[k]);
                    lemma_node_within_span(n, g[k]);
                    assert forall|i: int| 0 <= i < stmt_spans(t).len() implies !(
                    #[trigger] stmt_spans(t)[i]).contains(p) by {
                        assert(stmt_spans(t)[i] == t[i].span());
                        assert(t[i].end() <= g[k].start());
                    }
                }
            },
            StmtView::While(_, _, c, b) => {
                lemma_while_parts(s);
                lemma_innermost_expr(c, p);
                if n matches NodeView::Expression(x) && expr_within(x, c) {
                    lemma_innermost_expr_unique(c, p, n->Expression_0);
                } else {
                    lemma_node_among_span(n, b, c.end(), s.end());
                    lemma_in_order(b, c.end(), s.end());
                    lemma_innermost_among_stmts_unique(b, p, n);
                }
            },
            StmtView::Defun(_, _, _, _, b) => {
                lemma_in_order(b, s.start(), s.end());
                lemma_innermost_among_stmts_unique(b, p, n);
            },
        }
    }
}

/// Among the statements of a well-formed sequence, such as a program, a
/// node whose span holds the offset while none of its children's spans does
/// is the one that the search finds.
pub proof fn lemma_innermost_among_stmts_unique(ss: Seq<StmtView>, p: int, n: NodeView)
    requires
        program_well_formed(ss),
        node_among(n, ss),
        innermost_at(n, p),
    ensures
        innermost_in_stmts(ss, p) == n,
    decreases ss,
{
    let i = choose|i: int| 0 <= i < ss.len() && node_within(n, #[trigger] ss[i]);
    lemma_node_within_span(n, ss[i]);
    assert forall|j: int| 0 <= j < i implies !(#[trigger] ss[j]).span().contains(p) by {
        assert(ss[j].end() <= ss[i].start());
    }
    lemma_stmts_skipped(ss, p, i);
    lemma_innermost_stmt_unique(ss[i], p, n);
}

} // verus!
