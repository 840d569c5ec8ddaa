//! Questions asked of a syntax tree: which node lies innermost at an offset,
//! and where the tree declares variables.

use crate::ast::{
    expr_models, expr_spans, stmt_models, stmt_spans, ExprView, Span, StmtView, EXPR, STMT,
};
use std::borrow::Cow;
use std::ops::Range;
use vstd::prelude::*;
use vstd::std_specs::convert::FromSpecImpl;

verus! {

/// The answer to "which node is at this offset".
#[derive(Clone, Debug, PartialEq, Eq)]
pub enum NodeQuery<'a> {
    Statement(&'a STMT),
    Expression(&'a EXPR),
    NotFound,
}

/// Model of a `NodeQuery`: the node found, as its model.
pub enum NodeView {
    Statement(StmtView),
    Expression(ExprView),
    NotFound,
}

impl<'a> View for NodeQuery<'a> {
    type V = NodeView;

    open spec fn view(&self) -> NodeView {
        match self {
            NodeQuery::Statement(s) => NodeView::Statement(s@),
            NodeQuery::Expression(e) => NodeView::Expression(e@),
            NodeQuery::NotFound => NodeView::NotFound,
        }
    }
}

/// The innermost expression at offset `p` in or below `e`: none where `e`'s
/// span does not hold `p`; else the innermost one below the first child that
/// has one, and `e` itself where no child has.
pub open spec fn innermost_expr(e: ExprView, p: int) -> Option<ExprView>
    decreases e,
{
    if !e.span().contains(p) {
        None
    } else {
        match e {
            ExprView::Cst(_, _, _) => Some(e),
            ExprView::Var(_, _, _) => Some(e),
            ExprView::List(_, _, es) => Some(or_expr(innermost_in_exprs(es, p), e)),
            ExprView::ECall(_, _, _, es) => Some(or_expr(innermost_in_exprs(es, p), e)),
            ExprView::Prefix(_, _, _, a) => Some(or_expr(innermost_expr(*a, p), e)),
            ExprView::Infix(_, _, a, _, b) => Some(
                or_expr(innermost_expr(*a, p), or_expr(innermost_expr(*b, p), e)),
            ),
        }
    }
}

/// The innermost expression at `p` below the first expression of `es` that
/// has one.
pub open spec fn innermost_in_exprs(es: Seq<ExprView>, p: int) -> Option<ExprView>
    decreases es,
{
    if es.len() == 0 {
        None
    } else {
        match innermost_expr(es[0], p) {
            Some(x) => Some(x),
            None => innermost_in_exprs(es.drop_first(), p),
        }
    }
}

/// `found` where there is one, else `fallback`.
pub open spec fn or_expr(found: Option<ExprView>, fallback: ExprView) -> ExprView {
    match found {
        Some(x) => x,
        None => fallback,
    }
}

/// `found` as an answer, or the statement `s` itself where nothing was found.
pub open spec fn expr_or_stmt(found: Option<ExprView>, s: StmtView) -> NodeView {
    match found {
        Some(x) => NodeView::Expression(x),
        None => NodeView::Statement(s),
    }
}

/// `found` unless it is `NotFound`, in which case `fallback`.
pub open spec fn or_node(found: NodeView, fallback: NodeView) -> NodeView {
    match found {
        NodeView::NotFound => fallback,
        _ => found,
    }
}

/// The innermost node at offset `p` in or below the statement `s`:
/// `NotFound` where `s`'s span does not hold `p`; else what is innermost in
/// the first of its expressions that holds `p`, else in the first of its
/// nested statements that holds `p`, branches in source order, and `s`
/// itself where no child holds `p`.
pub open spec fn innermost_stmt(s: StmtView, p: int) -> NodeView
    decreases s,
{
    if !s.span().contains(p) {
        NodeView::NotFound
    } else {
        match s {
            StmtView::Declr(_, _, _, e) => expr_or_stmt(innermost_expr(e, p), s),
            StmtView::Affect(_, _, _, e) => expr_or_stmt(innermost_expr(e, p), s),
            StmtView::Return(_, _, e) => expr_or_stmt(innermost_expr(e, p), s),
            StmtView::Call(_, _, _, es) => expr_or_stmt(innermost_in_exprs(es, p), s),
            StmtView::If(_, _, c, t, f) => match innermost_expr(c, p) {
                Some(x) => NodeView::Expression(x),
                None => or_node(
                    innermost_in_stmts(t, p),
                    match f {
                        Some(f) => or_node(innermost_in_stmts(f, p), NodeView::Statement(s)),
                        None => NodeView::Statement(s),
                    },
                ),
            },
            StmtView::While(_, _, c, b) => match innermost_expr(c, p) {
                Some(x) => NodeView::Expression(x),
                None => or_node(innermost_in_stmts(b, p), NodeView::Statement(s)),
            },
            StmtView::Defun(_, _, _, _, b) => or_node(
                innermost_in_stmts(b, p),
                NodeView::Statement(s),
            ),
        }
    }
}

/// The innermost node at `p` below the first statement of `ss` whose span
/// holds `p`; `NotFound` where none does.
pub open spec fn innermost_in_stmts(ss: Seq<StmtView>, p: int) -> NodeView
    decreases ss,
{
    if ss.len() == 0 {
        NodeView::NotFound
    } else {
        or_node(innermost_stmt(ss[0], p), innermost_in_stmts(ss.drop_first(), p))
    }
}

/// A declaration site: the span of the declaring statement and the name it
/// declares.
pub struct Declaration {
    pub start: int,
    pub end: int,
    pub name: Seq<char>,
}

/// The declaration sites in or below the statement `s`, in source order:
/// a declaration is its own site; the bodies of functions, loops and
/// conditionals are searched; every other statement has none.
pub open spec fn declarations_of(s: StmtView) -> Seq<Declaration>
    decreases s,
{
    match s {
        StmtView::Declr(a, b, n, _) => seq![Declaration { start: a, end: b, name: n }],
        StmtView::Defun(_, _, _, _, b) => declarations_in(b),
        StmtView::If(_, _, _, t, f) => declarations_in(t) + match f {
            Some(f) => declarations_in(f),
            None => seq![],
        },
        StmtView::While(_, _, _, b) => declarations_in(b),
        _ => seq![],
    }
}

/// The declaration sites of a sequence of statements: those of each
/// statement, one statement after the other.
pub open spec fn declarations_in(ss: Seq<StmtView>) -> Seq<Declaration>
    decreases ss,
{
    if ss.len() == 0 {
        seq![]
    } else {
        declarations_in(ss.drop_last()) + declarations_of(ss.last())
    }
}

/// No span of `spans` holds the offset `p`.
pub open spec fn none_holds(spans: Seq<Span>, p: int) -> bool {
    forall|i: int| 0 <= i < spans.len() ==> !(#[trigger] spans[i]).contains(p)
}

/// An expression is found in or below `e` exactly where `e`'s span holds the
/// offset; the one found holds the offset in its own span, and none of its
/// children does: it is innermost.
pub proof fn lemma_innermost_expr(e: ExprView, p: int)
    ensures
        innermost_expr(e, p) is Some <==> e.span().contains(p),
        innermost_expr(e, p) matches Some(x) ==> x.span().contains(p) && none_holds(
            expr_spans(x.children()),
            p,
        ),
    decreases e,
{
    if e.span().contains(p) {
        match e {
            ExprView::Cst(_, _, _) => {},
            ExprView::Var(_, _, _) => {},
            ExprView::List(_, _, es) => {
                lemma_innermost_in_exprs(es, p);
            },
            ExprView::ECall(_, _, _, es) => {
                lemma_innermost_in_exprs(es, p);
            },
            ExprView::Prefix(_, _, _, a) => {
                lemma_innermost_expr(*a, p);
            },
            ExprView::Infix(_, _, a, _, b) => {
                lemma_innermost_expr(*a, p);
                lemma_innermost_expr(*b, p);
            },
        }
    }
}

/// An expression is found below `es` exactly where the span of one of them
/// holds the offset; the one found is innermost.
pub proof fn lemma_innermost_in_exprs(es: Seq<ExprView>, p: int)
    ensures
        innermost_in_exprs(es, p) is None <==> none_holds(expr_spans(es), p),
        innermost_in_exprs(es, p) matches Some(x) ==> x.span().contains(p) && none_holds(
            expr_spans(x.children()),
            p,
        ),
    decreases es,
{
    if es.len() > 0 {
        lemma_innermost_expr(es[0], p);
        lemma_innermost_in_exprs(es.drop_first(), p);
        let spans = expr_spans(es);
        let rest = expr_spans(es.drop_first());
        assert(spans[0] == es[0].span());
        if none_holds(spans, p) {
            assert forall|i: int| 0 <= i < rest.len() implies !(#[trigger] rest[i]).contains(p) by {
                assert(rest[i] == spans[i + 1]);
            }
        }
        if innermost_in_exprs(es, p) is None {
            assert forall|i: int| 0 <= i < spans.len() implies !(#[trigger] spans[i]).contains(
                p,
            ) by {
                if i > 0 {
                    assert(spans[i] == rest[i - 1]);
                }
            }
        }
    }
}

/// The node found in or below a statement, where one is found, holds the
/// offset in its span, and none of its children does; one is found exactly
/// where the statement's span holds the offset.
pub proof fn lemma_innermost_stmt(s: StmtView, p: int)
    ensures
        innermost_stmt(s, p) is NotFound <==> !s.span().contains(p),
        innermost_stmt(s, p) matches NodeView::Expression(x) ==> x.span().contains(p)
            && none_holds(expr_spans(x.children()), p),
        innermost_stmt(s, p) matches NodeView::Statement(x) ==> x.span().contains(p)
            && none_holds(x.child_spans(), p),
    decreases s,
{
    if s.span().contains(p) {
        match s {
            StmtView::Declr(_, _, _, e) => {
                lemma_innermost_expr(e, p);
            },
            StmtView::Affect(_, _, _, e) => {
                lemma_innermost_expr(e, p);
            },
            StmtView::Return(_, _, e) => {
                lemma_innermost_expr(e, p);
            },
            StmtView::Call(_, _, _, es) => {
                lemma_innermost_in_exprs(es, p);
            },
            StmtView::If(_, _, c, t, f) => {
                lemma_innermost_expr(c, p);
                lemma_innermost_in_stmts(t, p);
                match f {
                    Some(f) => {
                        lemma_innermost_in_stmts(f, p);
                    },
                    None => {},
                }
            },
            StmtView::While(_, _, c, b) => {
                lemma_innermost_expr(c, p);
                lemma_innermost_in_stmts(b, p);
            },
            StmtView::Defun(_, _, _, _, b) => {
                lemma_innermost_in_stmts(b, p);
            },
        }
    }
}

/// A node is found below `ss` exactly where the span of one of them holds
/// the offset; the one found is innermost.
pub proof fn lemma_innermost_in_stmts(ss: Seq<StmtView>, p: int)
    ensures
        innermost_in_stmts(ss, p) is NotFound <==> none_holds(stmt_spans(ss), p),
        innermost_in_stmts(ss, p) matches NodeView::Expression(x) ==> x.span().contains(p)
            && none_holds(expr_spans(x.children()), p),
        innermost_in_stmts(ss, p) matches NodeView::Statement(x) ==> x.span().contains(p)
            && none_holds(x.child_spans(), p),
    decreases ss,
{
    if ss.len() > 0 {
        lemma_innermost_stmt(ss[0], p);
        lemma_innermost_in_stmts(ss.drop_first(), p);
        let spans = stmt_spans(ss);
        let rest = stmt_spans(ss.drop_first());
        assert(spans[0] == ss[0].span());
        if none_holds(spans, p) {
            assert forall|i: int| 0 <= i < rest.len() implies !(#[trigger] rest[i]).contains(p) by {
                assert(rest[i] == spans[i + 1]);
            }
        }
        if innermost_in_stmts(ss, p) is NotFound {
            assert forall|i: int| 0 <= i < spans.len() implies !(#[trigger] spans[i]).contains(
                p,
            ) by {
                if i > 0 {
                    assert(spans[i] == rest[i - 1]);
                }
            }
        }
    }
}

/// At an offset inside the initializer of a well-formed declaration, the
/// node found is an expression in or below the initializer, never the
/// declaration; it is the initializer itself where that is a constant or a
/// variable, or where none of its children holds the offset.
pub proof fn lemma_innermost_in_initializer(s: StmtView, p: int)
    requires
        s is Declr,
        s.well_formed(),
        s->Declr_3.span().contains(p),
    ensures
        innermost_expr(s->Declr_3, p) is Some,
        innermost_stmt(s, p) == NodeView::Expression(innermost_expr(s->Declr_3, p)->0),
        s->Declr_3 is Cst || s->Declr_3 is Var || none_holds(
            expr_spans(s->Declr_3.children()),
            p,
        ) ==> innermost_stmt(s, p) == NodeView::Expression(s->Declr_3),
{
    let e = s->Declr_3;
    lemma_innermost_expr(e, p);
    assert(s.child_spans()[0] == e.span());
    match e {
        ExprView::List(_, _, es) => {
            lemma_innermost_in_exprs(es, p);
        },
        ExprView::ECall(_, _, _, es) => {
            lemma_innermost_in_exprs(es, p);
        },
        ExprView::Prefix(_, _, _, a) => {
            lemma_innermost_expr(*a, p);
            assert(expr_spans(e.children())[0] == a.span());
        },
        ExprView::Infix(_, _, a, _, b) => {
            lemma_innermost_expr(*a, p);
            lemma_innermost_expr(*b, p);
            assert(expr_spans(e.children())[0] == a.span());
            assert(expr_spans(e.children())[1] == b.span());
        },
        _ => {},
    }
}

/// The model of a list of declaration sites as the tree's methods return it.
pub open spec fn declaration_views(ds: Seq<(Range<usize>, Cow<'_, str>)>) -> Seq<Declaration> {
    Seq::new(
        ds.len(),
        |i: int| Declaration { start: ds[i].0.start as int, end: ds[i].0.end as int, name: ds[i].1@ },
    )
}

/// The model of an optional expression node.
pub open spec fn found_expr(r: Option<&EXPR>) -> Option<ExprView> {
    match r {
        Some(e) => Some(e@),
        None => None,
    }
}

impl EXPR {
    /// The innermost expression in or below this one whose span holds `p`.
    pub fn get_innermost(&self, p: usize) -> (r: Option<&Self>)
        ensures
            found_expr(r) == innermost_expr(self@, p as int),
        decreases self,
    {
        let range = self.get_range();
        if !(range.start <= p && p < range.end) {
            return None;
        }
        match self {
            EXPR::Cst(_, _) => Some(self),
            EXPR::Var(_, _) => Some(self),
            EXPR::List(_, es) => match get_innermost_exprs(es.as_slice(), p) {
                Some(x) => Some(x),
                None => Some(self),
            },
            EXPR::ECall(_, _, es) => match get_innermost_exprs(es.as_slice(), p) {
                Some(x) => Some(x),
                None => Some(self),
            },
            EXPR::Prefix(_, _, a) => match a.get_innermost(p) {
                Some(x) => Some(x),
                None => Some(self),
            },
            EXPR::Infix(_, a, _, b) => match a.get_innermost(p) {
                Some(x) => Some(x),
                None => match b.get_innermost(p) {
                    Some(x) => Some(x),
                    None => Some(self),
                },
            },
        }
    }
}

/// The innermost expression at `p` below the first of `exprs` that has one.
pub fn get_innermost_exprs(exprs: &[EXPR], p: usize) -> (r: Option<&EXPR>)
    ensures
        found_expr(r) == innermost_in_exprs(expr_models(exprs@), p as int),
    decreases exprs@,
{
    let ghost all = expr_models(exprs@);
    assert(all.subrange(0, all.len() as int) =~= all);
    let mut i: usize = 0;
    while i < exprs.len()
        invariant
            i <= exprs.len(),
            all == expr_models(exprs@),
            innermost_in_exprs(all, p as int) == innermost_in_exprs(
                all.subrange(i as int, all.len() as int),
                p as int,
            ),
        decreases exprs.len() - i,
    {
        let ghost rest = all.subrange(i as int, all.len() as int);
        assert(rest[0] == exprs@[i as int]@);
        assert(rest.drop_first() =~= all.subrange(i + 1, all.len() as int));
        let found = exprs[i].get_innermost(p);
        if found.is_some() {
            return found;
        }
        i += 1;
    }
    assert(all.subrange(i as int, all.len() as int).len() == 0);
    None
}

/// The innermost node at `p` below the first of `stmts` whose span holds `p`.
pub fn get_innermost_stmts(stmts: &[STMT], p: usize) -> (q: NodeQuery<'_>)
    ensures
        q@ == innermost_in_stmts(stmt_models(stmts@), p as int),
    decreases stmts@,
{
    let ghost all = stmt_models(stmts@);
    assert(all.subrange(0, all.len() as int) =~= all);
    let mut i: usize = 0;
    while i < stmts.len()
        invariant
            i <= stmts.len(),
            all == stmt_models(stmts@),
            innermost_in_stmts(all, p as int) == innermost_in_stmts(
                all.subrange(i as int, all.len() as int),
                p as int,
            ),
        decreases stmts.len() - i,
    {
        let ghost rest = all.subrange(i as int, all.len() as int);
        assert(rest[0] == stmts@[i as int]@);
        assert(rest.drop_first() =~= all.subrange(i + 1, all.len() as int));
        let found = stmts[i].get_innermost(p);
        if !found.not_found() {
            return found;
        }
        i += 1;
    }
    assert(all.subrange(i as int, all.len() as int).len() == 0);
    NodeQuery::NotFound
}

/// An expression found, or the statement around it where none was.
fn expression_or<'a>(found: Option<&'a EXPR>, s: &'a STMT) -> (q: NodeQuery<'a>)
    ensures
        q@ == expr_or_stmt(found_expr(found), s@),
{
    match found {
        Some(x) => NodeQuery::Expression(x),
        None => NodeQuery::Statement(s),
    }
}

impl STMT {
    /// The innermost node in or below this statement whose span holds `p`.
    pub fn get_innermost(&self, p: usize) -> (q: NodeQuery<'_>)
        ensures
            q@ == innermost_stmt(self@, p as int),
        decreases self,
    {
        let range = self.get_range();
        if !(range.start <= p && p < range.end) {
            return NodeQuery::NotFound;
        }
        match self {
            STMT::Declr(_, _, e) => expression_or(e.get_innermost(p), self),
            STMT::Affect(_, _, e) => expression_or(e.get_innermost(p), self),
            STMT::Return(_, e) => expression_or(e.get_innermost(p), self),
            STMT::Call(_, _, es) => expression_or(get_innermost_exprs(es.as_slice(), p), self),
            STMT::If(_, c, iftrue, iffalse) => {
                match c.get_innermost(p) {
                    Some(x) => NodeQuery::Expression(x),
                    None => {
                        let n = get_innermost_stmts(iftrue.as_slice(), p);
                        if !n.not_found() {
                            n
                        } else {
                            match iffalse {
                                Some(f) => {
                                    let m = get_innermost_stmts(f.as_slice(), p);
                                    if !m.not_found() {
                                        m
                                    } else {
                                        NodeQuery::Statement(self)
                                    }
                                },
                                None => NodeQuery::Statement(self),
                            }
                        }
                    },
                }
            },
            STMT::While(_, c, b) => {
                match c.get_innermost(p) {
                    Some(x) => NodeQuery::Expression(x),
                    None => {
                        let n = get_innermost_stmts(b.as_slice(), p);
                        if !n.not_found() {
                            n
                        } else {
                            NodeQuery::Statement(self)
                        }
                    },
                }
            },
            STMT::Defun(_, _, _, b) => {
                let n = get_innermost_stmts(b.as_slice(), p);
                if !n.not_found() {
                    n
                } else {
                    NodeQuery::Statement(self)
                }
            },
        }
    }
}

/// The declaration sites of the statements `stmts`, in source order.
pub fn get_declarations_stmts(stmts: &[STMT]) -> (ds: Vec<(Range<usize>, Cow<'_, str>)>)
    ensures
        declaration_views(ds@) == declarations_in(stmt_models(stmts@)),
    decreases stmts@,
{
    let ghost all = stmt_models(stmts@);
    let mut out: Vec<(Range<usize>, Cow<'_, str>)> = Vec::new();
    let mut i: usize = 0;
    assert(declaration_views(out@) =~= declarations_in(all.subrange(0, 0)));
    while i < stmts.len()
        invariant
            i <= stmts.len(),
            all == stmt_models(stmts@),
            declaration_views(out@) == declarations_in(all.subrange(0, i as int)),
        decreases stmts.len() - i,
    {
        let ghost before = out@;
        let mut found = stmts[i].get_declarations();
        let ghost added = found@;
        out.append(&mut found);
        proof {
            let upto = all.subrange(0, i + 1);
            assert(upto.drop_last() =~= all.subrange(0, i as int));
            assert(upto.last() == stmts@[i as int]@);
            assert(declaration_views(before + added) =~= declaration_views(before)
                + declaration_views(added));
        }
        i += 1;
    }
    assert(all.subrange(0, i as int) =~= all);
    out
}

impl STMT {
    /// The declaration sites in or below this statement, in source order.
    pub fn get_declarations(&self) -> (ds: Vec<(Range<usize>, Cow<'_, str>)>)
        ensures
            declaration_views(ds@) == declarations_of(self@),
        decreases self,
    {
        match self {
            STMT::Declr(r, name, _) => {
                let mut out: Vec<(Range<usize>, Cow<'_, str>)> = Vec::new();
                out.push((r.start..r.end, Cow::Borrowed(name.as_str())));
                assert(declaration_views(out@) =~= declarations_of(self@));
                out
            },
            STMT::Defun(_, _, _, b) => get_declarations_stmts(b.as_slice()),
            STMT::If(_, _, iftrue, iffalse) => {
                let mut out = get_declarations_stmts(iftrue.as_slice());
                let ghost first = out@;
                match iffalse {
                    Some(f) => {
                        let mut rest = get_declarations_stmts(f.as_slice());
                        let ghost second = rest@;
                        out.append(&mut rest);
                        assert(declaration_views(first + second) =~= declaration_views(first)
                            + declaration_views(second));
                    },
                    None => {
                        assert(declaration_views(first) + Seq::<Declaration>::empty()
                            =~= declaration_views(first));
                    },
                }
                out
            },
            STMT::While(_, _, b) => get_declarations_stmts(b.as_slice()),
            _ => {
                let out: Vec<(Range<usize>, Cow<'_, str>)> = Vec::new();
                assert(declaration_views(out@) =~= Seq::<Declaration>::empty());
                out
            },
        }
    }
}

impl<'a> NodeQuery<'a> {
    /// Whether a statement was found.
    pub fn is_statement(&self) -> (b: bool)
        ensures
            b == (self@ is Statement),
    {
        match self {
            NodeQuery::Statement(_) => true,
            _ => false,
        }
    }

    /// Whether an expression was found.
    pub fn is_expression(&self) -> (b: bool)
        ensures
            b == (self@ is Expression),
    {
        match self {
            NodeQuery::Expression(_) => true,
            _ => false,
        }
    }

    /// Whether nothing was found.
    pub fn not_found(&self) -> (b: bool)
        ensures
            b == (self@ is NotFound),
    {
        match self {
            NodeQuery::NotFound => true,
            _ => false,
        }
    }

    /// What `map_expr` makes of the expression found, or `map_stmt` of the
    /// statement found; nothing where nothing was found.
    pub fn map<T, FE: FnOnce(&'a EXPR) -> T, FS: FnOnce(&'a STMT) -> T>(
        self,
        map_expr: FE,
        map_stmt: FS,
    ) -> (r: Option<T>)
        requires
            self matches NodeQuery::Expression(e) ==> map_expr.requires((e,)),
            self matches NodeQuery::Statement(s) ==> map_stmt.requires((s,)),
        ensures
            match self {
                NodeQuery::Expression(e) => r matches Some(x) && map_expr.ensures((e,), x),
                NodeQuery::Statement(s) => r matches Some(x) && map_stmt.ensures((s,), x),
                NodeQuery::NotFound => r is None,
            },
    {
        match self {
            NodeQuery::Statement(s) => Some(map_stmt(s)),
            NodeQuery::Expression(e) => Some(map_expr(e)),
            NodeQuery::NotFound => None,
        }
    }

    /// The statement found, if it is one.
    pub fn statement(self) -> (r: Option<&'a STMT>)
        ensures
            match r {
                Some(s) => self == NodeQuery::Statement(s),
                None => !(self is Statement),
            },
    {
        match self {
            NodeQuery::Statement(s) => Some(s),
            _ => None,
        }
    }

    /// The expression found, if it is one.
    pub fn expression(self) -> (r: Option<&'a EXPR>)
        ensures
            match r {
                Some(e) => self == NodeQuery::Expression(e),
                None => !(self is Expression),
            },
    {
        match self {
            NodeQuery::Expression(e) => Some(e),
            _ => None,
        }
    }
}

impl<'a> From<Option<&'a EXPR>> for NodeQuery<'a> {
    fn from(o: Option<&'a EXPR>) -> (q: Self) {
        match o {
            Some(e) => NodeQuery::Expression(e),
            None => NodeQuery::NotFound,
        }
    }
}

impl<'a> FromSpecImpl<Option<&'a EXPR>> for NodeQuery<'a> {
    open spec fn obeys_from_spec() -> bool {
        true
    }

    open spec fn from_spec(o: Option<&'a EXPR>) -> Self {
        match o {
            Some(e) => NodeQuery::Expression(e),
            None => NodeQuery::NotFound,
        }
    }
}

impl<'a> From<Option<&'a STMT>> for NodeQuery<'a> {
    fn from(o: Option<&'a STMT>) -> (q: Self) {
        match o {
            Some(s) => NodeQuery::Statement(s),
            None => NodeQuery::NotFound,
        }
    }
}

impl<'a> FromSpecImpl<Option<&'a STMT>> for NodeQuery<'a> {
    open spec fn obeys_from_spec() -> bool {
        true
    }

    open spec fn from_spec(o: Option<&'a STMT>) -> Self {
        match o {
            Some(s) => NodeQuery::Statement(s),
            None => NodeQuery::NotFound,
        }
    }
}

} // verus!
