//! The syntax tree of a program: expressions and statements, each tagged with
//! the half-open span of character offsets it was read from, and the
//! mathematical model of such a tree.

use std::ops::Range;
use vstd::prelude::*;

verus! {

/// Prefix operators of the expression language.
#[derive(Copy, Clone, Debug, PartialEq, Eq, Structural)]
pub enum PrefixOp {
    Not,
}

/// Binary arithmetic operators of the expression language.
#[derive(Copy, Clone, Debug, PartialEq, Eq, Structural)]
pub enum Op {
    Add,
    Subtract,
    Multiply,
    Divide,
    Power,
}

/// An expression node. The first field of every variant is the span the node
/// was read from.
#[derive(Debug, PartialEq, Eq)]
pub enum EXPR {
    Cst(Range<usize>, u32),
    Var(Range<usize>, String),
    List(Range<usize>, Vec<EXPR>),
    ECall(Range<usize>, String, Vec<EXPR>),
    Prefix(Range<usize>, PrefixOp, Box<EXPR>),
    Infix(Range<usize>, Box<EXPR>, Op, Box<EXPR>),
}

/// A statement node. The first field of every variant is the span the node
/// was read from.
#[derive(Debug, PartialEq, Eq)]
pub enum STMT {
    Declr(Range<usize>, String, EXPR),
    Affect(Range<usize>, String, EXPR),
    If(Range<usize>, EXPR, Vec<STMT>, Option<Vec<STMT>>),
    While(Range<usize>, EXPR, Vec<STMT>),
    Defun(Range<usize>, String, Vec<String>, Vec<STMT>),
    Call(Range<usize>, String, Vec<EXPR>),
    Return(Range<usize>, EXPR),
}

/// A half-open span `[start, end)` of character offsets.
pub struct Span {
    pub start: int,
    pub end: int,
}

impl Span {
    /// Whether the offset `p` lies in the span.
    pub open spec fn contains(self, p: int) -> bool {
        self.start <= p < self.end
    }
}

/// Model of an expression node: the span as two integers, names as character
/// sequences, children as sequences of models.
pub enum ExprView {
    Cst(int, int, u32),
    Var(int, int, Seq<char>),
    List(int, int, Seq<ExprView>),
    ECall(int, int, Seq<char>, Seq<ExprView>),
    Prefix(int, int, PrefixOp, Box<ExprView>),
    Infix(int, int, Box<ExprView>, Op, Box<ExprView>),
}

/// Model of a statement node.
pub enum StmtView {
    Declr(int, int, Seq<char>, ExprView),
    Affect(int, int, Seq<char>, ExprView),
    If(int, int, ExprView, Seq<StmtView>, Option<Seq<StmtView>>),
    While(int, int, ExprView, Seq<StmtView>),
    Defun(int, int, Seq<char>, Seq<Seq<char>>, Seq<StmtView>),
    Call(int, int, Seq<char>, Seq<ExprView>),
    Return(int, int, ExprView),
}

impl ExprView {
    pub open spec fn start(self) -> int {
        match self {
            ExprView::Cst(s, _, _) => s,
            ExprView::Var(s, _, _) => s,
            ExprView::List(s, _, _) => s,
            ExprView::ECall(s, _, _, _) => s,
            ExprView::Prefix(s, _, _, _) => s,
            ExprView::Infix(s, _, _, _, _) => s,
        }
    }

    pub open spec fn end(self) -> int {
        match self {
            ExprView::Cst(_, e, _) => e,
            ExprView::Var(_, e, _) => e,
            ExprView::List(_, e, _) => e,
            ExprView::ECall(_, e, _, _) => e,
            ExprView::Prefix(_, e, _, _) => e,
            ExprView::Infix(_, e, _, _, _) => e,
        }
    }

    pub open spec fn span(self) -> Span {
        Span { start: self.start(), end: self.end() }
    }

    /// The expressions directly below this node, in source order.
    pub open spec fn children(self) -> Seq<ExprView> {
        match self {
            ExprView::Cst(_, _, _) => seq![],
            ExprView::Var(_, _, _) => seq![],
            ExprView::List(_, _, es) => es,
            ExprView::ECall(_, _, _, es) => es,
            ExprView::Prefix(_, _, _, e) => seq![*e],
            ExprView::Infix(_, _, a, _, b) => seq![*a, *b],
        }
    }

    /// The span is within the text's offsets, the children's spans lie inside
    /// it one after the other, and the same holds below every child.
    pub open spec fn well_formed(self) -> bool
        decreases self,
    {
        &&& 0 <= self.start() <= self.end()
        &&& ordered_within(expr_spans(self.children()), self.start(), self.end())
        &&& match self {
            ExprView::Cst(_, _, _) => true,
            ExprView::Var(_, _, _) => true,
            ExprView::List(_, _, es) => exprs_well_formed(es),
            ExprView::ECall(_, _, _, es) => exprs_well_formed(es),
            ExprView::Prefix(_, _, _, e) => e.well_formed(),
            ExprView::Infix(_, _, a, _, b) => a.well_formed() && b.well_formed(),
        }
    }
}

/// Every expression of the sequence is well formed.
pub open spec fn exprs_well_formed(es: Seq<ExprView>) -> bool
    decreases es,
{
    forall|i: int| 0 <= i < es.len() ==> (#[trigger] es[i]).well_formed()
}

/// The spans of a sequence of expressions, one for one.
pub open spec fn expr_spans(es: Seq<ExprView>) -> Seq<Span> {
    Seq::new(es.len(), |i: int| es[i].span())
}

/// The spans of a sequence of statements, one for one.
pub open spec fn stmt_spans(ss: Seq<StmtView>) -> Seq<Span> {
    Seq::new(ss.len(), |i: int| ss[i].span())
}

/// Each span lies within `[lo, hi]` with its start not after its end, and
/// each ends before the next one starts: the spans are nested in `[lo, hi]`
/// and no two of them overlap.
pub open spec fn ordered_within(spans: Seq<Span>, lo: int, hi: int) -> bool {
    &&& forall|i: int|
        0 <= i < spans.len() ==> lo <= (#[trigger] spans[i]).start <= spans[i].end <= hi
    &&& forall|i: int, j: int|
        0 <= i < j < spans.len() ==> (#[trigger] spans[i]).end <= (#[trigger] spans[j]).start
}

impl StmtView {
    pub open spec fn start(self) -> int {
        match self {
            StmtView::Declr(s, _, _, _) => s,
            StmtView::Affect(s, _, _, _) => s,
            StmtView::If(s, _, _, _, _) => s,
            StmtView::While(s, _, _, _) => s,
            StmtView::Defun(s, _, _, _, _) => s,
            StmtView::Call(s, _, _, _) => s,
            StmtView::Return(s, _, _) => s,
        }
    }

    pub open spec fn end(self) -> int {
        match self {
            StmtView::Declr(_, e, _, _) => e,
            StmtView::Affect(_, e, _, _) => e,
            StmtView::If(_, e, _, _, _) => e,
            StmtView::While(_, e, _, _) => e,
            StmtView::Defun(_, e, _, _, _) => e,
            StmtView::Call(_, e, _, _) => e,
            StmtView::Return(_, e, _) => e,
        }
    }

    pub open spec fn span(self) -> Span {
        Span { start: self.start(), end: self.end() }
    }

    /// The spans of the nodes directly below this statement, in source
    /// order: its expressions first, then its nested statements.
    pub open spec fn child_spans(self) -> Seq<Span> {
        match self {
            StmtView::Declr(_, _, _, e) => seq![e.span()],
            StmtView::Affect(_, _, _, e) => seq![e.span()],
            StmtView::If(_, _, c, t, f) => seq![c.span()] + stmt_spans(t) + match f {
                Some(f) => stmt_spans(f),
                None => seq![],
            },
            StmtView::While(_, _, c, b) => seq![c.span()] + stmt_spans(b),
            StmtView::Defun(_, _, _, _, b) => stmt_spans(b),
            StmtView::Call(_, _, _, es) => expr_spans(es),
            StmtView::Return(_, _, e) => seq![e.span()],
        }
    }

    /// The span is within the text's offsets, the children's spans lie inside
    /// it one after the other, and the same holds below every child.
    pub open spec fn well_formed(self) -> bool
        decreases self,
    {
        &&& 0 <= self.start() <= self.end()
        &&& ordered_within(self.child_spans(), self.start(), self.end())
        &&& match self {
            StmtView::Declr(_, _, _, e) => e.well_formed(),
            StmtView::Affect(_, _, _, e) => e.well_formed(),
            StmtView::If(_, _, c, t, f) => c.well_formed() && stmts_well_formed(t) && match f {
                Some(f) => stmts_well_formed(f),
                None => true,
            },
            StmtView::While(_, _, c, b) => c.well_formed() && stmts_well_formed(b),
            StmtView::Defun(_, _, _, _, b) => stmts_well_formed(b),
            StmtView::Call(_, _, _, es) => exprs_well_formed(es),
            StmtView::Return(_, _, e) => e.well_formed(),
        }
    }
}

/// Every statement of the sequence is well formed.
pub open spec fn stmts_well_formed(ss: Seq<StmtView>) -> bool
    decreases ss,
{
    forall|i: int| 0 <= i < ss.len() ==> (#[trigger] ss[i]).well_formed()
}

/// A statement sequence as a parser yields it: every statement well formed,
/// the statements one after the other.
pub open spec fn program_well_formed(ss: Seq<StmtView>) -> bool {
    &&& stmts_well_formed(ss)
    &&& forall|i: int, j: int|
        0 <= i < j < ss.len() ==> (#[trigger] ss[i]).end() <= (#[trigger] ss[j]).start()
}

impl EXPR {
    /// The model of this node.
    pub open spec fn model(&self) -> ExprView
        decreases self,
    {
        match self {
            EXPR::Cst(r, n) => ExprView::Cst(r.start as int, r.end as int, *n),
            EXPR::Var(r, s) => ExprView::Var(r.start as int, r.end as int, s@),
            EXPR::List(r, es) => ExprView::List(r.start as int, r.end as int, expr_models(es@)),
            EXPR::ECall(r, s, es) => ExprView::ECall(
                r.start as int,
                r.end as int,
                s@,
                expr_models(es@),
            ),
            EXPR::Prefix(r, op, e) => ExprView::Prefix(
                r.start as int,
                r.end as int,
                *op,
                Box::new(e.model()),
            ),
            EXPR::Infix(r, a, op, b) => ExprView::Infix(
                r.start as int,
                r.end as int,
                Box::new(a.model()),
                *op,
                Box::new(b.model()),
            ),
        }
    }

    /// The span of offsets this node was read from.
    pub fn get_range(&self) -> (r: Range<usize>)
        ensures
            r.start == self@.start(),
            r.end == self@.end(),
    {
        match self {
            EXPR::Cst(r, _) => r.start..r.end,
            EXPR::Var(r, _) => r.start..r.end,
            EXPR::List(r, _) => r.start..r.end,
            EXPR::ECall(r, _, _) => r.start..r.end,
            EXPR::Prefix(r, _, _) => r.start..r.end,
            EXPR::Infix(r, _, _, _) => r.start..r.end,
        }
    }
}

/// The models of a sequence of expression nodes, one for one.
pub open spec fn expr_models(es: Seq<EXPR>) -> Seq<ExprView>
    decreases es,
{
    Seq::new(
        es.len(),
        |i: int|
            if 0 <= i < es.len() {
                es[i].model()
            } else {
                ExprView::Cst(0, 0, 0)
            },
    )
}

impl View for EXPR {
    type V = ExprView;

    open spec fn view(&self) -> ExprView {
        self.model()
    }
}

impl STMT {
    /// The model of this node.
    pub open spec fn model(&self) -> StmtView
        decreases self,
    {
        match self {
            STMT::Declr(r, n, e) => StmtView::Declr(r.start as int, r.end as int, n@, e@),
            STMT::Affect(r, n, e) => StmtView::Affect(r.start as int, r.end as int, n@, e@),
            STMT::If(r, c, t, f) => StmtView::If(
                r.start as int,
                r.end as int,
                c@,
                stmt_models(t@),
                match f {
                    Some(f) => Some(stmt_models(f@)),
                    None => None,
                },
            ),
            STMT::While(r, c, b) => StmtView::While(
                r.start as int,
                r.end as int,
                c@,
                stmt_models(b@),
            ),
            STMT::Defun(r, n, ps, b) => StmtView::Defun(
                r.start as int,
                r.end as int,
                n@,
                Seq::new(ps@.len(), |i: int| ps@[i]@),
                stmt_models(b@),
            ),
            STMT::Call(r, n, es) => StmtView::Call(r.start as int, r.end as int, n@, expr_models(es@)),
            STMT::Return(r, e) => StmtView::Return(r.start as int, r.end as int, e@),
        }
    }

    /// The span of offsets this node was read from.
    pub fn get_range(&self) -> (r: Range<usize>)
        ensures
            r.start == self@.start(),
            r.end == self@.end(),
    {
        match self {
            STMT::Declr(r, _, _) => r.start..r.end,
            STMT::Affect(r, _, _) => r.start..r.end,
            STMT::If(r, _, _, _) => r.start..r.end,
            STMT::While(r, _, _) => r.start..r.end,
            STMT::Defun(r, _, _, _) => r.start..r.end,
            STMT::Call(r, _, _) => r.start..r.end,
            STMT::Return(r, _) => r.start..r.end,
        }
    }
}

/// The models of a sequence of statement nodes, one for one.
pub open spec fn stmt_models(ss: Seq<STMT>) -> Seq<StmtView>
    decreases ss,
{
    Seq::new(
        ss.len(),
        |i: int|
            if 0 <= i < ss.len() {
                ss[i].model()
            } else {
                StmtView::Return(0, 0, ExprView::Cst(0, 0, 0))
            },
    )
}

impl View for STMT {
    type V = StmtView;

    open spec fn view(&self) -> StmtView {
        self.model()
    }
}

/// Two sequences of expression nodes with the same models, index by index,
/// have the same sequence of models.
pub proof fn lemma_expr_models_ext(a: Seq<EXPR>, b: Seq<EXPR>)
    requires
        a.len() == b.len(),
        forall|i: int| 0 <= i < a.len() ==> a[i]@ == b[i]@,
    ensures
        expr_models(a) == expr_models(b),
{
    assert(expr_models(a) =~= expr_models(b));
}

/// Two sequences of statement nodes with the same models, index by index,
/// have the same sequence of models.
pub proof fn lemma_stmt_models_ext(a: Seq<STMT>, b: Seq<STMT>)
    requires
        a.len() == b.len(),
        forall|i: int| 0 <= i < a.len() ==> a[i]@ == b[i]@,
    ensures
        stmt_models(a) == stmt_models(b),
{
    assert(stmt_models(a) =~= stmt_models(b));
}

impl Clone for EXPR {
    fn clone(&self) -> (res: Self)
        ensures
            res@ == self@,
        decreases self,
    {
        match self {
            EXPR::Cst(r, n) => EXPR::Cst(r.start..r.end, *n),
            EXPR::Var(r, s) => EXPR::Var(r.start..r.end, s.clone()),
            EXPR::List(r, es) => EXPR::List(r.start..r.end, clone_exprs(es)),
            EXPR::ECall(r, s, es) => EXPR::ECall(r.start..r.end, s.clone(), clone_exprs(es)),
            EXPR::Prefix(r, op, e) => EXPR::Prefix(r.start..r.end, *op, Box::new((**e).clone())),
            EXPR::Infix(r, a, op, b) => EXPR::Infix(
                r.start..r.end,
                Box::new((**a).clone()),
                *op,
                Box::new((**b).clone()),
            ),
        }
    }
}

fn clone_exprs(es: &Vec<EXPR>) -> (res: Vec<EXPR>)
    ensures
        expr_models(res@) == expr_models(es@),
    decreases es,
{
    let mut out: Vec<EXPR> = Vec::new();
    let mut i: usize = 0;
    while i < es.len()
        invariant
            i <= es.len(),
            out@.len() == i,
            forall|j: int| 0 <= j < i ==> out@[j]@ == es@[j]@,
        decreases es.len() - i,
    {
        out.push(es[i].clone());
        i += 1;
    }
    proof {
        lemma_expr_models_ext(out@, es@);
    }
    out
}

impl Clone for STMT {
    fn clone(&self) -> (res: Self)
        ensures
            res@ == self@,
        decreases self,
    {
        match self {
            STMT::Declr(r, n, e) => STMT::Declr(r.start..r.end, n.clone(), e.clone()),
            STMT::Affect(r, n, e) => STMT::Affect(r.start..r.end, n.clone(), e.clone()),
            STMT::If(r, c, t, f) => {
                let g = match f {
                    Some(f) => Some(clone_stmts(f)),
                    None => None,
                };
                STMT::If(r.start..r.end, c.clone(), clone_stmts(t), g)
            },
            STMT::While(r, c, b) => STMT::While(r.start..r.end, c.clone(), clone_stmts(b)),
            STMT::Defun(r, n, ps, b) => {
                let qs = clone_names(ps);
                assert(Seq::new(qs@.len(), |i: int| qs@[i]@) =~= Seq::new(
                    ps@.len(),
                    |i: int| ps@[i]@,
                ));
                STMT::Defun(r.start..r.end, n.clone(), qs, clone_stmts(b))
            },
            STMT::Call(r, n, es) => STMT::Call(r.start..r.end, n.clone(), clone_exprs(es)),
            STMT::Return(r, e) => STMT::Return(r.start..r.end, e.clone()),
        }
    }
}

fn clone_stmts(ss: &Vec<STMT>) -> (res: Vec<STMT>)
    ensures
        stmt_models(res@) == stmt_models(ss@),
    decreases ss,
{
    let mut out: Vec<STMT> = Vec::new();
    let mut i: usize = 0;
    while i < ss.len()
        invariant
            i <= ss.len(),
            out@.len() == i,
            forall|j: int| 0 <= j < i ==> out@[j]@ == ss@[j]@,
        decreases ss.len() - i,
    {
        out.push(ss[i].clone());
        i += 1;
    }
    proof {
        lemma_stmt_models_ext(out@, ss@);
    }
    out
}

fn clone_names(ps: &Vec<String>) -> (res: Vec<String>)
    ensures
        res@.len() == ps@.len(),
        forall|i: int| 0 <= i < ps@.len() ==> res@[i]@ == ps@[i]@,
{
    let mut out: Vec<String> = Vec::new();
    let mut i: usize = 0;
    while i < ps.len()
        invariant
            i <= ps.len(),
            out@.len() == i,
            forall|j: int| 0 <= j < i ==> out@[j]@ == ps@[j]@,
        decreases ps.len() - i,
    {
        out.push(ps[i].clone());
        i += 1;
    }
    out
}

} // verus!
