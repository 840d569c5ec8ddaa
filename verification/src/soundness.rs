//! What holds of everything that the grammar reads, whatever the text: the
//! cursor moves on within the text, and the nodes read are well formed,
//! with their spans between the cursor before and the cursor behind. From
//! this it follows that the tree of every program is well formed.

use crate::ast::{
    expr_spans, exprs_well_formed, ordered_within, program_well_formed, stmt_spans,
    stmts_well_formed, ExprView, Span, StmtView,
};
use crate::grammar::{
    args_at, assignment_at, binding_at, block_at, call_at, call_statement_at, condition_at,
    declaration_at, else_at, expr_at, exprs_at, furthest, if_at, list_at, more_exprs_at, not_at,
    paren_at, program_of, statement_at, statements_at, while_at, Failure, Outcome,
};
use crate::lexis::{char_at, lemma_scan_bounds, name_at, skip_blank, word_at};
use vstd::prelude::*;

verus! {

/// Whether the failure, if there is one, lies within the text `s`.
pub open spec fn far_within(far: Option<Failure>, s: Seq<char>) -> bool {
    far matches Some(f) ==> 0 <= f.offset <= s.len()
}

/// What holds of an expression read from `pos` on: the cursor has moved on
/// within the text, and the node is well formed, with its span between the
/// two cursors.
pub open spec fn expr_sound(o: Outcome<ExprView>, s: Seq<char>, pos: int) -> bool {
    &&& far_within(o.far, s)
    &&& o.value matches Some((e, next)) ==> pos < next <= s.len() && e.well_formed() && pos
        <= e.start() && e.end() <= next
}

/// What holds of expressions read from `pos` on: the cursor has moved on
/// within the text, and the nodes are well formed, their spans one after the
/// other between the two cursors.
pub open spec fn exprs_sound(o: Outcome<Seq<ExprView>>, s: Seq<char>, pos: int) -> bool {
    &&& far_within(o.far, s)
    &&& o.value matches Some((es, next)) ==> pos < next <= s.len() && exprs_well_formed(es)
        && ordered_within(expr_spans(es), pos, next)
}

/// What holds of a statement read from `pos` on.
pub open spec fn stmt_sound(o: Outcome<StmtView>, s: Seq<char>, pos: int) -> bool {
    &&& far_within(o.far, s)
    &&& o.value matches Some((x, next)) ==> pos < next <= s.len() && x.well_formed() && pos
        <= x.start() && x.end() <= next
}

/// What holds of a block read from `pos` on.
pub open spec fn block_sound(o: Outcome<Seq<StmtView>>, s: Seq<char>, pos: int) -> bool {
    &&& far_within(o.far, s)
    &&& o.value matches Some((xs, next)) ==> pos < next <= s.len() && stmts_well_formed(xs)
        && ordered_within(stmt_spans(xs), pos, next)
}

/// What holds of statements read from `pos` on, of which there may be none.
pub open spec fn stmts_sound(o: Outcome<Seq<StmtView>>, s: Seq<char>, pos: int) -> bool {
    &&& far_within(o.far, s)
    &&& o.value matches Some((xs, next)) && pos <= next <= s.len() && stmts_well_formed(xs)
        && ordered_within(stmt_spans(xs), pos, next)
}

/// Spans that lie in order within `[lo, mid]`, followed by spans that lie in
/// order within `[mid, hi]`, lie in order within `[lo, hi]`.
pub proof fn lemma_ordered_concat(a: Seq<Span>, b: Seq<Span>, lo: int, mid: int, hi: int)
    requires
        ordered_within(a, lo, mid),
        ordered_within(b, mid, hi),
        lo <= mid <= hi,
    ensures
        ordered_within(a + b, lo, hi),
{
    let c = a + b;
    assert forall|i: int| 0 <= i < c.len() implies lo <= (#[trigger] c[i]).start <= c[i].end
        <= hi by {
        if i < a.len() {
            assert(c[i] == a[i]);
        } else {
            assert(c[i] == b[i - a.len()]);
        }
    }
    assert forall|i: int, j: int| 0 <= i < j < c.len() implies (#[trigger] c[i]).end <= (
    #[trigger] c[j]).start by {
        if j < a.len() {
            assert(c[i] == a[i] && c[j] == a[j]);
        } else if i < a.len() {
            assert(c[i] == a[i] && c[j] == b[j - a.len()]);
        } else {
            assert(c[i] == b[i - a.len()] && c[j] == b[j - a.len()]);
        }
    }
}

/// One more expression behind expressions that lie in order: the longer
/// sequence lies in order too, and is well formed where its parts are.
proof fn lemma_one_more_expr(es: Seq<ExprView>, e: ExprView, lo: int, mid: int, hi: int)
    requires
        exprs_well_formed(es),
        ordered_within(expr_spans(es), lo, mid),
        e.well_formed(),
        lo <= mid <= e.start(),
        e.end() <= hi,
    ensures
        exprs_well_formed(es.push(e)),
        ordered_within(expr_spans(es.push(e)), lo, hi),
{
    assert(expr_spans(es.push(e)) =~= expr_spans(es) + seq![e.span()]);
    assert(ordered_within(seq![e.span()], mid, hi));
    lemma_ordered_concat(expr_spans(es), seq![e.span()], lo, mid, hi);
    assert forall|i: int| 0 <= i < es.push(e).len() implies (#[trigger] es.push(e)[i]).well_formed() by {
        if i < es.len() {
            assert(es.push(e)[i] == es[i]);
        }
    }
}

/// One more statement behind statements that lie in order: the longer
/// sequence lies in order too, and is well formed where its parts are.
proof fn lemma_one_more_stmt(xs: Seq<StmtView>, x: StmtView, lo: int, mid: int, hi: int)
    requires
        stmts_well_formed(xs),
        ordered_within(stmt_spans(xs), lo, mid),
        x.well_formed(),
        lo <= mid <= x.start(),
        x.end() <= hi,
    ensures
        stmts_well_formed(xs.push(x)),
        ordered_within(stmt_spans(xs.push(x)), lo, hi),
{
    assert(stmt_spans(xs.push(x)) =~= stmt_spans(xs) + seq![x.span()]);
    assert(ordered_within(seq![x.span()], mid, hi));
    lemma_ordered_concat(stmt_spans(xs), seq![x.span()], lo, mid, hi);
    assert forall|i: int| 0 <= i < xs.push(x).len() implies (#[trigger] xs.push(x)[i]).well_formed() by {
        if i < xs.len() {
            assert(xs.push(x)[i] == xs[i]);
        }
    }
}

/// An expression read is sound.
pub proof fn lemma_expr_at(s: Seq<char>, pos: int)
    ensures
        expr_sound(expr_at(s, pos), s, pos),
    decreases s.len() - pos, 2nat,
{
    if 0 <= pos <= s.len() {
        lemma_scan_bounds(s, pos);
        let p = skip_blank(s, pos);
        lemma_scan_bounds(s, p);
        lemma_not_at(s, p);
        lemma_list_at(s, p);
        lemma_call_at(s, p);
        lemma_paren_at(s, p);
    }
}

/// A negation read is sound, and starts at its `!`.
pub proof fn lemma_not_at(s: Seq<char>, p: int)
    ensures
        expr_sound(not_at(s, p), s, p),
        not_at(s, p).value matches Some((e, _)) ==> e.start() == p,
    decreases s.len() - p, 1nat,
{
    if char_at(s, p, '!') {
        lemma_expr_at(s, p + 1);
        let e = expr_at(s, p + 1);
        if e.value is Some {
            assert(expr_spans(seq![e.item()]) =~= seq![e.item().span()]);
        }
    }
}

/// An expression read between brackets is sound.
pub proof fn lemma_paren_at(s: Seq<char>, p: int)
    ensures
        expr_sound(paren_at(s, p), s, p),
    decreases s.len() - p, 1nat,
{
    if char_at(s, p, '(') {
        lemma_expr_at(s, p + 1);
        let e = expr_at(s, p + 1);
        if e.value is Some {
            lemma_scan_bounds(s, e.next());
        }
    }
}

/// A list read is sound, and starts at its `[`.
pub proof fn lemma_list_at(s: Seq<char>, p: int)
    ensures
        expr_sound(list_at(s, p), s, p),
        list_at(s, p).value matches Some((e, _)) ==> e.start() == p,
    decreases s.len() - p, 1nat,
{
    if char_at(s, p, '[') {
        lemma_exprs_at(s, p + 1);
        let items = exprs_at(s, p + 1);
        if items.value is Some {
            lemma_scan_bounds(s, items.next());
        }
    }
}

/// The arguments read for a call are sound.
pub proof fn lemma_args_at(s: Seq<char>, pos: int)
    ensures
        exprs_sound(args_at(s, pos), s, pos),
    decreases s.len() - pos, 1nat,
{
    if 0 <= pos <= s.len() {
        lemma_scan_bounds(s, pos);
        let p = skip_blank(s, pos);
        if char_at(s, p, '(') {
            lemma_exprs_at(s, p + 1);
            let items = exprs_at(s, p + 1);
            if items.value is Some {
                lemma_scan_bounds(s, items.next());
            }
        }
    }
}

/// A call read is sound, and starts at its name.
pub proof fn lemma_call_at(s: Seq<char>, p: int)
    ensures
        expr_sound(call_at(s, p), s, p),
        call_at(s, p).value matches Some((e, _)) ==> e.start() == p,
    decreases s.len() - p, 1nat,
{
    match name_at(s, p) {
        Some((name, next)) => {
            if p < next <= s.len() {
                lemma_args_at(s, next);
            }
        },
        None => {},
    }
}

/// Expressions read are sound.
pub proof fn lemma_exprs_at(s: Seq<char>, pos: int)
    ensures
        exprs_sound(exprs_at(s, pos), s, pos),
    decreases s.len() - pos, 4nat,
{
    lemma_expr_at(s, pos);
    let first = expr_at(s, pos);
    if first.value is Some {
        lemma_one_more_expr(seq![], first.item(), pos, pos, first.next());
        assert(Seq::<ExprView>::empty().push(first.item()) =~= seq![first.item()]);
        lemma_more_exprs_at(s, first.next(), seq![first.item()], first.far, pos);
    }
}

/// More expressions read behind sound ones are sound together with them.
pub proof fn lemma_more_exprs_at(
    s: Seq<char>,
    pos: int,
    before: Seq<ExprView>,
    far: Option<Failure>,
    start: int,
)
    requires
        0 <= start < pos <= s.len(),
        exprs_well_formed(before),
        ordered_within(expr_spans(before), start, pos),
        far_within(far, s),
    ensures
        exprs_sound(more_exprs_at(s, pos, before, far), s, start),
    decreases s.len() - pos, 3nat,
{
    lemma_scan_bounds(s, pos);
    let q = skip_blank(s, pos);
    if char_at(s, q, ',') {
        lemma_expr_at(s, q + 1);
        let e = expr_at(s, q + 1);
        if e.value is Some {
            lemma_one_more_expr(before, e.item(), start, pos, e.next());
            lemma_more_exprs_at(s, e.next(), before.push(e.item()), furthest(e.far, far), start);
        }
    }
}

/// A declaration or an assignment read is sound, and starts where it was
/// looked for.
pub proof fn lemma_binding_at(s: Seq<char>, p: int, pos: int, declares: bool)
    requires
        0 <= p <= pos <= s.len(),
    ensures
        stmt_sound(binding_at(s, p, pos, declares), s, p),
        binding_at(s, p, pos, declares).value matches Some((x, _)) ==> x.start() == p,
{
    lemma_scan_bounds(s, pos);
    let name_start = skip_blank(s, pos);
    lemma_scan_bounds(s, name_start);
    match name_at(s, name_start) {
        Some((name, name_end)) => {
            lemma_scan_bounds(s, name_end);
            let q = skip_blank(s, name_end);
            if char_at(s, q, '=') {
                lemma_expr_at(s, q + 1);
                let e = expr_at(s, q + 1);
                if e.value is Some {
                    lemma_scan_bounds(s, e.next());
                }
            }
        },
        None => {},
    }
}

/// A declaration read is sound.
pub proof fn lemma_declaration_at(s: Seq<char>, p: int)
    ensures
        stmt_sound(declaration_at(s, p), s, p),
        declaration_at(s, p).value matches Some((x, _)) ==> x.start() == p,
{
    if word_at(s, p, "var"@) {
        lemma_binding_at(s, p, p + "var"@.len(), true);
    }
}

/// An assignment read is sound.
pub proof fn lemma_assignment_at(s: Seq<char>, p: int)
    ensures
        stmt_sound(assignment_at(s, p), s, p),
        assignment_at(s, p).value matches Some((x, _)) ==> x.start() == p,
{
    if name_at(s, p) is Some {
        lemma_binding_at(s, p, p, false);
    }
}

/// A call statement read is sound.
pub proof fn lemma_call_statement_at(s: Seq<char>, p: int)
    ensures
        stmt_sound(call_statement_at(s, p), s, p),
        call_statement_at(s, p).value matches Some((x, _)) ==> x.start() == p,
{
    match name_at(s, p) {
        Some((name, next)) => {
            if 0 <= p <= s.len() {
                lemma_scan_bounds(s, p);
            }
            lemma_args_at(s, next);
            let args = args_at(s, next);
            if args.value is Some {
                lemma_scan_bounds(s, args.next());
            }
        },
        None => {},
    }
}

/// A condition read is sound.
pub proof fn lemma_condition_at(s: Seq<char>, pos: int)
    requires
        0 <= pos <= s.len(),
    ensures
        expr_sound(condition_at(s, pos), s, pos),
{
    lemma_scan_bounds(s, pos);
    let p = skip_blank(s, pos);
    if char_at(s, p, '(') {
        lemma_expr_at(s, p + 1);
        let e = expr_at(s, p + 1);
        if e.value is Some {
            lemma_scan_bounds(s, e.next());
        }
    }
}

/// A statement read is sound.
pub proof fn lemma_statement_at(s: Seq<char>, pos: int)
    ensures
        stmt_sound(statement_at(s, pos), s, pos),
    decreases s.len() - pos, 2nat,
{
    if 0 <= pos <= s.len() {
        lemma_scan_bounds(s, pos);
        let p = skip_blank(s, pos);
        lemma_declaration_at(s, p);
        lemma_while_at(s, p);
        lemma_if_at(s, p);
        lemma_call_statement_at(s, p);
    }
}

/// A loop read is sound, and starts at its `while`.
pub proof fn lemma_while_at(s: Seq<char>, p: int)
    ensures
        stmt_sound(while_at(s, p), s, p),
        while_at(s, p).value matches Some((x, _)) ==> x.start() == p,
    decreases s.len() - p, 1nat,
{
    if word_at(s, p, "while"@) {
        lemma_condition_at(s, p + "while"@.len());
        let c = condition_at(s, p + "while"@.len());
        if c.value is Some {
            lemma_block_at(s, c.next());
            let b = block_at(s, c.next());
            if b.value is Some {
                lemma_ordered_concat(
                    seq![c.item().span()],
                    stmt_spans(b.item()),
                    p,
                    c.next(),
                    b.next(),
                );
            }
        }
    }
}

/// A conditional read is sound, and starts at its `if`.
pub proof fn lemma_if_at(s: Seq<char>, p: int)
    ensures
        stmt_sound(if_at(s, p), s, p),
        if_at(s, p).value matches Some((x, _)) ==> x.start() == p,
    decreases s.len() - p, 1nat,
{
    if word_at(s, p, "if"@) {
        lemma_condition_at(s, p + "if"@.len());
        let c = condition_at(s, p + "if"@.len());
        if c.value is Some {
            lemma_block_at(s, c.next());
            let b = block_at(s, c.next());
            if b.value is Some {
                lemma_else_at(s, b.next());
                let otherwise = else_at(s, b.next());
                let first = seq![c.item().span()] + stmt_spans(b.item());
                lemma_ordered_concat(
                    seq![c.item().span()],
                    stmt_spans(b.item()),
                    p,
                    c.next(),
                    b.next(),
                );
                if otherwise.value is Some {
                    lemma_ordered_concat(
                        first,
                        stmt_spans(otherwise.item()),
                        p,
                        b.next(),
                        otherwise.next(),
                    );
                } else {
                    assert(first + Seq::<Span>::empty() =~= first);
                }
            }
        }
    }
}

/// An `else` branch read is sound.
pub proof fn lemma_else_at(s: Seq<char>, pos: int)
    ensures
        block_sound(else_at(s, pos), s, pos),
    decreases s.len() - pos, 5nat,
{
    if 0 <= pos <= s.len() {
        lemma_scan_bounds(s, pos);
        let q = skip_blank(s, pos);
        if word_at(s, q, "else"@) {
            lemma_block_at(s, q + "else"@.len());
        }
    }
}

/// A block read is sound.
pub proof fn lemma_block_at(s: Seq<char>, pos: int)
    ensures
        block_sound(block_at(s, pos), s, pos),
    decreases s.len() - pos, 4nat,
{
    if 0 <= pos <= s.len() {
        lemma_scan_bounds(s, pos);
        let p = skip_blank(s, pos);
        if char_at(s, p, '{') {
            lemma_statements_at(s, p + 1, seq![], None, p + 1);
            let body = statements_at(s, p + 1, seq![], None);
            lemma_scan_bounds(s, body.next());
        } else {
            lemma_statement_at(s, p);
            let single = statement_at(s, p);
            if single.value is Some {
                lemma_one_more_stmt(seq![], single.item(), pos, pos, single.next());
                assert(Seq::<StmtView>::empty().push(single.item()) =~= seq![single.item()]);
            }
        }
    }
}

/// Statements read behind sound ones are sound together with them.
pub proof fn lemma_statements_at(
    s: Seq<char>,
    pos: int,
    before: Seq<StmtView>,
    far: Option<Failure>,
    start: int,
)
    requires
        0 <= start <= pos <= s.len(),
        stmts_well_formed(before),
        ordered_within(stmt_spans(before), start, pos),
        far_within(far, s),
    ensures
        stmts_sound(statements_at(s, pos, before, far), s, start),
    decreases s.len() - pos, 3nat,
{
    lemma_statement_at(s, pos);
    let next = statement_at(s, pos);
    if next.value is Some {
        lemma_one_more_stmt(before, next.item(), start, pos, next.next());
        lemma_statements_at(
            s,
            next.next(),
            before.push(next.item()),
            furthest(next.far, far),
            start,
        );
    }
}

/// The tree of a program is well formed: every node's span lies within the
/// span of the node it stands in, and the spans of nodes that stand side by
/// side come one after the other, without overlap. Where a text is no
/// program, the failure told lies within the text.
pub proof fn lemma_program_well_formed(s: Seq<char>)
    ensures
        match program_of(s) {
            Ok(statements) => program_well_formed(statements),
            Err(failure) => 0 <= failure.offset <= s.len(),
        },
{
    lemma_statements_at(s, 0, seq![], None, 0);
    let body = statements_at(s, 0, seq![], None);
    lemma_scan_bounds(s, body.next());
    match program_of(s) {
        Ok(statements) => {
            let spans = stmt_spans(statements);
            assert forall|i: int, j: int| 0 <= i < j < statements.len() implies (
            #[trigger] statements[i]).end() <= (#[trigger] statements[j]).start() by {
                assert(spans[i] == statements[i].span());
                assert(spans[j] == statements[j].span());
            }
        },
        Err(_) => {},
    }
}

} // verus!
