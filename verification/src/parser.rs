//! The parser: reads a text into the statements of a program, or tells where
//! the text stops being one. Every function here reads exactly what the
//! grammar's function of the same rule describes.

use crate::ast::{expr_models, program_well_formed, stmt_models, ExprView, PrefixOp, StmtView, EXPR, STMT};
use crate::grammar::{
    args_at, assignment_at, binding_at, block_at, call_at, call_statement_at, condition_at,
    declaration_at, else_at, expr_at, exprs_at, furthest, if_at, list_at, more_exprs_at, not_at,
    done, paren_at, program_of, statement_at, statements_at, while_at, Expected, Failure,
    Outcome,
};
use crate::lexis::{chars_of, is_char_at, read_name, read_number, skip_blanks, word_end};
use crate::located::position_in;
use crate::lsp::basic::Position;
use crate::soundness::{
    lemma_block_at, lemma_condition_at, lemma_expr_at, lemma_exprs_at, lemma_program_well_formed,
    lemma_statement_at, lemma_statements_at,
};
use crate::text::position_of;
use vstd::prelude::*;

verus! {

/// A place where something did not match, and what was expected there.
#[derive(Copy, Clone, Debug, PartialEq, Eq)]
pub struct ParseFailure {
    pub offset: usize,
    pub expected: Expected,
}

/// What a parsing function read: the value and the cursor behind it, or
/// none; and the furthest failure met on the way.
#[derive(Debug)]
pub struct Parsed<T> {
    pub value: Option<(T, usize)>,
    pub far: Option<ParseFailure>,
}

/// Why a text is no program: the furthest place at which the parser could
/// not go on, as an offset and as a position, and what it expected there.
#[derive(Copy, Clone, Debug, PartialEq, Eq)]
pub struct ParseError {
    pub offset: usize,
    pub position: Position,
    pub expected: Expected,
}

impl View for ParseError {
    type V = Failure;

    open spec fn view(&self) -> Failure {
        Failure { offset: self.offset as int, expected: self.expected }
    }
}

/// The model of an optional failure.
pub open spec fn far_view(far: Option<ParseFailure>) -> Option<Failure> {
    match far {
        Some(f) => Some(Failure { offset: f.offset as int, expected: f.expected }),
        None => None,
    }
}

/// The model of what was read where an expression was looked for.
pub open spec fn expr_outcome(r: Parsed<EXPR>) -> Outcome<ExprView> {
    Outcome {
        value: match r.value {
            Some((e, next)) => Some((e@, next as int)),
            None => None,
        },
        far: far_view(r.far),
    }
}

/// The model of what was read where expressions were looked for.
pub open spec fn exprs_outcome(r: Parsed<Vec<EXPR>>) -> Outcome<Seq<ExprView>> {
    Outcome {
        value: match r.value {
            Some((es, next)) => Some((expr_models(es@), next as int)),
            None => None,
        },
        far: far_view(r.far),
    }
}

/// The model of what was read where a statement was looked for.
pub open spec fn stmt_outcome(r: Parsed<STMT>) -> Outcome<StmtView> {
    Outcome {
        value: match r.value {
            Some((x, next)) => Some((x@, next as int)),
            None => None,
        },
        far: far_view(r.far),
    }
}

/// The model of what was read where statements were looked for.
pub open spec fn stmts_outcome(r: Parsed<Vec<STMT>>) -> Outcome<Seq<StmtView>> {
    Outcome {
        value: match r.value {
            Some((xs, next)) => Some((stmt_models(xs@), next as int)),
            None => None,
        },
        far: far_view(r.far),
    }
}

/// The models of expressions with one more behind them.
proof fn lemma_models_with_expr(es: Seq<EXPR>, e: EXPR)
    ensures
        expr_models(es.push(e)) == expr_models(es).push(e@),
{
    assert(expr_models(es.push(e)) =~= expr_models(es).push(e@));
}

/// The models of statements with one more behind them.
proof fn lemma_models_with_stmt(xs: Seq<STMT>, x: STMT)
    ensures
        stmt_models(xs.push(x)) == stmt_models(xs).push(x@),
{
    assert(stmt_models(xs.push(x)) =~= stmt_models(xs).push(x@));
}

/// The further of two failures, the first one where they are equally far.
fn furthest_of(a: Option<ParseFailure>, b: Option<ParseFailure>) -> (r: Option<ParseFailure>)
    ensures
        far_view(r) == furthest(far_view(a), far_view(b)),
{
    match (a, b) {
        (Some(x), Some(y)) => if y.offset > x.offset {
            b
        } else {
            a
        },
        (None, _) => b,
        (_, None) => a,
    }
}

/// The further of a failure and a failure that there may be, the first one
/// where they are equally far.
fn further_of(a: ParseFailure, b: Option<ParseFailure>) -> (r: ParseFailure)
    ensures
        far_view(Some(r)) == furthest(far_view(Some(a)), far_view(b)),
{
    match b {
        Some(y) => if y.offset > a.offset {
            y
        } else {
            a
        },
        None => a,
    }
}

/// The failure that `expected` was missing at `offset`.
fn missing_at(offset: usize, expected: Expected) -> (r: Option<ParseFailure>)
    ensures
        r == Some(ParseFailure { offset, expected }),
{
    Some(ParseFailure { offset, expected })
}

/// `expression` at `pos`.
pub fn parse_expr(s: &[char], pos: usize) -> (r: Parsed<EXPR>)
    ensures
        expr_outcome(r) == expr_at(s@, pos as int),
    decreases s.len() - pos, 2nat,
{
    if pos > s.len() {
        return Parsed { value: None, far: None };
    }
    let p = skip_blanks(s, pos);
    let a = parse_not(s, p);
    if a.value.is_some() {
        return a;
    }
    let b = parse_list(s, p);
    if b.value.is_some() {
        return Parsed { value: b.value, far: furthest_of(a.far, b.far) };
    }
    let far = furthest_of(a.far, b.far);
    match read_number(s, p) {
        Some((value, next)) => {
            return Parsed { value: Some((EXPR::Cst(p..next, value), next)), far };
        },
        None => {},
    }
    let c = parse_call(s, p);
    if c.value.is_some() {
        return Parsed { value: c.value, far: furthest_of(far, c.far) };
    }
    let far = furthest_of(far, c.far);
    match read_name(s, p) {
        Some((name, next)) => {
            return Parsed { value: Some((EXPR::Var(p..next, name), next)), far };
        },
        None => {},
    }
    let d = parse_paren(s, p);
    if d.value.is_some() {
        return Parsed { value: d.value, far: furthest_of(far, d.far) };
    }
    let far = furthest_of(far, d.far);
    Parsed { value: None, far: furthest_of(missing_at(p, Expected::Expression), far) }
}

/// `"!" expression`, the `!` at `p`.
fn parse_not(s: &[char], p: usize) -> (r: Parsed<EXPR>)
    requires
        p <= s.len(),
    ensures
        expr_outcome(r) == not_at(s@, p as int),
    decreases s.len() - p, 1nat,
{
    if !is_char_at(s, p, '!') {
        return Parsed { value: None, far: None };
    }
    let e = parse_expr(s, p + 1);
    match e.value {
        Some((x, next)) => Parsed {
            value: Some((EXPR::Prefix(p..next, PrefixOp::Not, Box::new(x)), next)),
            far: e.far,
        },
        None => Parsed { value: None, far: e.far },
    }
}

/// `"(" expression ")"`, the `(` at `p`.
fn parse_paren(s: &[char], p: usize) -> (r: Parsed<EXPR>)
    requires
        p <= s.len(),
    ensures
        expr_outcome(r) == paren_at(s@, p as int),
    decreases s.len() - p, 1nat,
{
    if !is_char_at(s, p, '(') {
        return Parsed { value: None, far: None };
    }
    let e = parse_expr(s, p + 1);
    proof {
        lemma_expr_at(s@, p + 1);
    }
    match e.value {
        Some((x, next)) => {
            let q = skip_blanks(s, next);
            if is_char_at(s, q, ')') {
                Parsed { value: Some((x, q + 1)), far: e.far }
            } else {
                Parsed {
                    value: None,
                    far: furthest_of(missing_at(q, Expected::Symbol(')')), e.far),
                }
            }
        },
        None => Parsed { value: None, far: e.far },
    }
}

/// `"[" expression ("," expression)* "]"`, the `[` at `p`.
fn parse_list(s: &[char], p: usize) -> (r: Parsed<EXPR>)
    requires
        p <= s.len(),
    ensures
        expr_outcome(r) == list_at(s@, p as int),
    decreases s.len() - p, 1nat,
{
    if !is_char_at(s, p, '[') {
        return Parsed { value: None, far: None };
    }
    let items = parse_exprs(s, p + 1);
    proof {
        lemma_exprs_at(s@, p + 1);
    }
    match items.value {
        Some((es, next)) => {
            let q = skip_blanks(s, next);
            if is_char_at(s, q, ']') {
                Parsed { value: Some((EXPR::List(p..q + 1, es), q + 1)), far: items.far }
            } else {
                Parsed {
                    value: None,
                    far: furthest_of(missing_at(q, Expected::Symbol(']')), items.far),
                }
            }
        },
        None => Parsed { value: None, far: items.far },
    }
}

/// `"(" expression ("," expression)* ")"` from `pos` on.
fn parse_args(s: &[char], pos: usize) -> (r: Parsed<Vec<EXPR>>)
    requires
        pos <= s.len(),
    ensures
        exprs_outcome(r) == args_at(s@, pos as int),
    decreases s.len() - pos, 1nat,
{
    let p = skip_blanks(s, pos);
    if !is_char_at(s, p, '(') {
        return Parsed { value: None, far: missing_at(p, Expected::Symbol('(')) };
    }
    let items = parse_exprs(s, p + 1);
    proof {
        lemma_exprs_at(s@, p + 1);
    }
    match items.value {
        Some((es, next)) => {
            let q = skip_blanks(s, next);
            if is_char_at(s, q, ')') {
                Parsed { value: Some((es, q + 1)), far: items.far }
            } else {
                Parsed {
                    value: None,
                    far: furthest_of(missing_at(q, Expected::Symbol(')')), items.far),
                }
            }
        },
        None => Parsed { value: None, far: items.far },
    }
}

/// `name "(" expression ("," expression)* ")"`, the name at `p`.
fn parse_call(s: &[char], p: usize) -> (r: Parsed<EXPR>)
    requires
        p <= s.len(),
    ensures
        expr_outcome(r) == call_at(s@, p as int),
    decreases s.len() - p, 1nat,
{
    match read_name(s, p) {
        Some((name, next)) => {
            let args = parse_args(s, next);
            match args.value {
                Some((es, end)) => Parsed {
                    value: Some((EXPR::ECall(p..end, name, es), end)),
                    far: args.far,
                },
                None => Parsed { value: None, far: args.far },
            }
        },
        None => Parsed { value: None, far: None },
    }
}

/// `expression ("," expression)*` at `pos`.
fn parse_exprs(s: &[char], pos: usize) -> (r: Parsed<Vec<EXPR>>)
    requires
        pos <= s.len(),
    ensures
        exprs_outcome(r) == exprs_at(s@, pos as int),
    decreases s.len() - pos, 4nat,
{
    let first = parse_expr(s, pos);
    proof {
        lemma_expr_at(s@, pos as int);
    }
    let mut far = first.far;
    let mut items: Vec<EXPR> = Vec::new();
    let mut cur: usize = match first.value {
        Some((e, next)) => {
            proof {
                lemma_models_with_expr(items@, e);
                assert(expr_models(items@).push(e@) =~= seq![e@]);
            }
            items.push(e);
            next
        },
        None => {
            return Parsed { value: None, far };
        },
    };
    loop
        invariant
            pos < cur <= s.len(),
            exprs_at(s@, pos as int) == more_exprs_at(
                s@,
                cur as int,
                expr_models(items@),
                far_view(far),
            ),
        decreases s.len() - cur,
    {
        let q = skip_blanks(s, cur);
        if !is_char_at(s, q, ',') {
            return Parsed { value: Some((items, cur)), far };
        }
        let e = parse_expr(s, q + 1);
        proof {
            lemma_expr_at(s@, q + 1);
        }
        far = furthest_of(e.far, far);
        match e.value {
            Some((x, next)) => {
                proof {
                    lemma_models_with_expr(items@, x);
                }
                items.push(x);
                cur = next;
            },
            None => {
                return Parsed { value: None, far };
            },
        }
    }
}

/// `"var" name "=" expression ";"`, the `var` at `p`.
pub fn parse_declaration(s: &[char], p: usize) -> (r: Parsed<STMT>)
    ensures
        stmt_outcome(r) == declaration_at(s@, p as int),
{
    match word_end(s, p, "var") {
        Some(after) => parse_binding(s, p, after, true),
        None => Parsed { value: None, far: None },
    }
}

/// `name "=" expression ";"`, the name at `p`.
pub fn parse_assignment(s: &[char], p: usize) -> (r: Parsed<STMT>)
    ensures
        stmt_outcome(r) == assignment_at(s@, p as int),
{
    if read_name(s, p).is_some() {
        parse_binding(s, p, p, false)
    } else {
        Parsed { value: None, far: None }
    }
}

/// `name "=" expression ";"` from `pos` on, as the declaration or the
/// assignment that starts at `p`.
fn parse_binding(s: &[char], p: usize, pos: usize, declares: bool) -> (r: Parsed<STMT>)
    requires
        p <= pos <= s.len(),
    ensures
        stmt_outcome(r) == binding_at(s@, p as int, pos as int, declares),
{
    let name_start = skip_blanks(s, pos);
    let (name, name_end) = match read_name(s, name_start) {
        Some(found) => found,
        None => {
            return Parsed { value: None, far: missing_at(name_start, Expected::Identifier) };
        },
    };
    let q = skip_blanks(s, name_end);
    if !is_char_at(s, q, '=') {
        return Parsed { value: None, far: missing_at(q, Expected::Symbol('=')) };
    }
    let e = parse_expr(s, q + 1);
    match e.value {
        None => Parsed { value: None, far: e.far },
        Some((x, next)) => {
            let q2 = skip_blanks(s, next);
            if !is_char_at(s, q2, ';') {
                return Parsed {
                    value: None,
                    far: furthest_of(missing_at(q2, Expected::Symbol(';')), e.far),
                };
            }
            if declares {
                Parsed { value: Some((STMT::Declr(p..q2 + 1, name, x), q2 + 1)), far: e.far }
            } else {
                Parsed { value: Some((STMT::Affect(p..q2 + 1, name, x), q2 + 1)), far: e.far }
            }
        },
    }
}

/// `name "(" expression ("," expression)* ")" ";"`, the name at `p`.
fn parse_call_statement(s: &[char], p: usize) -> (r: Parsed<STMT>)
    requires
        p <= s.len(),
    ensures
        stmt_outcome(r) == call_statement_at(s@, p as int),
{
    let (name, next) = match read_name(s, p) {
        Some(found) => found,
        None => {
            return Parsed { value: None, far: None };
        },
    };
    let args = parse_args(s, next);
    match args.value {
        None => Parsed { value: None, far: args.far },
        Some((es, end)) => {
            let q = skip_blanks(s, end);
            if is_char_at(s, q, ';') {
                Parsed { value: Some((STMT::Call(p..q + 1, name, es), q + 1)), far: args.far }
            } else {
                Parsed {
                    value: None,
                    far: furthest_of(missing_at(q, Expected::Symbol(';')), args.far),
                }
            }
        },
    }
}

/// `"(" expression ")"` from `pos` on.
fn parse_condition(s: &[char], pos: usize) -> (r: Parsed<EXPR>)
    requires
        pos <= s.len(),
    ensures
        expr_outcome(r) == condition_at(s@, pos as int),
{
    let p = skip_blanks(s, pos);
    if !is_char_at(s, p, '(') {
        return Parsed { value: None, far: missing_at(p, Expected::Symbol('(')) };
    }
    let e = parse_expr(s, p + 1);
    match e.value {
        None => Parsed { value: None, far: e.far },
        Some((x, next)) => {
            let q = skip_blanks(s, next);
            if is_char_at(s, q, ')') {
                Parsed { value: Some((x, q + 1)), far: e.far }
            } else {
                Parsed {
                    value: None,
                    far: furthest_of(missing_at(q, Expected::Symbol(')')), e.far),
                }
            }
        },
    }
}

/// `statement` at `pos`.
pub fn parse_statement(s: &[char], pos: usize) -> (r: Parsed<STMT>)
    ensures
        stmt_outcome(r) == statement_at(s@, pos as int),
    decreases s.len() - pos, 2nat,
{
    if pos > s.len() {
        return Parsed { value: None, far: None };
    }
    let p = skip_blanks(s, pos);
    let a = parse_declaration(s, p);
    if a.value.is_some() {
        return a;
    }
    let b = parse_while(s, p);
    if b.value.is_some() {
        return Parsed { value: b.value, far: furthest_of(a.far, b.far) };
    }
    let far = furthest_of(a.far, b.far);
    let c = parse_if(s, p);
    if c.value.is_some() {
        return Parsed { value: c.value, far: furthest_of(far, c.far) };
    }
    let far = furthest_of(far, c.far);
    let d = parse_call_statement(s, p);
    if d.value.is_some() {
        return Parsed { value: d.value, far: furthest_of(far, d.far) };
    }
    let far = furthest_of(far, d.far);
    Parsed { value: None, far: furthest_of(missing_at(p, Expected::Statement), far) }
}

/// `"while" "(" expression ")" block`, the `while` at `p`.
fn parse_while(s: &[char], p: usize) -> (r: Parsed<STMT>)
    requires
        p <= s.len(),
    ensures
        stmt_outcome(r) == while_at(s@, p as int),
    decreases s.len() - p, 1nat,
{
    let after = match word_end(s, p, "while") {
        Some(after) => after,
        None => {
            return Parsed { value: None, far: None };
        },
    };
    let c = parse_condition(s, after);
    proof {
        lemma_condition_at(s@, after as int);
    }
    let (cond, next) = match c.value {
        Some(found) => found,
        None => {
            return Parsed { value: None, far: c.far };
        },
    };
    let b = parse_block(s, next);
    let far = furthest_of(b.far, c.far);
    match b.value {
        Some((body, end)) => Parsed { value: Some((STMT::While(p..end, cond, body), end)), far },
        None => Parsed { value: None, far },
    }
}

/// `"if" "(" expression ")" block ("else" block)?`, the `if` at `p`.
fn parse_if(s: &[char], p: usize) -> (r: Parsed<STMT>)
    requires
        p <= s.len(),
    ensures
        stmt_outcome(r) == if_at(s@, p as int),
    decreases s.len() - p, 1nat,
{
    let after = match word_end(s, p, "if") {
        Some(after) => after,
        None => {
            return Parsed { value: None, far: None };
        },
    };
    let c = parse_condition(s, after);
    proof {
        lemma_condition_at(s@, after as int);
    }
    let (cond, next) = match c.value {
        Some(found) => found,
        None => {
            return Parsed { value: None, far: c.far };
        },
    };
    let b = parse_block(s, next);
    proof {
        lemma_block_at(s@, next as int);
    }
    let far = furthest_of(b.far, c.far);
    let (body, mid) = match b.value {
        Some(found) => found,
        None => {
            return Parsed { value: None, far };
        },
    };
    let otherwise = parse_else(s, mid);
    let far = furthest_of(otherwise.far, far);
    match otherwise.value {
        Some((other, end)) => Parsed {
            value: Some((STMT::If(p..end, cond, body, Some(other)), end)),
            far,
        },
        None => Parsed { value: Some((STMT::If(p..mid, cond, body, None), mid)), far },
    }
}

/// `"else" block` from `pos` on.
fn parse_else(s: &[char], pos: usize) -> (r: Parsed<Vec<STMT>>)
    requires
        pos <= s.len(),
    ensures
        stmts_outcome(r) == else_at(s@, pos as int),
    decreases s.len() - pos, 5nat,
{
    let q = skip_blanks(s, pos);
    match word_end(s, q, "else") {
        Some(after) => parse_block(s, after),
        None => Parsed { value: None, far: None },
    }
}

/// `"{" statement* "}" | statement` from `pos` on.
fn parse_block(s: &[char], pos: usize) -> (r: Parsed<Vec<STMT>>)
    requires
        pos <= s.len(),
    ensures
        stmts_outcome(r) == block_at(s@, pos as int),
    decreases s.len() - pos, 4nat,
{
    let p = skip_blanks(s, pos);
    if is_char_at(s, p, '{') {
        let (xs, next, far) = parse_statements(s, p + 1);
        proof {
            lemma_statements_at(s@, p + 1, seq![], None, p + 1);
        }
        let q = skip_blanks(s, next);
        if is_char_at(s, q, '}') {
            Parsed { value: Some((xs, q + 1)), far }
        } else {
            Parsed { value: None, far: furthest_of(missing_at(q, Expected::Symbol('}')), far) }
        }
    } else {
        let single = parse_statement(s, p);
        match single.value {
            Some((x, next)) => {
                let mut xs: Vec<STMT> = Vec::new();
                proof {
                    lemma_models_with_stmt(xs@, x);
                    assert(stmt_models(xs@).push(x@) =~= seq![x@]);
                }
                xs.push(x);
                Parsed { value: Some((xs, next)), far: single.far }
            },
            None => Parsed {
                value: None,
                far: furthest_of(missing_at(p, Expected::Block), single.far),
            },
        }
    }
}

/// `statement*` at `pos`: the statements, the cursor behind them, and the
/// furthest failure met.
fn parse_statements(s: &[char], pos: usize) -> (r: (Vec<STMT>, usize, Option<ParseFailure>))
    requires
        pos <= s.len(),
    ensures
        statements_at(s@, pos as int, seq![], None) == done(
            stmt_models(r.0@),
            r.1 as int,
            far_view(r.2),
        ),
    decreases s.len() - pos, 3nat,
{
    let mut far: Option<ParseFailure> = None;
    let mut xs: Vec<STMT> = Vec::new();
    let mut cur: usize = pos;
    assert(stmt_models(xs@) =~= seq![]);
    loop
        invariant
            pos <= cur <= s.len(),
            statements_at(s@, pos as int, seq![], None) == statements_at(
                s@,
                cur as int,
                stmt_models(xs@),
                far_view(far),
            ),
        decreases s.len() - cur,
    {
        let next = parse_statement(s, cur);
        proof {
            lemma_statement_at(s@, cur as int);
        }
        far = furthest_of(next.far, far);
        match next.value {
            Some((x, after)) => {
                proof {
                    lemma_models_with_stmt(xs@, x);
                }
                xs.push(x);
                cur = after;
            },
            None => {
                return (xs, cur, far);
            },
        }
    }
}

/// What parsing makes of the text `s`: the statements that the grammar's
/// `program` rule reads from `s`; or, where it reads none, the furthest
/// failure, with its position in `s`.
pub open spec fn parse_of(r: Result<Vec<STMT>, ParseError>, s: Seq<char>) -> bool {
    match r {
        Ok(xs) => program_of(s) == Ok::<Seq<StmtView>, Failure>(stmt_models(xs@)),
        Err(e) => program_of(s) == Err::<Seq<StmtView>, Failure>(e@) && position_of(
            s,
            e.offset as int,
        ) == Some(e.position),
    }
}

/// The model of what parsing returned: the models of the statements, or the
/// error.
pub open spec fn parse_model(r: Result<Vec<STMT>, ParseError>) -> Result<Seq<StmtView>, ParseError> {
    match r {
        Ok(xs) => Ok(stmt_models(xs@)),
        Err(e) => Err(e),
    }
}

/// Parsing the same text again gives the same again: the same variants with
/// the same spans, names and values, or the same error.
pub proof fn lemma_parse_again(
    first: Result<Vec<STMT>, ParseError>,
    second: Result<Vec<STMT>, ParseError>,
    s: Seq<char>,
)
    requires
        parse_of(first, s),
        parse_of(second, s),
    ensures
        parse_model(first) == parse_model(second),
{
}

/// The statements of the program `text`, or where and why it is none.
///
/// The tree of a program is well formed: every node's span lies within that
/// of the node it stands in, and the spans of the nodes that stand side by
/// side come one after the other without overlap.
pub fn parse(text: &str) -> (r: Result<Vec<STMT>, ParseError>)
    ensures
        parse_of(r, text@),
        r matches Ok(xs) ==> program_well_formed(stmt_models(xs@)),
        r matches Err(e) ==> e.offset <= text@.len(),
{
    let chars = chars_of(text);
    let s = chars.as_slice();
    let (xs, next, far) = parse_statements(s, 0);
    proof {
        lemma_program_well_formed(s@);
    }
    let end = skip_blanks(s, next);
    if end == s.len() {
        return Ok(xs);
    }
    let failure = further_of(ParseFailure { offset: end, expected: Expected::EndOfInput }, far);
    let position = position_in(text, failure.offset).unwrap();
    Err(ParseError { offset: failure.offset, position, expected: failure.expected })
}

} // verus!
