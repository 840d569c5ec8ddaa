//! The grammar of the language, as functions from a text and a cursor to
//! what is read there. Alternatives are tried in the order given and the
//! first that matches wins. Blanks and comments may stand before every
//! token. A node's span runs from the start of its first token to the end of
//! its last.
//!
//! ```text
//! program     := statement* end-of-text
//! statement   := declaration | while | if-else | call-statement
//! declaration := "var" name "=" expression ";"
//! assignment  := name "=" expression ";"
//! while       := "while" "(" expression ")" block
//! if-else     := "if" "(" expression ")" block ("else" block)?
//! block       := "{" statement* "}" | statement
//! call-statement := name "(" expression ("," expression)* ")" ";"
//! expression  := "!" expression | list | number | call | name | "(" expression ")"
//! list        := "[" expression ("," expression)* "]"
//! call        := name "(" expression ("," expression)* ")"
//! ```
//!
//! Every function also tells the furthest place at which something that it
//! tried did not match, and what was expected there: this is what a failed
//! parse reports. Where several things were expected at that place, it is
//! the token that a rule could not go on without, else what the outermost
//! rule that failed there stands for, else what the first alternative
//! wanted.

use crate::ast::{ExprView, PrefixOp, StmtView};
use crate::lexis::{char_at, name_at, number_at, skip_blank, word_at, lemma_scan_bounds};
use vstd::prelude::*;

verus! {

/// What a parse expected at the place where it failed.
#[derive(Copy, Clone, Debug, PartialEq, Eq, Structural)]
pub enum Expected {
    Identifier,
    Expression,
    Statement,
    Block,
    EndOfInput,
    Symbol(char),
}

/// A place where something did not match, and what was expected there.
pub struct Failure {
    pub offset: int,
    pub expected: Expected,
}

/// What was read at a cursor: the value and the cursor behind it, or none;
/// and the furthest failure met on the way.
pub struct Outcome<T> {
    pub value: Option<(T, int)>,
    pub far: Option<Failure>,
}

impl<T> Outcome<T> {
    /// The value read, where one was.
    pub open spec fn item(self) -> T {
        let (value, _) = self.value->0;
        value
    }

    /// The cursor behind the value read, where one was.
    pub open spec fn next(self) -> int {
        let (_, next) = self.value->0;
        next
    }
}

/// The further of two failures, the first one where they are equally far.
pub open spec fn furthest(a: Option<Failure>, b: Option<Failure>) -> Option<Failure> {
    match (a, b) {
        (Some(x), Some(y)) => if y.offset > x.offset {
            b
        } else {
            a
        },
        (None, _) => b,
        (_, None) => a,
    }
}

/// A failure at `offset`, where `expected` was expected.
pub open spec fn missing(offset: int, expected: Expected) -> Option<Failure> {
    Some(Failure { offset, expected })
}

/// Nothing read, with the furthest failure `far`.
pub open spec fn fail<T>(far: Option<Failure>) -> Outcome<T> {
    Outcome { value: None, far }
}

/// `value` read up to `next`, with the furthest failure `far`.
pub open spec fn done<T>(value: T, next: int, far: Option<Failure>) -> Outcome<T> {
    Outcome { value: Some((value, next)), far }
}

/// `first` where it read something, else `second`; the furthest failure of
/// what was tried.
pub open spec fn either<T>(first: Outcome<T>, second: Outcome<T>) -> Outcome<T> {
    if first.value is Some {
        first
    } else {
        Outcome { value: second.value, far: furthest(first.far, second.far) }
    }
}

/// `o`, with the failure that `expected` was missing at `offset` where `o`
/// read nothing.
pub open spec fn or_missing<T>(o: Outcome<T>, offset: int, expected: Expected) -> Outcome<T> {
    if o.value is Some {
        o
    } else {
        fail(furthest(missing(offset, expected), o.far))
    }
}

/// Whether `o` read something and its cursor moved on from `pos` within the
/// text. Every outcome that reads something does; the test makes plain that
/// the grammar's functions end.
pub open spec fn moved<T>(o: Outcome<T>, s: Seq<char>, pos: int) -> bool {
    o.value matches Some((_, next)) && pos < next <= s.len()
}

/// `expression` at `pos`.
pub open spec fn expr_at(s: Seq<char>, pos: int) -> Outcome<ExprView>
    decreases s.len() - pos, 2nat,
{
    if 0 <= pos <= s.len() {
        proof {
            lemma_scan_bounds(s, pos);
        }
        let p = skip_blank(s, pos);
        or_missing(
            either(
                not_at(s, p),
                either(
                    list_at(s, p),
                    either(
                        number_expr_at(s, p),
                        either(call_at(s, p), either(var_at(s, p), paren_at(s, p))),
                    ),
                ),
            ),
            p,
            Expected::Expression,
        )
    } else {
        fail(None)
    }
}

/// `"!" expression`, the `!` at `p`.
pub open spec fn not_at(s: Seq<char>, p: int) -> Outcome<ExprView>
    decreases s.len() - p, 1nat,
{
    if char_at(s, p, '!') {
        let e = expr_at(s, p + 1);
        match e.value {
            Some((x, next)) => done(
                ExprView::Prefix(p, next, PrefixOp::Not, Box::new(x)),
                next,
                e.far,
            ),
            None => fail(e.far),
        }
    } else {
        fail(None)
    }
}

/// `"(" expression ")"`, the `(` at `p`: the expression between the
/// brackets, with its own span.
pub open spec fn paren_at(s: Seq<char>, p: int) -> Outcome<ExprView>
    decreases s.len() - p, 1nat,
{
    if char_at(s, p, '(') {
        let e = expr_at(s, p + 1);
        if moved(e, s, p) {
            proof {
                lemma_scan_bounds(s, e.next());
            }
            let q = skip_blank(s, e.next());
            if char_at(s, q, ')') {
                done(e.item(), q + 1, e.far)
            } else {
                fail(furthest(missing(q, Expected::Symbol(')')), e.far))
            }
        } else {
            fail(e.far)
        }
    } else {
        fail(None)
    }
}

/// A number at `p`.
pub open spec fn number_expr_at(s: Seq<char>, p: int) -> Outcome<ExprView> {
    match number_at(s, p) {
        Some((value, next)) => done(ExprView::Cst(p, next, value), next, None),
        None => fail(None),
    }
}

/// A name at `p`, as a variable.
pub open spec fn var_at(s: Seq<char>, p: int) -> Outcome<ExprView> {
    match name_at(s, p) {
        Some((name, next)) => done(ExprView::Var(p, next, name), next, None),
        None => fail(None),
    }
}

/// `"[" expression ("," expression)* "]"`, the `[` at `p`.
pub open spec fn list_at(s: Seq<char>, p: int) -> Outcome<ExprView>
    decreases s.len() - p, 1nat,
{
    if char_at(s, p, '[') {
        let items = exprs_at(s, p + 1);
        if moved(items, s, p) {
            proof {
                lemma_scan_bounds(s, items.next());
            }
            let q = skip_blank(s, items.next());
            if char_at(s, q, ']') {
                done(ExprView::List(p, q + 1, items.item()), q + 1, items.far)
            } else {
                fail(furthest(missing(q, Expected::Symbol(']')), items.far))
            }
        } else {
            fail(items.far)
        }
    } else {
        fail(None)
    }
}

/// `"(" expression ("," expression)* ")"`, the `(` expected at `pos` or
/// behind blanks: the arguments of a call.
pub open spec fn args_at(s: Seq<char>, pos: int) -> Outcome<Seq<ExprView>>
    decreases s.len() - pos, 1nat,
{
    if 0 <= pos <= s.len() {
        proof {
            lemma_scan_bounds(s, pos);
        }
        let p = skip_blank(s, pos);
        if char_at(s, p, '(') {
            let items = exprs_at(s, p + 1);
            if moved(items, s, p) {
                proof {
                    lemma_scan_bounds(s, items.next());
                }
                let q = skip_blank(s, items.next());
                if char_at(s, q, ')') {
                    done(items.item(), q + 1, items.far)
                } else {
                    fail(furthest(missing(q, Expected::Symbol(')')), items.far))
                }
            } else {
                fail(items.far)
            }
        } else {
            fail(missing(p, Expected::Symbol('(')))
        }
    } else {
        fail(None)
    }
}

/// `name "(" expression ("," expression)* ")"`, the name at `p`.
pub open spec fn call_at(s: Seq<char>, p: int) -> Outcome<ExprView>
    decreases s.len() - p, 1nat,
{
    match name_at(s, p) {
        Some((name, next)) => if p < next <= s.len() {
            let args = args_at(s, next);
            match args.value {
                Some((es, end)) => done(ExprView::ECall(p, end, name, es), end, args.far),
                None => fail(args.far),
            }
        } else {
            fail(None)
        },
        None => fail(None),
    }
}

/// `expression ("," expression)*` at `pos`.
pub open spec fn exprs_at(s: Seq<char>, pos: int) -> Outcome<Seq<ExprView>>
    decreases s.len() - pos, 4nat,
{
    let first = expr_at(s, pos);
    if moved(first, s, pos) {
        more_exprs_at(s, first.next(), seq![first.item()], first.far)
    } else {
        fail(first.far)
    }
}

/// `("," expression)*` at `pos`, behind the expressions `before`.
pub open spec fn more_exprs_at(
    s: Seq<char>,
    pos: int,
    before: Seq<ExprView>,
    far: Option<Failure>,
) -> Outcome<Seq<ExprView>>
    decreases s.len() - pos, 3nat,
{
    if 0 <= pos <= s.len() {
        proof {
            lemma_scan_bounds(s, pos);
        }
        let q = skip_blank(s, pos);
        if char_at(s, q, ',') {
            let e = expr_at(s, q + 1);
            if moved(e, s, q) {
                more_exprs_at(s, e.next(), before.push(e.item()), furthest(e.far, far))
            } else {
                fail(furthest(e.far, far))
            }
        } else {
            done(before, pos, far)
        }
    } else {
        fail(far)
    }
}

/// `"var" name "=" expression ";"`, the `var` at `p`.
pub open spec fn declaration_at(s: Seq<char>, p: int) -> Outcome<StmtView> {
    if word_at(s, p, "var"@) {
        binding_at(s, p, p + "var"@.len(), true)
    } else {
        fail(None)
    }
}

/// `name "=" expression ";"`, the name at `p`.
pub open spec fn assignment_at(s: Seq<char>, p: int) -> Outcome<StmtView> {
    if name_at(s, p) is Some {
        binding_at(s, p, p, false)
    } else {
        fail(None)
    }
}

/// `name "=" expression ";"` from `pos` on, as the declaration or the
/// assignment that starts at `p`.
pub open spec fn binding_at(s: Seq<char>, p: int, pos: int, declares: bool) -> Outcome<StmtView> {
    let name_start = skip_blank(s, pos);
    match name_at(s, name_start) {
        None => fail(missing(name_start, Expected::Identifier)),
        Some((name, name_end)) => {
            let q = skip_blank(s, name_end);
            if !char_at(s, q, '=') {
                fail(missing(q, Expected::Symbol('=')))
            } else {
                let e = expr_at(s, q + 1);
                match e.value {
                    None => fail(e.far),
                    Some((x, next)) => {
                        let q2 = skip_blank(s, next);
                        if !char_at(s, q2, ';') {
                            fail(furthest(missing(q2, Expected::Symbol(';')), e.far))
                        } else if declares {
                            done(StmtView::Declr(p, q2 + 1, name, x), q2 + 1, e.far)
                        } else {
                            done(StmtView::Affect(p, q2 + 1, name, x), q2 + 1, e.far)
                        }
                    },
                }
            }
        },
    }
}

/// `name "(" expression ("," expression)* ")" ";"`, the name at `p`.
pub open spec fn call_statement_at(s: Seq<char>, p: int) -> Outcome<StmtView> {
    match name_at(s, p) {
        None => fail(None),
        Some((name, next)) => {
            let args = args_at(s, next);
            match args.value {
                None => fail(args.far),
                Some((es, end)) => {
                    let q = skip_blank(s, end);
                    if char_at(s, q, ';') {
                        done(StmtView::Call(p, q + 1, name, es), q + 1, args.far)
                    } else {
                        fail(furthest(missing(q, Expected::Symbol(';')), args.far))
                    }
                },
            }
        },
    }
}

/// `"(" expression ")"` from `pos` on: the condition of a loop or of a
/// conditional.
pub open spec fn condition_at(s: Seq<char>, pos: int) -> Outcome<ExprView> {
    let p = skip_blank(s, pos);
    if !char_at(s, p, '(') {
        fail(missing(p, Expected::Symbol('(')))
    } else {
        let e = expr_at(s, p + 1);
        match e.value {
            None => fail(e.far),
            Some((x, next)) => {
                let q = skip_blank(s, next);
                if char_at(s, q, ')') {
                    done(x, q + 1, e.far)
                } else {
                    fail(furthest(missing(q, Expected::Symbol(')')), e.far))
                }
            },
        }
    }
}

/// `statement` at `pos`.
pub open spec fn statement_at(s: Seq<char>, pos: int) -> Outcome<StmtView>
    decreases s.len() - pos, 2nat,
{
    if 0 <= pos <= s.len() {
        proof {
            lemma_scan_bounds(s, pos);
        }
        let p = skip_blank(s, pos);
        or_missing(
            either(
                declaration_at(s, p),
                either(while_at(s, p), either(if_at(s, p), call_statement_at(s, p))),
            ),
            p,
            Expected::Statement,
        )
    } else {
        fail(None)
    }
}

/// `"while" "(" expression ")" block`, the `while` at `p`.
pub open spec fn while_at(s: Seq<char>, p: int) -> Outcome<StmtView>
    decreases s.len() - p, 1nat,
{
    if word_at(s, p, "while"@) {
        let c = condition_at(s, p + "while"@.len());
        if moved(c, s, p) {
            let b = block_at(s, c.next());
            match b.value {
                Some((body, end)) => done(
                    StmtView::While(p, end, c.item(), body),
                    end,
                    furthest(b.far, c.far),
                ),
                None => fail(furthest(b.far, c.far)),
            }
        } else {
            fail(c.far)
        }
    } else {
        fail(None)
    }
}

/// `"if" "(" expression ")" block ("else" block)?`, the `if` at `p`.
pub open spec fn if_at(s: Seq<char>, p: int) -> Outcome<StmtView>
    decreases s.len() - p, 1nat,
{
    if word_at(s, p, "if"@) {
        let c = condition_at(s, p + "if"@.len());
        if moved(c, s, p) {
            let b = block_at(s, c.next());
            if moved(b, s, p) {
                let otherwise = else_at(s, b.next());
                let far = furthest(otherwise.far, furthest(b.far, c.far));
                match otherwise.value {
                    Some((other, end)) => done(
                        StmtView::If(p, end, c.item(), b.item(), Some(other)),
                        end,
                        far,
                    ),
                    None => done(
                        StmtView::If(p, b.next(), c.item(), b.item(), None),
                        b.next(),
                        far,
                    ),
                }
            } else {
                fail(furthest(b.far, c.far))
            }
        } else {
            fail(c.far)
        }
    } else {
        fail(None)
    }
}

/// `"else" block` from `pos` on.
pub open spec fn else_at(s: Seq<char>, pos: int) -> Outcome<Seq<StmtView>>
    decreases s.len() - pos, 5nat,
{
    if 0 <= pos <= s.len() {
        proof {
            lemma_scan_bounds(s, pos);
        }
        let q = skip_blank(s, pos);
        if word_at(s, q, "else"@) {
            block_at(s, q + "else"@.len())
        } else {
            fail(None)
        }
    } else {
        fail(None)
    }
}

/// `"{" statement* "}" | statement` from `pos` on.
pub open spec fn block_at(s: Seq<char>, pos: int) -> Outcome<Seq<StmtView>>
    decreases s.len() - pos, 4nat,
{
    if 0 <= pos <= s.len() {
        proof {
            lemma_scan_bounds(s, pos);
        }
        let p = skip_blank(s, pos);
        if char_at(s, p, '{') {
            let body = statements_at(s, p + 1, seq![], None);
            if moved(body, s, p) {
                proof {
                    lemma_scan_bounds(s, body.next());
                }
                let q = skip_blank(s, body.next());
                if char_at(s, q, '}') {
                    done(body.item(), q + 1, body.far)
                } else {
                    fail(furthest(missing(q, Expected::Symbol('}')), body.far))
                }
            } else {
                fail(body.far)
            }
        } else {
            let single = statement_at(s, p);
            match single.value {
                Some((x, next)) => done(seq![x], next, single.far),
                None => fail(furthest(missing(p, Expected::Block), single.far)),
            }
        }
    } else {
        fail(None)
    }
}

/// `statement*` at `pos`, behind the statements `before`. Ends before the
/// first place where no statement can be read, and always reads something,
/// be it no statement at all.
pub open spec fn statements_at(
    s: Seq<char>,
    pos: int,
    before: Seq<StmtView>,
    far: Option<Failure>,
) -> Outcome<Seq<StmtView>>
    decreases s.len() - pos, 3nat,
{
    let next = statement_at(s, pos);
    if moved(next, s, pos) {
        statements_at(s, next.next(), before.push(next.item()), furthest(next.far, far))
    } else {
        done(before, pos, furthest(next.far, far))
    }
}

/// `statement* end-of-text`: the statements of the whole text `s`, or the
/// furthest failure where the text is no program.
pub open spec fn program_of(s: Seq<char>) -> Result<Seq<StmtView>, Failure> {
    let body = statements_at(s, 0, seq![], None);
    let end = skip_blank(s, body.next());
    if end == s.len() {
        Ok(body.item())
    } else {
        Err(furthest(missing(end, Expected::EndOfInput), body.far)->0)
    }
}

} // verus!
