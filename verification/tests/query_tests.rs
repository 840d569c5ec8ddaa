use leek::ast::{EXPR, STMT};
use leek::parser::parse;
use leek::query::{get_declarations_stmts, get_innermost_exprs, get_innermost_stmts, NodeQuery};
use std::borrow::Cow;

const PROGRAM: &str = "var a = 3;\nvar b = 4;\nif (a) { print(a); }";

#[test]
fn declarations_of_the_program() {
    let tree = parse(PROGRAM).unwrap();
    let found = get_declarations_stmts(&tree);
    assert_eq!(found, vec![(0..10, Cow::Borrowed("a")), (11..21, Cow::Borrowed("b"))]);
}

#[test]
fn declarations_inside_bodies_are_found() {
    let tree = parse("if (a) { var x = 1; } else { while (b) { var y = 2; } }\nf(a);").unwrap();
    let found = get_declarations_stmts(&tree);
    assert_eq!(found, vec![(9..19, Cow::Borrowed("x")), (41..51, Cow::Borrowed("y"))]);
    assert_eq!(tree[1].get_declarations(), vec![]);
}

#[test]
fn declarations_of_a_function_body() {
    let body = vec![STMT::Declr(10..20, "v".to_string(), EXPR::Cst(18..19, 1))];
    let def = STMT::Defun(0..22, "f".to_string(), vec!["p".to_string()], body);
    assert_eq!(def.get_declarations(), vec![(10..20, Cow::Borrowed("v"))]);
    let ret = STMT::Return(0..9, EXPR::Var(7..8, "x".to_string()));
    assert_eq!(ret.get_declarations(), vec![]);
}

#[test]
fn innermost_in_an_initializer_is_the_expression() {
    let tree = parse(PROGRAM).unwrap();
    let q = get_innermost_stmts(&tree, 8);
    assert!(q.is_expression());
    assert_eq!(q, NodeQuery::Expression(&EXPR::Cst(8..9, 3)));
    assert_eq!(q.clone().expression(), Some(&EXPR::Cst(8..9, 3)));
    assert_eq!(q.statement(), None);
}

#[test]
fn innermost_outside_the_initializer_is_the_declaration() {
    let tree = parse(PROGRAM).unwrap();
    let q = get_innermost_stmts(&tree, 4);
    assert!(q.is_statement());
    assert_eq!(q, NodeQuery::Statement(&tree[0]));
    assert_eq!(get_innermost_stmts(&tree, 9), NodeQuery::Statement(&tree[0]));
}

#[test]
fn innermost_between_statements_is_not_found() {
    let tree = parse(PROGRAM).unwrap();
    assert_eq!(get_innermost_stmts(&tree, 10), NodeQuery::NotFound);
    assert!(get_innermost_stmts(&tree, 10).not_found());
    assert_eq!(get_innermost_stmts(&tree, 1000), NodeQuery::NotFound);
    assert_eq!(get_innermost_stmts(&[], 0), NodeQuery::NotFound);
}

#[test]
fn innermost_descends_into_bodies() {
    let tree = parse(PROGRAM).unwrap();
    assert_eq!(get_innermost_stmts(&tree, 26), NodeQuery::Expression(&EXPR::Var(26..27, "a".to_string())));
    assert_eq!(get_innermost_stmts(&tree, 37), NodeQuery::Expression(&EXPR::Var(37..38, "a".to_string())));
    let call = STMT::Call(31..40, "print".to_string(), vec![EXPR::Var(37..38, "a".to_string())]);
    assert_eq!(get_innermost_stmts(&tree, 32), NodeQuery::Statement(&call));
    assert_eq!(get_innermost_stmts(&tree, 23), NodeQuery::Statement(&tree[2]));
    assert_eq!(get_innermost_stmts(&tree, 41), NodeQuery::Statement(&tree[2]));
}

#[test]
fn innermost_in_else_branch() {
    let tree = parse("if (1) { print(a); } else { print(b); }").unwrap();
    assert_eq!(get_innermost_stmts(&tree, 34), NodeQuery::Expression(&EXPR::Var(34..35, "b".to_string())));
    assert_eq!(tree[0].get_innermost(22), NodeQuery::Statement(&tree[0]));
    assert_eq!(tree[0].get_innermost(39), NodeQuery::NotFound);
}

#[test]
fn innermost_of_a_list_is_the_list_between_its_items() {
    let list = EXPR::List(0..6, vec![EXPR::Cst(1..2, 1), EXPR::Cst(4..5, 2)]);
    assert_eq!(list.get_innermost(0), Some(&list));
    assert_eq!(list.get_innermost(1), Some(&EXPR::Cst(1..2, 1)));
    assert_eq!(list.get_innermost(3), Some(&list));
    assert_eq!(list.get_innermost(4), Some(&EXPR::Cst(4..5, 2)));
    assert_eq!(list.get_innermost(6), None);
    let items = vec![EXPR::Cst(1..2, 1), EXPR::Cst(4..5, 2)];
    assert_eq!(get_innermost_exprs(&items, 4), Some(&EXPR::Cst(4..5, 2)));
    assert_eq!(get_innermost_exprs(&items, 3), None);
}

#[test]
fn innermost_of_operators() {
    let a = EXPR::Var(0..1, "a".to_string());
    let b = EXPR::Var(4..5, "b".to_string());
    let sum = EXPR::Infix(0..5, Box::new(a.clone()), leek::ast::Op::Add, Box::new(b.clone()));
    assert_eq!(sum.get_innermost(0), Some(&a));
    assert_eq!(sum.get_innermost(4), Some(&b));
    assert_eq!(sum.get_innermost(2), Some(&sum));
    let not = EXPR::Prefix(0..2, leek::ast::PrefixOp::Not, Box::new(EXPR::Var(1..2, "x".to_string())));
    assert_eq!(not.get_innermost(0), Some(&not));
    assert_eq!(not.get_innermost(1), Some(&EXPR::Var(1..2, "x".to_string())));
}

#[test]
fn ranges_of_nodes() {
    let tree = parse(PROGRAM).unwrap();
    assert_eq!(tree[0].get_range(), 0..10);
    assert_eq!(tree[2].get_range(), 22..42);
    assert_eq!(EXPR::Cst(8..9, 3).get_range(), 8..9);
    assert_eq!(tree[0].clone(), tree[0]);
}
