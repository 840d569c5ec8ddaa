use leek::ast::{EXPR, STMT};
use leek::grammar::Expected;
use leek::lsp::Position;
use leek::lexis::{chars_of, is_char_at, read_name, read_number, skip_blanks, word_end};
use leek::parser::{
    parse, parse_assignment, parse_declaration, parse_expr, parse_statement, ParseFailure,
};

#[test]
fn test_main() {
    println!("{:?}", parse("if (1) { print(a); } else { print(b); }"));
}

#[test]
fn if_else_tree() {
    let tree = parse("if (1) { print(a); } else { print(b); }").unwrap();
    let expected = vec![STMT::If(
        0..39,
        EXPR::Cst(4..5, 1),
        vec![STMT::Call(9..18, "print".to_string(), vec![EXPR::Var(15..16, "a".to_string())])],
        Some(vec![STMT::Call(
            28..37,
            "print".to_string(),
            vec![EXPR::Var(34..35, "b".to_string())],
        )]),
    )];
    assert_eq!(tree, expected);
}

#[test]
fn two_declarations_and_a_conditional() {
    let tree = parse("var a = 3;\nvar b = 4;\nif (a) { print(a); }").unwrap();
    let expected = vec![
        STMT::Declr(0..10, "a".to_string(), EXPR::Cst(8..9, 3)),
        STMT::Declr(11..21, "b".to_string(), EXPR::Cst(19..20, 4)),
        STMT::If(
            22..42,
            EXPR::Var(26..27, "a".to_string()),
            vec![STMT::Call(31..40, "print".to_string(), vec![EXPR::Var(37..38, "a".to_string())])],
            None,
        ),
    ];
    assert_eq!(tree, expected);
}

#[test]
fn missing_closing_paren_is_reported_at_the_next_token() {
    let err = parse("if (1 print(a); }").unwrap_err();
    assert_eq!(err.offset, 6);
    assert_eq!(err.position, Position { line: 0, character: 6 });
    assert_eq!(err.expected, Expected::Symbol(')'));
}

#[test]
fn parsing_twice_gives_the_same_tree() {
    let text = "var a = [1, 2, f(x)];\nwhile (a) { g(a); }";
    assert_eq!(parse(text), parse(text));
    assert!(parse(text).is_ok());
}

#[test]
fn empty_text_is_the_empty_program() {
    assert_eq!(parse(""), Ok(vec![]));
    assert_eq!(parse("  \n\t "), Ok(vec![]));
    assert_eq!(parse("// nothing here"), Ok(vec![]));
    assert_eq!(parse("/* nothing */ // at all\n"), Ok(vec![]));
}

#[test]
fn comments_stand_between_tokens() {
    let tree = parse("var /* the name */ a = // the value\n 3;").unwrap();
    assert_eq!(tree, vec![STMT::Declr(0..39, "a".to_string(), EXPR::Cst(37..38, 3))]);
}

#[test]
fn unclosed_block_comment_is_no_blank() {
    let err = parse("var a = 3; /* open").unwrap_err();
    assert_eq!(err.offset, 11);
    assert_eq!(err.expected, Expected::EndOfInput);
}

#[test]
fn lists_calls_and_prefix() {
    let tree = parse("var x = [1, !y, f(2, [z])];").unwrap();
    let expected = vec![STMT::Declr(
        0..27,
        "x".to_string(),
        EXPR::List(
            8..26,
            vec![
                EXPR::Cst(9..10, 1),
                EXPR::Prefix(12..14, leek::ast::PrefixOp::Not, Box::new(EXPR::Var(13..14, "y".to_string()))),
                EXPR::ECall(
                    16..25,
                    "f".to_string(),
                    vec![EXPR::Cst(18..19, 2), EXPR::List(21..24, vec![EXPR::Var(22..23, "z".to_string())])],
                ),
            ],
        ),
    )];
    assert_eq!(tree, expected);
}

#[test]
fn brackets_keep_the_inner_span() {
    let tree = parse("var x = ( 7 );").unwrap();
    assert_eq!(tree, vec![STMT::Declr(0..14, "x".to_string(), EXPR::Cst(10..11, 7))]);
}

#[test]
fn while_with_single_statement_body() {
    let tree = parse("while (c) f(c);").unwrap();
    let expected = vec![STMT::While(
        0..15,
        EXPR::Var(7..8, "c".to_string()),
        vec![STMT::Call(10..15, "f".to_string(), vec![EXPR::Var(12..13, "c".to_string())])],
    )];
    assert_eq!(tree, expected);
}

#[test]
fn assignment_is_no_statement() {
    let err = parse("x = 1;").unwrap_err();
    assert_eq!(err.offset, 2);
    assert_eq!(err.expected, Expected::Symbol('('));
}

#[test]
fn missing_expression_is_reported() {
    let err = parse("var a = ;").unwrap_err();
    assert_eq!(err.offset, 8);
    assert_eq!(err.expected, Expected::Expression);
}

#[test]
fn missing_name_is_reported() {
    let err = parse("var 3 = 4;").unwrap_err();
    assert_eq!(err.offset, 4);
    assert_eq!(err.expected, Expected::Identifier);
}

#[test]
fn missing_block_is_reported() {
    let err = parse("if (1) 5").unwrap_err();
    assert_eq!(err.offset, 7);
    assert_eq!(err.expected, Expected::Block);
}

#[test]
fn missing_statement_end_is_reported_on_its_line() {
    let err = parse("var a = 1;\nvar b = 2").unwrap_err();
    assert_eq!(err.offset, 20);
    assert_eq!(err.position, Position { line: 1, character: 9 });
    assert_eq!(err.expected, Expected::Symbol(';'));
}

#[test]
fn stray_closing_brace_is_reported() {
    let err = parse("}").unwrap_err();
    assert_eq!(err.offset, 0);
    assert_eq!(err.expected, Expected::EndOfInput);
}

#[test]
fn unclosed_block_is_reported() {
    let err = parse("if (1) { print(a); ").unwrap_err();
    assert_eq!(err.offset, 19);
    assert_eq!(err.expected, Expected::Symbol('}'));
}

#[test]
fn empty_argument_list_is_refused() {
    let err = parse("f();").unwrap_err();
    assert_eq!(err.offset, 2);
    assert_eq!(err.expected, Expected::Expression);
}

#[test]
fn number_too_large_is_no_number() {
    assert!(parse("var a = 4294967295;").is_ok());
    let err = parse("var a = 4294967296;").unwrap_err();
    assert_eq!(err.offset, 8);
    assert_eq!(err.expected, Expected::Expression);
}

#[test]
fn offsets_count_characters() {
    let tree = parse("/* é */ var a = 1;").unwrap();
    assert_eq!(tree, vec![STMT::Declr(8..18, "a".to_string(), EXPR::Cst(16..17, 1))]);
}

fn chars(text: &str) -> Vec<char> {
    text.chars().collect()
}

fn expr_children(e: &EXPR) -> Vec<std::ops::Range<usize>> {
    match e {
        EXPR::Cst(..) | EXPR::Var(..) => vec![],
        EXPR::List(_, es) | EXPR::ECall(_, _, es) => es.iter().map(|x| x.get_range()).collect(),
        EXPR::Prefix(_, _, a) => vec![a.get_range()],
        EXPR::Infix(_, a, _, b) => vec![a.get_range(), b.get_range()],
    }
}

fn check_spans(parent: std::ops::Range<usize>, children: &[std::ops::Range<usize>]) {
    let mut last = parent.start;
    for child in children {
        assert!(last <= child.start, "{:?} starts before {}", child, last);
        assert!(child.start <= child.end);
        assert!(child.end <= parent.end, "{:?} ends behind {:?}", child, parent);
        last = child.end;
    }
}

fn check_expr(e: &EXPR) {
    check_spans(e.get_range(), &expr_children(e));
    match e {
        EXPR::Cst(..) | EXPR::Var(..) => {}
        EXPR::List(_, es) | EXPR::ECall(_, _, es) => es.iter().for_each(check_expr),
        EXPR::Prefix(_, _, a) => check_expr(a),
        EXPR::Infix(_, a, _, b) => {
            check_expr(a);
            check_expr(b);
        }
    }
}

fn check_stmts(parent: std::ops::Range<usize>, first: Vec<&EXPR>, lists: Vec<&Vec<STMT>>) {
    let mut children: Vec<std::ops::Range<usize>> = first.iter().map(|e| e.get_range()).collect();
    for list in &lists {
        children.extend(list.iter().map(|s| s.get_range()));
    }
    check_spans(parent, &children);
    first.into_iter().for_each(check_expr);
    for list in lists {
        list.iter().for_each(check_stmt);
    }
}

fn check_stmt(s: &STMT) {
    match s {
        STMT::Declr(_, _, e) | STMT::Affect(_, _, e) | STMT::Return(_, e) => {
            check_stmts(s.get_range(), vec![e], vec![])
        }
        STMT::Call(_, _, es) => check_stmts(s.get_range(), es.iter().collect(), vec![]),
        STMT::If(_, c, t, Some(f)) => check_stmts(s.get_range(), vec![c], vec![t, f]),
        STMT::If(_, c, t, None) => check_stmts(s.get_range(), vec![c], vec![t]),
        STMT::While(_, c, b) => check_stmts(s.get_range(), vec![c], vec![b]),
        STMT::Defun(_, _, _, b) => check_stmts(s.get_range(), vec![], vec![b]),
    }
}

#[test]
fn spans_nest_and_do_not_overlap() {
    let text = "var a = [1, [2, f(b, !c)], (d)];\n\
                while (g([a])) { if (a) h(a); else { var z = ((3)); k(z, z); } }\n\
                // the end\nif (!x) { } else y([x]);";
    let tree = parse(text).unwrap();
    assert_eq!(tree.len(), 3);
    let top: Vec<_> = tree.iter().map(|s| s.get_range()).collect();
    check_spans(0..text.chars().count(), &top);
    tree.iter().for_each(check_stmt);
}

#[test]
fn rules_can_be_read_on_their_own() {
    let text = chars("x = [1];");
    let r = parse_assignment(&text, 0);
    assert_eq!(
        r.value,
        Some((STMT::Affect(0..8, "x".to_string(), EXPR::List(4..7, vec![EXPR::Cst(5..6, 1)])), 8))
    );
    assert_eq!(parse_declaration(&text, 0).value, None);
    assert_eq!(parse_declaration(&text, 0).far, None);
    let r = parse_statement(&text, 0);
    assert_eq!(r.value, None);
    assert_eq!(r.far, Some(ParseFailure { offset: 2, expected: Expected::Symbol('(') }));
    let r = parse_statement(&chars(" 5"), 0);
    assert_eq!(r.value, None);
    assert_eq!(r.far, Some(ParseFailure { offset: 1, expected: Expected::Statement }));
    let r = parse_expr(&chars("  f(x) rest"), 0);
    assert_eq!(
        r.value,
        Some((EXPR::ECall(2..6, "f".to_string(), vec![EXPR::Var(4..5, "x".to_string())]), 6))
    );
    let r = parse_expr(&chars("x"), 1);
    assert_eq!(r.value, None);
    assert_eq!(r.far, Some(ParseFailure { offset: 1, expected: Expected::Expression }));
    let r = parse_declaration(&chars("var a = 1"), 0);
    assert_eq!(r.value, None);
    assert_eq!(r.far, Some(ParseFailure { offset: 9, expected: Expected::Symbol(';') }));
}

#[test]
fn words_names_and_numbers() {
    let text = chars_of("  // c\n\t/* d */ var abc 0123 x9");
    assert_eq!(text.len(), 31);
    assert_eq!(skip_blanks(&text, 0), 16);
    assert_eq!(skip_blanks(&text, 16), 16);
    assert_eq!(skip_blanks(&text, 31), 31);
    assert_eq!(word_end(&text, 16, "var"), Some(19));
    assert_eq!(word_end(&text, 16, "while"), None);
    assert_eq!(word_end(&text, 29, "var"), None);
    assert_eq!(read_name(&text, 20), Some(("abc".to_string(), 23)));
    assert_eq!(read_name(&text, 24), None);
    assert_eq!(read_number(&text, 24), Some((123, 28)));
    assert_eq!(read_number(&text, 20), None);
    assert_eq!(read_name(&text, 29), Some(("x".to_string(), 30)));
    assert_eq!(read_number(&text, 30), Some((9, 31)));
    assert_eq!(read_number(&text, 31), None);
    assert!(is_char_at(&text, 16, 'v'));
    assert!(!is_char_at(&text, 31, 'v'));
}

#[test]
fn failure_is_placed_by_characters() {
    let err = parse("// é\nvar a = ;").unwrap_err();
    assert_eq!(err.offset, 13);
    assert_eq!(err.position, Position { line: 1, character: 8 });
    assert_eq!(err.expected, Expected::Expression);
    let err = parse("var a = 1;\n\n  f(1,\n 2").unwrap_err();
    assert_eq!(err.offset, 21);
    assert_eq!(err.position, Position { line: 3, character: 2 });
    assert_eq!(err.expected, Expected::Symbol(')'));
}
