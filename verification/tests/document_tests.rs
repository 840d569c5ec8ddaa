use leek::ast::{EXPR, STMT};
use leek::document::{Document, DocumentSymbol};
use leek::error::Error;
use leek::lsp::{Either, Position, Range, SymbolKind};
use leek::parser::parse;
use leek::query::{get_declarations_stmts, NodeQuery};
use leek::text::TextDocumentContentChangeEvent;
use std::borrow::Cow;

const PROGRAM: &str = "var a = 3;\nvar b = 4;\nif (a) { print(a); }";

fn pos(line: u64, character: u64) -> Position {
    Position { line, character }
}

fn span(a: (u64, u64), b: (u64, u64)) -> Range {
    Range { start: pos(a.0, a.1), end: pos(b.0, b.1) }
}

fn variable(name: &str, range: Range) -> DocumentSymbol {
    DocumentSymbol {
        name: name.to_string(),
        detail: None,
        kind: SymbolKind::Variable,
        deprecated: None,
        range,
        selection_range: range,
    }
}

#[test]
fn document_of_a_program() {
    let document = Document::from(PROGRAM.to_string());
    assert_eq!(document.doc().as_str(), PROGRAM);
    let tree = document.ast().as_ref().unwrap();
    assert_eq!(tree.len(), 3);
    assert_eq!(tree, &parse(PROGRAM).unwrap());
    assert_eq!(
        document.symbols(),
        &vec![variable("a", span((0, 0), (0, 10))), variable("b", span((1, 0), (1, 10)))]
    );
}

#[test]
fn document_of_no_program() {
    let document = Document::from("if (1 print(a); }".to_string());
    assert_eq!(
        document.ast(),
        &Err(Error::ParseError(pos(0, 6), "expected ')'".to_string()))
    );
    assert!(document.symbols().is_empty());
    assert_eq!(document.node_at(pos(0, 4)), NodeQuery::NotFound);
    let ds = document.diagnostics();
    assert_eq!(ds.len(), 1);
    assert_eq!(ds[0].range, span((0, 6), (0, 6)));
    assert_eq!(ds[0].severity, Some(1));
    assert_eq!(ds[0].message, "expected ')'");
}

#[test]
fn edit_shifts_the_ranges_behind_it() {
    let mut document = Document::from(PROGRAM.to_string());
    let before = get_declarations_stmts(document.ast().as_ref().unwrap())
        .into_iter()
        .map(|(r, n)| (r, n.into_owned()))
        .collect::<Vec<_>>();
    let done = document.update(TextDocumentContentChangeEvent {
        range: Some(span((0, 8), (0, 9))),
        range_length: None,
        text: "30".to_string(),
    });
    assert_eq!(done, Some(()));
    assert_eq!(document.doc().as_str(), "var a = 30;\nvar b = 4;\nif (a) { print(a); }");
    let tree = document.ast().as_ref().unwrap();
    let expected = vec![
        STMT::Declr(0..11, "a".to_string(), EXPR::Cst(8..10, 30)),
        STMT::Declr(12..22, "b".to_string(), EXPR::Cst(20..21, 4)),
        STMT::If(
            23..43,
            EXPR::Var(27..28, "a".to_string()),
            vec![STMT::Call(32..41, "print".to_string(), vec![EXPR::Var(38..39, "a".to_string())])],
            None,
        ),
    ];
    assert_eq!(tree, &expected);
    let after = get_declarations_stmts(tree);
    assert_eq!(before, vec![(0..10, "a".to_string()), (11..21, "b".to_string())]);
    assert_eq!(after, vec![(0..11, Cow::Borrowed("a")), (12..22, Cow::Borrowed("b"))]);
    assert_eq!(
        document.symbols(),
        &vec![variable("a", span((0, 0), (0, 11))), variable("b", span((1, 0), (1, 10)))]
    );
}

#[test]
fn edit_outside_the_text_keeps_the_last_good_state() {
    let mut document = Document::from(PROGRAM.to_string());
    let done = document.update(TextDocumentContentChangeEvent {
        range: Some(span((7, 0), (7, 1))),
        range_length: None,
        text: "x".to_string(),
    });
    assert_eq!(done, None);
    assert_eq!(document, Document::from(PROGRAM.to_string()));
    assert_eq!(document.ast().as_ref().unwrap().len(), 3);
    assert_eq!(document.symbols().len(), 2);
}

#[test]
fn whole_text_edit_replaces_tree_and_symbols() {
    let mut document = Document::from(PROGRAM.to_string());
    let done = document.update(TextDocumentContentChangeEvent {
        range: None,
        range_length: None,
        text: "while (x) { var y = x; }".to_string(),
    });
    assert_eq!(done, Some(()));
    assert_eq!(document.symbols(), &vec![variable("y", span((0, 12), (0, 22)))]);
    let broken = document.update(TextDocumentContentChangeEvent {
        range: Some(span((0, 21), (0, 22))),
        range_length: None,
        text: "".to_string(),
    });
    assert_eq!(broken, Some(()));
    assert!(document.ast().is_err());
    assert!(document.symbols().is_empty());
}

#[test]
fn node_at_a_position() {
    let document = Document::from(PROGRAM.to_string());
    assert_eq!(document.node_at(pos(0, 8)), NodeQuery::Expression(&EXPR::Cst(8..9, 3)));
    assert_eq!(document.node_at(pos(1, 8)), NodeQuery::Expression(&EXPR::Cst(19..20, 4)));
    assert!(document.node_at(pos(1, 1)).is_statement());
    assert_eq!(document.node_at(pos(2, 15)), NodeQuery::Expression(&EXPR::Var(37..38, "a".to_string())));
    assert_eq!(document.node_at(pos(3, 0)), NodeQuery::NotFound);
    assert_eq!(document.node_at(pos(2, 500)), NodeQuery::NotFound);
    assert_eq!(document.node_at(pos(2, u64::MAX)), NodeQuery::NotFound);
}

#[test]
fn diagnostics_of_a_program() {
    let document = Document::from(PROGRAM.to_string());
    let ds = document.diagnostics();
    assert_eq!(ds.len(), 2);
    assert_eq!(ds[0].range, span((0, 0), (0, 10)));
    assert_eq!(ds[0].severity, Some(3));
    assert_eq!(ds[0].message, "found variable 'a'");
    assert_eq!(ds[0].code, Either::Left(0));
    assert_eq!(ds[0].source, None);
    assert!(ds[0].related_information.is_empty());
    assert_eq!(ds[1].range, span((1, 0), (1, 10)));
    assert_eq!(ds[1].message, "found variable 'b'");
}

#[test]
fn error_texts() {
    assert_eq!(Error::ParseError(pos(0, 6), "expected ')'".to_string()).describe(), "1:7: expected ')'");
    assert_eq!(
        Error::ParseError(pos(u64::MAX, 99), "m".to_string()).describe(),
        "18446744073709551616:100: m"
    );
    assert_eq!(Error::IoError("gone".to_string()).describe(), "IO error: gone");
    assert_eq!(Error::NonExistantDocument("file:///x".to_string()).describe(), "No such document at file:///x");
    assert_eq!(Error::UndefinedSymbol("x".to_string()).describe(), "Undefined symbol: x");
    assert_eq!(leek::error::decimal_string(0), "0");
    assert_eq!(leek::error::decimal_string(1090), "1090");
    assert_eq!(leek::error::decimal_string(u128::MAX), u128::MAX.to_string());
    assert_eq!(leek::grammar::Expected::Identifier.describe(), "expected identifier");
    assert_eq!(leek::grammar::Expected::Expression.describe(), "expected expression");
    assert_eq!(leek::grammar::Expected::Statement.describe(), "expected statement");
    assert_eq!(leek::grammar::Expected::Block.describe(), "expected block");
    assert_eq!(leek::grammar::Expected::EndOfInput.describe(), "expected end of input");
    assert_eq!(leek::grammar::Expected::Symbol(';').describe(), "expected ';'");
}

#[test]
fn edit_with_its_ends_the_other_way_round_is_applied_and_parsed() {
    let mut document = Document::from("var a = 1;".to_string());
    let done = document.update(TextDocumentContentChangeEvent {
        range: Some(span((0, 10), (0, 0))),
        range_length: None,
        text: "\n".to_string(),
    });
    assert_eq!(done, Some(()));
    assert_eq!(document.doc().as_str(), "var a = 1;\nvar a = 1;");
    assert_eq!(document.ast().as_ref().unwrap().len(), 2);
    assert_eq!(
        document.symbols(),
        &vec![variable("a", span((0, 0), (0, 10))), variable("a", span((1, 0), (1, 10)))]
    );
}

#[test]
fn document_compares_by_its_text() {
    let document = Document::from(PROGRAM.to_string());
    assert!(document == leek::TextDocument::from(PROGRAM.to_string()));
    assert!(document != leek::TextDocument::from("var a = 3;".to_string()));
    assert!(document == Document::from(PROGRAM.to_string()));
    assert!(document != Document::from("".to_string()));
}
