use leek::ast::{EXPR, STMT};
use leek::error::Error;
use leek::located::{line_col_of, position_in, LineCol, StringLocated};
use leek::lsp::{ClientCapabilities, InitalizeParams, Position, Range};
use leek::parser::parse;
use leek::query::NodeQuery;
use leek::server::LeekLSP;
use leek::text::TextDocumentContentChangeEvent;
use leek::vfs::Vfs;
use leek::workspace::Workspace;

const PROGRAM: &str = "var a = 3;\nvar b = 4;\nif (a) { print(a); }";

fn pos(line: u64, character: u64) -> Position {
    Position { line, character }
}

fn replace(start: (u64, u64), end: (u64, u64), text: &str) -> TextDocumentContentChangeEvent {
    TextDocumentContentChangeEvent {
        range: Some(Range { start: pos(start.0, start.1), end: pos(end.0, end.1) }),
        range_length: None,
        text: text.to_string(),
    }
}

#[test]
fn workspace_opens_and_finds_documents() {
    let mut w = Workspace::new();
    assert!(w.get("file:///a").is_none());
    w.add("file:///a".to_string(), PROGRAM.to_string());
    w.add("file:///b".to_string(), "f(".to_string());
    assert_eq!(w.get_doc("file:///a").unwrap().as_str(), PROGRAM);
    assert_eq!(w.get_doc("file:///b").unwrap().as_str(), "f(");
    assert!(w.get_doc("file:///c").is_none());
    assert_eq!(w.get_ast("file:///a").unwrap().as_ref().unwrap().len(), 3);
    assert_eq!(
        w.get_ast("file:///b").unwrap(),
        &Err(Error::ParseError(pos(0, 2), "expected expression".to_string()))
    );
    assert!(w.get_ast("file:///c").is_none());
    assert_eq!(w.symbols("file:///a").unwrap().len(), 2);
    assert!(w.symbols("file:///c").is_none());
    assert_eq!(w.diagnostics("file:///a").unwrap().len(), 2);
    assert_eq!(w.diagnostics("file:///b").unwrap().len(), 1);
    assert!(w.diagnostics("file:///c").is_none());
}

#[test]
fn workspace_reopening_replaces_the_document() {
    let mut w = Workspace::default();
    w.add("u".to_string(), "var a = 1;".to_string());
    w.add("u".to_string(), "var b = 2;".to_string());
    assert_eq!(w.get_doc("u").unwrap().as_str(), "var b = 2;");
    assert_eq!(w.symbols("u").unwrap()[0].name, "b");
    assert!(w.close("u"));
    assert!(w.get("u").is_none());
    assert!(!w.close("u"));
}

#[test]
fn workspace_applies_changes_to_the_named_document() {
    let mut w = Workspace::new();
    w.add("one".to_string(), PROGRAM.to_string());
    w.add("two".to_string(), PROGRAM.to_string());
    assert_eq!(w.update_doc("one", replace((0, 8), (0, 9), "30")), Some(()));
    assert_eq!(w.get_doc("one").unwrap().as_str(), "var a = 30;\nvar b = 4;\nif (a) { print(a); }");
    assert_eq!(w.get_doc("two").unwrap().as_str(), PROGRAM);
    assert_eq!(w.update_doc("one", replace((9, 0), (9, 1), "x")), None);
    assert_eq!(w.get_doc("one").unwrap().as_str(), "var a = 30;\nvar b = 4;\nif (a) { print(a); }");
    assert_eq!(w.update_doc("three", replace((0, 0), (0, 0), "x")), None);
    assert_eq!(w.update_doc("two", replace((0, 10), (0, 9), "")), Some(()));
    assert_eq!(w.get_doc("two").unwrap().as_str(), "var a = 3;;\nvar b = 4;\nif (a) { print(a); }");
    assert_eq!(w.update_doc("two", replace((0, 10), (0, 11), "")), Some(()));
    assert_eq!(w.get_doc("two").unwrap().as_str(), PROGRAM);
    assert!(w.get("three").is_none());
    assert_eq!(w.node_at("one", pos(0, 9)), NodeQuery::Expression(&EXPR::Cst(8..10, 30)));
    assert_eq!(w.node_at("two", pos(0, 9)), NodeQuery::Statement(&parse(PROGRAM).unwrap()[0]));
    assert_eq!(w.node_at("three", pos(0, 0)), NodeQuery::NotFound);
}

#[test]
fn open_files_keep_their_first_text() {
    let mut vfs = Vfs::new();
    assert!(!vfs.is_open("/tmp/x"));
    vfs.open_uri("/tmp/x".to_string(), "first".to_string());
    vfs.open_uri("/tmp/x".to_string(), "second".to_string());
    vfs.open_uri("/tmp/y".to_string(), "other".to_string());
    assert!(vfs.is_open("/tmp/x"));
    assert_eq!(vfs.get("/tmp/x").unwrap().as_str(), "first");
    assert_eq!(vfs.get("/tmp/y").unwrap().as_str(), "other");
    assert!(vfs.get("/tmp/z").is_none());
    assert_eq!(vfs.update("/tmp/x", replace((0, 0), (0, 5), "third")), Some(()));
    assert_eq!(vfs.get("/tmp/x").unwrap().as_str(), "third");
    assert_eq!(vfs.update("/tmp/x", replace((0, 0), (0, 6), "no")), None);
    assert_eq!(vfs.update("/tmp/z", replace((0, 0), (0, 0), "no")), None);
    assert_eq!(vfs.update("/tmp/y", replace((0, 5), (0, 4), "s")), Some(()));
    assert_eq!(vfs.get("/tmp/y").unwrap().as_str(), "othersr");
    assert_eq!(vfs.get("/tmp/x").unwrap().as_str(), "third");
    assert_eq!(Vfs::default().get("/tmp/x"), None);
}

#[test]
fn places_count_from_one() {
    assert_eq!(line_col_of("ab\ncd", 0), Some(LineCol { line: 1, column: 1, offset: 0 }));
    assert_eq!(line_col_of("ab\ncd", 2), Some(LineCol { line: 1, column: 3, offset: 2 }));
    assert_eq!(line_col_of("ab\ncd", 3), Some(LineCol { line: 2, column: 1, offset: 3 }));
    assert_eq!(line_col_of("ab\ncd", 5), Some(LineCol { line: 2, column: 3, offset: 5 }));
    assert_eq!(line_col_of("ab\ncd", 6), None);
    assert_eq!(line_col_of("", 0), Some(LineCol { line: 1, column: 1, offset: 0 }));
    assert_eq!(line_col_of("\n\n", 2), Some(LineCol { line: 3, column: 1, offset: 2 }));
    assert_eq!(line_col_of("é\nçd", 0), Some(LineCol { line: 1, column: 1, offset: 0 }));
    assert_eq!(line_col_of("é\nçd", 1), Some(LineCol { line: 1, column: 2, offset: 1 }));
    assert_eq!(line_col_of("é\nçd", 3), Some(LineCol { line: 2, column: 2, offset: 3 }));
    assert_eq!(line_col_of("é\nçd", 4), Some(LineCol { line: 2, column: 3, offset: 4 }));
    assert_eq!(line_col_of("é\nçd", 5), None);
    let tree = parse(PROGRAM).unwrap();
    assert_eq!(tree[2].line_col(PROGRAM), Some(LineCol { line: 3, column: 1, offset: 22 }));
    assert_eq!(tree[2].line_col("short"), None);
}

#[test]
fn node_queries_map_and_convert() {
    let e = EXPR::Cst(0..1, 7);
    let s = STMT::Return(0..9, EXPR::Cst(7..8, 1));
    let q = NodeQuery::from(Some(&e));
    assert_eq!(q, NodeQuery::Expression(&e));
    assert_eq!(q.map(|x| x.get_range().end, |x| x.get_range().end), Some(1));
    let q = NodeQuery::from(Some(&s));
    assert_eq!(q, NodeQuery::Statement(&s));
    assert_eq!(q.map(|x| x.get_range().end, |x| x.get_range().end), Some(9));
    let none: Option<&EXPR> = None;
    assert_eq!(NodeQuery::from(none), NodeQuery::NotFound);
    let none: Option<&STMT> = None;
    assert_eq!(NodeQuery::from(none).map(|_| 1, |_| 2), None);
}

#[test]
fn server_offers_nothing_yet() {
    let params = InitalizeParams {
        process_id: Some(1),
        root_path: None,
        root_uri: Some("file:///".to_string()),
        initialization_options: None,
        capabilities: ClientCapabilities { workspace: None, text_document: None, experimental: None },
        trace: "off".to_string(),
        workspace_folder: None,
    };
    let r = LeekLSP::initialize(params);
    assert_eq!(r.capabilities, Default::default());
    assert_eq!(r.capabilities.hover_provider, None);
    assert_eq!(r.capabilities.text_document_sync, None);
}

#[test]
fn places_agree_with_positions() {
    let text = "var a = 3;\n\nvar b = 4;\nif (a) { print(a); }\n";
    let doc = leek::TextDocument::from(text.to_string());
    for offset in 0..=text.len() {
        let p = doc.lookup_pos(offset).unwrap();
        assert_eq!(
            line_col_of(text, offset),
            Some(LineCol { line: p.line + 1, column: p.character + 1, offset })
        );
    }
    assert_eq!(line_col_of(text, text.len() + 1), None);
}

#[test]
fn positions_in_a_text() {
    assert_eq!(position_in("ab\ncd", 0), Some(pos(0, 0)));
    assert_eq!(position_in("ab\ncd", 2), Some(pos(0, 2)));
    assert_eq!(position_in("ab\ncd", 3), Some(pos(1, 0)));
    assert_eq!(position_in("ab\ncd", 5), Some(pos(1, 2)));
    assert_eq!(position_in("ab\ncd", 6), None);
    assert_eq!(position_in("é\nçd", 2), Some(pos(1, 0)));
    assert_eq!(position_in("é\nçd", 4), Some(pos(1, 2)));
    assert_eq!(position_in("é\nçd", 5), None);
    assert_eq!(position_in("", 0), Some(pos(0, 0)));
}
