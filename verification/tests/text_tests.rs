use leek::lsp::{Position, Range};
use leek::text::{TextDocument, TextDocumentContentChangeEvent};

fn pos(line: u64, character: u64) -> Position {
    Position { line, character }
}

fn change(range: Option<Range>, text: &str) -> TextDocumentContentChangeEvent {
    TextDocumentContentChangeEvent { range, range_length: None, text: text.to_string() }
}

#[test]
fn offsets_of_positions() {
    let doc = TextDocument::from("ab\ncde\n\nf".to_string());
    assert_eq!(doc.line_count(), 4);
    assert_eq!(doc.lookup_offset(pos(0, 0)), Some(0));
    assert_eq!(doc.lookup_offset(pos(0, 2)), Some(2));
    assert_eq!(doc.lookup_offset(pos(1, 0)), Some(3));
    assert_eq!(doc.lookup_offset(pos(1, 3)), Some(6));
    assert_eq!(doc.lookup_offset(pos(2, 0)), Some(7));
    assert_eq!(doc.lookup_offset(pos(3, 1)), Some(9));
    assert_eq!(doc.lookup_offset(pos(4, 0)), None);
    assert_eq!(doc.lookup_offset(pos(0, 100)), Some(100));
    assert_eq!(doc.lookup_offset(pos(1, u64::MAX)), None);
}

#[test]
fn positions_of_offsets() {
    let doc = TextDocument::from("ab\ncde\n\nf".to_string());
    assert_eq!(doc.lookup_pos(0), Some(pos(0, 0)));
    assert_eq!(doc.lookup_pos(2), Some(pos(0, 2)));
    assert_eq!(doc.lookup_pos(3), Some(pos(1, 0)));
    assert_eq!(doc.lookup_pos(6), Some(pos(1, 3)));
    assert_eq!(doc.lookup_pos(7), Some(pos(2, 0)));
    assert_eq!(doc.lookup_pos(8), Some(pos(3, 0)));
    assert_eq!(doc.lookup_pos(9), Some(pos(3, 1)));
    assert_eq!(doc.lookup_pos(10), None);
}

#[test]
fn positions_round_trip() {
    let doc = TextDocument::from("var a = 3;\n\nvar b = 4;\nif (a) { print(a); }\n".to_string());
    let lengths = [10u64, 0, 10, 20, 0];
    assert_eq!(doc.line_count(), 5);
    for (line, len) in lengths.iter().enumerate() {
        for character in 0..=*len {
            let p = pos(line as u64, character);
            let offset = doc.lookup_offset(p).unwrap();
            assert_eq!(doc.lookup_pos(offset), Some(p));
        }
    }
    for offset in 0..=doc.char_len() {
        let p = doc.lookup_pos(offset).unwrap();
        assert_eq!(doc.lookup_offset(p), Some(offset));
    }
}

#[test]
fn empty_document() {
    let doc = TextDocument::new();
    assert_eq!(doc.as_str(), "");
    assert_eq!(doc.line_count(), 1);
    assert_eq!(doc.lookup_offset(pos(0, 0)), Some(0));
    assert_eq!(doc.lookup_pos(0), Some(pos(0, 0)));
    assert_eq!(doc.lookup_pos(1), None);
    assert_eq!(doc.last_char_pos(), pos(0, 0));
    assert_eq!(TextDocument::default(), doc);
}

#[test]
fn last_character_position() {
    assert_eq!(TextDocument::from("ab\ncde".to_string()).last_char_pos(), pos(1, 2));
    assert_eq!(TextDocument::from("ab\n".to_string()).last_char_pos(), pos(1, 0));
    assert_eq!(TextDocument::from("a".to_string()).last_char_pos(), pos(0, 0));
}

#[test]
fn range_edit_replaces_exactly_the_span() {
    let mut doc = TextDocument::from("var a = 3;\nvar b = 4;\n".to_string());
    let r = doc.update(change(Some(Range { start: pos(0, 8), end: pos(0, 9) }), "30"));
    assert_eq!(r, Some(()));
    assert_eq!(doc.as_str(), "var a = 30;\nvar b = 4;\n");
    assert_eq!(doc.lookup_offset(pos(1, 0)), Some(12));
    assert_eq!(doc.lookup_pos(12), Some(pos(1, 0)));
}

#[test]
fn range_edit_can_insert_and_delete() {
    let mut doc = TextDocument::from("ab\ncd".to_string());
    assert_eq!(doc.update(change(Some(Range { start: pos(1, 0), end: pos(1, 0) }), "x\n")), Some(()));
    assert_eq!(doc.as_str(), "ab\nx\ncd");
    assert_eq!(doc.line_count(), 3);
    assert_eq!(doc.update(change(Some(Range { start: pos(0, 2), end: pos(2, 0) }), "")), Some(()));
    assert_eq!(doc.as_str(), "abcd");
    assert_eq!(doc.line_count(), 1);
    assert_eq!(doc.update(change(Some(Range { start: pos(0, 4), end: pos(0, 4) }), "é!")), Some(()));
    assert_eq!(doc.as_str(), "abcdé!");
    assert_eq!(doc.char_len(), 6);
}

#[test]
fn full_edit_replaces_everything() {
    let mut doc = TextDocument::from("old text".to_string());
    assert_eq!(doc.update(change(None, "new\ntext")), Some(()));
    assert_eq!(doc.as_str(), "new\ntext");
    assert_eq!(doc.line_count(), 2);
}

#[test]
fn edit_outside_the_text_is_dropped() {
    let mut doc = TextDocument::from("ab\ncd".to_string());
    assert_eq!(doc.update(change(Some(Range { start: pos(0, 0), end: pos(2, 0) }), "x")), None);
    assert_eq!(doc.update(change(Some(Range { start: pos(5, 0), end: pos(5, 1) }), "x")), None);
    assert_eq!(doc.update(change(Some(Range { start: pos(1, 0), end: pos(1, 3) }), "x")), None);
    assert_eq!(doc.update(change(Some(Range { start: pos(1, 3), end: pos(1, 0) }), "x")), None);
    assert_eq!(doc.update(change(Some(Range { start: pos(0, 6), end: pos(0, 0) }), "x")), None);
    assert_eq!(doc.update(change(Some(Range { start: pos(1, u64::MAX), end: pos(1, 0) }), "x")), None);
    assert_eq!(doc.as_str(), "ab\ncd");
    assert_eq!(doc.line_count(), 2);
}

#[test]
fn edit_whose_end_lies_before_its_start_is_applied() {
    let mut doc = TextDocument::from("ab\ncd".to_string());
    let r = doc.update(change(Some(Range { start: pos(1, 1), end: pos(0, 1) }), "x"));
    assert_eq!(r, Some(()));
    assert_eq!(doc.as_str(), "ab\ncxb\ncd");
    assert_eq!(doc.line_count(), 3);
    assert_eq!(doc.lookup_offset(pos(2, 0)), Some(7));
    let r = doc.update(change(Some(Range { start: pos(2, 2), end: pos(0, 0) }), ""));
    assert_eq!(r, Some(()));
    assert_eq!(doc.as_str(), "ab\ncxb\ncdab\ncxb\ncd");
    let mut doc = TextDocument::from("abc".to_string());
    assert_eq!(doc.update(change(Some(Range { start: pos(0, 3), end: pos(0, 3) }), "!")), Some(()));
    assert_eq!(doc.as_str(), "abc!");
    assert_eq!(doc.update(change(Some(Range { start: pos(0, 4), end: pos(0, 2) }), "-")), Some(()));
    assert_eq!(doc.as_str(), "abc!-c!");
}

#[test]
fn spans_of_the_text() {
    let doc = TextDocument::from("héllo\nworld".to_string());
    assert_eq!(doc.get(1, 4), Some("éll"));
    assert_eq!(doc.get(0, 11), Some("héllo\nworld"));
    assert_eq!(doc.get(4, 2), None);
    assert_eq!(doc.get(0, 12), None);
    assert_eq!(doc.get_lsprange(Range { start: pos(0, 1), end: pos(1, 2) }), Some("éllo\nwo"));
    assert_eq!(doc.get_lsprange(Range { start: pos(0, 1), end: pos(2, 0) }), None);
    assert_eq!(doc.get_lsprange(Range { start: pos(1, 2), end: pos(0, 1) }), None);
    assert_eq!(doc.get_lsprange(Range { start: pos(1, 0), end: pos(1, 6) }), None);
    assert_eq!(doc.get_lsprange(Range { start: pos(1, 5), end: pos(1, 5) }), Some(""));
    assert_eq!(doc.clone(), doc);
    assert_eq!(&doc[1..4], "éll");
    assert_eq!(&doc[0..11], "héllo\nworld");
    assert_eq!(&doc[6..6], "");
    assert_eq!(doc.as_ref(), "héllo\nworld");
    assert_eq!(doc.len(), 12);
}
