//! An open document: its text, the tree that the text parses to, and the
//! symbols that the tree declares. The three are always those of the same
//! revision: every edit parses the whole text anew.

use crate::ast::{stmt_models, StmtView, STMT};
use crate::error::{expected_text, Error};
use crate::grammar::{program_of, Failure};
use crate::lsp::basic::{Diagnostic, DiagnosticSeverity, Either, Position, Range, SymbolKind};
use crate::parser::parse;
use crate::query::{
    declaration_views, declarations_in, get_declarations_stmts, get_innermost_stmts,
    innermost_in_stmts, innermost_stmt, Declaration, NodeQuery, NodeView,
};
use crate::text::{
    edited, last_position, offset_of, position_of, TextDocument, TextDocumentContentChangeEvent,
};
use std::borrow::Cow;
use vstd::prelude::*;
use vstd::std_specs::cmp::PartialEqSpecImpl;
use vstd::string::StringExecFns;

verus! {

/// A named thing that a document declares, with the place of its
/// declaration.
#[derive(Clone, Debug, PartialEq, Eq)]
pub struct DocumentSymbol {
    pub name: String,
    pub detail: Option<String>,
    pub kind: SymbolKind,
    pub deprecated: Option<bool>,
    pub range: Range,
    pub selection_range: Range,
}

/// The tree of the text `s` as a document holds it: the statements of the
/// program, or the error that tells where and why `s` is none.
pub open spec fn tree_of(tree: Result<Vec<STMT>, Error>, s: Seq<char>) -> bool {
    match program_of(s) {
        Ok(statements) => tree matches Ok(xs) && stmt_models(xs@) == statements,
        Err(failure) => tree matches Err(Error::ParseError(position, message)) && position_of(
            s,
            failure.offset,
        ) == Some(position) && message@ == expected_text(failure.expected),
    }
}

/// The declaration sites of the text `s`: those of its program, and none
/// where `s` is no program.
pub open spec fn declared(s: Seq<char>) -> Seq<Declaration> {
    match program_of(s) {
        Ok(statements) => declarations_in(statements),
        Err(_) => seq![],
    }
}

/// The span from offset `start` to offset `end` of the text `s`, in
/// positions. A start behind the text counts as the first position, an end
/// behind the text as the position of the last character.
pub open spec fn span_range(s: Seq<char>, start: int, end: int) -> Range {
    Range {
        start: match position_of(s, start) {
            Some(p) => p,
            None => Position { line: 0, character: 0 },
        },
        end: match position_of(s, end) {
            Some(p) => p,
            None => last_position(s),
        },
    }
}

/// Whether `symbol` is the symbol of the declaration site `d` in the text
/// `s`: a variable of that name, at that place.
pub open spec fn symbol_of(symbol: DocumentSymbol, s: Seq<char>, d: Declaration) -> bool {
    &&& symbol.name@ == d.name
    &&& symbol.kind == SymbolKind::Variable
    &&& symbol.range == span_range(s, d.start, d.end)
    &&& symbol.selection_range == symbol.range
    &&& symbol.detail is None
    &&& symbol.deprecated is None
}

/// Whether `symbols` are the symbols of the declaration sites `ds` in the
/// text `s`, one for one.
pub open spec fn symbols_of(symbols: Seq<DocumentSymbol>, s: Seq<char>, ds: Seq<Declaration>) -> bool {
    &&& symbols.len() == ds.len()
    &&& forall|i: int| 0 <= i < ds.len() ==> symbol_of(#[trigger] symbols[i], s, ds[i])
}

/// The message of the diagnostic that tells of a declaration of `name`.
pub open spec fn found_text(name: Seq<char>) -> Seq<char> {
    "found variable '"@ + name + "'"@
}

/// Whether `d` is the diagnostic that tells of the declaration site `site`
/// in the text `s`: a piece of information at that place.
pub open spec fn tells_of_declaration(d: Diagnostic, s: Seq<char>, site: Declaration) -> bool {
    &&& d.range == span_range(s, site.start, site.end)
    &&& d.severity == Some(DiagnosticSeverity::Information.code_of())
    &&& d.message@ == found_text(site.name)
    &&& d.code == Either::<i32, String>::Left(0)
    &&& d.source is None
    &&& d.related_information@.len() == 0
}

/// Whether `d` is the diagnostic that tells of the failure `f` to parse the
/// text `s`: an error at the place of the failure.
pub open spec fn tells_of_failure(d: Diagnostic, s: Seq<char>, f: Failure) -> bool {
    &&& position_of(s, f.offset) == Some(d.range.start)
    &&& d.range.end == d.range.start
    &&& d.severity == Some(DiagnosticSeverity::Error.code_of())
    &&& d.message@ == expected_text(f.expected)
    &&& d.code == Either::<i32, String>::Left(0)
    &&& d.source is None
    &&& d.related_information@.len() == 0
}

/// Whether `ds` are the diagnostics of the text `s`: one for each
/// declaration that its program holds, in source order; or, where `s` is no
/// program, one for the failure.
pub open spec fn diagnostics_of(ds: Seq<Diagnostic>, s: Seq<char>) -> bool {
    match program_of(s) {
        Ok(statements) => {
            &&& ds.len() == declarations_in(statements).len()
            &&& forall|i: int|
                0 <= i < ds.len() ==> tells_of_declaration(
                    #[trigger] ds[i],
                    s,
                    declarations_in(statements)[i],
                )
        },
        Err(failure) => ds.len() == 1 && tells_of_failure(ds[0], s, failure),
    }
}

/// The node at `position` in the text `s`: the innermost node of its
/// program at the offset that `position` names; none where `s` is no
/// program or has no such line.
pub open spec fn node_at_position(s: Seq<char>, position: Position) -> NodeView {
    match (program_of(s), offset_of(s, position)) {
        (Ok(statements), Some(offset)) => innermost_in_stmts(statements, offset),
        _ => NodeView::NotFound,
    }
}

/// The span from offset `start` to offset `end` of `doc`, in positions.
fn range_of_span(doc: &TextDocument, start: usize, end: usize) -> (range: Range)
    ensures
        range == span_range(doc@, start as int, end as int),
{
    Range {
        start: match doc.lookup_pos(start) {
            Some(p) => p,
            None => Position { line: 0, character: 0 },
        },
        end: match doc.lookup_pos(end) {
            Some(p) => p,
            None => doc.last_char_pos(),
        },
    }
}

/// The tree of `text`, a failure to parse told as an error of the library.
fn parse_text(text: &str) -> (tree: Result<Vec<STMT>, Error>)
    ensures
        tree_of(tree, text@),
{
    match parse(text) {
        Ok(statements) => Ok(statements),
        Err(e) => Err(Error::ParseError(e.position, e.expected.describe())),
    }
}

/// The symbols of the declarations of `ast` in `doc`.
fn make_symbols(doc: &TextDocument, ast: &[STMT]) -> (symbols: Vec<DocumentSymbol>)
    ensures
        symbols_of(symbols@, doc@, declarations_in(stmt_models(ast@))),
{
    let found = get_declarations_stmts(ast);
    let ghost sites = declarations_in(stmt_models(ast@));
    let mut symbols: Vec<DocumentSymbol> = Vec::new();
    let mut i: usize = 0;
    while i < found.len()
        invariant
            i <= found.len(),
            declaration_views(found@) == sites,
            symbols@.len() == i,
            forall|j: int| 0 <= j < i ==> symbol_of(#[trigger] symbols@[j], doc@, sites[j]),
        decreases found.len() - i,
    {
        let range = range_of_span(doc, found[i].0.start, found[i].0.end);
        let name = match &found[i].1 {
            Cow::Borrowed(name) => String::from_str(name),
            Cow::Owned(name) => name.clone(),
        };
        assert(declaration_views(found@)[i as int].name == name@);
        symbols.push(
            DocumentSymbol {
                name,
                detail: None,
                kind: SymbolKind::Variable,
                deprecated: None,
                range,
                selection_range: range,
            },
        );
        i += 1;
    }
    symbols
}

/// An open document.
#[derive(Debug)]
pub struct Document {
    doc: TextDocument,
    ast: Result<Vec<STMT>, Error>,
    symbols: Vec<DocumentSymbol>,
}

impl View for Document {
    type V = Seq<char>;

    closed spec fn view(&self) -> Seq<char> {
        self.doc@
    }
}

impl Document {
    #[verifier::type_invariant]
    spec fn of_one_revision(&self) -> bool {
        &&& tree_of(self.ast, self.doc@)
        &&& symbols_of(self.symbols@, self.doc@, declared(self.doc@))
    }

    /// The document of the text `data`.
    pub fn from_text(data: String) -> (document: Self)
        ensures
            document@ == data@,
    {
        let ast = parse_text(data.as_str());
        let doc = TextDocument::from_text(data);
        let symbols = match &ast {
            Ok(statements) => make_symbols(&doc, statements.as_slice()),
            Err(_) => Vec::new(),
        };
        Document { doc, ast, symbols }
    }

    /// The text and its line table.
    pub fn doc(&self) -> (doc: &TextDocument)
        ensures
            doc@ == self@,
    {
        &self.doc
    }

    /// The tree of the text, or why the text has none.
    pub fn ast(&self) -> (tree: &Result<Vec<STMT>, Error>)
        ensures
            tree_of(*tree, self@),
    {
        proof {
            use_type_invariant(self);
        }
        &self.ast
    }

    /// The symbols of the declarations of the text; none where the text is
    /// no program.
    pub fn symbols(&self) -> (symbols: &Vec<DocumentSymbol>)
        ensures
            symbols_of(symbols@, self@, declared(self@)),
    {
        proof {
            use_type_invariant(self);
        }
        &self.symbols
    }

    /// Applies `change` to the text, then parses the new text and collects
    /// its symbols. A change of which a position names no line, or an offset
    /// lies behind the end of the text, is not applied: the document stays
    /// as it is and the result is `None`.
    pub fn update(&mut self, change: TextDocumentContentChangeEvent) -> (r: Option<()>)
        ensures
            match edited(old(self)@, change) {
                Some(text) => r is Some && final(self)@ == text,
                None => r is None && final(self)@ == old(self)@,
            },
    {
        proof {
            use_type_invariant(&*self);
        }
        let mut doc = self.doc.clone();
        match doc.update(change) {
            None => None,
            Some(_) => {
                let ast = parse_text(doc.as_str());
                let symbols = match &ast {
                    Ok(statements) => make_symbols(&doc, statements.as_slice()),
                    Err(_) => Vec::new(),
                };
                *self = Document { doc, ast, symbols };
                Some(())
            },
        }
    }

    /// The innermost node at `position`; none where the text is no program,
    /// and where `position` names no line of the text.
    pub fn node_at(&self, position: Position) -> (q: NodeQuery<'_>)
        ensures
            q@ == node_at_position(self@, position),
    {
        proof {
            use_type_invariant(self);
        }
        match &self.ast {
            Ok(statements) => match self.doc.lookup_offset(position) {
                Some(offset) => get_innermost_stmts(statements.as_slice(), offset),
                None => {
                    proof {
                        match offset_of(self.doc@, position) {
                            Some(offset) => {
                                lemma_no_node_behind(statements@, offset);
                            },
                            None => {},
                        }
                    }
                    NodeQuery::NotFound
                },
            },
            Err(_) => NodeQuery::NotFound,
        }
    }

    /// What there is to tell of the document: each declaration found, as a
    /// piece of information; or, where the text is no program, the failure
    /// to parse it, as an error.
    pub fn diagnostics(&self) -> (ds: Vec<Diagnostic>)
        ensures
            diagnostics_of(ds@, self@),
    {
        proof {
            use_type_invariant(self);
        }
        let mut ds: Vec<Diagnostic> = Vec::new();
        match &self.ast {
            Ok(_) => {
                let mut i: usize = 0;
                while i < self.symbols.len()
                    invariant
                        i <= self.symbols.len(),
                        symbols_of(self.symbols@, self.doc@, declared(self.doc@)),
                        ds@.len() == i,
                        forall|j: int|
                            0 <= j < i ==> tells_of_declaration(
                                #[trigger] ds@[j],
                                self.doc@,
                                declared(self.doc@)[j],
                            ),
                    decreases self.symbols.len() - i,
                {
                    let symbol = &self.symbols[i];
                    let mut message = String::from_str("found variable '");
                    message.append(symbol.name.as_str());
                    message.append("'");
                    ds.push(
                        Diagnostic {
                            range: symbol.range,
                            severity: Some(DiagnosticSeverity::Information.code()),
                            code: Either::Left(0),
                            source: None,
                            message,
                            related_information: Vec::new(),
                        },
                    );
                    i += 1;
                }
            },
            Err(Error::ParseError(position, message)) => {
                ds.push(
                    Diagnostic {
                        range: Range { start: *position, end: *position },
                        severity: Some(DiagnosticSeverity::Error.code()),
                        code: Either::Left(0),
                        source: None,
                        message: message.clone(),
                        related_information: Vec::new(),
                    },
                );
            },
            Err(_) => {},
        }
        ds
    }
}

/// No node lies at an offset that is more than any offset of a tree can be.
proof fn lemma_no_node_behind(xs: Seq<STMT>, offset: int)
    requires
        offset > usize::MAX,
    ensures
        innermost_in_stmts(stmt_models(xs), offset) is NotFound,
    decreases xs.len(),
{
    let statements = stmt_models(xs);
    if xs.len() > 0 {
        assert(statements[0] == xs[0]@);
        assert(xs[0]@.end() <= usize::MAX) by {
            match xs[0] {
                STMT::Declr(r, _, _) => {},
                STMT::Affect(r, _, _) => {},
                STMT::If(r, _, _, _) => {},
                STMT::While(r, _, _) => {},
                STMT::Defun(r, _, _, _) => {},
                STMT::Call(r, _, _) => {},
                STMT::Return(r, _) => {},
            }
        }
        assert(stmt_models(xs.drop_first()) =~= statements.drop_first());
        lemma_no_node_behind(xs.drop_first(), offset);
        assert(!statements[0].span().contains(offset));
        assert(innermost_stmt(statements[0], offset) is NotFound);
    } else {
        assert(statements.len() == 0);
    }
}

impl From<String> for Document {
    fn from(data: String) -> (document: Self)
        ensures
            document@ == data@,
    {
        Document::from_text(data)
    }
}

impl vstd::std_specs::convert::FromSpecImpl<String> for Document {
    open spec fn obeys_from_spec() -> bool {
        false
    }

    open spec fn from_spec(data: String) -> Self {
        arbitrary()
    }
}

impl PartialEq for Document {
    fn eq(&self, other: &Self) -> (equal: bool) {
        self.doc == other.doc
    }
}

impl PartialEqSpecImpl for Document {
    open spec fn obeys_eq_spec() -> bool {
        true
    }

    open spec fn eq_spec(&self, other: &Self) -> bool {
        self@ == other@
    }
}

impl Eq for Document {

}

impl PartialEq<TextDocument> for Document {
    fn eq(&self, other: &TextDocument) -> (equal: bool) {
        self.doc == *other
    }
}

impl PartialEqSpecImpl<TextDocument> for Document {
    open spec fn obeys_eq_spec() -> bool {
        true
    }

    open spec fn eq_spec(&self, other: &TextDocument) -> bool {
        self@ == other@
    }
}

} // verus!
