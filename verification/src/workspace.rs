//! The open documents of a client, by name.

use crate::ast::STMT;
use crate::document::{
    declared, diagnostics_of, node_at_position, symbols_of, tree_of, Document, DocumentSymbol,
};
use crate::error::Error;
use crate::lsp::basic::{Diagnostic, Position};
use crate::query::{NodeQuery, NodeView};
use crate::table::Table;
use crate::text::{edited, TextDocument, TextDocumentContentChangeEvent};
use vstd::prelude::*;

verus! {

/// The open documents, each under the name that the client gave it.
pub struct Workspace {
    data: Table<Document>,
}

impl View for Workspace {
    type V = Map<Seq<char>, Seq<char>>;

    /// The text of each open document, by the document's name.
    closed spec fn view(&self) -> Map<Seq<char>, Seq<char>> {
        self.data@
    }
}

impl Workspace {
    /// The workspace without documents.
    pub fn new() -> (workspace: Self)
        ensures
            workspace@ == Map::<Seq<char>, Seq<char>>::empty(),
    {
        Workspace { data: Table::new() }
    }

    /// Opens the document `url` with the text `data`, in place of the
    /// document that was open under that name.
    pub fn add(&mut self, url: String, data: String)
        ensures
            final(self)@ == old(self)@.insert(url@, data@),
    {
        self.data.insert(url, Document::from_text(data));
    }

    /// Closes the document `url`. Tells whether it was open.
    pub fn close(&mut self, url: &str) -> (was_open: bool)
        ensures
            was_open == old(self)@.contains_key(url@),
            final(self)@ == old(self)@.remove(url@),
    {
        match self.data.remove(url) {
            Some(_) => true,
            None => {
                assert(self@ =~= old(self)@.remove(url@));
                false
            },
        }
    }

    /// The document `url`, if it is open.
    pub fn get(&self, url: &str) -> (r: Option<&Document>)
        ensures
            match r {
                Some(document) => self@.contains_key(url@) && document@ == self@[url@],
                None => !self@.contains_key(url@),
            },
    {
        self.data.get(url)
    }

    /// The text of the document `url`, if it is open.
    pub fn get_doc(&self, url: &str) -> (r: Option<&TextDocument>)
        ensures
            match r {
                Some(doc) => self@.contains_key(url@) && doc@ == self@[url@],
                None => !self@.contains_key(url@),
            },
    {
        match self.data.get(url) {
            Some(document) => Some(document.doc()),
            None => None,
        }
    }

    /// The tree of the document `url`, or why its text has none, if the
    /// document is open.
    pub fn get_ast(&self, url: &str) -> (r: Option<&Result<Vec<STMT>, Error>>)
        ensures
            match r {
                Some(tree) => self@.contains_key(url@) && tree_of(*tree, self@[url@]),
                None => !self@.contains_key(url@),
            },
    {
        match self.data.get(url) {
            Some(document) => Some(document.ast()),
            None => None,
        }
    }

    /// Applies `change` to the document `url`. Where no such document is
    /// open, or a position of the change names no line of its text, or an
    /// offset lies behind the end of the text, nothing changes and the
    /// result is `None`.
    pub fn update_doc(&mut self, url: &str, change: TextDocumentContentChangeEvent) -> (r: Option<
        (),
    >)
        ensures
            match updated(old(self)@, url@, change) {
                Some(text) => r is Some && final(self)@ == old(self)@.insert(url@, text),
                None => r is None && final(self)@ == old(self)@,
            },
    {
        match self.data.remove(url) {
            Some((name, mut document)) => {
                let r = document.update(change);
                self.data.insert(name, document);
                assert(self@ =~= old(self)@.insert(url@, document@));
                r
            },
            None => None,
        }
    }

    /// The innermost node at `position` in the document `url`; none where
    /// no such document is open.
    pub fn node_at(&self, url: &str, position: Position) -> (q: NodeQuery<'_>)
        ensures
            q@ == if self@.contains_key(url@) {
                node_at_position(self@[url@], position)
            } else {
                NodeView::NotFound
            },
    {
        match self.data.get(url) {
            Some(document) => document.node_at(position),
            None => NodeQuery::NotFound,
        }
    }

    /// The symbols that the document `url` declares, if it is open.
    pub fn symbols(&self, url: &str) -> (r: Option<&Vec<DocumentSymbol>>)
        ensures
            match r {
                Some(symbols) => self@.contains_key(url@) && symbols_of(
                    symbols@,
                    self@[url@],
                    declared(self@[url@]),
                ),
                None => !self@.contains_key(url@),
            },
    {
        match self.data.get(url) {
            Some(document) => Some(document.symbols()),
            None => None,
        }
    }

    /// What there is to tell of the document `url`, if it is open.
    pub fn diagnostics(&self, url: &str) -> (r: Option<Vec<Diagnostic>>)
        ensures
            match r {
                Some(ds) => self@.contains_key(url@) && diagnostics_of(ds@, self@[url@]),
                None => !self@.contains_key(url@),
            },
    {
        match self.data.get(url) {
            Some(document) => Some(document.diagnostics()),
            None => None,
        }
    }
}

/// The text that `change` makes of the document `url` of `texts`; none
/// where there is no such document, or the change is not applied to it.
pub open spec fn updated(
    texts: Map<Seq<char>, Seq<char>>,
    url: Seq<char>,
    change: TextDocumentContentChangeEvent,
) -> Option<Seq<char>> {
    if texts.contains_key(url) {
        edited(texts[url], change)
    } else {
        None
    }
}

impl Default for Workspace {
    fn default() -> (workspace: Self)
        ensures
            workspace@ == Map::<Seq<char>, Seq<char>>::empty(),
    {
        Workspace::new()
    }
}

} // verus!
