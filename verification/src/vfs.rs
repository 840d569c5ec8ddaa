//! The texts of the files that are open, by name. Reading a file is the
//! caller's part: it hands the text over when it opens a file here.

use crate::table::Table;
use crate::text::{TextDocument, TextDocumentContentChangeEvent};
use crate::workspace::updated;
use vstd::prelude::*;

verus! {

/// The open files, each under its name.
pub struct Vfs {
    opened_documents: Table<TextDocument>,
}

impl View for Vfs {
    type V = Map<Seq<char>, Seq<char>>;

    /// The text of each open file, by the file's name.
    closed spec fn view(&self) -> Map<Seq<char>, Seq<char>> {
        self.opened_documents@
    }
}

impl Vfs {
    /// No open files.
    pub fn new() -> (vfs: Self)
        ensures
            vfs@ == Map::<Seq<char>, Seq<char>>::empty(),
    {
        Vfs { opened_documents: Table::new() }
    }

    /// Whether the file `url` is open.
    pub fn is_open(&self, url: &str) -> (b: bool)
        ensures
            b == self@.contains_key(url@),
    {
        self.opened_documents.contains(url)
    }

    /// The file `url`, if it is open.
    pub fn get(&self, url: &str) -> (r: Option<&TextDocument>)
        ensures
            match r {
                Some(doc) => self@.contains_key(url@) && doc@ == self@[url@],
                None => !self@.contains_key(url@),
            },
    {
        self.opened_documents.get(url)
    }

    /// Opens the file `url` with the text `data` that was read from it. A
    /// file that is open already stays as it is.
    pub fn open_uri(&mut self, url: String, data: String)
        ensures
            final(self)@ == if old(self)@.contains_key(url@) {
                old(self)@
            } else {
                old(self)@.insert(url@, data@)
            },
    {
        if !self.opened_documents.contains(url.as_str()) {
            self.opened_documents.insert(url, TextDocument::from_text(data));
        }
    }

    /// Applies `change` to the file `url`. Where no such file is open, or a
    /// position of the change names no line of its text, or an offset lies
    /// behind the end of the text, nothing changes and the result is `None`.
    pub fn update(&mut self, url: &str, change: TextDocumentContentChangeEvent) -> (r: Option<()>)
        ensures
            match updated(old(self)@, url@, change) {
                Some(text) => r is Some && final(self)@ == old(self)@.insert(url@, text),
                None => r is None && final(self)@ == old(self)@,
            },
    {
        match self.opened_documents.remove(url) {
            Some((name, mut doc)) => {
                let r = doc.update(change);
                self.opened_documents.insert(name, doc);
                assert(self@ =~= old(self)@.insert(url@, doc@));
                r
            },
            None => None,
        }
    }
}

impl Default for Vfs {
    fn default() -> (vfs: Self)
        ensures
            vfs@ == Map::<Seq<char>, Seq<char>>::empty(),
    {
        Vfs::new()
    }
}

} // verus!
