use vstd::prelude::*;

verus! {

/// The identifier of a document, as the client names it.
pub type DocumentUri = String;

/// The name of a kind of code action.
pub type CodeActionKind = String;

/// A value of one of two types.
#[derive(Clone, Debug, PartialEq, Eq)]
pub enum Either<L, R> {
    Left(L),
    Right(R),
}

/// A place in a document: a line and a character within that line, both
/// counted from zero, the character in source characters.
#[derive(Copy, Clone, Debug, Default, PartialEq, Eq, Structural, PartialOrd, Ord)]
pub struct Position {
    pub line: u64,
    pub character: u64,
}

/// A half-open span between two positions of one document.
#[derive(Copy, Clone, Debug, Default, PartialEq, Eq, Structural, PartialOrd, Ord)]
pub struct Range {
    pub start: Position,
    pub end: Position,
}

/// A span inside a named document.
#[derive(Clone, Debug, Default, PartialEq, Eq)]
pub struct Location {
    pub uri: DocumentUri,
    pub range: Range,
}

/// A link from a span in one document to a span in another.
#[derive(Clone, Debug, Default, PartialEq, Eq)]
pub struct LocationLink {
    pub origin_selection_range: Range,
    pub target_uri: DocumentUri,
    pub target_range: Range,
    pub target_selection_rage: Range,
}

/// A finding about a span of a document, such as a syntax error.
#[derive(Clone, Debug, PartialEq, Eq)]
pub struct Diagnostic {
    pub range: Range,
    pub severity: Option<u8>,
    pub code: Either<i32, String>,
    pub source: Option<String>,
    pub message: String,
    pub related_information: Vec<DiagnosticRelatedInformation>,
}

/// A further place that a diagnostic refers to, with its own message.
#[derive(Clone, Debug, Default, PartialEq, Eq)]
pub struct DiagnosticRelatedInformation {
    pub location: Location,
    pub message: String,
}

/// The replacement of a span by new text.
#[derive(Clone, Debug, Default, PartialEq, Eq)]
pub struct TextEdit {
    pub range: Range,
    pub new_text: String,
}

/// A list of edits to one version of one document.
#[derive(Clone, Debug, Default, PartialEq, Eq)]
pub struct TextDocumentEdit {
    pub text_document: VersionedTextDocumentIdentifier,
    pub edits: Vec<TextEdit>,
}

/// Names a document.
#[derive(Clone, Debug, Default, PartialEq, Eq)]
pub struct TextDocumentIdentifier {
    pub uri: DocumentUri,
}

/// Names one version of a document.
#[derive(Clone, Debug, Default, PartialEq, Eq)]
pub struct VersionedTextDocumentIdentifier {
    pub text_document_identifier: TextDocumentIdentifier,
    pub version: Option<u32>,
}

/// Options for creating a file.
#[derive(Copy, Clone, Debug, Default, PartialEq, Eq)]
pub struct CreateFileOptions {
    pub overwrite: Option<bool>,
    pub ignore_if_exists: bool,
}

/// Options for renaming a file.
#[derive(Copy, Clone, Debug, Default, PartialEq, Eq)]
pub struct RenameFileOptions {
    pub overwrite: Option<bool>,
    pub ignore_if_exists: Option<bool>,
}

/// Options for deleting a file.
#[derive(Copy, Clone, Debug, Default, PartialEq, Eq)]
pub struct DeleteFileOptions {
    pub recursive: Option<bool>,
}

/// A change to a file as a whole.
#[allow(inconsistent_fields)]
#[derive(Clone, Debug, PartialEq, Eq)]
pub enum ResourceOperation {
    Create {
        uri: DocumentUri,
        options: Option<CreateFileOptions>,
    },
    Rename {
        old_uri: DocumentUri,
        new_uri: DocumentUri,
        options: Option<RenameFileOptions>,
    },
}

/// A folder of the workspace.
#[derive(Clone, Debug, PartialEq, Eq)]
pub struct WorkspaceFolder {
    pub uri: DocumentUri,
    pub name: String,
}

/// Selects documents by language, scheme and path.
#[derive(Clone, Debug, PartialEq, Eq)]
pub struct DocumentFilter {
    pub language: Option<String>,
    pub scheme: Option<String>,
    pub pattern: Option<String>,
}

/// The set of values of some kind that one side admits.
#[derive(Clone, Debug, Default, PartialEq, Eq)]
pub struct ValueSet<T> {
    pub value_set: T,
}

/// The form of a text shown to the user.
#[derive(Copy, Clone, Debug, PartialEq, Eq, Structural, PartialOrd, Ord)]
pub enum MarkupKind {
    PlainText,
    Markdown,
}

/// The kind of thing that a completion item stands for.
#[derive(Copy, Clone, Debug, PartialEq, Eq, Structural, PartialOrd, Ord)]
pub enum CompletionItemKind {
    Text,
    Method,
    Function,
    Constructor,
    Field,
    Variable,
    Class,
    Interface,
    Module,
    Property,
    Unit,
    Value,
    Enum,
    Keyword,
    Snippet,
    Color,
    File,
    Reference,
    Folder,
    EnumMember,
    Constant,
    Struct,
    Event,
    Operator,
    TypeParameter,
}

/// The kind of thing that a symbol names.
#[derive(Copy, Clone, Debug, PartialEq, Eq, Structural, PartialOrd, Ord)]
pub enum SymbolKind {
    File,
    Module,
    Namespace,
    Package,
    Class,
    Method,
    Property,
    Field,
    Constructor,
    Enum,
    Interface,
    Function,
    Variable,
    Constant,
    String,
    Number,
    Boolean,
    Array,
    Object,
    Key,
    Null,
    EnumMember,
    Struct,
    Event,
    Operator,
    TypeParameter,
}

/// How the server wants to be told of changes to a document.
#[derive(Copy, Clone, Debug, PartialEq, Eq, Structural, PartialOrd, Ord)]
pub enum TextDocumentSyncKind {
    Off,
    Full,
    Incremental,
}

/// How grave a diagnostic is.
#[derive(Copy, Clone, Debug, PartialEq, Eq, Structural, PartialOrd, Ord)]
pub enum DiagnosticSeverity {
    Error,
    Warning,
    Information,
    Hint,
}

impl CompletionItemKind {
    /// The number that stands for this kind of completion item on the wire.
    pub open spec fn code_of(self) -> u8 {
        match self {
            CompletionItemKind::Text => 1,
            CompletionItemKind::Method => 2,
            CompletionItemKind::Function => 3,
            CompletionItemKind::Constructor => 4,
            CompletionItemKind::Field => 5,
            CompletionItemKind::Variable => 6,
            CompletionItemKind::Class => 7,
            CompletionItemKind::Interface => 8,
            CompletionItemKind::Module => 9,
            CompletionItemKind::Property => 10,
            CompletionItemKind::Unit => 11,
            CompletionItemKind::Value => 12,
            CompletionItemKind::Enum => 13,
            CompletionItemKind::Keyword => 14,
            CompletionItemKind::Snippet => 15,
            CompletionItemKind::Color => 16,
            CompletionItemKind::File => 17,
            CompletionItemKind::Reference => 18,
            CompletionItemKind::Folder => 19,
            CompletionItemKind::EnumMember => 20,
            CompletionItemKind::Constant => 21,
            CompletionItemKind::Struct => 22,
            CompletionItemKind::Event => 23,
            CompletionItemKind::Operator => 24,
            CompletionItemKind::TypeParameter => 25,
        }
    }

    /// The number that stands for this kind of completion item on the wire.
    pub fn code(self) -> (code: u8)
        ensures
            code == self.code_of(),
    {
        match self {
            CompletionItemKind::Text => 1,
            CompletionItemKind::Method => 2,
            CompletionItemKind::Function => 3,
            CompletionItemKind::Constructor => 4,
            CompletionItemKind::Field => 5,
            CompletionItemKind::Variable => 6,
            CompletionItemKind::Class => 7,
            CompletionItemKind::Interface => 8,
            CompletionItemKind::Module => 9,
            CompletionItemKind::Property => 10,
            CompletionItemKind::Unit => 11,
            CompletionItemKind::Value => 12,
            CompletionItemKind::Enum => 13,
            CompletionItemKind::Keyword => 14,
            CompletionItemKind::Snippet => 15,
            CompletionItemKind::Color => 16,
            CompletionItemKind::File => 17,
            CompletionItemKind::Reference => 18,
            CompletionItemKind::Folder => 19,
            CompletionItemKind::EnumMember => 20,
            CompletionItemKind::Constant => 21,
            CompletionItemKind::Struct => 22,
            CompletionItemKind::Event => 23,
            CompletionItemKind::Operator => 24,
            CompletionItemKind::TypeParameter => 25,
        }
    }

    /// The kind of completion item that `code` stands for, if it stands for one.
    pub fn from_code(code: u8) -> (r: Option<Self>)
        ensures
            match r {
                Some(kind) => kind.code_of() == code,
                None => forall|kind: Self| kind.code_of() != code,
            },
    {
        match code {
            1 => Some(CompletionItemKind::Text),
            2 => Some(CompletionItemKind::Method),
            3 => Some(CompletionItemKind::Function),
            4 => Some(CompletionItemKind::Constructor),
            5 => Some(CompletionItemKind::Field),
            6 => Some(CompletionItemKind::Variable),
            7 => Some(CompletionItemKind::Class),
            8 => Some(CompletionItemKind::Interface),
            9 => Some(CompletionItemKind::Module),
            10 => Some(CompletionItemKind::Property),
            11 => Some(CompletionItemKind::Unit),
            12 => Some(CompletionItemKind::Value),
            13 => Some(CompletionItemKind::Enum),
            14 => Some(CompletionItemKind::Keyword),
            15 => Some(CompletionItemKind::Snippet),
            16 => Some(CompletionItemKind::Color),
            17 => Some(CompletionItemKind::File),
            18 => Some(CompletionItemKind::Reference),
            19 => Some(CompletionItemKind::Folder),
            20 => Some(CompletionItemKind::EnumMember),
            21 => Some(CompletionItemKind::Constant),
            22 => Some(CompletionItemKind::Struct),
            23 => Some(CompletionItemKind::Event),
            24 => Some(CompletionItemKind::Operator),
            25 => Some(CompletionItemKind::TypeParameter),
            _ => None,
        }
    }
}

impl SymbolKind {
    /// The number that stands for this kind of symbol on the wire.
    pub open spec fn code_of(self) -> u8 {
        match self {
            SymbolKind::File => 1,
            SymbolKind::Module => 2,
            SymbolKind::Namespace => 3,
            SymbolKind::Package => 4,
            SymbolKind::Class => 5,
            SymbolKind::Method => 6,
            SymbolKind::Property => 7,
            SymbolKind::Field => 8,
            SymbolKind::Constructor => 9,
            SymbolKind::Enum => 10,
            SymbolKind::Interface => 11,
            SymbolKind::Function => 12,
            SymbolKind::Variable => 13,
            SymbolKind::Constant => 14,
            SymbolKind::String => 15,
            SymbolKind::Number => 16,
            SymbolKind::Boolean => 17,
            SymbolKind::Array => 18,
            SymbolKind::Object => 19,
            SymbolKind::Key => 20,
            SymbolKind::Null => 21,
            SymbolKind::EnumMember => 22,
            SymbolKind::Struct => 23,
            SymbolKind::Event => 24,
            SymbolKind::Operator => 25,
            SymbolKind::TypeParameter => 26,
        }
    }

    /// The number that stands for this kind of symbol on the wire.
    pub fn code(self) -> (code: u8)
        ensures
            code == self.code_of(),
    {
        match self {
            SymbolKind::File => 1,
            SymbolKind::Module => 2,
            SymbolKind::Namespace => 3,
            SymbolKind::Package => 4,
            SymbolKind::Class => 5,
            SymbolKind::Method => 6,
            SymbolKind::Property => 7,
            SymbolKind::Field => 8,
            SymbolKind::Constructor => 9,
            SymbolKind::Enum => 10,
            SymbolKind::Interface => 11,
            SymbolKind::Function => 12,
            SymbolKind::Variable => 13,
            SymbolKind::Constant => 14,
            SymbolKind::String => 15,
            SymbolKind::Number => 16,
            SymbolKind::Boolean => 17,
            SymbolKind::Array => 18,
            SymbolKind::Object => 19,
            SymbolKind::Key => 20,
            SymbolKind::Null => 21,
            SymbolKind::EnumMember => 22,
            SymbolKind::Struct => 23,
            SymbolKind::Event => 24,
            SymbolKind::Operator => 25,
            SymbolKind::TypeParameter => 26,
        }
    }

    /// The kind of symbol that `code` stands for, if it stands for one.
    pub fn from_code(code: u8) -> (r: Option<Self>)
        ensures
            match r {
                Some(kind) => kind.code_of() == code,
                None => forall|kind: Self| kind.code_of() != code,
            },
    {
        match code {
            1 => Some(SymbolKind::File),
            2 => Some(SymbolKind::Module),
            3 => Some(SymbolKind::Namespace),
            4 => Some(SymbolKind::Package),
            5 => Some(SymbolKind::Class),
            6 => Some(SymbolKind::Method),
            7 => Some(SymbolKind::Property),
            8 => Some(SymbolKind::Field),
            9 => Some(SymbolKind::Constructor),
            10 => Some(SymbolKind::Enum),
            11 => Some(SymbolKind::Interface),
            12 => Some(SymbolKind::Function),
            13 => Some(SymbolKind::Variable),
            14 => Some(SymbolKind::Constant),
            15 => Some(SymbolKind::String),
            16 => Some(SymbolKind::Number),
            17 => Some(SymbolKind::Boolean),
            18 => Some(SymbolKind::Array),
            19 => Some(SymbolKind::Object),
            20 => Some(SymbolKind::Key),
            21 => Some(SymbolKind::Null),
            22 => Some(SymbolKind::EnumMember),
            23 => Some(SymbolKind::Struct),
            24 => Some(SymbolKind::Event),
            25 => Some(SymbolKind::Operator),
            26 => Some(SymbolKind::TypeParameter),
            _ => None,
        }
    }
}

impl TextDocumentSyncKind {
    /// The number that stands for this way of telling changes on the wire.
    pub open spec fn code_of(self) -> u8 {
        match self {
            TextDocumentSyncKind::Off => 0,
            TextDocumentSyncKind::Full => 1,
            TextDocumentSyncKind::Incremental => 2,
        }
    }

    /// The number that stands for this way of telling changes on the wire.
    pub fn code(self) -> (code: u8)
        ensures
            code == self.code_of(),
    {
        match self {
            TextDocumentSyncKind::Off => 0,
            TextDocumentSyncKind::Full => 1,
            TextDocumentSyncKind::Incremental => 2,
        }
    }

    /// The way of telling changes that `code` stands for, if it stands for one.
    pub fn from_code(code: u8) -> (r: Option<Self>)
        ensures
            match r {
                Some(kind) => kind.code_of() == code,
                None => forall|kind: Self| kind.code_of() != code,
            },
    {
        match code {
            0 => Some(TextDocumentSyncKind::Off),
            1 => Some(TextDocumentSyncKind::Full),
            2 => Some(TextDocumentSyncKind::Incremental),
            _ => None,
        }
    }
}

impl DiagnosticSeverity {
    /// The number that stands for this severity on the wire.
    pub open spec fn code_of(self) -> u8 {
        match self {
            DiagnosticSeverity::Error => 1,
            DiagnosticSeverity::Warning => 2,
            DiagnosticSeverity::Information => 3,
            DiagnosticSeverity::Hint => 4,
        }
    }

    /// The number that stands for this severity on the wire.
    pub fn code(self) -> (code: u8)
        ensures
            code == self.code_of(),
    {
        match self {
            DiagnosticSeverity::Error => 1,
            DiagnosticSeverity::Warning => 2,
            DiagnosticSeverity::Information => 3,
            DiagnosticSeverity::Hint => 4,
        }
    }

    /// The severity that `code` stands for, if it stands for one.
    pub fn from_code(code: u8) -> (r: Option<Self>)
        ensures
            match r {
                Some(kind) => kind.code_of() == code,
                None => forall|kind: Self| kind.code_of() != code,
            },
    {
        match code {
            1 => Some(DiagnosticSeverity::Error),
            2 => Some(DiagnosticSeverity::Warning),
            3 => Some(DiagnosticSeverity::Information),
            4 => Some(DiagnosticSeverity::Hint),
            _ => None,
        }
    }
}

} // verus!
