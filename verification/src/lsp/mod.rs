pub mod basic;
pub mod client;
pub mod server;

pub use basic::{CodeActionKind, CompletionItemKind, CreateFileOptions, DeleteFileOptions, Diagnostic, DiagnosticRelatedInformation, DiagnosticSeverity, DocumentFilter, DocumentUri, Either, Location, LocationLink, MarkupKind, Position, Range, RenameFileOptions, ResourceOperation, SymbolKind, TextDocumentEdit, TextDocumentIdentifier, TextDocumentSyncKind, TextEdit, ValueSet, VersionedTextDocumentIdentifier, WorkspaceFolder};
pub use client::{ClientCapabilities, CodeActionCapabilities, CodeActionLiteralSupport, CompletionCapabilities, CompletionItemCapabilities, CompletionItemKindValueSet, DeclarationCapabilities, DocumentSymbolCapabilities, FoldingRangeCapabilities, HasDynamicRegistration, HoverCapabilities, InitalizeParams, ParameterInformation, RenameCapabilities, SignatureHelpCapabilities, SignatureInformationCapabilities, SymbolCapabilities, SymbolKindValueSet, SynchronizationCapabilities, TextDocumentClientCapabilities, WorkspaceClientCapabilities, WorkspaceEditClientCapabilities};
pub use server::{CodeActionOptions, ColorProviderOptions, CompletionOptions, DocumentSelector, ExecuteCommandOptions, FoldingRangeProviderOptions, InitializeResult, RenameOptions, ResolveProviderOptions, SaveOptions, ServerCapabilities, SignatureHelpOptions, StaticRegistrationOptions, TextDocumentRegistrationOptions, TextDocumentSyncOptions, TypeDefinitionProvider, WorkspaceFolderOptions, WorkspaceServerCapabilities};
