use super::basic::{CodeActionKind, DocumentFilter, Either, TextDocumentSyncKind};
use vstd::prelude::*;

verus! {

/// The filters that select the documents of a registration.
pub type DocumentSelector = Vec<DocumentFilter>;

/// The answer to the first request.
#[derive(Clone, Debug, Default, PartialEq, Eq)]
pub struct InitializeResult<E> {
    pub capabilities: ServerCapabilities<E>,
}

/// What the server offers.
#[derive(Clone, Debug, Default, PartialEq, Eq)]
pub struct ServerCapabilities<T> {
    pub text_document_sync: Option<TextDocumentSyncOptions>,
    pub hover_provider: Option<bool>,
    pub completion_provider: Option<CompletionOptions>,
    pub signature_help_provider: Option<SignatureHelpOptions>,
    pub definition_provider: Option<bool>,
    pub type_definition_provider: Option<Either<bool, TypeDefinitionProvider>>,
    pub implementation_provider: Option<Either<bool, TypeDefinitionProvider>>,
    pub references_provider: Option<bool>,
    pub document_highlight_provider: Option<bool>,
    pub workspace_symbols_provider: Option<bool>,
    pub code_action_provider: Option<Either<bool, CodeActionOptions>>,
    pub code_lens_provider: Option<ResolveProviderOptions>,
    pub document_formatting_provider: Option<bool>,
    pub document_range_formatting_provider: Option<bool>,
    pub rename_provider: Option<Either<bool, RenameOptions>>,
    pub document_link_provider: Option<ResolveProviderOptions>,
    pub color_provider: Option<Either<bool, ColorProviderOptions>>,
    pub folding_range_provider: Option<Either<bool, FoldingRangeProviderOptions>>,
    pub declaration_provider: Option<Either<bool, FoldingRangeProviderOptions>>,
    pub execute_command_provider: Option<ExecuteCommandOptions>,
    pub workspace: Option<WorkspaceServerCapabilities>,
    pub experimental: Option<T>,
}

/// How the server wants to be told of documents and their changes.
#[derive(Copy, Clone, Debug, PartialEq, Eq)]
pub struct TextDocumentSyncOptions {
    pub open_close: Option<bool>,
    pub change: Option<TextDocumentSyncKind>,
    pub will_save: Option<bool>,
    pub will_save_wait_until: Option<bool>,
    pub save: Option<SaveOptions>,
}

/// What the server wants to get when a document is saved.
#[derive(Copy, Clone, Debug, PartialEq, Eq)]
pub struct SaveOptions {
    pub include_text: Option<bool>,
}

/// How the server offers completions.
#[derive(Clone, Debug, PartialEq, Eq)]
pub struct CompletionOptions {
    pub resolve_provider: Option<bool>,
    pub trigger_characters: Option<Vec<String>>,
}

/// How the server offers signature help.
#[derive(Clone, Debug, PartialEq, Eq)]
pub struct SignatureHelpOptions {
    pub trigger_characters: Option<Vec<String>>,
}

/// How the server offers type definitions.
#[derive(Clone, Debug, PartialEq, Eq)]
pub struct TypeDefinitionProvider {
    pub text_document_registration_options: TextDocumentRegistrationOptions,
    pub static_registration_options: StaticRegistrationOptions,
}

/// The documents that a registration is for.
#[derive(Clone, Debug, PartialEq, Eq)]
pub struct TextDocumentRegistrationOptions {
    pub document_selector: Option<DocumentSelector>,
}

/// The name of a registration made at start-up.
#[derive(Clone, Debug, PartialEq, Eq)]
pub struct StaticRegistrationOptions {
    pub id: Option<String>,
}

/// Whether the server resolves items in a second step.
#[derive(Copy, Clone, Debug, PartialEq, Eq)]
pub struct ResolveProviderOptions {
    pub resolve_provider: Option<bool>,
}

/// How the server offers renames.
#[derive(Copy, Clone, Debug, PartialEq, Eq)]
pub struct RenameOptions {
    pub prepare_provider: Option<bool>,
}

/// How the server offers code actions.
#[derive(Clone, Debug, PartialEq, Eq)]
pub struct CodeActionOptions {
    pub code_action_kinds: Option<Vec<CodeActionKind>>,
}

/// How the server offers folding ranges.
#[derive(Clone, Debug, PartialEq, Eq)]
pub struct FoldingRangeProviderOptions {
    pub text_document_registration_options: Option<TextDocumentRegistrationOptions>,
    pub static_registration_options: Option<StaticRegistrationOptions>,
}

/// How the server offers colors.
#[derive(Clone, Debug, PartialEq, Eq)]
pub struct ColorProviderOptions {
    pub folding_range_provider_options: FoldingRangeProviderOptions,
    pub text_document_registration_options: TextDocumentRegistrationOptions,
    pub static_registration_options: StaticRegistrationOptions,
}

/// The commands that the server runs.
#[derive(Clone, Debug, PartialEq, Eq)]
pub struct ExecuteCommandOptions {
    pub commands: Vec<String>,
}

/// What the server offers on the workspace as a whole.
#[derive(Clone, Debug, PartialEq, Eq)]
pub struct WorkspaceServerCapabilities {
    pub workspace_folder: Option<WorkspaceFolderOptions>,
}

/// What the server offers on workspace folders.
#[derive(Clone, Debug, PartialEq, Eq)]
pub struct WorkspaceFolderOptions {
    pub supported: Option<bool>,
    pub change_notifications: Option<Either<String, bool>>,
}

} // verus!
