use super::basic::{CodeActionKind, CompletionItemKind, DocumentUri, MarkupKind, SymbolKind, ValueSet, WorkspaceFolder};
use vstd::prelude::*;

verus! {

/// The kinds of completion item that one side admits.
pub type CompletionItemKindValueSet = ValueSet<Option<Vec<CompletionItemKind>>>;

/// The kinds of symbol that one side admits.
pub type SymbolKindValueSet = ValueSet<Option<Vec<SymbolKind>>>;

/// What the client sends with its first request.
#[derive(Clone, Debug, Default, PartialEq, Eq)]
pub struct InitalizeParams<T, E> {
    pub process_id: Option<i32>,
    pub root_path: Option<String>,
    pub root_uri: Option<DocumentUri>,
    pub initialization_options: Option<T>,
    pub capabilities: ClientCapabilities<E>,
    pub trace: String,
    pub workspace_folder: Option<Vec<WorkspaceFolder>>,
}

/// What the client is able to do.
#[derive(Clone, Debug, Default, PartialEq, Eq)]
pub struct ClientCapabilities<E> {
    pub workspace: Option<WorkspaceClientCapabilities>,
    pub text_document: Option<TextDocumentClientCapabilities>,
    pub experimental: Option<E>,
}

/// What the client can do with workspace edits.
#[derive(Copy, Clone, Debug, Default, PartialEq, Eq)]
pub struct WorkspaceEditClientCapabilities {
    pub document_changes: Option<bool>,
    pub resource_operations: Option<bool>,
    pub failure_handling: Option<bool>,
}

/// Whether a capability can be registered after start-up.
#[derive(Copy, Clone, Debug, Default, PartialEq, Eq)]
pub struct HasDynamicRegistration {
    pub dynamic_registration: Option<bool>,
}

/// What the client can do with workspace symbols.
#[derive(Copy, Clone, Debug, Default, PartialEq, Eq)]
pub struct SymbolCapabilities {
    pub dynamic_registration: Option<HasDynamicRegistration>,
}

/// What the client can do on the workspace as a whole.
#[derive(Copy, Clone, Debug, Default, PartialEq, Eq)]
pub struct WorkspaceClientCapabilities {
    pub apply_edit: Option<bool>,
    pub workspace_edit: Option<WorkspaceEditClientCapabilities>,
    pub did_change_configuration: Option<HasDynamicRegistration>,
    pub did_change_watched_files: Option<HasDynamicRegistration>,
    pub symbol: Option<SymbolCapabilities>,
    pub execute_command: Option<HasDynamicRegistration>,
    pub workspace_folders: Option<bool>,
    pub configuration: Option<bool>,
}

/// What the client can do on text documents.
#[derive(Clone, Debug, Default, PartialEq, Eq)]
pub struct TextDocumentClientCapabilities {
    pub synchronization: Option<SynchronizationCapabilities>,
    pub completion: Option<CompletionCapabilities>,
    pub hover: Option<HoverCapabilities>,
    pub signature_help: Option<SignatureHelpCapabilities>,
    pub references: Option<HasDynamicRegistration>,
    pub document_highlight: Option<HasDynamicRegistration>,
    pub document_symbol: Option<DocumentSymbolCapabilities>,
    pub formatting: Option<HasDynamicRegistration>,
    pub range_formatting: Option<HasDynamicRegistration>,
    pub on_type_formatting: Option<HasDynamicRegistration>,
    pub declaration: Option<DeclarationCapabilities>,
    pub definition: Option<DeclarationCapabilities>,
    pub type_definition: Option<DeclarationCapabilities>,
    pub implementation: Option<DeclarationCapabilities>,
    pub code_action: Option<CodeActionCapabilities>,
    pub code_lens: Option<HasDynamicRegistration>,
    pub document_link: Option<HasDynamicRegistration>,
    pub color_provider: Option<HasDynamicRegistration>,
    pub rename: Option<RenameCapabilities>,
    pub publish_diagnostics: Option<HasDynamicRegistration>,
    pub folding_range: Option<FoldingRangeCapabilities>,
}

/// What the client can do to keep documents in step.
#[derive(Copy, Clone, Debug, Default, PartialEq, Eq)]
pub struct SynchronizationCapabilities {
    pub dynamic_registration: Option<HasDynamicRegistration>,
    pub will_save: Option<bool>,
    pub will_save_wait_until: Option<bool>,
    pub did_save: Option<bool>,
}

/// What the client can do with completions.
#[derive(Clone, Debug, Default, PartialEq, Eq)]
pub struct CompletionCapabilities {
    pub dynamic_registration: Option<HasDynamicRegistration>,
    pub completion_item: Option<CompletionItemCapabilities>,
    pub completion_item_kind: Option<CompletionItemKindValueSet>,
    pub context_support: Option<bool>,
}

/// What the client can do with hover texts.
#[derive(Clone, Debug, Default, PartialEq, Eq)]
pub struct HoverCapabilities {
    pub dynamic_registration: Option<HasDynamicRegistration>,
    pub content_format: Option<Vec<MarkupKind>>,
}

/// What the client can do with signature help.
#[derive(Clone, Debug, Default, PartialEq, Eq)]
pub struct SignatureHelpCapabilities {
    pub dynamic_registration: Option<HasDynamicRegistration>,
    pub signature_information: Option<SignatureInformationCapabilities>,
}

/// What the client can do with document symbols.
#[derive(Clone, Debug, Default, PartialEq, Eq)]
pub struct DocumentSymbolCapabilities {
    pub dynamic_registration: Option<HasDynamicRegistration>,
    pub symbol_kind: Option<SymbolKindValueSet>,
}

/// What the client can do with declarations and the like.
#[derive(Copy, Clone, Debug, Default, PartialEq, Eq)]
pub struct DeclarationCapabilities {
    pub dynamic_registration: Option<HasDynamicRegistration>,
    pub link_support: Option<bool>,
}

/// What the client can do with code actions.
#[derive(Clone, Debug, Default, PartialEq, Eq)]
pub struct CodeActionCapabilities {
    pub dynamic_registration: Option<HasDynamicRegistration>,
    pub code_action_literal_support: Option<CodeActionLiteralSupport>,
}

/// What the client can do with renames.
#[derive(Copy, Clone, Debug, Default, PartialEq, Eq)]
pub struct RenameCapabilities {
    pub dynamic_registration: Option<HasDynamicRegistration>,
    pub prepare_support: Option<bool>,
}

/// What the client can do with folding ranges.
#[derive(Copy, Clone, Debug, Default, PartialEq, Eq)]
pub struct FoldingRangeCapabilities {
    pub dynamic_registration: Option<HasDynamicRegistration>,
    pub range_limit: Option<u32>,
    pub line_folding_onle: Option<bool>,
}

/// What the client can show of one completion item.
#[derive(Clone, Debug, Default, PartialEq, Eq)]
pub struct CompletionItemCapabilities {
    pub snippet_support: Option<bool>,
    pub commit_characters_support: Option<bool>,
    pub documentation_format: Option<Vec<MarkupKind>>,
    pub deprecated_support: Option<bool>,
    pub preselect_support: Option<bool>,
}

/// What the client can show of one signature.
#[derive(Clone, Debug, Default, PartialEq, Eq)]
pub struct SignatureInformationCapabilities {
    pub documentation_format: Option<Vec<MarkupKind>>,
    pub parameter_information: Option<ParameterInformation>,
}

/// The kinds of code action that the client takes as literals.
#[derive(Clone, Debug, Default, PartialEq, Eq)]
pub struct CodeActionLiteralSupport {
    pub code_action_kind: ValueSet<Vec<CodeActionKind>>,
}

/// What the client can show of one parameter.
#[derive(Copy, Clone, Debug, Default, PartialEq, Eq)]
pub struct ParameterInformation {
    pub label_offer_support: Option<bool>,
}

} // verus!
