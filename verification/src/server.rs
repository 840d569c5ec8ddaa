//! The server's side of the first exchange with a client.

use crate::lsp::client::InitalizeParams;
use crate::lsp::server::{InitializeResult, ServerCapabilities};
use vstd::prelude::*;

verus! {

/// The language server.
#[derive(Copy, Clone, Debug, Default)]
pub struct LeekLSP;

/// Whether `c` offers nothing.
pub open spec fn offers_nothing<T>(c: ServerCapabilities<T>) -> bool {
    &&& c.text_document_sync is None
    &&& c.hover_provider is None
    &&& c.completion_provider is None
    &&& c.signature_help_provider is None
    &&& c.definition_provider is None
    &&& c.type_definition_provider is None
    &&& c.implementation_provider is None
    &&& c.references_provider is None
    &&& c.document_highlight_provider is None
    &&& c.workspace_symbols_provider is None
    &&& c.code_action_provider is None
    &&& c.code_lens_provider is None
    &&& c.document_formatting_provider is None
    &&& c.document_range_formatting_provider is None
    &&& c.rename_provider is None
    &&& c.document_link_provider is None
    &&& c.color_provider is None
    &&& c.folding_range_provider is None
    &&& c.declaration_provider is None
    &&& c.execute_command_provider is None
    &&& c.workspace is None
    &&& c.experimental is None
}

impl LeekLSP {
    /// The answer to a client's first request: as yet the server offers
    /// nothing, whatever the client is able to do.
    pub fn initialize(_params: InitalizeParams<(), ()>) -> (r: InitializeResult<()>)
        ensures
            offers_nothing(r.capabilities),
    {
        InitializeResult {
            capabilities: ServerCapabilities {
                text_document_sync: None,
                hover_provider: None,
                completion_provider: None,
                signature_help_provider: None,
                definition_provider: None,
                type_definition_provider: None,
                implementation_provider: None,
                references_provider: None,
                document_highlight_provider: None,
                workspace_symbols_provider: None,
                code_action_provider: None,
                code_lens_provider: None,
                document_formatting_provider: None,
                document_range_formatting_provider: None,
                rename_provider: None,
                document_link_provider: None,
                color_provider: None,
                folding_range_provider: None,
                declaration_provider: None,
                execute_command_provider: None,
                workspace: None,
                experimental: None,
            },
        }
    }
}

} // verus!
