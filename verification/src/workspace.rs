//! Workspaces as the dashboard lists them.

use vstd::prelude::*;

use crate::fs_path::FsPath;
use crate::views;

verus! {

/// A key by which items of different providers are found to belong together.
#[derive(Debug, Clone)]
pub enum CorrelationKey {
    /// The directory of a checkout.
    CheckoutPath(FsPath),
}

/// A workspace of a terminal multiplexer.
#[derive(Debug)]
pub struct Workspace {
    /// The handle by which the workspace is selected.
    pub ws_ref: String,
    pub name: String,
    pub directories: Vec<FsPath>,
    pub correlation_keys: Vec<CorrelationKey>,
}

/// A correlation key, by what it holds.
pub enum CorrelationKeyView {
    CheckoutPath(Seq<u8>),
}

/// A workspace, by the texts and paths that it holds.
pub struct WorkspaceView {
    pub ws_ref: Seq<char>,
    pub name: Seq<char>,
    pub directories: Seq<Seq<u8>>,
    pub correlation_keys: Seq<CorrelationKeyView>,
}

impl View for CorrelationKey {
    type V = CorrelationKeyView;

    open spec fn view(&self) -> CorrelationKeyView {
        match self {
            CorrelationKey::CheckoutPath(p) => CorrelationKeyView::CheckoutPath(p@),
        }
    }
}

impl View for Workspace {
    type V = WorkspaceView;

    open spec fn view(&self) -> WorkspaceView {
        WorkspaceView {
            ws_ref: self.ws_ref@,
            name: self.name@,
            directories: views::views(self.directories@),
            correlation_keys: views::views(self.correlation_keys@),
        }
    }
}

} // verus!
