use vstd::prelude::*;

verus! {

/// The kind of resource a targeted update refers to.
#[derive(Clone, Copy, Debug, PartialEq, Eq, Structural)]
pub enum DiffResource {
    Html,
    Css,
}

/// A message pushed to every connected client.
#[derive(Clone, Debug, PartialEq, Eq)]
pub enum LiveMessage {
    /// Reload the whole page.
    Reload,
    /// Update one resource in place; `path` is web-rooted (leading `/`).
    Diff { path: String, resource: DiffResource },
}

/// The mathematical view of a message.
pub enum LiveMessageView {
    Reload,
    Diff { path: Seq<char>, resource: DiffResource },
}

impl View for LiveMessage {
    type V = LiveMessageView;

    open spec fn view(&self) -> LiveMessageView {
        match self {
            LiveMessage::Reload => LiveMessageView::Reload,
            LiveMessage::Diff { path, resource } => LiveMessageView::Diff {
                path: path@,
                resource: *resource,
            },
        }
    }
}

} // verus!
