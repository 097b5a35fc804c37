//! What happens to the children of the server.

use vstd::prelude::*;
use crate::lsp::{Message, MessageView};
use crate::project::{SessionKey, SessionKeyView};

verus! {

/// What happens to a child, with the number of the child that it happens to: a child can be replaced
/// by another for the same project.
#[derive(Debug)]
pub enum SessionEvent {
    /// The child has sent a message.
    Message(SessionKey, u64, Message),
    /// The child has ended.
    Closed(SessionKey, u64),
    /// What is sent to the child reaches it no more.
    WriterClosed(SessionKey, u64),
}

/// What happens to a child.
#[verifier::ext_equal]
pub enum SessionEventView {
    Message(SessionKeyView, u64, MessageView),
    Closed(SessionKeyView, u64),
    WriterClosed(SessionKeyView, u64),
}

impl View for SessionEvent {
    type V = SessionEventView;

    open spec fn view(&self) -> SessionEventView {
        match self {
            SessionEvent::Message(key, generation, message) => SessionEventView::Message(
                key@,
                *generation,
                message@,
            ),
            SessionEvent::Closed(key, generation) => SessionEventView::Closed(key@, *generation),
            SessionEvent::WriterClosed(key, generation) => SessionEventView::WriterClosed(
                key@,
                *generation,
            ),
        }
    }
}

} // verus!
