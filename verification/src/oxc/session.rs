//! The children of the server.

use vstd::prelude::*;
use crate::lsp::{Message, MessageView};
use crate::project::{key_debug, SessionKey, SessionKeyView};
use crate::table::{Ident, Key, Owned};
use crate::text::concat2;

verus! {

/// What a child does.
#[derive(Clone, Copy, Debug, PartialEq, Eq, Structural)]
pub enum ChildKind {
    Lint,
    Format,
}

/// Which child it is.
#[derive(Debug, PartialEq, Eq)]
pub struct SessionId {
    pub project: SessionKey,
    pub kind: ChildKind,
}

/// Which child it is.
#[verifier::ext_equal]
pub struct SessionIdView {
    pub project: SessionKeyView,
    pub kind: ChildKind,
}

impl View for SessionId {
    type V = SessionIdView;

    open spec fn view(&self) -> SessionIdView {
        SessionIdView { project: self.project@, kind: self.kind }
    }
}

impl Clone for SessionId {
    fn clone(&self) -> (r: SessionId)
        ensures
            r@ == self@,
    {
        SessionId { project: self.project.clone(), kind: self.kind }
    }
}

impl Ident for SessionIdView {
    open spec fn ident(self) -> SessionIdView {
        SessionIdView { project: self.project.ident(), kind: self.kind }
    }
}

impl Key for SessionId {
    fn same(&self, other: &SessionId) -> (r: bool) {
        self.kind == other.kind && self.project.same(&other.project)
    }

    fn again(&self) -> (r: SessionId) {
        self.clone()
    }
}

impl Owned<SessionId> for SessionId {
    open spec fn owned_by(value: SessionIdView, owner: SessionIdView) -> bool {
        value.ident() == owner.ident()
    }

    fn belongs_to(&self, owner: &SessionId) -> (r: bool) {
        self.same(owner)
    }
}

/// The form in which a child is shown for inspection.
pub open spec fn session_debug(id: SessionIdView) -> Seq<char> {
    let kind = match id.kind {
        ChildKind::Lint => "Lint"@,
        ChildKind::Format => "Format"@,
    };
    "SessionId { project: "@ + key_debug(id.project) + ", kind: "@ + kind + " }"@
}

impl SessionId {
    /// The form in which the child is shown for inspection.
    pub fn debug_text(&self) -> (r: String)
        ensures
            r@ == session_debug(self@),
    {
        let kind = match self.kind {
            ChildKind::Lint => "Lint",
            ChildKind::Format => "Format",
        };
        let text = concat2("SessionId { project: ", self.project.debug_text().as_str());
        let text = concat2(text.as_str(), ", kind: ");
        let text = concat2(text.as_str(), kind);
        concat2(text.as_str(), " }")
    }
}

/// What happens to a child, with the number of the child that it happens to.
#[derive(Debug)]
pub enum SessionEvent {
    /// The child has sent a message.
    Message(SessionId, u64, Message),
    /// The child has ended.
    Closed(SessionId, u64),
    /// What is sent to the child reaches it no more.
    WriterClosed(SessionId, u64),
}

/// What happens to a child.
#[verifier::ext_equal]
pub enum SessionEventView {
    Message(SessionIdView, u64, MessageView),
    Closed(SessionIdView, u64),
    WriterClosed(SessionIdView, u64),
}

impl View for SessionEvent {
    type V = SessionEventView;

    open spec fn view(&self) -> SessionEventView {
        match self {
            SessionEvent::Message(id, generation, message) => SessionEventView::Message(
                id@,
                *generation,
                message@,
            ),
            SessionEvent::Closed(id, generation) => SessionEventView::Closed(id@, *generation),
            SessionEvent::WriterClosed(id, generation) => SessionEventView::WriterClosed(
                id@,
                *generation,
            ),
        }
    }
}

} // verus!
