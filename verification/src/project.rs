//! Projects, and the commands that serve them.

use vstd::prelude::*;
use crate::path::{path_text, FsPath, PathView};
use crate::table::{Ident, Key, Owned};
use crate::text::{concat2, texts};
use crate::views::opt;

verus! {

/// The project that a session serves.
#[derive(Debug, PartialEq, Eq)]
pub enum SessionKey {
    Project(FsPath),
    Global,
}

/// The project that a session serves.
#[verifier::ext_equal]
pub enum SessionKeyView {
    Project(PathView),
    Global,
}

impl View for SessionKey {
    type V = SessionKeyView;

    open spec fn view(&self) -> SessionKeyView {
        match self {
            SessionKey::Project(path) => SessionKeyView::Project(path@),
            SessionKey::Global => SessionKeyView::Global,
        }
    }
}

impl Clone for SessionKey {
    fn clone(&self) -> (r: SessionKey)
        ensures
            r@ == self@,
    {
        match self {
            SessionKey::Project(path) => SessionKey::Project(path.clone()),
            SessionKey::Global => SessionKey::Global,
        }
    }
}

impl Ident for SessionKeyView {
    open spec fn ident(self) -> SessionKeyView {
        match self {
            SessionKeyView::Project(path) => SessionKeyView::Project(path.ident()),
            SessionKeyView::Global => SessionKeyView::Global,
        }
    }
}

impl Key for SessionKey {
    fn same(&self, other: &SessionKey) -> (r: bool) {
        match (self, other) {
            (SessionKey::Project(a), SessionKey::Project(b)) => a.same(b),
            (SessionKey::Global, SessionKey::Global) => true,
            _ => false,
        }
    }

    fn again(&self) -> (r: SessionKey) {
        self.clone()
    }
}

impl Owned<SessionKey> for SessionKey {
    open spec fn owned_by(value: SessionKeyView, owner: SessionKeyView) -> bool {
        value.ident() == owner.ident()
    }

    fn belongs_to(&self, owner: &SessionKey) -> (r: bool) {
        self.same(owner)
    }
}

/// The form in which a path, given by its text, is shown for inspection.
pub uninterp spec fn path_debug_text(path: Seq<char>) -> Seq<char>;

/// The `Debug` form of `std::path::Path`: the text in quotation marks, with some characters escaped.
#[verifier::external_body]
pub(crate) fn path_debug(path: &str) -> (r: String)
    ensures
        r@ == path_debug_text(path@),
{
    format!("{:?}", std::path::Path::new(path))
}

/// The form in which a session's project is shown for inspection.
pub open spec fn key_debug(key: SessionKeyView) -> Seq<char> {
    match key {
        SessionKeyView::Project(path) => "Project("@ + path_debug_text(path_text(path)) + ")"@,
        SessionKeyView::Global => "Global"@,
    }
}

impl SessionKey {
    /// The form in which the project is shown for inspection.
    pub fn debug_text(&self) -> (r: String)
        ensures
            r@ == key_debug(self@),
    {
        match self {
            SessionKey::Project(path) => {
                let shown = path_debug(path.to_text().as_str());
                let start = concat2("Project(", shown.as_str());
                concat2(start.as_str(), ")")
            },
            SessionKey::Global => "Global".to_owned(),
        }
    }
}

/// A command to run.
#[derive(Debug, PartialEq, Eq)]
pub struct CommandSpec {
    pub program: FsPath,
    pub args: Vec<String>,
    pub cwd: Option<FsPath>,
}

/// A command to run.
#[verifier::ext_equal]
pub struct CommandView {
    pub program: PathView,
    pub args: Seq<Seq<char>>,
    pub cwd: Option<PathView>,
}

impl View for CommandSpec {
    type V = CommandView;

    open spec fn view(&self) -> CommandView {
        CommandView { program: self.program@, args: texts(self.args@), cwd: opt(self.cwd) }
    }
}

/// A list of texts once more.
pub fn copy_texts(list: &Vec<String>) -> (r: Vec<String>)
    ensures
        texts(r@) == texts(list@),
{
    let mut out: Vec<String> = Vec::new();
    let mut i: usize = 0;
    while i < list.len()
        invariant
            i <= list@.len(),
            out@.len() == i,
            forall|j: int| 0 <= j < i ==> (#[trigger] out@[j])@ == list@[j]@,
        decreases list@.len() - i,
    {
        out.push(list[i].clone());
        i += 1;
    }
    proof {
        assert(texts(out@) =~= texts(list@));
    }
    out
}

/// An optional path once more.
pub fn copy_path(path: &Option<FsPath>) -> (r: Option<FsPath>)
    ensures
        opt(r) == opt(*path),
{
    match path {
        Some(p) => Some(p.clone()),
        None => None,
    }
}

impl Clone for CommandSpec {
    fn clone(&self) -> (r: CommandSpec)
        ensures
            r@ == self@,
    {
        CommandSpec {
            program: self.program.clone(),
            args: copy_texts(&self.args),
            cwd: copy_path(&self.cwd),
        }
    }
}

} // verus!
