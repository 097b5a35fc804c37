//! What has been found out about the machine.
//!
//! Functions that depend on files and programs are given what has been found out so far. Where that
//! is not enough, they say what to find out next, and are asked again once it has been recorded.

use vstd::prelude::*;
use crate::path::{FsPath, PathView};
use crate::table::{holds, lookup, put, put_then_lookup, same_keys_find_the_same, Ident, Key, Table};
use crate::text::{same_text, texts, trim, trimmed};
use crate::views::each;

verus! {

/// How much of a file its head is.
pub const HEAD_LEN: usize = 64;

/// What to find out.
#[derive(Debug, PartialEq, Eq)]
pub enum Probe {
    /// Whether something exists at the path.
    Exists(FsPath),
    /// Whether there is a regular file at the path.
    IsFile(FsPath),
    /// Whether there is a directory at the path.
    IsDir(FsPath),
    /// The text of the file.
    ReadText(FsPath),
    /// The first `HEAD_LEN` bytes of the file.
    ReadHead(FsPath),
    /// The entries of the directory.
    List(FsPath),
    /// The path with its symbolic links resolved.
    Canonical(FsPath),
    /// The directories in which programs are looked up.
    SearchPath,
    /// What Node resolves a package to.
    Node(NodeQuery),
}

/// What to find out.
#[verifier::ext_equal]
pub enum ProbeView {
    Exists(PathView),
    IsFile(PathView),
    IsDir(PathView),
    ReadText(PathView),
    ReadHead(PathView),
    List(PathView),
    Canonical(PathView),
    SearchPath,
    Node(NodeQueryView),
}

impl View for Probe {
    type V = ProbeView;

    open spec fn view(&self) -> ProbeView {
        match self {
            Probe::Exists(p) => ProbeView::Exists(p@),
            Probe::IsFile(p) => ProbeView::IsFile(p@),
            Probe::IsDir(p) => ProbeView::IsDir(p@),
            Probe::ReadText(p) => ProbeView::ReadText(p@),
            Probe::ReadHead(p) => ProbeView::ReadHead(p@),
            Probe::List(p) => ProbeView::List(p@),
            Probe::Canonical(p) => ProbeView::Canonical(p@),
            Probe::SearchPath => ProbeView::SearchPath,
            Probe::Node(q) => ProbeView::Node(q@),
        }
    }
}

/// A package that Node is to resolve, seen from a directory.
#[derive(Debug, PartialEq, Eq)]
pub struct NodeQuery {
    pub base: FsPath,
    pub package: String,
}

/// A package that Node is to resolve, seen from a directory.
#[verifier::ext_equal]
pub struct NodeQueryView {
    pub base: PathView,
    pub package: Seq<char>,
}

impl View for NodeQuery {
    type V = NodeQueryView;

    open spec fn view(&self) -> NodeQueryView {
        NodeQueryView { base: self.base@, package: self.package@ }
    }
}

/// Each question stands for itself: what Node says may depend on how the directory is spelled.
impl Ident for NodeQueryView {
    open spec fn ident(self) -> NodeQueryView {
        self
    }
}

impl Key for NodeQuery {
    fn same(&self, other: &NodeQuery) -> (r: bool) {
        self.base.is_spelled_as(&other.base) && same_text(
            self.package.as_str(),
            other.package.as_str(),
        )
    }

    fn again(&self) -> (r: NodeQuery) {
        NodeQuery { base: self.base.clone(), package: self.package.clone() }
    }
}

/// What came of running Node.
#[derive(Debug, PartialEq, Eq)]
pub enum NodeReply {
    /// There is no Node.
    Missing,
    /// Node could not be run.
    Broken,
    /// Node ended with a failure, and complained so.
    Unresolved(String),
    /// Node ended with success, and wrote this.
    Output(String),
    /// Node ended with success, and wrote what is not UTF-8, for this reason.
    Garbled(String),
}

/// What came of running Node.
#[verifier::ext_equal]
pub enum NodeReplyView {
    Missing,
    Broken,
    Unresolved(Seq<char>),
    Output(Seq<char>),
    Garbled(Seq<char>),
}

impl View for NodeReply {
    type V = NodeReplyView;

    open spec fn view(&self) -> NodeReplyView {
        match self {
            NodeReply::Missing => NodeReplyView::Missing,
            NodeReply::Broken => NodeReplyView::Broken,
            NodeReply::Unresolved(text) => NodeReplyView::Unresolved(text@),
            NodeReply::Output(text) => NodeReplyView::Output(text@),
            NodeReply::Garbled(text) => NodeReplyView::Garbled(text@),
        }
    }
}

/// The text of a file.
#[derive(Debug, PartialEq, Eq)]
pub enum FileText {
    /// It cannot be read, for this reason.
    Unreadable(String),
    Text(String),
}

/// The text of a file.
#[verifier::ext_equal]
pub enum FileTextView {
    Unreadable(Seq<char>),
    Text(Seq<char>),
}

impl View for FileText {
    type V = FileTextView;

    open spec fn view(&self) -> FileTextView {
        match self {
            FileText::Unreadable(reason) => FileTextView::Unreadable(reason@),
            FileText::Text(text) => FileTextView::Text(text@),
        }
    }
}

/// The first bytes of a file.
#[derive(Debug, PartialEq, Eq)]
pub enum FileHead {
    Unreadable,
    Bytes(Vec<u8>),
}

/// The first bytes of a file.
#[verifier::ext_equal]
pub enum FileHeadView {
    Unreadable,
    Bytes(Seq<u8>),
}

impl View for FileHead {
    type V = FileHeadView;

    open spec fn view(&self) -> FileHeadView {
        match self {
            FileHead::Unreadable => FileHeadView::Unreadable,
            FileHead::Bytes(bytes) => FileHeadView::Bytes(bytes@),
        }
    }
}

/// An entry of a directory.
#[derive(Debug, PartialEq, Eq)]
pub struct Entry {
    pub name: String,
    /// Whether the entry itself is a directory.
    pub is_dir: bool,
    /// Whether the entry is a directory, or a symbolic link that leads to one.
    pub leads_to_dir: bool,
}

/// An entry of a directory.
#[verifier::ext_equal]
pub struct EntryView {
    pub name: Seq<char>,
    pub is_dir: bool,
    pub leads_to_dir: bool,
}

impl View for Entry {
    type V = EntryView;

    open spec fn view(&self) -> EntryView {
        EntryView { name: self.name@, is_dir: self.is_dir, leads_to_dir: self.leads_to_dir }
    }
}

/// The entries of a directory, none where it cannot be read.
#[derive(Debug, PartialEq, Eq)]
pub struct Listing {
    pub entries: Vec<Entry>,
}

impl View for Listing {
    type V = Seq<EntryView>;

    open spec fn view(&self) -> Seq<EntryView> {
        each(self.entries@)
    }
}

/// A path with its symbolic links resolved.
#[derive(Debug, PartialEq, Eq)]
pub enum RealPath {
    Unknown,
    Path(FsPath),
}

/// A path with its symbolic links resolved.
#[verifier::ext_equal]
pub enum RealPathView {
    Unknown,
    Path(PathView),
}

impl View for RealPath {
    type V = RealPathView;

    open spec fn view(&self) -> RealPathView {
        match self {
            RealPath::Unknown => RealPathView::Unknown,
            RealPath::Path(path) => RealPathView::Path(path@),
        }
    }
}

/// What was found out.
#[derive(Debug, PartialEq, Eq)]
pub enum Answer {
    Exists(FsPath, bool),
    IsFile(FsPath, bool),
    IsDir(FsPath, bool),
    ReadText(FsPath, FileText),
    ReadHead(FsPath, FileHead),
    List(FsPath, Listing),
    Canonical(FsPath, RealPath),
    SearchPath(Vec<FsPath>),
    Node(NodeQuery, NodeReply),
}

/// What was found out.
#[verifier::ext_equal]
pub enum AnswerView {
    Exists(PathView, bool),
    IsFile(PathView, bool),
    IsDir(PathView, bool),
    ReadText(PathView, FileTextView),
    ReadHead(PathView, FileHeadView),
    List(PathView, Seq<EntryView>),
    Canonical(PathView, RealPathView),
    SearchPath(Seq<PathView>),
    Node(NodeQueryView, NodeReplyView),
}

impl View for Answer {
    type V = AnswerView;

    open spec fn view(&self) -> AnswerView {
        match self {
            Answer::Exists(p, v) => AnswerView::Exists(p@, *v),
            Answer::IsFile(p, v) => AnswerView::IsFile(p@, *v),
            Answer::IsDir(p, v) => AnswerView::IsDir(p@, *v),
            Answer::ReadText(p, v) => AnswerView::ReadText(p@, v@),
            Answer::ReadHead(p, v) => AnswerView::ReadHead(p@, v@),
            Answer::List(p, v) => AnswerView::List(p@, v@),
            Answer::Canonical(p, v) => AnswerView::Canonical(p@, v@),
            Answer::SearchPath(dirs) => AnswerView::SearchPath(each(dirs@)),
            Answer::Node(q, v) => AnswerView::Node(q@, v@),
        }
    }
}

impl AnswerView {
    /// What is answered.
    pub open spec fn probe(self) -> ProbeView {
        match self {
            AnswerView::Exists(p, _) => ProbeView::Exists(p),
            AnswerView::IsFile(p, _) => ProbeView::IsFile(p),
            AnswerView::IsDir(p, _) => ProbeView::IsDir(p),
            AnswerView::ReadText(p, _) => ProbeView::ReadText(p),
            AnswerView::ReadHead(p, _) => ProbeView::ReadHead(p),
            AnswerView::List(p, _) => ProbeView::List(p),
            AnswerView::Canonical(p, _) => ProbeView::Canonical(p),
            AnswerView::SearchPath(_) => ProbeView::SearchPath,
            AnswerView::Node(q, _) => ProbeView::Node(q),
        }
    }
}

/// Something that is known, or else what to find out next to know it.
#[derive(Debug, PartialEq, Eq)]
pub enum Step<T> {
    Known(T),
    Ask(Probe),
}

/// Something that is known, or else what to find out next to know it.
#[verifier::ext_equal]
pub enum StepView<T> {
    Known(T),
    Ask(ProbeView),
}

impl<T: View> View for Step<T> {
    type V = StepView<T::V>;

    open spec fn view(&self) -> StepView<T::V> {
        match self {
            Step::Known(value) => StepView::Known(value@),
            Step::Ask(probe) => StepView::Ask(probe@),
        }
    }
}

/// What came of looking for something.
#[derive(Debug, PartialEq, Eq)]
pub enum Outcome<T> {
    Found(T),
    Absent,
    Failed(String),
}

/// What came of looking for something.
#[verifier::ext_equal]
pub enum OutcomeView<T> {
    Found(T),
    Absent,
    Failed(Seq<char>),
}

impl<T: View> View for Outcome<T> {
    type V = OutcomeView<T::V>;

    open spec fn view(&self) -> OutcomeView<T::V> {
        match self {
            Outcome::Found(value) => OutcomeView::Found(value@),
            Outcome::Absent => OutcomeView::Absent,
            Outcome::Failed(message) => OutcomeView::Failed(message@),
        }
    }
}

/// A path as it is spelled. What is found at a path may depend on its spelling: nothing is found at
/// the path of a file that ends in a separator.
#[derive(Debug)]
pub struct Spelled {
    pub path: FsPath,
}

/// A path as it is spelled.
#[verifier::ext_equal]
pub struct SpelledView {
    pub path: PathView,
}

impl View for Spelled {
    type V = SpelledView;

    open spec fn view(&self) -> SpelledView {
        SpelledView { path: self.path@ }
    }
}

/// Each spelling stands for itself.
impl Ident for SpelledView {
    open spec fn ident(self) -> SpelledView {
        self
    }
}

impl Key for Spelled {
    fn same(&self, other: &Spelled) -> (r: bool) {
        self.path.is_spelled_as(&other.path)
    }

    fn again(&self) -> (r: Spelled) {
        Spelled { path: self.path.clone() }
    }
}

/// What has been found out.
#[derive(Debug)]
pub struct Findings {
    existing: Table<Spelled, bool>,
    files: Table<Spelled, bool>,
    dirs: Table<Spelled, bool>,
    texts: Table<Spelled, FileText>,
    heads: Table<Spelled, FileHead>,
    listings: Table<Spelled, Listing>,
    canonical: Table<Spelled, RealPath>,
    search_path: Option<Vec<FsPath>>,
    node: Table<NodeQuery, NodeReply>,
}

/// What has been found out.
#[verifier::ext_equal]
pub struct FindingsView {
    pub existing: Seq<(SpelledView, bool)>,
    pub files: Seq<(SpelledView, bool)>,
    pub dirs: Seq<(SpelledView, bool)>,
    pub texts: Seq<(SpelledView, FileTextView)>,
    pub heads: Seq<(SpelledView, FileHeadView)>,
    pub listings: Seq<(SpelledView, Seq<EntryView>)>,
    pub canonical: Seq<(SpelledView, RealPathView)>,
    pub search_path: Option<Seq<PathView>>,
    pub node: Seq<(NodeQueryView, NodeReplyView)>,
}

impl View for Findings {
    type V = FindingsView;

    closed spec fn view(&self) -> FindingsView {
        FindingsView {
            existing: self.existing@,
            files: self.files@,
            dirs: self.dirs@,
            texts: self.texts@,
            heads: self.heads@,
            listings: self.listings@,
            canonical: self.canonical@,
            search_path: match self.search_path {
                Some(dirs) => Some(each(dirs@)),
                None => None,
            },
            node: self.node@,
        }
    }
}

/// What is recorded under a key, or else what to find out.
pub open spec fn recorded<K: Ident, V>(
    entries: Seq<(K, V)>,
    key: K,
    probe: ProbeView,
) -> StepView<V> {
    match lookup(entries, key) {
        Some(value) => StepView::Known(value),
        None => StepView::Ask(probe),
    }
}

impl FindingsView {
    /// Whether something exists at the path.
    pub open spec fn present(self, path: PathView) -> StepView<bool> {
        recorded(self.existing, SpelledView { path }, ProbeView::Exists(path))
    }

    /// Whether there is a regular file at the path.
    pub open spec fn is_file(self, path: PathView) -> StepView<bool> {
        recorded(self.files, SpelledView { path }, ProbeView::IsFile(path))
    }

    /// Whether there is a directory at the path.
    pub open spec fn is_dir(self, path: PathView) -> StepView<bool> {
        recorded(self.dirs, SpelledView { path }, ProbeView::IsDir(path))
    }

    /// The text of the file.
    pub open spec fn text(self, path: PathView) -> StepView<FileTextView> {
        recorded(self.texts, SpelledView { path }, ProbeView::ReadText(path))
    }

    /// The first bytes of the file.
    pub open spec fn head(self, path: PathView) -> StepView<FileHeadView> {
        recorded(self.heads, SpelledView { path }, ProbeView::ReadHead(path))
    }

    /// The entries of the directory.
    pub open spec fn listing(self, path: PathView) -> StepView<Seq<EntryView>> {
        recorded(self.listings, SpelledView { path }, ProbeView::List(path))
    }

    /// The path with its symbolic links resolved.
    pub open spec fn real_path(self, path: PathView) -> StepView<RealPathView> {
        recorded(self.canonical, SpelledView { path }, ProbeView::Canonical(path))
    }

    /// The directories in which programs are looked up.
    pub open spec fn program_dirs(self) -> StepView<Seq<PathView>> {
        match self.search_path {
            Some(dirs) => StepView::Known(dirs),
            None => StepView::Ask(ProbeView::SearchPath),
        }
    }

    /// What Node resolves a package to.
    pub open spec fn resolved(self, query: NodeQueryView) -> StepView<NodeReplyView> {
        recorded(self.node, query, ProbeView::Node(query))
    }

    /// What has been found out, and one answer more.
    pub open spec fn with_answer(self, answer: AnswerView) -> FindingsView {
        match answer {
            AnswerView::Exists(p, v) => FindingsView {
                existing: put(self.existing, SpelledView { path: p }, v),
                ..self
            },
            AnswerView::IsFile(p, v) => FindingsView {
                files: put(self.files, SpelledView { path: p }, v),
                ..self
            },
            AnswerView::IsDir(p, v) => FindingsView {
                dirs: put(self.dirs, SpelledView { path: p }, v),
                ..self
            },
            AnswerView::ReadText(p, v) => FindingsView {
                texts: put(self.texts, SpelledView { path: p }, v),
                ..self
            },
            AnswerView::ReadHead(p, v) => FindingsView {
                heads: put(self.heads, SpelledView { path: p }, v),
                ..self
            },
            AnswerView::List(p, v) => FindingsView {
                listings: put(self.listings, SpelledView { path: p }, v),
                ..self
            },
            AnswerView::Canonical(p, v) => FindingsView {
                canonical: put(self.canonical, SpelledView { path: p }, v),
                ..self
            },
            AnswerView::SearchPath(dirs) => FindingsView { search_path: Some(dirs), ..self },
            AnswerView::Node(q, v) => FindingsView { node: put(self.node, q, v), ..self },
        }
    }

    /// Whether a probe has been answered.
    pub open spec fn answered(self, probe: ProbeView) -> bool {
        match probe {
            ProbeView::Exists(p) => holds(self.existing, SpelledView { path: p }),
            ProbeView::IsFile(p) => holds(self.files, SpelledView { path: p }),
            ProbeView::IsDir(p) => holds(self.dirs, SpelledView { path: p }),
            ProbeView::ReadText(p) => holds(self.texts, SpelledView { path: p }),
            ProbeView::ReadHead(p) => holds(self.heads, SpelledView { path: p }),
            ProbeView::List(p) => holds(self.listings, SpelledView { path: p }),
            ProbeView::Canonical(p) => holds(self.canonical, SpelledView { path: p }),
            ProbeView::SearchPath => self.search_path is Some,
            ProbeView::Node(q) => holds(self.node, q),
        }
    }

    /// Whether everything that has been found out here has been found out there, with the same
    /// answer.
    pub open spec fn within(self, other: FindingsView) -> bool {
        &&& forall|p: SpelledView|
            #![trigger lookup(self.existing, p)]
            #![trigger lookup(other.existing, p)]
            lookup(self.existing, p) is Some ==> lookup(other.existing, p) == lookup(self.existing, p)
        &&& forall|p: SpelledView|
            #![trigger lookup(self.files, p)]
            #![trigger lookup(other.files, p)]
            lookup(self.files, p) is Some ==> lookup(other.files, p) == lookup(self.files, p)
        &&& forall|p: SpelledView|
            #![trigger lookup(self.dirs, p)]
            #![trigger lookup(other.dirs, p)]
            lookup(self.dirs, p) is Some ==> lookup(other.dirs, p) == lookup(self.dirs, p)
        &&& forall|p: SpelledView|
            #![trigger lookup(self.texts, p)]
            #![trigger lookup(other.texts, p)]
            lookup(self.texts, p) is Some ==> lookup(other.texts, p) == lookup(self.texts, p)
        &&& forall|p: SpelledView|
            #![trigger lookup(self.heads, p)]
            #![trigger lookup(other.heads, p)]
            lookup(self.heads, p) is Some ==> lookup(other.heads, p) == lookup(self.heads, p)
        &&& forall|p: SpelledView|
            #![trigger lookup(self.listings, p)]
            #![trigger lookup(other.listings, p)]
            lookup(self.listings, p) is Some ==> lookup(other.listings, p) == lookup(self.listings, p)
        &&& forall|p: SpelledView|
            #![trigger lookup(self.canonical, p)]
            #![trigger lookup(other.canonical, p)]
            lookup(self.canonical, p) is Some ==> lookup(other.canonical, p) == lookup(
                self.canonical,
                p,
            )
        &&& self.search_path is Some ==> other.search_path == self.search_path
        &&& forall|q: NodeQueryView|
            #![trigger lookup(self.node, q)]
            #![trigger lookup(other.node, q)]
            lookup(self.node, q) is Some ==> lookup(other.node, q) == lookup(self.node, q)
    }
}

/// What Node has resolved a package to, if that is a path.
pub open spec fn resolved_path(reply: NodeReplyView, failure: Seq<char>) -> OutcomeView<Seq<char>> {
    match reply {
        NodeReplyView::Missing => OutcomeView::Absent,
        NodeReplyView::Broken => OutcomeView::Failed(failure),
        NodeReplyView::Unresolved(_) => OutcomeView::Absent,
        NodeReplyView::Output(text) => if trimmed(text).len() == 0 {
            OutcomeView::Absent
        } else {
            OutcomeView::Found(trimmed(text))
        },
        NodeReplyView::Garbled(reason) => OutcomeView::Failed(reason),
    }
}

/// What Node has resolved a package to, if that is a path. `failure` says that Node could not be run.
pub fn path_from_node(reply: &NodeReply, failure: String) -> (r: Outcome<String>)
    ensures
        r@ == resolved_path(reply@, failure@),
{
    match reply {
        NodeReply::Missing => Outcome::Absent,
        NodeReply::Broken => Outcome::Failed(failure),
        NodeReply::Unresolved(_) => Outcome::Absent,
        NodeReply::Output(text) => {
            let path = trim(text.as_str());
            if path.as_str().is_empty() {
                Outcome::Absent
            } else {
                Outcome::Found(path)
            }
        },
        NodeReply::Garbled(reason) => Outcome::Failed(reason.clone()),
    }
}

impl Findings {
    /// Nothing has been found out.
    pub fn new() -> (r: Findings)
        ensures
            r@ == (FindingsView {
                existing: seq![],
                files: seq![],
                dirs: seq![],
                texts: seq![],
                heads: seq![],
                listings: seq![],
                canonical: seq![],
                search_path: None,
                node: seq![],
            }),
    {
        Findings {
            existing: Table::new(),
            files: Table::new(),
            dirs: Table::new(),
            texts: Table::new(),
            heads: Table::new(),
            listings: Table::new(),
            canonical: Table::new(),
            search_path: None,
            node: Table::new(),
        }
    }

    /// Records an answer.
    pub fn record(&mut self, answer: Answer)
        ensures
            final(self)@ == old(self)@.with_answer(answer@),
    {
        match answer {
            Answer::Exists(path, exists) => {
                self.existing.insert(Spelled { path }, exists);
            },
            Answer::IsFile(path, is_file) => {
                self.files.insert(Spelled { path }, is_file);
            },
            Answer::IsDir(path, is_dir) => {
                self.dirs.insert(Spelled { path }, is_dir);
            },
            Answer::ReadText(path, text) => {
                self.texts.insert(Spelled { path }, text);
            },
            Answer::ReadHead(path, head) => {
                self.heads.insert(Spelled { path }, head);
            },
            Answer::List(path, listing) => {
                self.listings.insert(Spelled { path }, listing);
            },
            Answer::Canonical(path, resolved) => {
                self.canonical.insert(Spelled { path }, resolved);
            },
            Answer::SearchPath(dirs) => {
                self.search_path = Some(dirs);
            },
            Answer::Node(query, reply) => {
                self.node.insert(query, reply);
            },
        }
    }

    /// Whether something exists at the path.
    pub fn present(&self, path: FsPath) -> (r: Step<bool>)
        ensures
            r@ == self@.present(path@),
    {
        let key = Spelled { path };
        match self.existing.get(&key) {
            Some(b) => Step::Known(*b),
            None => Step::Ask(Probe::Exists(key.path)),
        }
    }

    /// Whether there is a regular file at the path.
    pub fn is_file(&self, path: FsPath) -> (r: Step<bool>)
        ensures
            r@ == self@.is_file(path@),
    {
        let key = Spelled { path };
        match self.files.get(&key) {
            Some(b) => Step::Known(*b),
            None => Step::Ask(Probe::IsFile(key.path)),
        }
    }

    /// Whether there is a directory at the path.
    pub fn is_dir(&self, path: FsPath) -> (r: Step<bool>)
        ensures
            r@ == self@.is_dir(path@),
    {
        let key = Spelled { path };
        match self.dirs.get(&key) {
            Some(b) => Step::Known(*b),
            None => Step::Ask(Probe::IsDir(key.path)),
        }
    }

    /// The text of the file.
    pub fn text(&self, path: FsPath) -> (r: Step<&FileText>)
        ensures
            r@ == self@.text(path@),
    {
        let key = Spelled { path };
        match self.texts.get(&key) {
            Some(text) => Step::Known(text),
            None => Step::Ask(Probe::ReadText(key.path)),
        }
    }

    /// The first bytes of the file.
    pub fn head(&self, path: FsPath) -> (r: Step<&FileHead>)
        ensures
            r@ == self@.head(path@),
    {
        let key = Spelled { path };
        match self.heads.get(&key) {
            Some(head) => Step::Known(head),
            None => Step::Ask(Probe::ReadHead(key.path)),
        }
    }

    /// The entries of the directory.
    pub fn listing(&self, path: FsPath) -> (r: Step<&Listing>)
        ensures
            r@ == self@.listing(path@),
    {
        let key = Spelled { path };
        match self.listings.get(&key) {
            Some(listing) => Step::Known(listing),
            None => Step::Ask(Probe::List(key.path)),
        }
    }

    /// The path with its symbolic links resolved.
    pub fn real_path(&self, path: FsPath) -> (r: Step<&RealPath>)
        ensures
            r@ == self@.real_path(path@),
    {
        let key = Spelled { path };
        match self.canonical.get(&key) {
            Some(found) => Step::Known(found),
            None => Step::Ask(Probe::Canonical(key.path)),
        }
    }

    /// The directories in which programs are looked up.
    pub fn program_dirs(&self) -> (r: Result<&Vec<FsPath>, Probe>)
        ensures
            match r {
                Ok(dirs) => self@.program_dirs() == StepView::Known(each(dirs@)),
                Err(probe) => self@.program_dirs() == StepView::<Seq<PathView>>::Ask(probe@),
            },
    {
        match &self.search_path {
            Some(dirs) => Ok(dirs),
            None => Err(Probe::SearchPath),
        }
    }

    /// What Node resolves a package to.
    pub fn resolved(&self, query: NodeQuery) -> (r: Step<&NodeReply>)
        ensures
            r@ == self@.resolved(query@),
    {
        match self.node.get(&query) {
            Some(reply) => Step::Known(reply),
            None => Step::Ask(Probe::Node(query)),
        }
    }
}

proof fn put_keeps_others<K: Ident, V>(entries: Seq<(K, V)>, key: K, value: V)
    requires
        lookup(entries, key) is None,
    ensures
        holds(put(entries, key, value), key),
        forall|k: K|
            #![trigger lookup(entries, k)]
            #![trigger lookup(put(entries, key, value), k)]
            lookup(entries, k) is Some ==> lookup(put(entries, key, value), k) == lookup(entries, k),
{
    put_then_lookup(entries, key, value, key);
    assert forall|k: K|
        #![trigger lookup(entries, k)]
        #![trigger lookup(put(entries, key, value), k)]
        lookup(entries, k) is Some implies lookup(put(entries, key, value), k) == lookup(
        entries,
        k,
    ) by {
        put_then_lookup(entries, key, value, k);
        if k.ident() == key.ident() {
            same_keys_find_the_same(entries, k, key);
        }
    }
}

/// Recording an answer that was not there answers the probe and keeps every other answer.
pub proof fn recording_keeps_answers(before: FindingsView, answer: AnswerView)
    requires
        !before.answered(answer.probe()),
    ensures
        before.within(before.with_answer(answer)),
        before.with_answer(answer).answered(answer.probe()),
{
    match answer {
        AnswerView::Exists(p, v) => put_keeps_others(before.existing, SpelledView { path: p }, v),
        AnswerView::IsFile(p, v) => put_keeps_others(before.files, SpelledView { path: p }, v),
        AnswerView::IsDir(p, v) => put_keeps_others(before.dirs, SpelledView { path: p }, v),
        AnswerView::ReadText(p, v) => put_keeps_others(before.texts, SpelledView { path: p }, v),
        AnswerView::ReadHead(p, v) => put_keeps_others(before.heads, SpelledView { path: p }, v),
        AnswerView::List(p, v) => put_keeps_others(before.listings, SpelledView { path: p }, v),
        AnswerView::Canonical(p, v) => put_keeps_others(before.canonical, SpelledView { path: p }, v),
        AnswerView::SearchPath(_) => {},
        AnswerView::Node(q, v) => put_keeps_others(before.node, q, v),
    }
}

} // verus!
