//! What the server does for the client: it keeps documents and workspace roots, and formats.

use vstd::prelude::*;
use vstd::relations::sorted_by;
use vstd::string::*;
use crate::json::{json_int, Json, JsonView};
use crate::path::{
    depth_of, lies_under, path_of, path_order, path_order_chains, path_order_is_total, FsPath,
    PathView,
};
use crate::position::{wrapped_document_range, wrapped_range, Range, TextEdit, TextEditView};
use crate::prettier::formatter::{
    format_result, FormatError, FormatErrorView, FormatOutcome, FormatOutcomeView,
};
use crate::sort::{order_of, sort, sorted, sorted_is_ordered};
use crate::table::{lookup, put, put_then_lookup, without, Ident, Key, Table};
use crate::text::{same_text, texts, Order};
use crate::url_text::{path_of_url, url_path};
use crate::views::{each, opt};

verus! {

/// The values without those that are the same as the one before them.
pub open spec fn deduped<A: Ident>(values: Seq<A>) -> Seq<A>
    decreases values.len(),
{
    if values.len() <= 1 {
        values
    } else {
        let rest = deduped(values.drop_last());
        if values.last().ident() == values[values.len() - 2].ident() {
            rest
        } else {
            rest.push(values.last())
        }
    }
}

/// Roots in their order, each once.
pub open spec fn normalized(roots: Seq<PathView>) -> Seq<PathView> {
    deduped(sorted::<FsPath>(roots))
}

/// Puts roots in their order, each once.
pub fn normalize_workspace_roots(roots: Vec<FsPath>) -> (r: Vec<FsPath>)
    ensures
        each(r@) == normalized(each(roots@)),
{
    let ordered = sort(roots);
    let ghost all = each(ordered@);
    let mut out: Vec<FsPath> = Vec::new();
    let mut i: usize = 0;
    proof {
        assert(each(out@) =~= deduped(all.take(0)));
    }
    while i < ordered.len()
        invariant
            i <= ordered@.len(),
            all == each(ordered@),
            each(out@) == deduped(all.take(i as int)),
        decreases ordered@.len() - i,
    {
        let ghost before = each(out@);
        proof {
            assert(all.take(i + 1).drop_last() =~= all.take(i as int));
            assert(all.take(i + 1).last() == all[i as int]);
            if i > 0 {
                assert(all.take(i + 1)[i - 1] == all[i - 1]);
            } else {
                assert(all.take(1) =~= seq![all[0]]);
                assert(all.take(0) =~= Seq::<PathView>::empty());
            }
        }
        let repeated = if i > 0 {
            ordered[i].same(&ordered[i - 1])
        } else {
            false
        };
        if !repeated {
            out.push(ordered[i].clone());
            proof {
                assert(each(out@) =~= before.push(all[i as int]));
            }
        }
        i += 1;
    }
    proof {
        assert(all.take(i as int) =~= all);
    }
    out
}

/// The roots that a client gives: its workspace folders, or else its root, by URI or else by path.
pub open spec fn given_roots(
    folders: Seq<PathView>,
    root_uri: Option<PathView>,
    root_path: Option<Seq<char>>,
) -> Seq<PathView> {
    if folders.len() > 0 {
        folders
    } else {
        match root_uri {
            Some(root) => seq![root],
            None => match root_path {
                Some(text) => seq![path_of(text)],
                None => Seq::empty(),
            },
        }
    }
}

/// The roots that a client gives, where the paths of the URIs are known.
pub fn roots_at(folders: Vec<FsPath>, root_uri: Option<FsPath>, root_path: Option<String>) -> (r: Vec<
    FsPath,
>)
    ensures
        each(r@) == normalized(given_roots(each(folders@), opt(root_uri), opt(root_path))),
{
    let mut roots = folders;
    proof {
        assert(each(roots@).len() == roots@.len());
    }
    if roots.len() == 0 {
        proof {
            assert(each(roots@) =~= Seq::<PathView>::empty());
        }
        if let Some(root) = root_uri {
            roots.push(root);
            proof {
                assert(each(roots@) =~= seq![root@]);
            }
        } else if let Some(text) = root_path {
            roots.push(FsPath::parse(text.as_str()));
            proof {
                assert(each(roots@) =~= seq![path_of(text@)]);
            }
        }
    }
    normalize_workspace_roots(roots)
}

/// What a client says of its workspace.
#[derive(Debug, PartialEq, Eq)]
pub struct WorkspaceParams {
    /// The URIs of the workspace folders.
    pub workspace_folders: Option<Vec<String>>,
    pub root_uri: Option<String>,
    pub root_path: Option<String>,
}

/// The paths of the URIs that name files.
pub open spec fn paths_of(uris: Seq<Seq<char>>) -> Seq<PathView>
    decreases uris.len(),
{
    if uris.len() == 0 {
        Seq::empty()
    } else {
        let rest = paths_of(uris.drop_last());
        match url_path(uris.last()) {
            Some(path) => rest.push(path),
            None => rest,
        }
    }
}

fn file_paths(uris: &Vec<String>) -> (r: Vec<FsPath>)
    ensures
        each(r@) == paths_of(each(uris@)),
{
    let ghost all = each(uris@);
    let mut out: Vec<FsPath> = Vec::new();
    let mut i: usize = 0;
    proof {
        assert(each(out@) =~= paths_of(all.take(0)));
    }
    while i < uris.len()
        invariant
            i <= uris@.len(),
            all == each(uris@),
            each(out@) == paths_of(all.take(i as int)),
        decreases uris@.len() - i,
    {
        let ghost before = each(out@);
        proof {
            assert(all.take(i + 1).drop_last() =~= all.take(i as int));
            assert(all.take(i + 1).last() == uris@[i as int]@);
        }
        if let Some(path) = path_of_url(uris[i].as_str()) {
            out.push(path);
            proof {
                assert(each(out@) =~= before.push(path@));
            }
        }
        i += 1;
    }
    proof {
        assert(all.take(i as int) =~= all);
    }
    out
}

/// The path of a URI that names a file.
pub open spec fn path_of_uri(uri: Option<Seq<char>>) -> Option<PathView> {
    match uri {
        Some(uri) => url_path(uri),
        None => None,
    }
}

/// The paths of the workspace folders.
pub open spec fn folder_paths(params: WorkspaceParams) -> Seq<PathView> {
    match params.workspace_folders {
        Some(folders) => paths_of(each(folders@)),
        None => Seq::empty(),
    }
}

/// The roots that a client gives.
pub fn extract_workspace_roots(params: &WorkspaceParams) -> (r: Vec<FsPath>)
    ensures
        each(r@) == normalized(
            given_roots(
                folder_paths(*params),
                path_of_uri(opt(params.root_uri)),
                opt(params.root_path),
            ),
        ),
{
    let folders = match &params.workspace_folders {
        Some(folders) => file_paths(folders),
        None => {
            let folders: Vec<FsPath> = Vec::new();
            proof {
                assert(each(folders@) =~= Seq::<PathView>::empty());
            }
            folders
        },
    };
    let root_uri = match &params.root_uri {
        Some(uri) => path_of_url(uri.as_str()),
        None => None,
    };
    let root_path = match &params.root_path {
        Some(text) => Some(text.clone()),
        None => None,
    };
    roots_at(folders, root_uri, root_path)
}

/// Whether a path is among these, however it is spelled.
pub open spec fn among(path: PathView, paths: Seq<PathView>) -> bool {
    exists|i: int| 0 <= i < paths.len() && (#[trigger] paths[i]).ident() == path.ident()
}

/// The paths that are not among these.
pub open spec fn not_among(paths: Seq<PathView>) -> spec_fn(PathView) -> bool {
    |path: PathView| !among(path, paths)
}

/// The roots without those that are removed.
pub open spec fn remaining(roots: Seq<PathView>, removed: Seq<PathView>) -> Seq<PathView> {
    roots.filter(not_among(removed))
}

/// The roots once folders have been removed and others added.
pub open spec fn changed_roots(
    roots: Seq<PathView>,
    removed: Seq<PathView>,
    added: Seq<PathView>,
) -> Seq<PathView> {
    normalized(remaining(roots, removed) + added)
}

fn is_among(path: &FsPath, paths: &Vec<FsPath>) -> (r: bool)
    ensures
        r == among(path@, each(paths@)),
{
    let ghost all = each(paths@);
    let mut i: usize = 0;
    while i < paths.len()
        invariant
            i <= paths@.len(),
            all == each(paths@),
            forall|j: int| 0 <= j < i ==> (#[trigger] all[j]).ident() != path@.ident(),
        decreases paths@.len() - i,
    {
        if paths[i].same(path) {
            proof {
                assert(all[i as int].ident() == path@.ident());
            }
            return true;
        }
        proof {
            assert(all[i as int] == paths@[i as int]@);
        }
        i += 1;
    }
    false
}

/// The roots once folders have been removed and others added, where the paths are known.
pub fn change_roots(roots: &Vec<FsPath>, removed: &Vec<FsPath>, added: Vec<FsPath>) -> (r: Vec<
    FsPath,
>)
    ensures
        each(r@) == changed_roots(each(roots@), each(removed@), each(added@)),
{
    let ghost all = each(roots@);
    let ghost kept = not_among(each(removed@));
    let mut out: Vec<FsPath> = Vec::new();
    let mut i: usize = 0;
    proof {
        reveal(Seq::filter);
        assert(each(out@) =~= all.take(0).filter(kept));
    }
    while i < roots.len()
        invariant
            i <= roots@.len(),
            all == each(roots@),
            kept == not_among(each(removed@)),
            each(out@) == all.take(i as int).filter(kept),
        decreases roots@.len() - i,
    {
        let ghost before = each(out@);
        proof {
            assert(all.take(i + 1).drop_last() =~= all.take(i as int));
            assert(all.take(i + 1).last() == roots@[i as int]@);
            reveal(Seq::filter);
        }
        if !is_among(&roots[i], removed) {
            out.push(roots[i].clone());
            proof {
                assert(each(out@) =~= before.push(all[i as int]));
            }
        }
        i += 1;
    }
    proof {
        assert(all.take(i as int) =~= all);
        assert(each(out@) == remaining(all, each(removed@)));
    }
    let ghost left = each(out@);
    let ghost more = each(added@);
    let mut added = added;
    out.append(&mut added);
    proof {
        assert(each(out@) =~= left + more);
    }
    normalize_workspace_roots(out)
}

/// Applies a change of workspace folders, given by their URIs.
pub fn apply_workspace_folder_change(
    roots: &Vec<FsPath>,
    removed: &Vec<String>,
    added: &Vec<String>,
) -> (r: Vec<FsPath>)
    ensures
        each(r@) == changed_roots(
            each(roots@),
            paths_of(each(removed@)),
            paths_of(each(added@)),
        ),
{
    let removed = file_paths(removed);
    let added = file_paths(added);
    change_roots(roots, &removed, added)
}

/// The deepest root that a file lies under, and of several the last.
pub open spec fn deepest_root(roots: Seq<PathView>, file_path: PathView) -> Option<PathView>
    decreases roots.len(),
{
    if roots.len() == 0 {
        None
    } else {
        let rest = deepest_root(roots.drop_last(), file_path);
        let last = roots.last();
        if lies_under(file_path, last) && (rest is None || depth_of(last) >= depth_of(rest->0)) {
            Some(last)
        } else {
            rest
        }
    }
}

/// The deepest root that a file lies under.
pub fn workspace_root_for(roots: &Vec<FsPath>, file_path: &FsPath) -> (r: Option<FsPath>)
    ensures
        opt(r) == deepest_root(each(roots@), file_path@),
{
    let ghost all = each(roots@);
    let mut best: Option<FsPath> = None;
    let mut i: usize = 0;
    proof {
        assert(all.take(0).len() == 0);
    }
    while i < roots.len()
        invariant
            i <= roots@.len(),
            all == each(roots@),
            opt(best) == deepest_root(all.take(i as int), file_path@),
        decreases roots@.len() - i,
    {
        proof {
            assert(all.take(i + 1).drop_last() =~= all.take(i as int));
            assert(all.take(i + 1).last() == roots@[i as int]@);
        }
        if file_path.starts_with(&roots[i]) {
            let better = match &best {
                Some(root) => roots[i].is_as_deep_as(root),
                None => true,
            };
            if better {
                best = Some(roots[i].clone());
            }
        }
        i += 1;
    }
    proof {
        assert(all.take(i as int) =~= all);
    }
    best
}

/// What a request to format comes to.
#[derive(Debug, PartialEq, Eq)]
pub enum FormatWork {
    /// The request names no file: this is answered.
    NotAFile(String),
    /// The text of the file is to be read first.
    Read(FsPath),
    /// The file is to be formatted with this text.
    Ready(FormatRequest),
}

/// A file to be formatted.
#[derive(Debug, PartialEq, Eq)]
pub struct FormatRequest {
    pub file_path: FsPath,
    pub source: String,
    pub workspace_root: Option<FsPath>,
}

/// A file to be formatted.
#[verifier::ext_equal]
pub struct FormatRequestView {
    pub file_path: PathView,
    pub source: Seq<char>,
    pub workspace_root: Option<PathView>,
}

impl View for FormatRequest {
    type V = FormatRequestView;

    open spec fn view(&self) -> FormatRequestView {
        FormatRequestView {
            file_path: self.file_path@,
            source: self.source@,
            workspace_root: opt(self.workspace_root),
        }
    }
}

/// What a request to format comes to.
#[verifier::ext_equal]
pub enum FormatWorkView {
    NotAFile(Seq<char>),
    Read(PathView),
    Ready(FormatRequestView),
}

impl View for FormatWork {
    type V = FormatWorkView;

    open spec fn view(&self) -> FormatWorkView {
        match self {
            FormatWork::NotAFile(message) => FormatWorkView::NotAFile(message@),
            FormatWork::Read(path) => FormatWorkView::Read(path@),
            FormatWork::Ready(request) => FormatWorkView::Ready(request@),
        }
    }
}

/// How a request to format is answered.
#[derive(Debug, PartialEq, Eq)]
pub enum FormatAnswer {
    /// With these edits.
    Edits(Vec<TextEdit>),
    /// With an internal error, after this has been shown.
    Failed(String),
}

/// How a request to format is answered.
#[verifier::ext_equal]
pub enum FormatAnswerView {
    Edits(Seq<TextEditView>),
    Failed(Seq<char>),
}

impl View for FormatAnswer {
    type V = FormatAnswerView;

    open spec fn view(&self) -> FormatAnswerView {
        match self {
            FormatAnswer::Edits(edits) => FormatAnswerView::Edits(each(edits@)),
            FormatAnswer::Failed(message) => FormatAnswerView::Failed(message@),
        }
    }
}

/// How a request to format is answered: there is no edit for files that are formatted already, that
/// are ignored or not supported, and where there is no Prettier.
pub open spec fn answer(
    source: Seq<char>,
    result: Result<FormatOutcomeView, FormatErrorView>,
) -> FormatAnswerView {
    match result {
        Ok(FormatOutcomeView::Formatted(formatted)) => if formatted == source {
            FormatAnswerView::Edits(Seq::empty())
        } else {
            FormatAnswerView::Edits(
                seq![TextEditView { range: wrapped_range(source), new_text: formatted }],
            )
        },
        Ok(_) => FormatAnswerView::Edits(Seq::empty()),
        Err(error) => if error.unavailable {
            FormatAnswerView::Edits(Seq::empty())
        } else {
            FormatAnswerView::Failed(error.message)
        },
    }
}

fn no_edits() -> (r: FormatAnswer)
    ensures
        r@ == FormatAnswerView::Edits(Seq::empty()),
{
    let edits: Vec<TextEdit> = Vec::new();
    proof {
        assert(each(edits@) =~= Seq::<TextEditView>::empty());
    }
    FormatAnswer::Edits(edits)
}

/// How a request to format is answered.
pub fn format_answer(source: &str, result: Result<FormatOutcome, FormatError>) -> (r: FormatAnswer)
    ensures
        r@ == answer(source@, format_result(result)),
{
    match result {
        Ok(FormatOutcome::Formatted(formatted)) => {
            if same_text(formatted.as_str(), source) {
                return no_edits();
            }
            let mut edits: Vec<TextEdit> = Vec::new();
            edits.push(
                TextEdit { range: wrapped_document_range(source), new_text: formatted },
            );
            proof {
                assert(each(edits@) =~= seq![
                    TextEditView { range: wrapped_range(source@), new_text: formatted@ },
                ]);
            }
            FormatAnswer::Edits(edits)
        },
        Ok(_) => no_edits(),
        Err(error) => {
            if error.is_unavailable() {
                no_edits()
            } else {
                FormatAnswer::Failed(error.to_text())
            }
        },
    }
}

/// The range of a whole document.
pub fn full_document_range(text: &str) -> (r: Range)
    ensures
        r == wrapped_range(text@),
{
    wrapped_document_range(text)
}

/// The open documents and the workspace's roots.
#[derive(Debug)]
pub struct State {
    pub documents: Table<String, String>,
    pub workspace_roots: Vec<FsPath>,
}

/// The open documents and the workspace's roots.
#[verifier::ext_equal]
pub struct StateView {
    pub documents: Seq<(Seq<char>, Seq<char>)>,
    pub workspace_roots: Seq<PathView>,
}

impl View for State {
    type V = StateView;

    open spec fn view(&self) -> StateView {
        StateView {
            documents: self.documents@,
            workspace_roots: each(self.workspace_roots@),
        }
    }
}

impl StateView {
    /// A document that has been opened with a text, or has got another.
    pub open spec fn opened(self, uri: Seq<char>, text: Seq<char>) -> StateView {
        StateView { documents: put(self.documents, uri, text), ..self }
    }

    /// A document that has been changed, where the last change is the whole text.
    pub open spec fn changed(self, uri: Seq<char>, changes: Seq<Seq<char>>) -> StateView {
        if changes.len() == 0 {
            self
        } else {
            self.opened(uri, changes.last())
        }
    }

    /// A document that has been closed.
    pub open spec fn closed(self, uri: Seq<char>) -> StateView {
        StateView { documents: without(self.documents, uri), ..self }
    }

    /// A file whose text has been read, to be formatted.
    pub open spec fn read_request(self, file_path: PathView, source: Seq<char>) -> FormatRequestView {
        FormatRequestView {
            file_path,
            source,
            workspace_root: deepest_root(self.workspace_roots, file_path),
        }
    }
}

/// What a request to format comes to, where the path that its URI names is known. An open document is
/// formatted as the client has it.
pub open spec fn format_work(s: StateView, uri: Seq<char>, path: Option<PathView>) -> FormatWorkView {
    match path {
        None => FormatWorkView::NotAFile("prettier-lsp only supports file URIs"@),
        Some(file_path) => match lookup(s.documents, uri) {
            None => FormatWorkView::Read(file_path),
            Some(source) => FormatWorkView::Ready(
                FormatRequestView {
                    file_path,
                    source,
                    workspace_root: deepest_root(s.workspace_roots, file_path),
                },
            ),
        },
    }
}

/// What the server can do.
pub open spec fn capabilities() -> JsonView {
    JsonView::Object(
        seq![
            ("textDocumentSync"@, json_int(1)),
            ("documentFormattingProvider"@, JsonView::Bool(true)),
            (
                "workspace"@,
                JsonView::Object(
                    seq![
                        (
                            "workspaceFolders"@,
                            JsonView::Object(
                                seq![
                                    ("supported"@, JsonView::Bool(true)),
                                    ("changeNotifications"@, JsonView::Bool(true)),
                                ],
                            ),
                        ),
                    ],
                ),
            ),
        ],
    )
}

/// The answer to `initialize`: whole documents are synchronised, formatting is offered, and changes
/// of workspace folders are followed.
pub fn initialize_result() -> (r: Json)
    ensures
        r@ == JsonView::Object(seq![("capabilities"@, capabilities())]),
{
    let folders = Json::object2(
        "supported",
        Json::Bool(true),
        "changeNotifications",
        Json::Bool(true),
    );
    let workspace = Json::object1("workspaceFolders", folders);
    let abilities = Json::object(
        vec![
            ("textDocumentSync".to_owned(), Json::whole(1)),
            ("documentFormattingProvider".to_owned(), Json::Bool(true)),
            ("workspace".to_owned(), workspace),
        ],
    );
    proof {
        assert(abilities@->Object_0 =~= capabilities()->Object_0);
    }
    Json::object1("capabilities", abilities)
}

impl State {
    /// No document is open, and no root is known.
    pub fn new() -> (r: State)
        ensures
            r@ == (StateView { documents: Seq::empty(), workspace_roots: Seq::empty() }),
    {
        let r = State { documents: Table::new(), workspace_roots: Vec::new() };
        proof {
            assert(each(r.workspace_roots@) =~= Seq::<PathView>::empty());
        }
        r
    }

    /// Takes what the client says of its workspace.
    pub fn initialize(&mut self, params: &WorkspaceParams)
        ensures
            final(self)@ == (StateView {
                workspace_roots: normalized(
                    given_roots(
                        folder_paths(*params),
                        path_of_uri(opt(params.root_uri)),
                        opt(params.root_path),
                    ),
                ),
                ..old(self)@
            }),
    {
        self.workspace_roots = extract_workspace_roots(params);
    }

    /// Takes a change of workspace folders.
    pub fn did_change_workspace_folders(&mut self, removed: &Vec<String>, added: &Vec<String>)
        ensures
            final(self)@ == (StateView {
                workspace_roots: changed_roots(
                    old(self)@.workspace_roots,
                    paths_of(each(removed@)),
                    paths_of(each(added@)),
                ),
                ..old(self)@
            }),
    {
        self.workspace_roots = apply_workspace_folder_change(
            &self.workspace_roots,
            removed,
            added,
        );
    }

    /// Takes a document that has been opened.
    pub fn did_open(&mut self, uri: String, text: String)
        ensures
            final(self)@ == old(self)@.opened(uri@, text@),
    {
        self.documents.insert(uri, text);
    }

    /// Takes changes of a document, of which the last is the whole text.
    pub fn did_change(&mut self, uri: String, changes: Vec<String>)
        ensures
            final(self)@ == old(self)@.changed(uri@, texts(changes@)),
    {
        proof {
            if changes@.len() > 0 {
                assert(texts(changes@).last() == changes@.last()@);
            }
        }
        let mut changes = changes;
        if let Some(text) = changes.pop() {
            self.documents.insert(uri, text);
        }
    }

    /// Takes that a document has been closed.
    pub fn did_close(&mut self, uri: &String)
        ensures
            final(self)@ == old(self)@.closed(uri@),
    {
        let _ = self.documents.remove(uri);
    }

    /// What a request to format comes to, where the path that its URI names is known.
    pub fn format_work_at(&self, uri: &String, path: Option<FsPath>) -> (r: FormatWork)
        ensures
            r@ == format_work(self@, uri@, opt(path)),
    {
        let file_path = match path {
            None => {
                return FormatWork::NotAFile("prettier-lsp only supports file URIs".to_owned());
            },
            Some(path) => path,
        };
        let source = match self.documents.get(uri) {
            None => {
                return FormatWork::Read(file_path);
            },
            Some(source) => source.clone(),
        };
        let workspace_root = workspace_root_for(&self.workspace_roots, &file_path);
        FormatWork::Ready(FormatRequest { file_path, source, workspace_root })
    }

    /// What a request to format comes to.
    pub fn formatting(&self, uri: &String) -> (r: FormatWork)
        ensures
            r@ == format_work(self@, uri@, url_path(uri@)),
    {
        let path = path_of_url(uri.as_str());
        self.format_work_at(uri, path)
    }

    /// The file to be formatted, where its text has been read.
    pub fn with_source(&self, file_path: FsPath, source: String) -> (r: FormatRequest)
        ensures
            r@ == self@.read_request(file_path@, source@),
    {
        let workspace_root = workspace_root_for(&self.workspace_roots, &file_path);
        FormatRequest { file_path, source, workspace_root }
    }
}

proof fn deduped_keeps_ends(values: Seq<PathView>)
    requires
        values.len() > 0,
    ensures
        deduped(values).len() > 0,
        deduped(values).last().ident() == values.last().ident(),
    decreases values.len(),
{
    if values.len() > 1 {
        deduped_keeps_ends(values.drop_last());
    }
}

proof fn deduped_is_strict(values: Seq<PathView>)
    requires
        sorted_by(values, order_of::<FsPath>()),
    ensures
        forall|i: int, j: int|
            0 <= i < j < deduped(values).len() ==> path_order(
                #[trigger] deduped(values)[i],
                #[trigger] deduped(values)[j],
            ) == Order::Before,
        forall|p: PathView| #[trigger] among(p, deduped(values)) <==> among(p, values),
        forall|p: PathView| #[trigger] deduped(values).contains(p) ==> values.contains(p),
    decreases values.len(),
{
    if values.len() > 1 {
        let rest = values.drop_last();
        let le = order_of::<FsPath>();
        assert forall|i: int, j: int| 0 <= i < j < rest.len() implies (#[trigger] le(
            rest[i],
            rest[j],
        )) by {
            assert(le(values[i], values[j]));
        }
        deduped_is_strict(rest);
        deduped_keeps_ends(rest);
        let last = values.last();
        let before = values[values.len() - 2];
        assert(rest.last() == before);
        let out = deduped(values);
        let short = deduped(rest);
        if last.ident() != before.ident() {
            assert forall|i: int| 0 <= i < short.len() implies path_order(
                #[trigger] short[i],
                last,
            ) == Order::Before by {
                let end = short[short.len() - 1];
                assert(le(before, last));
                path_order_is_total(end, before);
                path_order_is_total(before, last);
                path_order_chains(end, before, last);
                path_order_is_total(end, last);
                path_order_is_total(short[i], last);
                if i < short.len() - 1 {
                    path_order_chains(short[i], end, last);
                    if short[i].ident() == last.ident() {
                        path_order_is_total(last, short[i]);
                        path_order_chains(last, short[i], end);
                    }
                }
            }
        }
        assert forall|p: PathView| #[trigger] among(p, out) <==> among(p, values) by {
            if among(p, values) {
                let i = choose|i: int|
                    0 <= i < values.len() && (#[trigger] values[i]).ident() == p.ident();
                if i < values.len() - 1 || last.ident() == before.ident() {
                    let k = if i < values.len() - 1 {
                        i
                    } else {
                        i - 1
                    };
                    assert(rest[k].ident() == p.ident());
                    assert(among(p, short));
                    let j = choose|j: int|
                        0 <= j < short.len() && (#[trigger] short[j]).ident() == p.ident();
                    assert(out[j].ident() == p.ident());
                } else {
                    assert(out[out.len() - 1].ident() == p.ident());
                }
            }
            if among(p, out) {
                let j = choose|j: int|
                    0 <= j < out.len() && (#[trigger] out[j]).ident() == p.ident();
                if j < short.len() {
                    assert(short[j].ident() == p.ident());
                    assert(among(p, short));
                    assert(among(p, rest));
                    let i = choose|i: int|
                        0 <= i < rest.len() && (#[trigger] rest[i]).ident() == p.ident();
                    assert(values[i].ident() == p.ident());
                } else {
                    assert(values[values.len() - 1].ident() == p.ident());
                }
            }
        }
        assert forall|p: PathView| #[trigger] out.contains(p) implies values.contains(p) by {
            let j = choose|j: int| 0 <= j < out.len() && out[j] == p;
            if j < short.len() {
                assert(short[j] == p);
                assert(short.contains(p));
                let i = choose|i: int| 0 <= i < rest.len() && rest[i] == p;
                assert(values[i] == p);
            } else {
                assert(values[values.len() - 1] == p);
            }
        }
    }
}

/// Normalised roots stand in their order, none stands twice, and they are the same roots, each as it
/// was spelled.
pub proof fn normalized_roots_are_in_order(roots: Seq<PathView>)
    ensures
        forall|i: int, j: int|
            0 <= i < j < normalized(roots).len() ==> path_order(
                #[trigger] normalized(roots)[i],
                #[trigger] normalized(roots)[j],
            ) == Order::Before,
        forall|p: PathView| #[trigger] among(p, normalized(roots)) <==> among(p, roots),
        forall|p: PathView| #[trigger] normalized(roots).contains(p) ==> roots.contains(p),
{
    sorted_is_ordered::<FsPath>(roots);
    let ordered = sorted::<FsPath>(roots);
    deduped_is_strict(ordered);
    assert forall|p: PathView| #[trigger] normalized(roots).contains(p) implies roots.contains(
        p,
    ) by {
        assert(ordered.contains(p));
    }
    assert forall|p: PathView| #[trigger] among(p, normalized(roots)) <==> among(p, roots) by {
        assert(among(p, ordered) <==> among(p, roots)) by {
            if among(p, ordered) {
                let i = choose|i: int|
                    0 <= i < ordered.len() && (#[trigger] ordered[i]).ident() == p.ident();
                assert(ordered.contains(ordered[i]));
                assert(roots.contains(ordered[i]));
            }
            if among(p, roots) {
                let i = choose|i: int|
                    0 <= i < roots.len() && (#[trigger] roots[i]).ident() == p.ident();
                assert(roots.contains(roots[i]));
                assert(ordered.contains(roots[i]));
            }
        }
    }
}

/// After a change of workspace folders the roots are those that were not removed, and those that were
/// added.
pub proof fn changed_roots_are_exact(
    roots: Seq<PathView>,
    removed: Seq<PathView>,
    added: Seq<PathView>,
    p: PathView,
)
    ensures
        among(p, changed_roots(roots, removed, added)) <==> (among(p, roots) && !among(p, removed))
            || among(p, added),
{
    broadcast use vstd::seq_lib::group_filter_ensures;

    let left = remaining(roots, removed);
    let kept = not_among(removed);
    normalized_roots_are_in_order(left + added);
    assert(among(p, left) <==> among(p, roots) && !among(p, removed)) by {
        if among(p, roots) && !among(p, removed) {
            let i = choose|i: int|
                0 <= i < roots.len() && (#[trigger] roots[i]).ident() == p.ident();
            assert(kept(roots[i]));
            assert(left.contains(roots[i]));
        }
        if among(p, left) {
            let i = choose|i: int|
                0 <= i < left.len() && (#[trigger] left[i]).ident() == p.ident();
            assert(kept(left[i]));
            roots.lemma_filter_contains_rev(kept, left[i]);
        }
    }
    assert(among(p, left + added) <==> among(p, left) || among(p, added)) by {
        if among(p, left) {
            let i = choose|i: int|
                0 <= i < left.len() && (#[trigger] left[i]).ident() == p.ident();
            assert((left + added)[i].ident() == p.ident());
        }
        if among(p, added) {
            let i = choose|i: int|
                0 <= i < added.len() && (#[trigger] added[i]).ident() == p.ident();
            assert((left + added)[left.len() + i].ident() == p.ident());
        }
        if among(p, left + added) {
            let i = choose|i: int|
                0 <= i < (left + added).len() && (#[trigger] (left + added)[i]).ident()
                    == p.ident();
            if i < left.len() {
                assert(left[i].ident() == p.ident());
            } else {
                assert(added[i - left.len()].ident() == p.ident());
            }
        }
    }
}

/// The root that is taken for a file is one that the file lies under, and none that it lies under is
/// deeper. There is one whenever the file lies under a root.
pub proof fn the_deepest_root_is_taken(roots: Seq<PathView>, file_path: PathView)
    ensures
        match deepest_root(roots, file_path) {
            Some(root) => roots.contains(root) && lies_under(file_path, root) && (forall|i: int|
                0 <= i < roots.len() && lies_under(file_path, #[trigger] roots[i]) ==> depth_of(
                    roots[i],
                ) <= depth_of(root)),
            None => forall|i: int|
                0 <= i < roots.len() ==> !lies_under(file_path, #[trigger] roots[i]),
        },
    decreases roots.len(),
{
    if roots.len() > 0 {
        let rest = roots.drop_last();
        the_deepest_root_is_taken(rest, file_path);
        assert forall|i: int| 0 <= i < roots.len() - 1 implies roots[i] == rest[i] by {
        }
        assert(roots[roots.len() - 1] == roots.last());
        if let Some(root) = deepest_root(rest, file_path) {
            let i = choose|i: int| 0 <= i < rest.len() && rest[i] == root;
            assert(roots[i] == root);
        }
    }
}

/// What is formatted of an open document is the text that was given last.
pub proof fn the_latest_text_is_formatted(
    s: StateView,
    uri: Seq<char>,
    text: Seq<char>,
    path: PathView,
)
    ensures
        format_work(
            StateView { documents: put(s.documents, uri, text), ..s },
            uri,
            Some(path),
        ) matches FormatWorkView::Ready(request) && request.source == text,
{
    put_then_lookup(s.documents, uri, text, uri);
}

/// Files that are ignored or not supported get no edits, and neither do files that are formatted
/// already.
pub proof fn nothing_to_format_gives_no_edits(source: Seq<char>)
    ensures
        answer(source, Ok(FormatOutcomeView::Ignored)) == FormatAnswerView::Edits(Seq::empty()),
        answer(source, Ok(FormatOutcomeView::Unsupported)) == FormatAnswerView::Edits(Seq::empty()),
        answer(source, Ok(FormatOutcomeView::Formatted(source))) == FormatAnswerView::Edits(
            Seq::empty(),
        ),
{
}

} // verus!
