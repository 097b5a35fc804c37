//! What holds of formatting whatever is found on disk and whatever the worker says.

use vstd::prelude::*;
use crate::disk::{FindingsView, OutcomeView, StepView};
use crate::json::{json_get, JsonView};
use crate::json_laws::{members_are_found_by_name, whole_numbers_have_their_value};
use crate::path::{
    ancestor_begins_the_path, ancestors_of, child_of, lies_under, parent_of, path_of, PathView,
};
use crate::position::wrapped_range;
use crate::prettier::backend::{
    answer, capabilities, deepest_root, format_work, given_roots, paths_of, FormatAnswerView,
    FormatWorkView, StateView,
};
use crate::prettier::formatter::{
    after_exchange, after_first, after_second, directory_of, first_boundary, judged,
    mapped_response, worker_arguments, workspace_dir, ExchangeView, FormatOutcomeView,
    FormatStepView, NodeBridgeResponseView,
};
use crate::table::{keys_differ, lookup, put_lookups, without_lookups};
use crate::url_text::url_path;

verus! {

/// Whether packages are known to be installed in a directory: it has a manifest, or a directory of
/// installed packages.
pub open spec fn has_packages(f: FindingsView, dir: PathView) -> bool {
    f.is_file(child_of(dir, "package.json"@)) == StepView::Known(true) || f.is_dir(
        child_of(dir, "node_modules"@),
    ) == StepView::Known(true)
}

/// Whether no packages are known to be installed in a directory.
pub open spec fn has_no_packages(f: FindingsView, dir: PathView) -> bool {
    f.is_file(child_of(dir, "package.json"@)) == StepView::Known(false) && f.is_dir(
        child_of(dir, "node_modules"@),
    ) == StepView::Known(false)
}

/// Whether a directory is searched: where the file lies in the workspace, so must the directory.
pub open spec fn searched(own: PathView, root: Option<PathView>, dir: PathView) -> bool {
    root is Some && lies_under(own, root->0) ==> lies_under(dir, root->0)
}

proof fn first_boundary_is_nearest(
    f: FindingsView,
    dirs: Seq<PathView>,
    root: Option<PathView>,
    i: int,
)
    requires
        0 <= i < dirs.len(),
        forall|j: int| 0 <= j <= i ==> (root is Some ==> lies_under(#[trigger] dirs[j], root->0)),
        first_boundary(f, dirs, root) is Known,
    ensures
        first_boundary(f, dirs, root)->Known_0 matches OutcomeView::Found(dir) ==> exists|k: int|
            0 <= k < dirs.len() && #[trigger] dirs[k] == dir && has_packages(f, dir) && forall|
                j: int,
            |
                0 <= j < k ==> has_no_packages(f, #[trigger] dirs[j]),
        !(first_boundary(f, dirs, root)->Known_0 is Found) ==> has_no_packages(f, dirs[i]),
        has_packages(f, dirs[i]) ==> (first_boundary(
            f,
            dirs,
            root,
        )->Known_0 matches OutcomeView::Found(dir) && exists|k: int|
            0 <= k <= i && #[trigger] dirs[k] == dir && has_packages(f, dir) && forall|j: int|
                0 <= j < k ==> has_no_packages(f, #[trigger] dirs[j])),
    decreases dirs.len(),
{
    assert(root is Some ==> lies_under(dirs[0], root->0));
    if has_no_packages(f, dirs[0]) && dirs.len() > 1 {
        let rest = dirs.drop_first();
        assert forall|j: int| 0 <= j < rest.len() implies #[trigger] rest[j] == dirs[j + 1] by {
        }
        if i > 0 {
            assert forall|j: int| 0 <= j <= i - 1 && root is Some implies lies_under(
                #[trigger] rest[j],
                root->0,
            ) by {
                assert(rest[j] == dirs[j + 1]);
            }
            first_boundary_is_nearest(f, rest, root, i - 1);
        }
        if i == 0 {
            if !(root is Some && !lies_under(rest[0], root->0)) {
                first_boundary_is_nearest(f, rest, root, 0);
            }
        }
        if first_boundary(f, rest, root)->Known_0 is Found {
            let dir = first_boundary(f, rest, root)->Known_0->Found_0;
            let k = choose|k: int|
                0 <= k < rest.len() && #[trigger] rest[k] == dir && has_packages(f, dir) && forall|
                    j: int,
                |
                    0 <= j < k ==> has_no_packages(f, #[trigger] rest[j]);
            assert(dirs[k + 1] == dir);
            assert forall|j: int| 0 <= j < k + 1 implies has_no_packages(
                f,
                #[trigger] dirs[j],
            ) by {
                if j > 0 {
                    assert(rest[j - 1] == dirs[j]);
                }
            }
            if i > 0 && has_packages(f, dirs[i]) {
                assert(rest[i - 1] == dirs[i]);
                if k + 1 > i {
                    assert(has_no_packages(f, dirs[i]));
                }
            }
        }
    } else {
        assert(has_packages(f, dirs[0]) ==> dirs[0] == dirs[0] && forall|j: int|
            0 <= j < 0 ==> has_no_packages(f, #[trigger] dirs[j]));
        if dirs.len() == 1 && has_no_packages(f, dirs[0]) {
            assert(dirs.drop_first().len() == 0);
        }
    }
}

/// Prettier runs in the nearest directory with packages: where a directory above the file that is
/// searched has a manifest or installed packages, the directory that is found is that one or one
/// between it and the file, packages are installed in it, and none are in the directories between it
/// and the file.
pub proof fn prettier_runs_in_the_nearest_package(
    f: FindingsView,
    file_path: PathView,
    root: Option<PathView>,
    i: int,
)
    requires
        workspace_dir(f, file_path, root) is Known,
        0 <= i < ancestors_of(directory_of(file_path)).len(),
        forall|j: int|
            0 <= j <= i ==> searched(
                directory_of(file_path),
                root,
                #[trigger] ancestors_of(directory_of(file_path))[j],
            ),
        f.is_file(child_of(ancestors_of(directory_of(file_path))[i], "package.json"@))
            == StepView::Known(true) || f.is_dir(
            child_of(ancestors_of(directory_of(file_path))[i], "node_modules"@),
        ) == StepView::Known(true),
    ensures
        ({
            let dirs = ancestors_of(directory_of(file_path));
            let found = workspace_dir(f, file_path, root)->Known_0;
            exists|k: int|
                0 <= k <= i && #[trigger] dirs[k] == found && has_packages(f, found) && forall|
                    j: int,
                |
                    0 <= j < k ==> has_no_packages(f, #[trigger] dirs[j])
        }),
{
    let own = directory_of(file_path);
    let dirs = ancestors_of(own);
    let bound = if root is Some && lies_under(own, root->0) {
        root
    } else {
        None
    };
    first_boundary_is_nearest(f, dirs, bound, i);
}

/// Where none of the directories that are searched has packages, Prettier runs in the workspace's root
/// if the file lies in it, and else in the file's own directory.
pub proof fn without_packages_prettier_runs_at_the_root(
    f: FindingsView,
    file_path: PathView,
    root: Option<PathView>,
)
    requires
        workspace_dir(f, file_path, root) is Known,
        forall|j: int|
            0 <= j < ancestors_of(directory_of(file_path)).len() && searched(
                directory_of(file_path),
                root,
                ancestors_of(directory_of(file_path))[j],
            ) ==> !has_packages(f, #[trigger] ancestors_of(directory_of(file_path))[j]),
    ensures
        ({
            let own = directory_of(file_path);
            let found = workspace_dir(f, file_path, root)->Known_0;
            &&& root is Some && lies_under(own, root->0) ==> found == root->0
            &&& root is None || !lies_under(own, root->0) ==> found == own
        }),
{
    let own = directory_of(file_path);
    let dirs = ancestors_of(own);
    let bound = if root is Some && lies_under(own, root->0) {
        root
    } else {
        None
    };
    found_is_searched(f, dirs, bound);
}

proof fn found_is_searched(f: FindingsView, dirs: Seq<PathView>, root: Option<PathView>)
    requires
        first_boundary(f, dirs, root) is Known,
    ensures
        first_boundary(f, dirs, root)->Known_0 matches OutcomeView::Found(dir) ==> exists|k: int|
            0 <= k < dirs.len() && #[trigger] dirs[k] == dir && has_packages(f, dir) && (root is Some
                ==> lies_under(dir, root->0)),
        !(first_boundary(f, dirs, root)->Known_0 is Failed),
    decreases dirs.len(),
{
    if dirs.len() > 0 && !(root is Some && !lies_under(dirs[0], root->0)) {
        if has_packages(f, dirs[0]) {
            assert(dirs[0] == dirs[0]);
        } else {
            let rest = dirs.drop_first();
            found_is_searched(f, rest, root);
            if first_boundary(f, rest, root)->Known_0 is Found {
                let dir = first_boundary(f, rest, root)->Known_0->Found_0;
                let k = choose|k: int|
                    0 <= k < rest.len() && #[trigger] rest[k] == dir && has_packages(f, dir) && (root
                        is Some ==> lies_under(dir, root->0));
                assert(dirs[k + 1] == dir);
            }
        }
    }
}

/// The search starts in the directory that holds the file, and goes from each directory to the one
/// that holds it.
pub proof fn the_search_goes_upwards(file_path: PathView, i: int)
    requires
        file_path.parts.len() > 0,
        0 <= i < ancestors_of(directory_of(file_path)).len() - 1,
    ensures
        parent_of(file_path) == Some(ancestors_of(directory_of(file_path))[0]),
        parent_of(ancestors_of(directory_of(file_path))[i]) == Some(
            ancestors_of(directory_of(file_path))[i + 1],
        ),
{
    let own = directory_of(file_path);
    ancestor_begins_the_path(own, i);
}

/// Formatted text takes the place of the whole document where it differs from it, and nothing is
/// changed where it does not.
pub proof fn formatted_text_replaces_the_document(source: Seq<char>, formatted: Seq<char>)
    ensures
        answer(
            source,
            Ok(FormatOutcomeView::Formatted(formatted)),
        ) matches FormatAnswerView::Edits(edits) && (source == formatted ==> edits.len() == 0) && (
        source != formatted ==> edits.len() == 1 && edits[0].new_text == formatted && edits[0].range
            == wrapped_range(source)),
{
}

/// What the worker says reaches the client: the formatted text, that there is nothing to do, or the
/// failure with its code. Only that Prettier is not installed is passed over in silence.
pub proof fn answers_of_the_worker_reach_the_client(
    source: Seq<char>,
    code: Seq<char>,
    message: Seq<char>,
    formatted: Seq<char>,
)
    ensures
        after_first(
            ExchangeView::Reply(NodeBridgeResponseView::Formatted { formatted }),
        ) == FormatStepView::Finished(Ok(FormatOutcomeView::Formatted(formatted))),
        after_first(ExchangeView::Reply(NodeBridgeResponseView::Ignored))
            == FormatStepView::Finished(Ok(FormatOutcomeView::Ignored)),
        after_first(ExchangeView::Reply(NodeBridgeResponseView::Unsupported))
            == FormatStepView::Finished(Ok(FormatOutcomeView::Unsupported)),
        answer(source, mapped_response(NodeBridgeResponseView::Error { code, message })) == (if code
            == "missing_prettier"@ {
            FormatAnswerView::Edits(Seq::empty())
        } else {
            FormatAnswerView::Failed(code + ": "@ + message)
        }),
        after_first(ExchangeView::Reply(NodeBridgeResponseView::Error { code, message }))
            is Finished,
{
}

/// An exchange in which no answer comes is made once more, and only once: where it fails again, the
/// client is told of both failures.
pub proof fn failed_exchanges_are_made_once_more(
    first: ExchangeView,
    second: ExchangeView,
    source: Seq<char>,
)
    ensures
        (first is Reply) == (after_first(first) is Finished),
        first is Reply && second is Reply ==> after_first(first)->Finished_0 == mapped_response(
            first->Reply_0,
        ),
        !(first is Reply) && second is Reply ==> after_second(after_first(first)->Retry_0, second)
            == mapped_response(second->Reply_0),
        !(first is Reply) && !(second is Reply) ==> answer(
            source,
            after_second(after_first(first)->Retry_0, second),
        ) == FormatAnswerView::Failed(
            "node worker failed after restart: "@ + judged(second)->Err_0.message
                + "; original failure: "@ + judged(first)->Err_0.message,
        ),
{
}

/// Each failure of an exchange is told with its reason.
pub proof fn failures_tell_their_reason(reason: Seq<char>)
    ensures
        judged(ExchangeView::WriteFailed(reason)) matches Err(error) && error.message
            == "failed writing request to node worker: "@ + reason,
        judged(ExchangeView::TerminateFailed(reason)) matches Err(error) && error.message
            == "failed terminating node request: "@ + reason,
        judged(ExchangeView::FlushFailed(reason)) matches Err(error) && error.message
            == "failed flushing node request: "@ + reason,
        judged(ExchangeView::ReadFailed(reason)) matches Err(error) && error.message
            == "failed reading node response: "@ + reason,
        judged(ExchangeView::TimedOut(reason)) matches Err(error) && error.message
            == "node worker timed out after "@ + reason,
        judged(ExchangeView::Closed) matches Err(error) && error.message
            == "node worker closed before responding"@,
        judged(ExchangeView::Invalid(reason)) matches Err(error) && error.message
            == "node worker returned invalid JSON: "@ + reason,
{
}

/// A worker is kept just as long as it answers, and no other worker is given up with it.
pub proof fn workers_are_kept_while_they_answer(
    workers: Seq<(PathView, u64)>,
    dir: PathView,
    other: PathView,
    worker: u64,
    exchange: ExchangeView,
)
    requires
        keys_differ(workers),
        lookup(workers, dir) == Some(worker),
        crate::path::plain(other) != crate::path::plain(dir),
    ensures
        exchange is Reply ==> after_exchange(workers, dir, worker, exchange) == workers,
        !(exchange is Reply) ==> lookup(after_exchange(workers, dir, worker, exchange), dir) is None,
        lookup(after_exchange(workers, dir, worker, exchange), other) == lookup(workers, other),
{
    without_lookups(workers, dir);
}

/// Node evaluates the worker's script as a module.
pub proof fn node_evaluates_the_script(bridge: Seq<char>)
    ensures
        worker_arguments(bridge).len() == 3,
        worker_arguments(bridge)[0] == "--input-type=module"@,
        worker_arguments(bridge)[1] == "--eval"@,
        worker_arguments(bridge)[2] == bridge,
{
}

/// The workspace's folders are its roots; where there are none, its root is, by URI before path.
pub proof fn folders_come_before_roots(
    folders: Seq<PathView>,
    root_uri: Option<PathView>,
    root_path: Option<Seq<char>>,
    root: PathView,
    text: Seq<char>,
)
    ensures
        folders.len() > 0 ==> given_roots(folders, root_uri, root_path) == folders,
        folders.len() == 0 ==> given_roots(folders, Some(root), root_path) == seq![root],
        folders.len() == 0 ==> given_roots(folders, None, Some(text)) == seq![path_of(text)],
        folders.len() == 0 ==> given_roots(folders, None, None).len() == 0,
{
}

/// The folders are those whose URIs name files, in their order.
pub proof fn folders_are_read_in_order(a: Seq<Seq<char>>, b: Seq<Seq<char>>, uri: Seq<char>)
    ensures
        paths_of(a + b) == paths_of(a) + paths_of(b),
        paths_of(seq![uri]) == (match url_path(uri) {
            Some(path) => seq![path],
            None => Seq::empty(),
        }),
        paths_of(Seq::empty()).len() == 0,
    decreases b.len(),
{
    reveal_with_fuel(paths_of, 2);
    assert(seq![uri].drop_last() =~= Seq::<Seq<char>>::empty());
    assert(seq![uri].last() == uri);
    if b.len() == 0 {
        assert(a + b =~= a);
        assert(paths_of(a) + paths_of(b) =~= paths_of(a));
    } else {
        assert((a + b).drop_last() =~= a + b.drop_last());
        folders_are_read_in_order(a, b.drop_last(), uri);
        if let Some(path) = url_path(b.last()) {
            assert(paths_of(a) + paths_of(b.drop_last()).push(path) =~= (paths_of(a) + paths_of(
                b.drop_last(),
            )).push(path));
        }
    }
    if let Some(path) = url_path(uri) {
        assert(Seq::<PathView>::empty().push(path) =~= seq![path]);
    }
}

/// Only files are formatted: one that is open with the text that the client has given, and any other
/// once it has been read.
pub proof fn files_are_formatted_as_the_client_sees_them(
    s: StateView,
    uri: Seq<char>,
    path: PathView,
)
    ensures
        format_work(s, uri, None) is NotAFile,
        lookup(s.documents, uri) is None ==> format_work(s, uri, Some(path))
            == FormatWorkView::Read(path),
        lookup(s.documents, uri) matches Some(text) ==> (format_work(
            s,
            uri,
            Some(path),
        ) matches FormatWorkView::Ready(request) && request.source == text && request.file_path
            == path),
{
}

/// The client is told that whole documents are synchronised, that formatting is offered, and that
/// changes of the workspace's folders are followed.
pub proof fn abilities_are_announced()
    ensures
        ({
            let abilities = capabilities();
            let workspace = json_get(abilities, "workspace"@)->0;
            let folders = json_get(workspace, "workspaceFolders"@)->0;
            &&& json_get(abilities, "textDocumentSync"@) matches Some(JsonView::Number(sync))
            &&& sync.integer == Some(1i64)
            &&& json_get(abilities, "documentFormattingProvider"@) == Some(JsonView::Bool(true))
            &&& json_get(folders, "supported"@) == Some(JsonView::Bool(true))
            &&& json_get(folders, "changeNotifications"@) == Some(JsonView::Bool(true))
        }),
{
    whole_numbers_have_their_value(1);
    reveal_strlit("textDocumentSync");
    reveal_strlit("documentFormattingProvider");
    reveal_strlit("workspace");
    reveal_strlit("supported");
    reveal_strlit("changeNotifications");
    reveal_strlit("workspaceFolders");
    assert("textDocumentSync"@.len() == 16);
    assert("documentFormattingProvider"@.len() == 26);
    assert("workspace"@.len() == 9);
    assert("supported"@.len() == 9);
    assert("changeNotifications"@.len() == 19);
    let abilities = capabilities()->Object_0;
    members_are_found_by_name(abilities, 0);
    members_are_found_by_name(abilities, 1);
    members_are_found_by_name(abilities, 2);
    let workspace = abilities[2].1->Object_0;
    members_are_found_by_name(workspace, 0);
    let folders = workspace[0].1->Object_0;
    members_are_found_by_name(folders, 0);
    members_are_found_by_name(folders, 1);
}

/// A document is formatted with the text that it was opened with or that the last of its changes gave, and
/// once it is closed, the file is read. Other documents and the workspace's roots are left alone.
pub proof fn documents_follow_the_client(
    s: StateView,
    uri: Seq<char>,
    other: Seq<char>,
    text: Seq<char>,
    changes: Seq<Seq<char>>,
    path: PathView,
)
    requires
        keys_differ(s.documents),
        other != uri,
    ensures
        lookup(s.opened(uri, text).documents, uri) == Some(text),
        changes.len() > 0 ==> lookup(s.changed(uri, changes).documents, uri) == Some(changes.last()),
        changes.len() == 0 ==> s.changed(uri, changes) == s,
        format_work(s.closed(uri), uri, Some(path)) == FormatWorkView::Read(path),
        lookup(s.opened(uri, text).documents, other) == lookup(s.documents, other),
        lookup(s.changed(uri, changes).documents, other) == lookup(s.documents, other),
        lookup(s.closed(uri).documents, other) == lookup(s.documents, other),
        s.opened(uri, text).workspace_roots == s.workspace_roots,
        s.changed(uri, changes).workspace_roots == s.workspace_roots,
        s.closed(uri).workspace_roots == s.workspace_roots,
{
    put_lookups(s.documents, uri, text);
    if changes.len() > 0 {
        put_lookups(s.documents, uri, changes.last());
    }
    without_lookups(s.documents, uri);
}

/// A file that is read is formatted just as a document that is open with the same text.
pub proof fn files_are_formatted_as_documents_are(
    s: StateView,
    uri: Seq<char>,
    path: PathView,
    text: Seq<char>,
)
    ensures
        format_work(s.opened(uri, text), uri, Some(path)) == FormatWorkView::Ready(
            s.read_request(path, text),
        ),
        s.read_request(path, text).file_path == path,
        s.read_request(path, text).source == text,
        s.read_request(path, text).workspace_root == deepest_root(s.workspace_roots, path),
{
    put_lookups(s.documents, uri, text);
}

/// Without a directory that holds it, a file is looked for from the current directory.
pub proof fn files_without_a_directory_are_looked_for_here(file_path: PathView)
    requires
        parent_of(file_path) is None,
    ensures
        directory_of(file_path) == path_of("."@),
{
}

/// What is no file is refused with the reason.
pub proof fn what_is_no_file_is_refused(s: StateView, uri: Seq<char>)
    ensures
        format_work(s, uri, None) == FormatWorkView::NotAFile(
            "prettier-lsp only supports file URIs"@,
        ),
{
}

} // verus!
