//! The Prettier server.

use std::collections::{BTreeMap, BTreeSet};

use helix_lsps::disk::{
    Answer, Entry, FileHead, FileText, Findings, Listing, NodeReply, Probe, RealPath, Step,
    HEAD_LEN,
};
use helix_lsps::json::Json;
use helix_lsps::path::FsPath;
use helix_lsps::position::{Position, Range, TextEdit};
use helix_lsps::prettier::backend::{
    apply_workspace_folder_change, extract_workspace_roots, format_answer, full_document_range,
    initialize_result, normalize_workspace_roots, workspace_root_for, FormatAnswer, FormatWork,
    State, WorkspaceParams,
};
use helix_lsps::prettier::formatter::{
    first_exchange, judge, map_response, resolve_workspace_dir, second_exchange, spawn_error,
    worker_args, Exchange, FormatError, FormatOutcome, FormatStep, NodeBridgeResponse, Workers,
};
use helix_lsps::url_text::{path_of_url, url_of_directory, url_of_path};

/// A disk in memory, and what is found in the rest of the machine.
struct Disk {
    files: BTreeMap<String, String>,
    dirs: BTreeSet<String>,
    program_dirs: Vec<String>,
    node: NodeReply,
}

impl Disk {
    fn new() -> Disk {
        let mut dirs = BTreeSet::new();
        dirs.insert("/".to_string());
        Disk { files: BTreeMap::new(), dirs, program_dirs: Vec::new(), node: NodeReply::Missing }
    }

    fn dir(&mut self, path: &str) {
        for ancestor in FsPath::parse(path).ancestors() {
            self.dirs.insert(ancestor.to_text());
        }
    }

    fn file(&mut self, path: &str, text: &str) {
        let parent = FsPath::parse(path).parent().unwrap();
        self.dir(&parent.to_text());
        self.files.insert(path.to_string(), text.to_string());
    }

    fn holds(&self, path: &str) -> bool {
        self.files.contains_key(path) || self.dirs.contains(path)
    }

    fn listing(&self, dir: &FsPath) -> Listing {
        let mut entries = Vec::new();
        for path in self.dirs.iter().chain(self.files.keys()) {
            let parsed = FsPath::parse(path);
            if parsed.parent().as_ref() == Some(dir) {
                let is_dir = self.dirs.contains(path);
                entries.push(Entry {
                    name: parsed.file_name().unwrap(),
                    is_dir,
                    leads_to_dir: is_dir,
                });
            }
        }
        Listing { entries }
    }

    fn answer(&self, probe: Probe) -> Answer {
        match probe {
            Probe::Exists(path) => {
                let found = self.holds(&path.to_text());
                Answer::Exists(path, found)
            }
            Probe::IsFile(path) => {
                let found = self.files.contains_key(&path.to_text());
                Answer::IsFile(path, found)
            }
            Probe::IsDir(path) => {
                let found = self.dirs.contains(&path.to_text());
                Answer::IsDir(path, found)
            }
            Probe::ReadText(path) => {
                let text = match self.files.get(&path.to_text()) {
                    Some(text) => FileText::Text(text.clone()),
                    None => FileText::Unreadable("No such file or directory".to_string()),
                };
                Answer::ReadText(path, text)
            }
            Probe::ReadHead(path) => {
                let head = match self.files.get(&path.to_text()) {
                    Some(text) => FileHead::Bytes(text.bytes().take(HEAD_LEN).collect()),
                    None => FileHead::Unreadable,
                };
                Answer::ReadHead(path, head)
            }
            Probe::List(path) => {
                let listing = self.listing(&path);
                Answer::List(path, listing)
            }
            Probe::Canonical(path) => {
                let real = if self.holds(&path.to_text()) {
                    RealPath::Path(path.clone())
                } else {
                    RealPath::Unknown
                };
                Answer::Canonical(path, real)
            }
            Probe::SearchPath => Answer::SearchPath(
                self.program_dirs.iter().map(|dir| FsPath::parse(dir)).collect(),
            ),
            Probe::Node(query) => {
                let reply = match &self.node {
                    NodeReply::Missing => NodeReply::Missing,
                    NodeReply::Broken => NodeReply::Broken,
                    NodeReply::Unresolved(text) => NodeReply::Unresolved(text.clone()),
                    NodeReply::Output(text) => NodeReply::Output(text.clone()),
                    NodeReply::Garbled(text) => NodeReply::Garbled(text.clone()),
                };
                Answer::Node(query, reply)
            }
        }
    }

    /// Answers what is asked until the result is known.
    fn explore<T>(&self, ask: impl Fn(&Findings) -> Step<T>) -> T {
        let mut findings = Findings::new();
        loop {
            match ask(&findings) {
                Step::Known(value) => return value,
                Step::Ask(probe) => findings.record(self.answer(probe)),
            }
        }
    }
}

fn path(text: &str) -> FsPath {
    FsPath::parse(text)
}

fn url(text: &str) -> String {
    url_of_path(&path(text)).unwrap()
}

fn range(line: u32, character: u32) -> Range {
    Range { start: Position { line: 0, character: 0 }, end: Position { line, character } }
}

fn workspace_dir(disk: &Disk, file: &str, root: Option<&str>) -> FsPath {
    let file = path(file);
    let root = root.map(path);
    disk.explore(|findings| resolve_workspace_dir(findings, &file, root.as_ref()))
}

fn formatted(text: &str) -> NodeBridgeResponse {
    NodeBridgeResponse::Formatted { formatted: text.to_string() }
}

#[test]
fn calculates_range_for_trailing_newline() {
    assert_eq!(full_document_range("const answer = 42;\n"), range(1, 0));
}

#[test]
fn calculates_range_for_multibyte_characters() {
    assert_eq!(full_document_range("const sushi = \"🍣\";"), range(0, 19));
}

#[test]
fn prefers_workspace_folders_over_root_uri() {
    let params = WorkspaceParams {
        workspace_folders: Some(vec![url("/workspace/packages/app")]),
        root_uri: Some(url("/workspace")),
        root_path: None,
    };
    assert_eq!(extract_workspace_roots(&params), vec![path("/workspace/packages/app")]);
}

#[test]
fn the_root_uri_stands_in_for_folders_and_the_root_path_for_both() {
    let mut params = WorkspaceParams {
        workspace_folders: Some(vec!["untitled:1".to_string()]),
        root_uri: Some(url("/workspace")),
        root_path: Some("/elsewhere".to_string()),
    };
    assert_eq!(extract_workspace_roots(&params), vec![path("/workspace")]);
    params.root_uri = None;
    assert_eq!(extract_workspace_roots(&params), vec![path("/elsewhere")]);
    params.root_path = None;
    assert_eq!(extract_workspace_roots(&params), Vec::<FsPath>::new());
}

#[test]
fn applies_workspace_folder_additions_and_removals() {
    let roots = vec![path("/workspace-a"), path("/workspace-b")];

    let roots = apply_workspace_folder_change(
        &roots,
        &vec![url("/workspace-a")],
        &vec![url("/workspace-c")],
    );

    assert_eq!(roots, vec![path("/workspace-b"), path("/workspace-c")]);
}

#[test]
fn normalizes_workspace_roots() {
    let roots =
        normalize_workspace_roots(vec![path("/workspace-b"), path("/workspace-a"), path("/workspace-a")]);
    assert_eq!(roots, vec![path("/workspace-a"), path("/workspace-b")]);
}

#[test]
fn the_first_spelling_of_a_root_is_kept() {
    let texts = |roots: Vec<FsPath>| -> Vec<String> {
        roots.iter().map(|root| root.to_text()).collect()
    };
    let roots = normalize_workspace_roots(vec![path("/b/"), path("/a"), path("/b"), path("/a/")]);
    assert_eq!(texts(roots), vec!["/a", "/b/"]);
    let roots = vec![path("/a/"), path("/b")];
    let roots = apply_workspace_folder_change(&roots, &vec![url("/a")], &vec![]);
    assert_eq!(texts(roots), vec!["/b"]);
}

#[test]
fn normalizing_again_changes_nothing() {
    let once = normalize_workspace_roots(vec![path("/b/c"), path("/b"), path("/a"), path("/b")]);
    assert_eq!(once, vec![path("/a"), path("/b"), path("/b/c")]);
    let twice = normalize_workspace_roots(once.clone());
    assert_eq!(twice, once);
}

#[test]
fn a_file_belongs_to_its_deepest_root() {
    let roots = vec![path("/w"), path("/w/packages/app"), path("/w/packages")];
    assert_eq!(
        workspace_root_for(&roots, &path("/w/packages/app/src/a.js")),
        Some(path("/w/packages/app"))
    );
    assert_eq!(workspace_root_for(&roots, &path("/w/x.js")), Some(path("/w")));
    assert_eq!(workspace_root_for(&roots, &path("/wx/a.js")), None);
}

#[test]
fn finds_nearest_package_boundary() {
    let mut disk = Disk::new();
    disk.dir("/t/workspace/src/nested");
    disk.file("/t/workspace/package.json", "{\n  \"private\": true\n}\n");

    assert_eq!(
        workspace_dir(&disk, "/t/workspace/src/nested/example.js", Some("/t/workspace")),
        path("/t/workspace")
    );
}

#[test]
fn stops_searching_at_the_initialized_workspace_root() {
    let mut disk = Disk::new();
    disk.dir("/t/outer/workspace/src/nested");
    disk.dir("/t/outer/node_modules");
    disk.file("/t/outer/package.json", "{\n  \"private\": true\n}\n");

    assert_eq!(
        workspace_dir(
            &disk,
            "/t/outer/workspace/src/nested/example.js",
            Some("/t/outer/workspace")
        ),
        path("/t/outer/workspace")
    );
    assert_eq!(
        workspace_dir(&disk, "/t/outer/workspace/src/nested/example.js", None),
        path("/t/outer")
    );
}

#[test]
fn a_file_outside_of_every_package_is_formatted_where_it_lies() {
    let mut disk = Disk::new();
    disk.dir("/t/src");
    assert_eq!(workspace_dir(&disk, "/t/src/a.js", Some("/elsewhere")), path("/t/src"));
}

#[test]
fn reuses_a_single_worker_for_repeated_formats() {
    let mut workers = Workers::new();
    let dir = path("/w");
    let mut spawned = 0;
    for _ in 0..2 {
        if workers.worker_for(&dir).is_none() {
            spawned += 1;
            workers.keep_worker(&dir, spawned);
        }
    }
    assert_eq!(spawned, 1);
    assert_eq!(workers.keep_worker(&dir, 9), 1);
    workers.invalidate_worker(&dir, 9);
    assert_eq!(workers.worker_for(&dir), Some(1));
    workers.invalidate_worker(&dir, 1);
    assert_eq!(workers.worker_for(&dir), None);
}

#[test]
fn restarts_worker_after_transport_failure() {
    let first = match first_exchange(Exchange::Closed) {
        FormatStep::Retry(error) => error,
        other => panic!("{other:?}"),
    };
    let outcome = second_exchange(&first, Exchange::Reply(formatted("formatted:a"))).unwrap();
    assert!(matches!(outcome, FormatOutcome::Formatted(_)));
}

#[test]
fn a_worker_that_gives_no_answer_is_given_up() {
    let mut workers = Workers::new();
    let dir = path("/w");
    workers.keep_worker(&dir, 1);
    let reply = Exchange::Reply(NodeBridgeResponse::Ignored);
    assert!(matches!(workers.first_reply(&dir, 1, reply), FormatStep::Finished(_)));
    assert_eq!(workers.worker_for(&dir), Some(1));
    let first = match workers.first_reply(&dir, 1, Exchange::Closed) {
        FormatStep::Retry(error) => error,
        other => panic!("{other:?}"),
    };
    assert_eq!(workers.worker_for(&dir), None);
    workers.keep_worker(&dir, 2);
    assert!(workers.second_reply(&dir, 2, &first, Exchange::Reply(formatted("a"))).is_ok());
    assert_eq!(workers.worker_for(&dir), Some(2));
    assert!(workers.second_reply(&dir, 1, &first, Exchange::Closed).is_err());
    assert_eq!(workers.worker_for(&dir), Some(2));
    assert!(workers.second_reply(&dir, 2, &first, Exchange::Closed).is_err());
    assert_eq!(workers.worker_for(&dir), None);
}

#[test]
fn times_out_when_worker_never_responds() {
    let first = match first_exchange(Exchange::TimedOut("250ms".to_string())) {
        FormatStep::Retry(error) => error,
        other => panic!("{other:?}"),
    };
    let error = second_exchange(&first, Exchange::TimedOut("250ms".to_string())).unwrap_err();
    assert!(!error.is_unavailable());
    assert_eq!(
        error.to_text(),
        "node worker failed after restart: node worker timed out after 250ms; original failure: node worker timed out after 250ms"
    );
}

#[test]
fn marks_missing_prettier_as_unavailable() {
    let error = map_response(NodeBridgeResponse::Error {
        code: "missing_prettier".to_string(),
        message: "not found".to_string(),
    })
    .unwrap_err();

    assert!(error.is_unavailable());
}

#[test]
fn keeps_other_prettier_errors_loud() {
    let error = map_response(NodeBridgeResponse::Error {
        code: "prettier_error".to_string(),
        message: "boom".to_string(),
    })
    .unwrap_err();

    assert!(!error.is_unavailable());
    assert_eq!(error.to_text(), "prettier_error: boom");
}

#[test]
fn every_failed_exchange_says_why() {
    let failure = |exchange| judge(exchange).unwrap_err().to_text();
    let why = || "why".to_string();
    assert_eq!(
        failure(Exchange::WriteFailed(why())),
        "failed writing request to node worker: why"
    );
    assert_eq!(failure(Exchange::TerminateFailed(why())), "failed terminating node request: why");
    assert_eq!(failure(Exchange::FlushFailed(why())), "failed flushing node request: why");
    assert_eq!(failure(Exchange::ReadFailed(why())), "failed reading node response: why");
    assert_eq!(failure(Exchange::Closed), "node worker closed before responding");
    assert_eq!(failure(Exchange::Invalid(why())), "node worker returned invalid JSON: why");
    assert_eq!(judge(Exchange::Reply(NodeBridgeResponse::Ignored)), Ok(NodeBridgeResponse::Ignored));
    assert_eq!(map_response(NodeBridgeResponse::Ignored), Ok(FormatOutcome::Ignored));
    assert_eq!(map_response(NodeBridgeResponse::Unsupported), Ok(FormatOutcome::Unsupported));
}

#[test]
fn a_missing_node_is_not_loud() {
    let error = spawn_error("node", "not found", true);
    assert!(error.is_unavailable());
    assert_eq!(error.to_text(), "failed to spawn \"node\": not found");
    assert!(!spawn_error("node", "denied", false).is_unavailable());
}

#[test]
fn formats_with_workspace_prettier() {
    let input = "const answer={value:\"forty two\"}\n";
    let mut state = State::new();
    state.initialize(&WorkspaceParams {
        workspace_folders: None,
        root_uri: Some(url("/w")),
        root_path: None,
    });
    assert_eq!(
        initialize_result().get("capabilities").unwrap().get("documentFormattingProvider"),
        Some(&Json::Bool(true))
    );
    let uri = url("/w/scratch/example.js");
    state.did_open(uri.clone(), input.to_string());
    let request = match state.formatting(&uri) {
        FormatWork::Ready(request) => request,
        other => panic!("{other:?}"),
    };
    assert_eq!(request.file_path, path("/w/scratch/example.js"));
    assert_eq!(request.workspace_root, Some(path("/w")));
    let outcome = match first_exchange(Exchange::Reply(formatted(
        "const answer = { value: \"forty two\" };\n",
    ))) {
        FormatStep::Finished(result) => result,
        other => panic!("{other:?}"),
    };
    assert_eq!(
        format_answer(&request.source, outcome),
        FormatAnswer::Edits(vec![TextEdit {
            range: range(1, 0),
            new_text: "const answer = { value: \"forty two\" };\n".to_string()
        }])
    );
}

#[test]
fn only_loud_failures_are_answered_with_an_error() {
    let none = FormatAnswer::Edits(Vec::new());
    assert_eq!(format_answer("a", Ok(FormatOutcome::Formatted("a".to_string()))), none);
    assert_eq!(format_answer("a", Ok(FormatOutcome::Ignored)), none);
    assert_eq!(format_answer("a", Ok(FormatOutcome::Unsupported)), none);
    assert_eq!(format_answer("a", Err(FormatError::unavailable("no node".to_string()))), none);
    assert_eq!(
        format_answer("a", Err(FormatError::new("boom".to_string()))),
        FormatAnswer::Failed("boom".to_string())
    );
}

#[test]
fn documents_are_kept_until_they_are_closed() {
    let mut state = State::new();
    let uri = url("/w/a.js");
    assert_eq!(state.formatting(&uri), FormatWork::Read(path("/w/a.js")));
    state.did_open(uri.clone(), "a".to_string());
    state.did_change(uri.clone(), vec!["b".to_string(), "c".to_string()]);
    state.did_change(uri.clone(), Vec::new());
    assert!(matches!(state.formatting(&uri), FormatWork::Ready(request) if request.source == "c"));
    state.did_close(&uri);
    assert_eq!(state.formatting(&uri), FormatWork::Read(path("/w/a.js")));
    assert_eq!(
        state.formatting(&"untitled:1".to_string()),
        FormatWork::NotAFile("prettier-lsp only supports file URIs".to_string())
    );
    state.did_change_workspace_folders(&Vec::new(), &vec![url("/w")]);
    assert_eq!(
        state.with_source(path("/w/a.js"), "d".to_string()).workspace_root,
        Some(path("/w"))
    );
}

#[test]
fn prettier_workers_run_their_script() {
    assert_eq!(worker_args("script"), vec!["--input-type=module", "--eval", "script"]);
}

#[test]
fn paths_and_urls_name_each_other() {
    assert_eq!(url("/w/a b.js"), "file:///w/a%20b.js");
    assert_eq!(path_of_url("file:///w/a%20b.js"), Some(path("/w/a b.js")));
    assert_eq!(path_of_url("http://example.com/a.js"), None);
    assert_eq!(path_of_url("no url"), None);
    assert_eq!(url_of_directory(&path("/w")).as_deref(), Some("file:///w/"));
    assert_eq!(url_of_path(&path("relative")), None);
}
