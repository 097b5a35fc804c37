//! The proxy for the compiler, with a disk and children in memory.

use std::collections::{BTreeMap, BTreeSet};

use helix_lsps::disk::{
    Answer, Entry, FileHead, FileText, Findings, Listing, NodeReply, Probe, RealPath, Step,
    HEAD_LEN,
};
use helix_lsps::fakes::{FakeTsgo, Reply};
use helix_lsps::hub::Action;
use helix_lsps::json::Json;
use helix_lsps::json_text::parse_json;
use helix_lsps::lsp::{
    Message, Notification, Request, RequestId, Response, REQUEST_FAILED,
};
use helix_lsps::path::FsPath;
use helix_lsps::project::SessionKey;
use helix_lsps::tsgo::discovery::{Discovery, Host};
use helix_lsps::tsgo::file_watcher::{WatchedFileChange, WatchedFileChangeKind};
use helix_lsps::tsgo::proxy::{Next, Proxy};
use helix_lsps::tsgo::session::SessionEvent;
use helix_lsps::url_text::url_of_path;

/// A disk in memory, and what is found in the rest of the machine.
struct Disk {
    files: BTreeMap<String, String>,
    dirs: BTreeSet<String>,
    program_dirs: Vec<String>,
    node: NodeReply,
}

impl Disk {
    fn new() -> Disk {
        let mut dirs = BTreeSet::new();
        dirs.insert("/".to_string());
        Disk { files: BTreeMap::new(), dirs, program_dirs: Vec::new(), node: NodeReply::Missing }
    }

    fn dir(&mut self, path: &str) {
        for ancestor in FsPath::parse(path).ancestors() {
            self.dirs.insert(ancestor.to_text());
        }
    }

    fn file(&mut self, path: &str, text: &str) {
        let parent = FsPath::parse(path).parent().unwrap();
        self.dir(&parent.to_text());
        self.files.insert(path.to_string(), text.to_string());
    }

    fn holds(&self, path: &str) -> bool {
        self.files.contains_key(path) || self.dirs.contains(path)
    }

    fn listing(&self, dir: &FsPath) -> Listing {
        let mut entries = Vec::new();
        for path in self.dirs.iter().chain(self.files.keys()) {
            let parsed = FsPath::parse(path);
            if parsed.parent().as_ref() == Some(dir) {
                let is_dir = self.dirs.contains(path);
                entries.push(Entry {
                    name: parsed.file_name().unwrap(),
                    is_dir,
                    leads_to_dir: is_dir,
                });
            }
        }
        Listing { entries }
    }

    fn answer(&self, probe: Probe) -> Answer {
        match probe {
            Probe::Exists(path) => {
                let found = self.holds(&path.to_text());
                Answer::Exists(path, found)
            }
            Probe::IsFile(path) => {
                let found = self.files.contains_key(&path.to_text());
                Answer::IsFile(path, found)
            }
            Probe::IsDir(path) => {
                let found = self.dirs.contains(&path.to_text());
                Answer::IsDir(path, found)
            }
            Probe::ReadText(path) => {
                let text = match self.files.get(&path.to_text()) {
                    Some(text) => FileText::Text(text.clone()),
                    None => FileText::Unreadable("No such file or directory".to_string()),
                };
                Answer::ReadText(path, text)
            }
            Probe::ReadHead(path) => {
                let head = match self.files.get(&path.to_text()) {
                    Some(text) => FileHead::Bytes(text.bytes().take(HEAD_LEN).collect()),
                    None => FileHead::Unreadable,
                };
                Answer::ReadHead(path, head)
            }
            Probe::List(path) => {
                let listing = self.listing(&path);
                Answer::List(path, listing)
            }
            Probe::Canonical(path) => {
                let real = if self.holds(&path.to_text()) {
                    RealPath::Path(path.clone())
                } else {
                    RealPath::Unknown
                };
                Answer::Canonical(path, real)
            }
            Probe::SearchPath => Answer::SearchPath(
                self.program_dirs.iter().map(|dir| FsPath::parse(dir)).collect(),
            ),
            Probe::Node(query) => {
                let reply = match &self.node {
                    NodeReply::Missing => NodeReply::Missing,
                    NodeReply::Broken => NodeReply::Broken,
                    NodeReply::Unresolved(text) => NodeReply::Unresolved(text.clone()),
                    NodeReply::Output(text) => NodeReply::Output(text.clone()),
                    NodeReply::Garbled(text) => NodeReply::Garbled(text.clone()),
                };
                Answer::Node(query, reply)
            }
        }
    }

    /// Answers what is asked until the result is known.
    fn explore<T>(&self, ask: impl Fn(&Findings) -> Step<T>) -> T {
        let mut findings = Findings::new();
        loop {
            match ask(&findings) {
                Step::Known(value) => return value,
                Step::Ask(probe) => findings.record(self.answer(probe)),
            }
        }
    }
}

fn json(text: &str) -> Json {
    parse_json(text).unwrap()
}

fn request(id: i32, method: &str, params: &str) -> Message {
    Message::Request(Request {
        id: RequestId::Number(id),
        method: method.to_string(),
        params: json(params),
    })
}

fn notification(method: &str, params: &str) -> Message {
    Message::Notification(Notification { method: method.to_string(), params: json(params) })
}

fn file_url(path: &str) -> String {
    url_of_path(&FsPath::parse(path)).unwrap()
}

fn document(uri: &str) -> String {
    format!(r#"{{"textDocument":{{"uri":"{uri}"}},"position":{{"line":0,"character":0}}}}"#)
}

fn opened(uri: &str) -> Message {
    notification(
        "textDocument/didOpen",
        &format!(
            r#"{{"textDocument":{{"uri":"{uri}","languageId":"typescript","version":1,"text":"a"}}}}"#
        ),
    )
}

fn initialize(id: i32, root: &str) -> Message {
    let uri = file_url(root);
    request(
        id,
        "initialize",
        &format!(r#"{{"processId":1,"rootUri":"{uri}","capabilities":{{}}}}"#),
    )
}

struct Child {
    key: SessionKey,
    generation: u64,
    fake: FakeTsgo,
}

struct Harness {
    proxy: Proxy,
    disk: Disk,
    failing: Option<(String, String)>,
    exit_on_hover: bool,
    mute: bool,
    children: Vec<Child>,
    inbox: Vec<Message>,
    watched: Vec<(SessionKey, FsPath)>,
    exited: bool,
}

impl Harness {
    fn new(disk: Disk) -> Harness {
        Harness {
            proxy: Proxy::new(),
            disk,
            failing: None,
            exit_on_hover: false,
            mute: false,
            children: Vec::new(),
            inbox: Vec::new(),
            watched: Vec::new(),
            exited: false,
        }
    }

    fn try_send(&mut self, message: Message) -> Result<(), String> {
        let mut next = self.proxy.handle_client_message(message)?;
        let discovery = Discovery {
            host: Host { windows: false, os: "linux".to_string(), arch: "x86_64".to_string() },
        };
        loop {
            next = match next {
                Next::Done => break,
                Next::Exit => {
                    self.exited = true;
                    break;
                }
                Next::Discover(path, purpose) => {
                    let outcome = self
                        .disk
                        .explore(|findings| discovery.context_for_uri_path(findings, &path));
                    assert!(self.proxy.hub.has_room());
                    self.proxy.context_found(outcome, purpose)?
                }
                Next::DiscoverCurrentDir(purpose) => {
                    let path = FsPath::parse("/t");
                    let outcome = self
                        .disk
                        .explore(|findings| discovery.context_for_uri_path(findings, &path));
                    self.proxy.context_found(outcome, purpose)?
                }
                Next::Spawn(order, purpose) => {
                    assert!(FakeTsgo::accepts(&order.context.command.args));
                    let label = order.context.root.as_ref().unwrap().file_name().unwrap();
                    let init_error = match &self.failing {
                        Some((name, error)) if *name == label => Some(error.clone()),
                        _ => None,
                    };
                    self.children.push(Child {
                        key: order.context.key.clone(),
                        generation: order.generation,
                        fake: FakeTsgo {
                            label,
                            init_error,
                            exit_on_hover: self.exit_on_hover,
                            empty_hover_response: false,
                        },
                    });
                    self.proxy.session_spawned(order, purpose, Ok(()))?
                }
            };
        }
        self.pump();
        Ok(())
    }

    fn send(&mut self, message: Message) {
        self.try_send(message).unwrap();
    }

    fn pump(&mut self) {
        loop {
            let actions = self.proxy.hub.take_actions();
            if actions.is_empty() {
                return;
            }
            let mut events = Vec::new();
            for action in actions {
                match action {
                    Action::Client(message) => self.inbox.push(message),
                    Action::Child(_, _) if self.mute => {}
                    Action::Child(key, message) => {
                        let child = self.children.iter().rfind(|child| child.key == key).unwrap();
                        match child.fake.answer(message) {
                            Reply::Send(reply) => {
                                events.push(SessionEvent::Message(key, child.generation, reply))
                            }
                            Reply::Stop => events.push(SessionEvent::Closed(key, child.generation)),
                            _ => {}
                        }
                    }
                    Action::Terminate(key) | Action::Discard(key) => {
                        self.children.retain(|child| child.key != key)
                    }
                    Action::Watch(key, root) => self.watched.push((key, root)),
                    Action::Unwatch(key) => self.watched.retain(|(watched, _)| *watched != key),
                }
            }
            for event in events {
                self.proxy.handle_session_event(event);
            }
        }
    }

    fn expect_response(&mut self, id: i32) -> Response {
        let at = self
            .inbox
            .iter()
            .position(|message| {
                matches!(message, Message::Response(response)
                    if response.id == RequestId::Number(id))
            })
            .unwrap();
        match self.inbox.remove(at) {
            Message::Response(response) => response,
            _ => unreachable!(),
        }
    }

    fn expect_diagnostics(&mut self, uri: &str) -> String {
        let at = self
            .inbox
            .iter()
            .position(|message| {
                matches!(message, Message::Notification(told)
                    if told.method == "textDocument/publishDiagnostics"
                        && told.params.get_str("uri") == Some(uri))
            })
            .unwrap();
        match self.inbox.remove(at) {
            Message::Notification(told) => match told.params.get("diagnostics").unwrap() {
                Json::Array(items) => items[0].get_str("message").unwrap().to_string(),
                other => panic!("{other:?}"),
            },
            _ => unreachable!(),
        }
    }

    fn finish(&mut self, id: i32) {
        self.send(request(id, "shutdown", "null"));
        self.expect_response(id);
        self.send(notification("exit", "null"));
        assert!(self.exited);
    }
}

fn project(disk: &mut Disk, parent: &str, name: &str) -> String {
    let root = format!("{parent}/{name}");
    disk.dir(&format!("{root}/src"));
    disk.file(&format!("{root}/package.json"), &format!(r#"{{"name":"{name}"}}"#));
    disk.file(&format!("{root}/node_modules/.bin/tsgo"), "#!/bin/sh\n");
    root
}

fn key(root: &str) -> SessionKey {
    SessionKey::Project(FsPath::parse(root))
}

fn server_name(response: &Response) -> String {
    response
        .result
        .as_ref()
        .and_then(|result| result.get("serverInfo"))
        .and_then(|info| info.get_str("name"))
        .unwrap()
        .to_string()
}

#[test]
fn routes_open_files_to_each_projects_local_tsgo() {
    let mut disk = Disk::new();
    let project_a = project(&mut disk, "/t", "project-a");
    let project_b = project(&mut disk, "/t", "project-b");
    let mut harness = Harness::new(disk);
    let file_a_uri = file_url(&format!("{project_a}/src/index.ts"));
    let file_b_uri = file_url(&format!("{project_b}/src/index.ts"));

    harness.send(initialize(1, &project_a));
    let response = harness.expect_response(1);
    assert_eq!(server_name(&response), "fake-tsgo:project-a");
    harness.send(notification("initialized", "{}"));

    harness.send(opened(&file_a_uri));
    assert_eq!(harness.expect_diagnostics(&file_a_uri), "session=project-a");

    harness.send(opened(&file_b_uri));
    assert_eq!(harness.expect_diagnostics(&file_b_uri), "session=project-b");

    harness.send(request(2, "textDocument/hover", &document(&file_b_uri)));
    let hover = harness.expect_response(2).result.unwrap();
    let hover_text = hover.get("contents").unwrap().get_str("value").unwrap();
    assert!(hover_text.contains("session=project-b"));

    harness.finish(3);
}

#[test]
fn a_root_with_a_separator_at_its_end_is_one_project_with_its_files() {
    let mut disk = Disk::new();
    let project_a = project(&mut disk, "/t", "project-a");
    disk.dirs.insert(format!("{project_a}/"));
    let mut harness = Harness::new(disk);
    let file_uri = file_url(&format!("{project_a}/src/index.ts"));

    harness.send(request(
        1,
        "initialize",
        r#"{"processId":1,"rootUri":"file:///t/project-a/","capabilities":{}}"#,
    ));
    assert_eq!(server_name(&harness.expect_response(1)), "fake-tsgo:project-a");
    harness.send(notification("initialized", "{}"));
    assert_eq!(harness.children[0].key.debug_text(), "Project(\"/t/project-a/\")");

    harness.send(opened(&file_uri));
    assert_eq!(harness.expect_diagnostics(&file_uri), "session=project-a");
    assert_eq!(harness.children.len(), 1);

    harness.finish(2);
}

#[test]
fn returns_initialize_error_when_no_tsgo_is_available() {
    let mut disk = Disk::new();
    disk.dir("/t/empty-bin");
    disk.program_dirs = vec!["/t/empty-bin".to_string()];
    let mut harness = Harness::new(disk);

    harness.send(initialize(1, "/t"));

    let error = harness.expect_response(1).error.unwrap();
    assert!(error.message.contains("no global tsgo"));
}

#[test]
fn initializes_from_workspace_root_using_descendant_project_tsgo() {
    let mut disk = Disk::new();
    disk.file(
        "/t/package.json",
        r#"{"name":"workspace","private":true,"workspaces":["packages/*"]}"#,
    );
    let root = project(&mut disk, "/t/packages", "project-a");
    let mut harness = Harness::new(disk);
    let file_uri = file_url(&format!("{root}/src/index.ts"));

    harness.send(initialize(1, "/t"));
    let response = harness.expect_response(1);
    assert_eq!(server_name(&response), "fake-tsgo:project-a");

    harness.send(notification("initialized", "{}"));
    harness.send(opened(&file_uri));
    assert_eq!(harness.expect_diagnostics(&file_uri), "session=project-a");

    harness.finish(2);
}

#[test]
fn returns_error_when_secondary_project_init_fails() {
    let mut disk = Disk::new();
    let project_a = project(&mut disk, "/t", "project-a");
    let project_b = project(&mut disk, "/t", "project-b");
    let mut harness = Harness::new(disk);
    harness.failing =
        Some(("project-b".to_string(), "project-b failed to initialize".to_string()));
    let file_b_uri = file_url(&format!("{project_b}/src/index.ts"));

    harness.send(initialize(1, &project_a));
    harness.expect_response(1);
    harness.send(notification("initialized", "{}"));

    // The child is asked about the document before it has refused to start.
    let mut next = harness.proxy.handle_client_message(opened(&file_b_uri)).unwrap();
    let discovery = Discovery {
        host: Host { windows: false, os: "linux".to_string(), arch: "x86_64".to_string() },
    };
    loop {
        next = match next {
            Next::Discover(path, purpose) => {
                let outcome =
                    harness.disk.explore(|found| discovery.context_for_uri_path(found, &path));
                harness.proxy.context_found(outcome, purpose).unwrap()
            }
            Next::Spawn(order, purpose) => {
                harness.children.push(Child {
                    key: order.context.key.clone(),
                    generation: order.generation,
                    fake: FakeTsgo {
                        label: "project-b".to_string(),
                        init_error: Some("project-b failed to initialize".to_string()),
                        exit_on_hover: false,
                        empty_hover_response: false,
                    },
                });
                harness.proxy.session_spawned(order, purpose, Ok(())).unwrap()
            }
            _ => break,
        };
    }
    harness.send(request(2, "textDocument/hover", &document(&file_b_uri)));

    let error = harness.expect_response(2).error.unwrap();
    assert!(error.message.contains("project-b failed to initialize"));
}

#[test]
fn returns_error_when_child_exits_during_request() {
    let mut disk = Disk::new();
    let root = project(&mut disk, "/t", "project-a");
    let mut harness = Harness::new(disk);
    harness.exit_on_hover = true;
    let file_uri = file_url(&format!("{root}/src/index.ts"));

    harness.send(initialize(1, &root));
    harness.expect_response(1);
    harness.send(notification("initialized", "{}"));
    harness.send(request(2, "textDocument/hover", &document(&file_uri)));

    let error = harness.expect_response(2).error.unwrap();
    assert!(error.message.contains("tsgo child exited unexpectedly"));
}

#[test]
fn changes_of_files_reach_the_child_of_their_project() {
    let mut disk = Disk::new();
    let root = project(&mut disk, "/t", "project-a");
    let mut harness = Harness::new(disk);
    harness.send(initialize(1, &root));
    harness.send(notification("initialized", "{}"));
    assert_eq!(harness.watched, vec![(key(&root), FsPath::parse(&root))]);

    harness.proxy.handle_file_changes(&vec![
        WatchedFileChange {
            session_key: key(&root),
            uri: "file:///t/project-a/new.ts".to_string(),
            kind: WatchedFileChangeKind::Created,
        },
        WatchedFileChange {
            session_key: key("/t/other"),
            uri: "file:///t/other/new.ts".to_string(),
            kind: WatchedFileChangeKind::Deleted,
        },
    ]);

    let actions = harness.proxy.hub.take_actions();
    assert_eq!(actions.len(), 1);
    let told = match &actions[0] {
        Action::Child(child, Message::Notification(told)) if *child == key(&root) => told,
        other => panic!("{other:?}"),
    };
    assert_eq!(told.method, "workspace/didChangeWatchedFiles");
    match told.params.get("changes").unwrap() {
        Json::Array(changes) => {
            assert_eq!(changes.len(), 1);
            assert_eq!(changes[0].get_str("uri"), Some("file:///t/project-a/new.ts"));
            assert_eq!(changes[0].get("type"), Some(&json("1")));
        }
        other => panic!("{other:?}"),
    }
}

#[test]
fn the_files_of_a_child_that_ends_are_watched_no_more() {
    let mut disk = Disk::new();
    let root = project(&mut disk, "/t", "project-a");
    let mut harness = Harness::new(disk);
    harness.send(initialize(1, &root));
    harness.send(notification("initialized", "{}"));
    let generation = harness.children[0].generation;
    harness.proxy.handle_session_event(SessionEvent::Closed(key(&root), generation + 1));
    harness.pump();
    assert_eq!(harness.watched.len(), 1);
    harness.proxy.handle_session_event(SessionEvent::Closed(key(&root), generation));
    harness.pump();
    assert_eq!(harness.watched, vec![]);
}

/// A server with one child that has ended while a request waits for its answer. The child's end has
/// not been told yet.
fn with_a_child_that_has_ended() -> (Harness, String) {
    let mut disk = Disk::new();
    let root = project(&mut disk, "/t", "project-a");
    let mut harness = Harness::new(disk);
    harness.send(initialize(1, &root));
    harness.send(notification("initialized", "{}"));
    let uri = file_url(&format!("{root}/src/index.ts"));
    harness.send(opened(&uri));
    harness.inbox.clear();
    let asked = request(7, "textDocument/hover", &document(&uri));
    assert!(matches!(harness.proxy.handle_client_message(asked), Ok(Next::Done)));
    assert_eq!(harness.proxy.hub.take_actions().len(), 1);
    let generation = harness.children[0].generation;
    harness.proxy.handle_session_event(SessionEvent::WriterClosed(key(&root), generation));
    assert_eq!(harness.proxy.hub.take_actions(), vec![]);
    (harness, uri)
}

fn assert_nothing_hangs(harness: &mut Harness, ids: &[i32]) {
    for id in ids {
        let error = harness.expect_response(*id).error.unwrap();
        assert_eq!(error.code, REQUEST_FAILED);
        assert_eq!(error.message, "tsgo child exited unexpectedly");
    }
    assert!(harness.children.is_empty());
    assert!(harness.watched.is_empty());
    assert_eq!(harness.proxy.hub.sessions.len(), 0);
    assert_eq!(harness.proxy.hub.client_request_routes.len(), 0);
}

#[test]
fn a_request_to_a_child_that_has_ended_is_answered() {
    let (mut harness, uri) = with_a_child_that_has_ended();
    harness.send(request(8, "textDocument/definition", &document(&uri)));
    assert_nothing_hangs(&mut harness, &[7, 8]);

    harness.send(request(9, "textDocument/hover", &document(&uri)));
    assert_eq!(harness.children.len(), 1);
    assert!(harness.expect_response(9).error.is_none());
}

#[test]
fn a_notification_to_a_child_that_has_ended_leaves_no_request_hanging() {
    let (mut harness, uri) = with_a_child_that_has_ended();
    harness.send(notification("textDocument/didSave", &document(&uri)));
    assert_nothing_hangs(&mut harness, &[7]);
}

#[test]
fn cancelling_a_request_of_a_child_that_has_ended_answers_it() {
    let (mut harness, _) = with_a_child_that_has_ended();
    harness.send(notification("$/cancelRequest", r#"{"id":7}"#));
    assert_nothing_hangs(&mut harness, &[7]);
}

#[test]
fn an_answer_to_a_child_that_has_ended_leaves_no_request_hanging() {
    let (mut harness, _) = with_a_child_that_has_ended();
    let child = harness.children[0].key.clone();
    let generation = harness.children[0].generation;
    let asked = request(3, "workspace/configuration", "{}");
    harness.proxy.handle_session_event(SessionEvent::Message(child, generation, asked));
    harness.pump();
    let id = match harness.inbox.pop() {
        Some(Message::Request(passed_on)) => passed_on.id,
        other => panic!("{other:?}"),
    };
    harness.send(Message::Response(Response::new_ok(id, Json::Null)));
    assert_nothing_hangs(&mut harness, &[7]);
}

#[test]
fn a_child_that_has_ended_before_it_gets_what_was_kept_for_it_is_dropped() {
    let mut disk = Disk::new();
    let root = project(&mut disk, "/t", "project-a");
    let mut harness = Harness::new(disk);
    harness.mute = true;
    harness.send(initialize(1, &root));
    harness.send(request(2, "workspace/symbol", "{}"));
    let generation = harness.children[0].generation;
    harness.proxy.handle_session_event(SessionEvent::WriterClosed(key(&root), generation));
    let reply = Message::Response(Response::new_ok(RequestId::Number(1), json("{}")));
    harness.proxy.handle_session_event(SessionEvent::Message(key(&root), generation, reply));
    harness.pump();
    assert!(harness.expect_response(1).error.is_none());
    assert_nothing_hangs(&mut harness, &[2]);
}

#[test]
fn the_compiler_answers_shutdown() {
    let mut disk = Disk::new();
    let root = project(&mut disk, "/t", "project-a");
    let mut harness = Harness::new(disk);
    harness.send(initialize(1, &root));
    harness.send(notification("initialized", "{}"));
    harness.inbox.clear();
    harness.send(request(2, "shutdown", "null"));
    assert_eq!(
        harness.inbox,
        vec![Message::Response(Response::new_ok(RequestId::Number(2), Json::Null))]
    );
}

#[test]
fn a_request_for_which_nothing_is_installed_ends_the_server() {
    let mut disk = Disk::new();
    let root = project(&mut disk, "/t", "project-a");
    disk.dir("/u");
    let mut harness = Harness::new(disk);
    harness.send(initialize(1, &root));
    harness.send(notification("initialized", "{}"));
    let error = harness
        .try_send(request(2, "textDocument/hover", &document("file:///u/a.ts")))
        .unwrap_err();
    assert!(error.contains("no global tsgo"));
}
