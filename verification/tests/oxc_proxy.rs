//! The proxy for the linter and the formatter, with a disk and children in memory.

use std::collections::{BTreeMap, BTreeSet};

use helix_lsps::disk::{
    Answer, Entry, FileHead, FileText, Findings, Listing, NodeReply, Probe, RealPath, Step,
    HEAD_LEN,
};
use helix_lsps::fakes::{read_count, FakeOxfmt, Reply};
use helix_lsps::hub::Action;
use helix_lsps::json::Json;
use helix_lsps::json_text::parse_json;
use helix_lsps::lsp::{
    normalize_child_response, Message, Notification, Request, RequestId, Response, INVALID_REQUEST,
    REQUEST_CANCELED, REQUEST_FAILED,
};
use helix_lsps::oxc::discovery::Discovery;
use helix_lsps::oxc::proxy::{
    normalize_initialize_response_for_client, silent_initialize_result, Next, Proxy, Purpose,
};
use helix_lsps::oxc::session::{ChildKind, SessionEvent, SessionId};
use helix_lsps::path::FsPath;
use helix_lsps::project::SessionKey;
use helix_lsps::url_text::url_of_path;

/// A disk in memory, and what is found in the rest of the machine.
struct Disk {
    files: BTreeMap<String, String>,
    dirs: BTreeSet<String>,
    program_dirs: Vec<String>,
    node: NodeReply,
}

impl Disk {
    fn new() -> Disk {
        let mut dirs = BTreeSet::new();
        dirs.insert("/".to_string());
        Disk { files: BTreeMap::new(), dirs, program_dirs: Vec::new(), node: NodeReply::Missing }
    }

    fn dir(&mut self, path: &str) {
        for ancestor in FsPath::parse(path).ancestors() {
            self.dirs.insert(ancestor.to_text());
        }
    }

    fn file(&mut self, path: &str, text: &str) {
        let parent = FsPath::parse(path).parent().unwrap();
        self.dir(&parent.to_text());
        self.files.insert(path.to_string(), text.to_string());
    }

    fn holds(&self, path: &str) -> bool {
        self.files.contains_key(path) || self.dirs.contains(path)
    }

    fn listing(&self, dir: &FsPath) -> Listing {
        let mut entries = Vec::new();
        for path in self.dirs.iter().chain(self.files.keys()) {
            let parsed = FsPath::parse(path);
            if parsed.parent().as_ref() == Some(dir) {
                let is_dir = self.dirs.contains(path);
                entries.push(Entry {
                    name: parsed.file_name().unwrap(),
                    is_dir,
                    leads_to_dir: is_dir,
                });
            }
        }
        Listing { entries }
    }

    fn answer(&self, probe: Probe) -> Answer {
        match probe {
            Probe::Exists(path) => {
                let found = self.holds(&path.to_text());
                Answer::Exists(path, found)
            }
            Probe::IsFile(path) => {
                let found = self.files.contains_key(&path.to_text());
                Answer::IsFile(path, found)
            }
            Probe::IsDir(path) => {
                let found = self.dirs.contains(&path.to_text());
                Answer::IsDir(path, found)
            }
            Probe::ReadText(path) => {
                let text = match self.files.get(&path.to_text()) {
                    Some(text) => FileText::Text(text.clone()),
                    None => FileText::Unreadable("No such file or directory".to_string()),
                };
                Answer::ReadText(path, text)
            }
            Probe::ReadHead(path) => {
                let head = match self.files.get(&path.to_text()) {
                    Some(text) => FileHead::Bytes(text.bytes().take(HEAD_LEN).collect()),
                    None => FileHead::Unreadable,
                };
                Answer::ReadHead(path, head)
            }
            Probe::List(path) => {
                let listing = self.listing(&path);
                Answer::List(path, listing)
            }
            Probe::Canonical(path) => {
                let real = if self.holds(&path.to_text()) {
                    RealPath::Path(path.clone())
                } else {
                    RealPath::Unknown
                };
                Answer::Canonical(path, real)
            }
            Probe::SearchPath => Answer::SearchPath(
                self.program_dirs.iter().map(|dir| FsPath::parse(dir)).collect(),
            ),
            Probe::Node(query) => {
                let reply = match &self.node {
                    NodeReply::Missing => NodeReply::Missing,
                    NodeReply::Broken => NodeReply::Broken,
                    NodeReply::Unresolved(text) => NodeReply::Unresolved(text.clone()),
                    NodeReply::Output(text) => NodeReply::Output(text.clone()),
                    NodeReply::Garbled(text) => NodeReply::Garbled(text.clone()),
                };
                Answer::Node(query, reply)
            }
        }
    }

    /// Answers what is asked until the result is known.
    fn explore<T>(&self, ask: impl Fn(&Findings) -> Step<T>) -> T {
        let mut findings = Findings::new();
        loop {
            match ask(&findings) {
                Step::Known(value) => return value,
                Step::Ask(probe) => findings.record(self.answer(probe)),
            }
        }
    }
}

fn json(text: &str) -> Json {
    parse_json(text).unwrap()
}

fn request(id: i32, method: &str, params: &str) -> Message {
    Message::Request(Request {
        id: RequestId::Number(id),
        method: method.to_string(),
        params: json(params),
    })
}

fn notification(method: &str, params: &str) -> Message {
    Message::Notification(Notification { method: method.to_string(), params: json(params) })
}

fn file_url(path: &str) -> String {
    url_of_path(&FsPath::parse(path)).unwrap()
}

fn document(uri: &str) -> String {
    format!(r#"{{"textDocument":{{"uri":"{uri}"}}}}"#)
}

fn opened(uri: &str) -> Message {
    notification(
        "textDocument/didOpen",
        &format!(
            r#"{{"textDocument":{{"uri":"{uri}","languageId":"typescript","version":1,"text":"a"}}}}"#
        ),
    )
}

fn initialize(id: i32, root: &str) -> Message {
    let uri = file_url(root);
    request(
        id,
        "initialize",
        &format!(
            r#"{{"processId":1,"rootUri":"{uri}","capabilities":{{}},"workspaceFolders":[{{"uri":"{uri}","name":"root"}}]}}"#
        ),
    )
}

/// A child in memory.
enum Fake {
    Lint(String),
    Format(FakeOxfmt),
}

impl Fake {
    fn answer(&self, message: Message) -> Reply {
        match self {
            Fake::Format(fake) => fake.answer(message),
            Fake::Lint(label) => match message {
                Message::Request(request) => {
                    let result = match request.method.as_str() {
                        "initialize" => json(
                            r#"{"capabilities":{"hoverProvider":true},"serverInfo":{"name":"oxlint","version":"1.2.3"}}"#,
                        ),
                        "textDocument/hover" => json(&format!(
                            r#"{{"contents":{{"kind":"plaintext","value":"lint-session={label}"}}}}"#
                        )),
                        _ => Json::Null,
                    };
                    Reply::Send(Message::Response(Response::new_ok(request.id, result)))
                }
                Message::Notification(told) => match told.method.as_str() {
                    "exit" => Reply::Stop,
                    "textDocument/didOpen" => {
                        let uri = told.params.get("textDocument").unwrap().get_str("uri").unwrap();
                        Reply::Send(notification(
                            "textDocument/publishDiagnostics",
                            &format!(
                                r#"{{"uri":"{uri}","diagnostics":[{{"message":"lint-session={label}"}}]}}"#
                            ),
                        ))
                    }
                    _ => Reply::Nothing,
                },
                Message::Response(_) => Reply::Nothing,
            },
        }
    }
}

struct Child {
    id: SessionId,
    generation: u64,
    fake: Fake,
}

struct Harness {
    proxy: Proxy,
    disk: Disk,
    init_delay_ms: Option<u64>,
    children: Vec<Child>,
    inbox: Vec<Message>,
    delayed: Vec<SessionEvent>,
    initialized_count: String,
    exited: bool,
}

impl Harness {
    fn new(disk: Disk) -> Harness {
        Harness {
            proxy: Proxy::new(),
            disk,
            init_delay_ms: None,
            children: Vec::new(),
            inbox: Vec::new(),
            delayed: Vec::new(),
            initialized_count: "0".to_string(),
            exited: false,
        }
    }

    fn send(&mut self, message: Message) {
        let mut next = self.proxy.handle_client_message(message).unwrap();
        let discovery = Discovery { windows: false };
        loop {
            next = match next {
                Next::Done => break,
                Next::Exit => {
                    self.exited = true;
                    break;
                }
                Next::Discover(path, purpose) => {
                    let outcome = self
                        .disk
                        .explore(|findings| discovery.maybe_context_for_uri_path(findings, &path));
                    assert!(self.proxy.hub.has_room());
                    self.proxy.context_found(outcome, purpose)
                }
                Next::DiscoverCurrentDir(purpose) => {
                    let path = FsPath::parse("/t");
                    let outcome = self
                        .disk
                        .explore(|findings| discovery.maybe_context_for_uri_path(findings, &path));
                    self.proxy.context_found(outcome, purpose)
                }
                Next::Spawn(order, purpose) => {
                    let label = order.context.root.as_ref().unwrap().file_name().unwrap();
                    let fake = match order.id.kind {
                        ChildKind::Lint => Fake::Lint(label),
                        ChildKind::Format => {
                            assert!(FakeOxfmt::accepts(&order.command.args));
                            Fake::Format(FakeOxfmt {
                                label,
                                counts_initialized: true,
                                init_delay_ms: self.init_delay_ms,
                            })
                        }
                    };
                    self.children.push(Child {
                        id: order.id.clone(),
                        generation: order.generation,
                        fake,
                    });
                    self.proxy.session_spawned(order, purpose, Ok(()))
                }
            };
        }
        self.pump();
    }

    fn pump(&mut self) {
        loop {
            let actions = self.proxy.hub.take_actions();
            if actions.is_empty() {
                return;
            }
            let mut events = Vec::new();
            for action in actions {
                match action {
                    Action::Client(message) => self.inbox.push(message),
                    Action::Child(id, message) => {
                        let child = self.children.iter().rfind(|child| child.id == id).unwrap();
                        match child.fake.answer(message) {
                            Reply::Nothing => {}
                            Reply::Send(reply) => {
                                events.push(SessionEvent::Message(id, child.generation, reply))
                            }
                            Reply::SendAfter(_, reply) => self
                                .delayed
                                .push(SessionEvent::Message(id, child.generation, reply)),
                            Reply::CountInitialized => {
                                let count = read_count(Some(&self.initialized_count)) + 1;
                                self.initialized_count = count.to_string();
                            }
                            Reply::Stop => events.push(SessionEvent::Closed(id, child.generation)),
                        }
                    }
                    Action::Terminate(id) | Action::Discard(id) => {
                        self.children.retain(|child| child.id != id)
                    }
                    Action::Watch(_, _) | Action::Unwatch(_) => unreachable!(),
                }
            }
            for event in events {
                self.proxy.handle_session_event(event).unwrap();
            }
        }
    }

    /// Lets the time pass that the children wait.
    fn let_time_pass(&mut self) {
        for event in std::mem::take(&mut self.delayed) {
            self.proxy.handle_session_event(event).unwrap();
        }
        self.pump();
    }

    fn expect_response(&mut self, id: i32) -> Response {
        let at = self
            .inbox
            .iter()
            .position(|message| {
                matches!(message, Message::Response(response)
                    if response.id == RequestId::Number(id))
            })
            .unwrap();
        match self.inbox.remove(at) {
            Message::Response(response) => response,
            _ => unreachable!(),
        }
    }

    fn expect_diagnostics(&mut self, uri: &str) -> String {
        let at = self
            .inbox
            .iter()
            .position(|message| {
                matches!(message, Message::Notification(told)
                    if told.method == "textDocument/publishDiagnostics"
                        && told.params.get_str("uri") == Some(uri))
            })
            .unwrap();
        match self.inbox.remove(at) {
            Message::Notification(told) => match told.params.get("diagnostics").unwrap() {
                Json::Array(items) => items[0].get_str("message").unwrap().to_string(),
                other => panic!("{other:?}"),
            },
            _ => unreachable!(),
        }
    }

    fn finish(&mut self, id: i32) {
        self.send(request(id, "shutdown", "null"));
        let response = self.expect_response(id);
        assert_eq!(response.result, Some(Json::Null));
        self.send(notification("exit", "null"));
        assert!(self.exited);
    }
}

fn project(disk: &mut Disk, name: &str) -> String {
    let root = format!("/t/{name}");
    disk.dir(&format!("{root}/src"));
    disk.file(&format!("{root}/package.json"), &format!(r#"{{"name":"{name}"}}"#));
    disk.file(&format!("{root}/node_modules/.bin/oxlint"), "#!/bin/sh\n");
    disk.file(&format!("{root}/node_modules/.bin/oxfmt"), "#!/bin/sh\n");
    root
}

fn session(root: &str, kind: ChildKind) -> SessionId {
    SessionId { project: SessionKey::Project(FsPath::parse(root)), kind }
}

/// A proxy whose client has been answered `initialize`.
fn started() -> (Harness, String) {
    let mut disk = Disk::new();
    let root = project(&mut disk, "project-a");
    let mut harness = Harness::new(disk);
    harness.send(initialize(1, &root));
    harness.expect_response(1);
    harness.send(notification("initialized", "{}"));
    (harness, root)
}

#[test]
fn routes_open_files_to_each_projects_local_oxlint() {
    let mut disk = Disk::new();
    let project_a = project(&mut disk, "project-a");
    let project_b = project(&mut disk, "project-b");
    let mut harness = Harness::new(disk);
    let file_a_uri = file_url(&format!("{project_a}/src/index.ts"));
    let file_b_uri = file_url(&format!("{project_b}/src/index.ts"));

    harness.send(initialize(1, &project_a));
    let initialized = harness.expect_response(1).result.unwrap();
    assert_eq!(initialized.get("serverInfo").unwrap().get_str("name"), Some("oxc-lsp"));
    assert_eq!(
        initialized.get("capabilities").unwrap().get("documentFormattingProvider"),
        Some(&Json::Bool(true))
    );
    harness.send(notification("initialized", "{}"));

    harness.send(opened(&file_a_uri));
    assert_eq!(harness.expect_diagnostics(&file_a_uri), "lint-session=project-a");

    harness.send(opened(&file_b_uri));
    assert_eq!(harness.expect_diagnostics(&file_b_uri), "lint-session=project-b");

    harness.send(request(2, "textDocument/hover", &document(&file_b_uri)));
    let hover = harness.expect_response(2).result.unwrap();
    let hover_text = hover.get("contents").unwrap().get_str("value").unwrap();
    assert!(hover_text.contains("lint-session=project-b"));

    harness.finish(3);
}

#[test]
fn routes_formatting_to_project_local_oxfmt() {
    let (mut harness, root) = started();
    let file_uri = file_url(&format!("{root}/src/index.ts"));

    harness.send(opened(&file_uri));
    harness.expect_diagnostics(&file_uri);

    harness.send(request(2, "textDocument/formatting", &document(&file_uri)));
    let formatted = match harness.expect_response(2).result.unwrap() {
        Json::Array(edits) => edits[0].get_str("newText").unwrap().to_string(),
        other => panic!("{other:?}"),
    };
    assert!(formatted.contains("formatted-session=project-a"));

    harness.finish(3);
}

#[test]
fn initializes_quietly_when_no_oxc_tooling_is_available() {
    let mut disk = Disk::new();
    disk.dir("/t");
    let mut harness = Harness::new(disk);
    harness.send(initialize(1, "/t"));
    let initialized = harness.expect_response(1).result.unwrap();
    assert_eq!(initialized.get("capabilities"), Some(&json("{}")));

    harness.send(notification("initialized", "{}"));
    harness.send(request(2, "textDocument/formatting", &document("file:///tmp/example.ts")));
    assert_eq!(harness.expect_response(2).result, Some(json("[]")));

    harness.finish(3);
}

#[test]
fn slow_formatter_only_receives_initialized_once() {
    let mut disk = Disk::new();
    let root = project(&mut disk, "project-a");
    let mut harness = Harness::new(disk);
    harness.init_delay_ms = Some(250);
    let file_uri = file_url(&format!("{root}/src/index.ts"));

    harness.send(initialize(1, &root));
    harness.expect_response(1);
    harness.send(notification("initialized", "{}"));
    harness.send(opened(&file_uri));
    harness.expect_diagnostics(&file_uri);
    harness.send(request(2, "textDocument/formatting", &document(&file_uri)));
    assert_eq!(harness.initialized_count, "0");
    harness.let_time_pass();
    harness.expect_response(2);

    assert_eq!(harness.initialized_count, "1");
    harness.finish(3);
}

#[test]
fn proxy_serializes_resultless_child_response_with_null_result() {
    let response = normalize_child_response(Response {
        id: RequestId::Number(7),
        result: None,
        error: None,
    });
    let id = match response.id {
        RequestId::Number(number) => lsp_server::RequestId::from(number),
        RequestId::Text(text) => lsp_server::RequestId::from(text),
    };
    let result = match response.result {
        Some(Json::Null) => Some(serde_json::Value::Null),
        other => panic!("{other:?}"),
    };
    assert_eq!(response.error, None);

    let mut bytes = Vec::new();
    lsp_server::Message::Response(lsp_server::Response { id, result, error: None })
        .write(&mut bytes)
        .unwrap();
    let text = String::from_utf8(bytes).unwrap();

    assert!(text.contains("\r\n\r\n{\"jsonrpc\":\"2.0\",\"id\":7,\"result\":null}"));
}

#[test]
fn adds_formatting_capability_to_initialize_result_when_formatter_exists() {
    let response = normalize_initialize_response_for_client(
        Response::new_ok(
            RequestId::Number(1),
            json(
                r#"{"capabilities":{"hoverProvider":true},"serverInfo":{"name":"oxlint","version":"1.2.3"}}"#,
            ),
        ),
        true,
    );

    let result = response.result.unwrap();
    assert_eq!(
        result.get("capabilities").unwrap().get("documentFormattingProvider"),
        Some(&Json::Bool(true))
    );
    assert_eq!(result.get("serverInfo"), Some(&json(r#"{"name":"oxc-lsp","version":"1.2.3"}"#)));
}

#[test]
fn leaves_formatting_capability_disabled_when_formatter_is_missing() {
    let response = normalize_initialize_response_for_client(
        Response::new_ok(
            RequestId::Number(1),
            json(r#"{"capabilities":{"hoverProvider":true}}"#),
        ),
        false,
    );

    assert!(response
        .result
        .unwrap()
        .get("capabilities")
        .unwrap()
        .get("documentFormattingProvider")
        .is_none());
}

#[test]
fn silent_initialize_result_has_no_capabilities() {
    assert_eq!(silent_initialize_result().get("capabilities"), Some(&json("{}")));
}

#[test]
fn a_response_of_a_child_keeps_its_error_and_its_result() {
    let failed = Response::new_err(RequestId::Number(1), REQUEST_FAILED, "no".to_string());
    assert_eq!(normalize_child_response(failed.clone()), failed);
    let done = Response::new_ok(RequestId::Text("a".to_string()), json("[1]"));
    assert_eq!(normalize_child_response(done.clone()), done);
}

#[test]
fn requests_wait_for_the_child_and_keep_their_order() {
    let mut disk = Disk::new();
    let root = project(&mut disk, "project-a");
    let mut harness = Harness::new(disk);
    harness.init_delay_ms = Some(10);
    let uri = file_url(&format!("{root}/src/a.ts"));
    harness.send(initialize(1, &root));
    harness.send(notification("initialized", "{}"));
    harness.send(request(5, "textDocument/formatting", &document(&uri)));
    harness.send(request(6, "textDocument/formatting", &document(&uri)));
    harness.inbox.clear();
    harness.let_time_pass();
    let ids: Vec<RequestId> = harness
        .inbox
        .iter()
        .filter_map(|message| match message {
            Message::Response(response) => Some(response.id.clone()),
            _ => None,
        })
        .collect();
    assert_eq!(ids, vec![RequestId::Number(5), RequestId::Number(6)]);
}

#[test]
fn the_requests_of_a_child_that_ends_are_answered() {
    let (mut harness, root) = started();
    let uri = file_url(&format!("{root}/src/a.ts"));
    let id = session(&root, ChildKind::Lint);
    harness.send(opened(&uri));
    let generation = harness.children.iter().find(|child| child.id == id).unwrap().generation;
    let mut next = harness
        .proxy
        .handle_client_message(request(9, "textDocument/hover", &document(&uri)))
        .unwrap();
    assert!(matches!(next, Next::Done));
    let sent = harness.proxy.hub.take_actions();
    assert!(matches!(&sent[0], Action::Child(child, _) if *child == id));
    harness.proxy.handle_session_event(SessionEvent::Closed(id.clone(), generation)).unwrap();
    harness.pump();
    let response = harness.expect_response(9);
    assert!(response.error.is_some());

    // A message of the child that was left behind changes nothing.
    harness
        .proxy
        .handle_session_event(SessionEvent::Message(
            id.clone(),
            generation,
            notification("textDocument/publishDiagnostics", "{}"),
        ))
        .unwrap();
    assert!(harness.proxy.hub.take_actions().is_empty());

    // A new child takes its place.
    next = harness
        .proxy
        .handle_client_message(request(10, "textDocument/hover", &document(&uri)))
        .unwrap();
    match next {
        Next::Discover(path, Purpose::Request(_)) => {
            assert_eq!(path, FsPath::parse(&format!("{root}/src/a.ts")))
        }
        other => panic!("{other:?}"),
    }
}

#[test]
fn a_request_of_a_child_reaches_the_client_and_its_answer_the_child() {
    let (mut harness, root) = started();
    let id = session(&root, ChildKind::Lint);
    let generation = harness.children.iter().find(|child| child.id == id).unwrap().generation;
    harness.inbox.clear();
    harness
        .proxy
        .handle_session_event(SessionEvent::Message(
            id.clone(),
            generation,
            request(41, "workspace/configuration", r#"{"items":[]}"#),
        ))
        .unwrap();
    let asked = match &harness.proxy.hub.take_actions()[0] {
        Action::Client(Message::Request(request)) => request.clone(),
        other => panic!("{other:?}"),
    };
    assert_eq!(asked.method, "workspace/configuration");
    assert_ne!(asked.id, RequestId::Number(41));

    let next = harness
        .proxy
        .handle_client_message(Message::Response(Response::new_ok(asked.id, json("[]"))))
        .unwrap();
    assert!(matches!(next, Next::Done));
    assert_eq!(
        harness.proxy.hub.take_actions(),
        vec![Action::Child(
            id,
            Message::Response(Response::new_ok(RequestId::Number(41), json("[]")))
        )]
    );
}

#[test]
fn requests_after_shutdown_are_refused() {
    let (mut harness, _) = started();
    harness.send(request(2, "shutdown", "null"));
    harness.expect_response(2);
    harness.send(request(3, "textDocument/hover", &document("file:///t/x.ts")));
    let error = harness.expect_response(3).error.unwrap();
    assert_eq!(error.code, INVALID_REQUEST);
}

#[test]
fn formatting_without_a_formatter_gives_no_edits() {
    let mut disk = Disk::new();
    let root = "/t/plain".to_string();
    disk.dir("/t/plain/src");
    disk.file("/t/plain/package.json", "{}");
    disk.file("/t/plain/node_modules/.bin/oxlint", "");
    let mut harness = Harness::new(disk);
    harness.send(initialize(1, &root));
    let result = harness.expect_response(1).result.unwrap();
    assert!(result.get("capabilities").unwrap().get("documentFormattingProvider").is_none());
    harness.send(notification("initialized", "{}"));
    let uri = file_url("/t/plain/src/a.ts");
    harness.send(opened(&uri));
    harness.send(request(2, "textDocument/formatting", &document(&uri)));
    assert_eq!(harness.expect_response(2).result, Some(json("[]")));
}

#[test]
fn a_request_without_a_place_and_without_a_project_has_no_target() {
    let mut disk = Disk::new();
    disk.dir("/t");
    let mut harness = Harness::new(disk);
    harness.send(initialize(1, "/t"));
    harness.expect_response(1);
    harness.send(request(2, "workspace/symbol", r#"{"query":"a"}"#));
    assert_eq!(harness.expect_response(2).result, Some(Json::Null));
}

#[test]
fn a_formatter_that_cannot_be_started_is_done_without() {
    let mut disk = Disk::new();
    let root = project(&mut disk, "project-a");
    let discovery = Discovery { windows: false };
    let mut proxy = Proxy::new();
    let mut next = proxy.handle_client_message(initialize(1, &root)).unwrap();
    let mut orders = Vec::new();
    loop {
        next = match next {
            Next::Done => break,
            Next::Discover(path, purpose) => {
                let outcome =
                    disk.explore(|findings| discovery.maybe_context_for_uri_path(findings, &path));
                proxy.context_found(outcome, purpose)
            }
            Next::Spawn(order, purpose) => {
                orders.push(order.id.kind);
                let result = match order.id.kind {
                    ChildKind::Lint => Ok(()),
                    ChildKind::Format => Err("no such program".to_string()),
                };
                proxy.session_spawned(order, purpose, result)
            }
            other => panic!("{other:?}"),
        };
    }
    assert_eq!(orders, vec![ChildKind::Lint, ChildKind::Format]);
    assert!(proxy.hub.sessions.contains_key(&session(&root, ChildKind::Lint)));
    assert!(!proxy.hub.sessions.contains_key(&session(&root, ChildKind::Format)));
}

#[test]
fn a_linter_that_cannot_be_started_fails_initialize() {
    let mut disk = Disk::new();
    let root = project(&mut disk, "project-a");
    let discovery = Discovery { windows: false };
    let mut proxy = Proxy::new();
    let mut next = proxy.handle_client_message(initialize(1, &root)).unwrap();
    loop {
        next = match next {
            Next::Done => break,
            Next::Discover(path, purpose) => {
                let outcome =
                    disk.explore(|findings| discovery.maybe_context_for_uri_path(findings, &path));
                proxy.context_found(outcome, purpose)
            }
            Next::Spawn(order, purpose) => {
                proxy.session_spawned(order, purpose, Err("no such program".to_string()))
            }
            other => panic!("{other:?}"),
        };
    }
    let actions = proxy.hub.take_actions();
    assert_eq!(
        actions[0],
        Action::Client(Message::Response(Response::new_err(
            RequestId::Number(1),
            REQUEST_FAILED,
            "no such program".to_string()
        )))
    );
}

#[test]
fn a_request_that_still_waits_is_cancelled_at_once() {
    let mut disk = Disk::new();
    let root = project(&mut disk, "project-a");
    let mut harness = Harness::new(disk);
    harness.init_delay_ms = Some(10);
    let uri = file_url(&format!("{root}/src/a.ts"));
    harness.send(initialize(1, &root));
    harness.send(notification("initialized", "{}"));
    harness.send(request(5, "textDocument/formatting", &document(&uri)));
    harness.send(notification("$/cancelRequest", r#"{"id":5}"#));
    let error = harness.expect_response(5).error.unwrap();
    assert_eq!(error.code, REQUEST_CANCELED);
    assert_eq!(error.message, "request cancelled");
    harness.inbox.clear();
    harness.let_time_pass();
    assert!(!harness.inbox.iter().any(|message| matches!(message, Message::Response(_))));
}

#[test]
fn ids_of_passed_on_requests_differ() {
    let (mut harness, root) = started();
    let id = session(&root, ChildKind::Lint);
    let generation = harness.children.iter().find(|child| child.id == id).unwrap().generation;
    let mut ids = Vec::new();
    for _ in 0..3 {
        harness
            .proxy
            .handle_session_event(SessionEvent::Message(
                id.clone(),
                generation,
                request(1, "workspace/configuration", "{}"),
            ))
            .unwrap();
        match &harness.proxy.hub.take_actions()[0] {
            Action::Client(Message::Request(request)) => ids.push(request.id.clone()),
            other => panic!("{other:?}"),
        }
    }
    assert_ne!(ids[0], ids[1]);
    assert_ne!(ids[1], ids[2]);
    assert_ne!(ids[0], ids[2]);
}

#[test]
fn closing_an_unknown_document_starts_nothing() {
    let mut disk = Disk::new();
    let root = project(&mut disk, "project-a");
    let other = project(&mut disk, "project-b");
    let mut harness = Harness::new(disk);
    harness.send(initialize(1, &root));
    let before = harness.children.len();
    harness.send(notification(
        "textDocument/didClose",
        &document(&file_url(&format!("{other}/src/a.ts"))),
    ));
    assert_eq!(harness.children.len(), before);
}

#[test]
fn an_open_document_stays_with_its_project() {
    let (mut harness, root) = started();
    let uri = file_url(&format!("{root}/src/a.ts"));
    harness.send(opened(&uri));
    harness.expect_diagnostics(&uri);
    harness.disk.files.clear();
    harness.send(request(7, "textDocument/hover", &document(&uri)));
    let hover = harness.expect_response(7).result.unwrap();
    assert_eq!(
        hover.get("contents").unwrap().get_str("value"),
        Some("lint-session=project-a")
    );
}

#[test]
fn a_child_that_is_reached_no_more_is_dropped_at_the_next_message() {
    let (mut harness, root) = started();
    let uri = file_url(&format!("{root}/src/a.ts"));
    harness.send(opened(&uri));
    let id = session(&root, ChildKind::Lint);
    let generation = harness.children.iter().find(|child| child.id == id).unwrap().generation;
    harness
        .proxy
        .handle_session_event(SessionEvent::WriterClosed(id.clone(), generation))
        .unwrap();
    harness.send(request(8, "textDocument/hover", &document(&uri)));
    let error = harness.expect_response(8).error.unwrap();
    assert_eq!(error.code, REQUEST_FAILED);
    assert_eq!(
        error.message,
        "failed to forward request to child: failed to forward message to session: sending on a disconnected channel"
    );
    assert!(!harness.proxy.hub.sessions.contains_key(&id));
}

#[test]
fn a_linter_that_fails_to_initialize_is_dropped() {
    let mut disk = Disk::new();
    let root = project(&mut disk, "project-a");
    let discovery = Discovery { windows: false };
    let mut proxy = Proxy::new();
    let mut next = proxy.handle_client_message(initialize(1, &root)).unwrap();
    let mut generation = 0;
    loop {
        next = match next {
            Next::Done => break,
            Next::Discover(path, purpose) => {
                let outcome =
                    disk.explore(|findings| discovery.maybe_context_for_uri_path(findings, &path));
                proxy.context_found(outcome, purpose)
            }
            Next::Spawn(order, purpose) => {
                if order.id.kind == ChildKind::Lint {
                    generation = order.generation;
                }
                proxy.session_spawned(order, purpose, Ok(()))
            }
            other => panic!("{other:?}"),
        };
    }
    proxy.hub.take_actions();
    let id = session(&root, ChildKind::Lint);
    let refused = Response::new_err(RequestId::Number(1), REQUEST_FAILED, "bad".to_string());
    proxy
        .handle_session_event(SessionEvent::Message(
            id.clone(),
            generation,
            Message::Response(refused.clone()),
        ))
        .unwrap();
    let actions = proxy.hub.take_actions();
    assert_eq!(actions[0], Action::Client(Message::Response(refused)));
    assert_eq!(actions[1], Action::Terminate(id.clone()));
    match &actions[2] {
        Action::Client(Message::Notification(warning)) => assert_eq!(
            warning.params.get_str("message"),
            Some(
                "oxlint initialize failed: bad: SessionId { project: Project(\"/t/project-a\"), kind: Lint }"
            )
        ),
        other => panic!("{other:?}"),
    }
    assert!(!proxy.hub.sessions.contains_key(&id));
}
