//! The ESLint server.

use std::collections::{BTreeMap, BTreeSet};

use helix_lsps::disk::{
    Answer, Entry, FileHead, FileText, Findings, Listing, NodeReply, Outcome, Probe, RealPath, Step,
    HEAD_LEN,
};
use helix_lsps::eslint::backend::{
    allows_fix_all, edit_notice, execute_command, fix_edit, initialize_result, needs_fix,
    synthetic_diagnostic, to_lsp_diagnostic, Applied, CodeActionParams, CommandStep, Severity,
    State,
};
use helix_lsps::eslint::resolver::{
    discover_project_roots, format_bridge_error, is_tool_unavailable, judge, notice_of_reading,
    package_json_notice, project_root_warnings, should_restart_worker_after, worker_args,
    BridgeEnvelope, ConfigFormat, Exchange, LintError, LintMessage, LintResponse, LintStep,
    ManifestNotice, ProjectContext, ProjectRoots, Resolver, Worker,
};
use helix_lsps::json::Json;
use helix_lsps::json_text::parse_json;
use helix_lsps::path::FsPath;
use helix_lsps::position::{full_document_range, is_countable, Position, Range, TextEdit};

/// A disk in memory, and what is found in the rest of the machine.
struct Disk {
    files: BTreeMap<String, String>,
    dirs: BTreeSet<String>,
    program_dirs: Vec<String>,
    node: NodeReply,
}

impl Disk {
    fn new() -> Disk {
        let mut dirs = BTreeSet::new();
        dirs.insert("/".to_string());
        Disk { files: BTreeMap::new(), dirs, program_dirs: Vec::new(), node: NodeReply::Missing }
    }

    fn dir(&mut self, path: &str) {
        for ancestor in FsPath::parse(path).ancestors() {
            self.dirs.insert(ancestor.to_text());
        }
    }

    fn file(&mut self, path: &str, text: &str) {
        let parent = FsPath::parse(path).parent().unwrap();
        self.dir(&parent.to_text());
        self.files.insert(path.to_string(), text.to_string());
    }

    fn holds(&self, path: &str) -> bool {
        self.files.contains_key(path) || self.dirs.contains(path)
    }

    fn listing(&self, dir: &FsPath) -> Listing {
        let mut entries = Vec::new();
        for path in self.dirs.iter().chain(self.files.keys()) {
            let parsed = FsPath::parse(path);
            if parsed.parent().as_ref() == Some(dir) {
                let is_dir = self.dirs.contains(path);
                entries.push(Entry {
                    name: parsed.file_name().unwrap(),
                    is_dir,
                    leads_to_dir: is_dir,
                });
            }
        }
        Listing { entries }
    }

    fn answer(&self, probe: Probe) -> Answer {
        match probe {
            Probe::Exists(path) => {
                let found = self.holds(&path.to_text());
                Answer::Exists(path, found)
            }
            Probe::IsFile(path) => {
                let found = self.files.contains_key(&path.to_text());
                Answer::IsFile(path, found)
            }
            Probe::IsDir(path) => {
                let found = self.dirs.contains(&path.to_text());
                Answer::IsDir(path, found)
            }
            Probe::ReadText(path) => {
                let text = match self.files.get(&path.to_text()) {
                    Some(text) => FileText::Text(text.clone()),
                    None => FileText::Unreadable("No such file or directory".to_string()),
                };
                Answer::ReadText(path, text)
            }
            Probe::ReadHead(path) => {
                let head = match self.files.get(&path.to_text()) {
                    Some(text) => FileHead::Bytes(text.bytes().take(HEAD_LEN).collect()),
                    None => FileHead::Unreadable,
                };
                Answer::ReadHead(path, head)
            }
            Probe::List(path) => {
                let listing = self.listing(&path);
                Answer::List(path, listing)
            }
            Probe::Canonical(path) => {
                let real = if self.holds(&path.to_text()) {
                    RealPath::Path(path.clone())
                } else {
                    RealPath::Unknown
                };
                Answer::Canonical(path, real)
            }
            Probe::SearchPath => Answer::SearchPath(
                self.program_dirs.iter().map(|dir| FsPath::parse(dir)).collect(),
            ),
            Probe::Node(query) => {
                let reply = match &self.node {
                    NodeReply::Missing => NodeReply::Missing,
                    NodeReply::Broken => NodeReply::Broken,
                    NodeReply::Unresolved(text) => NodeReply::Unresolved(text.clone()),
                    NodeReply::Output(text) => NodeReply::Output(text.clone()),
                    NodeReply::Garbled(text) => NodeReply::Garbled(text.clone()),
                };
                Answer::Node(query, reply)
            }
        }
    }

    /// Answers what is asked until the result is known.
    fn explore<T>(&self, ask: impl Fn(&Findings) -> Step<T>) -> T {
        let mut findings = Findings::new();
        loop {
            match ask(&findings) {
                Step::Known(value) => return value,
                Step::Ask(probe) => findings.record(self.answer(probe)),
            }
        }
    }
}

fn path(text: &str) -> FsPath {
    FsPath::parse(text)
}

fn roots_of(disk: &Disk, dir: &str) -> ProjectRoots {
    let dir = path(dir);
    disk.explore(|findings| discover_project_roots(findings, &dir))
}

fn context_of(
    resolver: &mut Resolver,
    disk: &Disk,
    file: &str,
) -> (Outcome<ProjectContext>, usize) {
    let file = path(file);
    let mut findings = Findings::new();
    let mut node_runs = 0;
    loop {
        match resolver.resolve_project_context(&findings, &file) {
            Step::Known(outcome) => return (outcome, node_runs),
            Step::Ask(probe) => {
                if let Probe::Node(query) = &probe {
                    assert_eq!(query.package, "eslint");
                    node_runs += 1;
                }
                findings.record(disk.answer(probe));
            }
        }
    }
}

fn envelope(id: u64, fixed_text: Option<&str>) -> BridgeEnvelope {
    BridgeEnvelope {
        id,
        ok: true,
        diagnostics: Some(Vec::new()),
        fixed_text: fixed_text.map(|text| text.to_string()),
        error: None,
    }
}

fn fixed(text: &str) -> LintResponse {
    LintResponse { diagnostics: Vec::new(), fixed_text: Some(text.to_string()) }
}

fn position(line: u32, character: u32) -> Position {
    Position { line, character }
}

#[test]
fn fix_all_filter_accepts_missing_only() {
    let params = CodeActionParams { uri: "file:///tmp/example.js".to_string(), only: None };
    assert!(allows_fix_all(&params));
}

#[test]
fn range_covers_entire_single_line_document() {
    let range = full_document_range("const value = 1");
    assert_eq!(range.end, position(0, 15));
}

#[test]
fn range_covers_document_with_trailing_newline() {
    let range = full_document_range("const value = 1;\n");
    assert_eq!(range.end, position(1, 0));
}

#[test]
fn fix_all_filter_rejects_other_source_actions() {
    let params = CodeActionParams {
        uri: "file:///tmp/example.js".to_string(),
        only: Some(vec!["source.organizeImports".to_string()]),
    };
    assert!(!allows_fix_all(&params));
}

#[test]
fn fix_all_filter_accepts_the_kinds_that_take_it_in() {
    for kind in ["source", "source.fixAll", "source.fixAll.eslint"] {
        let params = CodeActionParams {
            uri: "file:///tmp/example.js".to_string(),
            only: Some(vec!["quickfix".to_string(), kind.to_string()]),
        };
        assert!(allows_fix_all(&params));
    }
    let params =
        CodeActionParams { uri: "file:///tmp/example.js".to_string(), only: Some(Vec::new()) };
    assert!(!allows_fix_all(&params));
}

#[test]
fn prefers_nearest_flat_config() {
    let mut disk = Disk::new();
    disk.dir("/t/packages/app/src");
    disk.file("/t/eslint.config.mjs", "export default [];");

    let roots = roots_of(&disk, "/t/packages/app/src");
    assert_eq!(roots.cwd, path("/t"));
    assert_eq!(roots.config_format, ConfigFormat::Flat);
    assert_eq!(roots.eslint_resolution_dir, path("/t"));
}

#[test]
fn falls_back_to_package_json_without_explicit_config() {
    let mut disk = Disk::new();
    disk.dir("/t/src");
    disk.file("/t/package.json", r#"{"name":"fixture"}"#);

    let roots = roots_of(&disk, "/t/src");
    assert_eq!(roots.cwd, path("/t"));
    assert_eq!(roots.config_format, ConfigFormat::Default);
    assert_eq!(roots.eslint_resolution_dir, path("/t"));
}

#[test]
fn detects_legacy_config_in_package_json() {
    let mut disk = Disk::new();
    disk.dir("/t/src");
    disk.file(
        "/t/package.json",
        r#"{"name":"fixture","eslintConfig":{"rules":{"semi":"error"}}}"#,
    );

    let roots = roots_of(&disk, "/t/src");
    assert_eq!(roots.cwd, path("/t"));
    assert_eq!(roots.config_format, ConfigFormat::Eslintrc);
    assert_eq!(roots.eslint_resolution_dir, path("/t"));
}

#[test]
fn keeps_root_config_but_resolves_eslint_from_nearest_package() {
    let mut disk = Disk::new();
    disk.dir("/t/packages/app/src");
    disk.file(
        "/t/package.json",
        r#"{"name":"workspace","private":true,"workspaces":["packages/*"]}"#,
    );
    disk.file("/t/eslint.config.mjs", "export default [];");
    disk.file("/t/packages/app/package.json", r#"{"name":"app"}"#);

    let roots = roots_of(&disk, "/t/packages/app/src");
    assert_eq!(roots.cwd, path("/t"));
    assert_eq!(roots.config_format, ConfigFormat::Flat);
    assert_eq!(roots.eslint_resolution_dir, path("/t/packages/app"));
}

#[test]
fn formats_rule_api_incompatibility_errors_compactly() {
    let message = format_bridge_error(
        "TypeError: Error while loading rule 'react/display-name': contextOrFilename.getFilename is not a function\n    at some stack frame",
    );

    assert!(message.contains("not compatible with the local ESLint version"));
    assert!(message.contains("@eslint/compat"));
}

#[test]
fn recognizes_missing_eslint_as_unavailable() {
    assert!(is_tool_unavailable(&LintError::new(
        "could not resolve a local eslint installation from /tmp/project"
    )));
    assert!(is_tool_unavailable(&LintError::new("failed to spawn the eslint worker process")));
    assert!(!is_tool_unavailable(&LintError::new("eslint worker exited before replying")));
}

#[test]
fn restarts_worker_after_transport_failures_only() {
    assert!(should_restart_worker_after(&LintError::new("eslint worker exited before replying")));
    assert!(should_restart_worker_after(&LintError::new(
        "eslint worker timed out while handling the request"
    )));
    // A well-framed response that fails to decode means the payload is wrong,
    // not the transport, so the healthy worker must be kept alive.
    assert!(!should_restart_worker_after(&LintError::new(
        "failed to decode eslint worker response"
    )));
    assert!(!should_restart_worker_after(&LintError::new(
        "ESLint failed while evaluating the local project setup"
    )));
}

#[test]
fn ignores_malformed_package_json_during_discovery() {
    let mut disk = Disk::new();
    disk.dir("/t/src");
    disk.file("/t/package.json", "{ this is not json");

    let roots = roots_of(&disk, "/t/src");
    assert_eq!(roots.cwd, path("/t"));
    assert_eq!(roots.config_format, ConfigFormat::Default);
}

#[test]
fn manifests_that_are_of_no_use_are_warned_of() {
    let mut disk = Disk::new();
    disk.dir("/w/t/src");
    disk.dir("/w/package.json");
    disk.file("/w/t/package.json", "{ this is not json");
    let warnings = |disk: &Disk, dir: &str| {
        disk.explore(|findings| project_root_warnings(findings, &path(dir))).texts
    };
    assert_eq!(
        warnings(&disk, "/w/t/src"),
        vec![
            "failed to parse /w/t/package.json: key must be a string at line 1 column 3",
            "failed to read /w/package.json: No such file or directory",
        ]
    );
    assert_eq!(warnings(&disk, "/"), Vec::<String>::new());

    let notice = |disk: &Disk, dir: &str| {
        disk.explore(|findings| package_json_notice(findings, &path(dir)))
    };
    assert!(matches!(notice(&disk, "/w"), ManifestNotice::Unreadable(_)));
    assert!(matches!(notice(&disk, "/w/t"), ManifestNotice::Unparseable(_)));
    assert_eq!(notice(&disk, "/w/t/src"), ManifestNotice::Nothing);
    assert_eq!(
        notice_of_reading(&path("/a/package.json"), &Err("boom".to_string())),
        ManifestNotice::Unparseable("failed to parse /a/package.json: boom".to_string())
    );
    assert_eq!(
        notice_of_reading(&path("/a/package.json"), &Ok(Json::Null)),
        ManifestNotice::Nothing
    );

    // The search ends at the first configuration, and so do the warnings.
    disk.file("/w/t/src/package.json", r#"{"eslintConfig":{}}"#);
    assert_eq!(warnings(&disk, "/w/t/src"), Vec::<String>::new());
    disk.file("/w/t/.eslintrc", "{}");
    assert_eq!(warnings(&disk, "/w/t"), Vec::<String>::new());
    assert_eq!(warnings(&disk, "/w").len(), 1);
}

#[test]
fn restarts_worker_after_the_child_exits_before_replying() {
    let mut worker = Worker::new();
    let first_id = worker.next_request_id();
    let first = match Worker::first_exchange(Exchange::Closed, first_id) {
        LintStep::Restart(error) => error,
        other => panic!("{other:?}"),
    };
    let second_id = worker.next_request_id();
    assert_eq!(second_id, 2);
    let response = Worker::second_exchange(
        &first,
        Exchange::Reply(envelope(2, Some("fixed text"))),
        second_id,
    )
    .unwrap();
    assert_eq!(response.fixed_text.as_deref(), Some("fixed text"));
}

#[test]
fn a_worker_that_fails_twice_gives_its_first_failure() {
    let first = LintError::new("eslint worker exited before replying");
    let error = Worker::second_exchange(&first, Exchange::TimedOut, 2).unwrap_err();
    assert_eq!(
        error.message,
        "eslint worker request failed after restart; original failure: eslint worker exited before replying"
    );
    assert_eq!(
        Worker::restart_failed(&first).message,
        "failed to restart eslint worker after request failure: eslint worker exited before replying"
    );
}

#[test]
fn every_exchange_has_its_verdict() {
    let failure = |exchange| judge(exchange, 7).unwrap_err().message;
    assert_eq!(failure(Exchange::WriteFailed), "failed to write request to eslint worker");
    assert_eq!(
        failure(Exchange::DelimiterFailed),
        "failed to flush request delimiter to eslint worker"
    );
    assert_eq!(failure(Exchange::ReadFailed), "failed to read response from eslint worker");
    assert_eq!(failure(Exchange::TimedOut), "eslint worker timed out while handling the request");
    assert_eq!(failure(Exchange::Closed), "eslint worker exited before replying");
    assert_eq!(failure(Exchange::Undecodable), "failed to decode eslint worker response");
    assert_eq!(
        failure(Exchange::Reply(envelope(8, None))),
        "eslint worker response id mismatch: expected 7, got 8"
    );
    assert_eq!(judge(Exchange::Reply(envelope(7, Some("a"))), 7).unwrap(), fixed("a"));
    let mut refused = envelope(7, None);
    refused.ok = false;
    refused.error = Some("Error: boom".to_string());
    assert_eq!(failure(Exchange::Reply(refused)), format_bridge_error("Error: boom"));
}

#[test]
fn the_bridge_knows_the_config_formats() {
    assert_eq!(ConfigFormat::Default.as_bridge_value(), "default");
    assert_eq!(ConfigFormat::Flat.as_bridge_value(), "flat");
    assert_eq!(ConfigFormat::Eslintrc.as_bridge_value(), "eslintrc");
}

#[test]
fn workers_are_started_in_their_project() {
    let project = ProjectContext {
        cwd: path("/p"),
        config_format: ConfigFormat::Flat,
        eslint_package_json: path("/p/node_modules/eslint/package.json"),
    };
    assert_eq!(
        worker_args("script", &project),
        vec![
            "--input-type=module",
            "--eval",
            "script",
            "eslint-lsp-bridge",
            "/p/node_modules/eslint/package.json",
            "/p",
            "flat"
        ]
    );
}

#[test]
fn node_is_asked_for_eslint_once_for_each_package() {
    let mut disk = Disk::new();
    disk.dir("/p/src");
    disk.file("/p/package.json", "{}");
    disk.node = NodeReply::Output("/p/node_modules/eslint/package.json\n".to_string());
    let mut resolver = Resolver::new();

    let (first, runs) = context_of(&mut resolver, &disk, "/p/src/a.js");
    assert_eq!(runs, 1);
    let expected = ProjectContext {
        cwd: path("/p"),
        config_format: ConfigFormat::Default,
        eslint_package_json: path("/p/node_modules/eslint/package.json"),
    };
    assert_eq!(first, Outcome::Found(expected.clone()));

    let (second, runs) = context_of(&mut resolver, &disk, "/p/src/b.js");
    assert_eq!(runs, 0);
    assert_eq!(second, Outcome::Found(expected.clone()));

    assert_eq!(resolver.worker(&expected), None);
    assert_eq!(resolver.keep_worker(&expected, 4), 4);
    assert_eq!(resolver.keep_worker(&expected, 5), 4);
    assert_eq!(resolver.worker(&expected), Some(4));
}

#[test]
fn a_missing_eslint_is_not_an_error_of_the_document() {
    let mut disk = Disk::new();
    disk.dir("/p/src");
    disk.file("/p/package.json", "{}");
    disk.node = NodeReply::Unresolved("Cannot find module 'eslint/package.json'".to_string());
    let mut resolver = Resolver::new();
    match context_of(&mut resolver, &disk, "/p/src/a.js").0 {
        Outcome::Failed(message) => assert!(is_tool_unavailable(&LintError::new(&message))),
        other => panic!("{other:?}"),
    }
    match context_of(&mut resolver, &disk, "/").0 {
        Outcome::Failed(message) => {
            assert_eq!(message, "cannot lint a path without a parent directory: /")
        }
        other => panic!("{other:?}"),
    }
}

#[test]
fn problems_are_counted_from_nothing() {
    let diagnostic = to_lsp_diagnostic(LintMessage {
        rule_id: Some("semi".to_string()),
        severity: 2,
        message: "Missing semicolon.".to_string(),
        line: Some(3),
        column: Some(5),
        end_line: None,
        end_column: None,
    });
    assert_eq!(diagnostic.range, Range { start: position(2, 4), end: position(2, 5) });
    assert_eq!(diagnostic.severity, Severity::Error);
    assert_eq!(diagnostic.source, "eslint");
    assert_eq!(diagnostic.code.as_deref(), Some("semi"));

    let placeless = to_lsp_diagnostic(LintMessage {
        rule_id: None,
        severity: 1,
        message: "File ignored.".to_string(),
        line: None,
        column: None,
        end_line: Some(0),
        end_column: Some(0),
    });
    assert_eq!(placeless.range, Range { start: position(0, 0), end: position(0, 0) });
    assert_eq!(placeless.severity, Severity::Warning);
}

#[test]
fn a_failure_is_shown_at_the_start() {
    let diagnostic = synthetic_diagnostic("boom".to_string());
    assert_eq!(diagnostic.range, Range { start: position(0, 0), end: position(0, 1) });
    assert_eq!(diagnostic.message, "boom");
}

#[test]
fn only_the_last_change_is_published() {
    let uri = "file:///p/a.js".to_string();
    let mut state = State::new();
    let first = state.did_open(uri.clone(), 1, "a".to_string());
    let second =
        state.did_change(uri.clone(), 2, vec!["x".to_string(), "b".to_string()]).unwrap();
    assert!(second > first);
    assert!(!state.is_current_generation(&uri, first));
    assert!(state.is_current_generation(&uri, second));
    assert_eq!(state.did_change(uri.clone(), 3, Vec::new()), None);

    let (request, version) = state.lint_work(&uri, false).unwrap();
    assert_eq!(version, 2);
    assert_eq!(request.text, "b");
    assert_eq!(request.file_path, path("/p/a.js"));

    assert_eq!(state.lint_done(&uri, first, 1, Ok(fixed("c"))), None);
    let publication = state.lint_done(&uri, second, 2, Err(LintError::new("boom"))).unwrap();
    assert_eq!(publication.version, Some(2));
    assert_eq!(publication.warning.as_deref(), Some("boom"));
    assert_eq!(publication.diagnostics, vec![synthetic_diagnostic("boom".to_string())]);

    let saved = state.did_save(uri.clone());
    assert!(state.can_schedule(&uri));
    assert!(saved > second);

    let closed = state.did_close(uri.clone());
    assert!(closed.diagnostics.is_empty());
    assert_eq!(state.lint_work(&uri, false), None);
    assert!(!state.is_current_generation(&uri, saved));
}

#[test]
fn documents_that_are_no_files_are_not_linted() {
    let mut state = State::new();
    state.did_open("untitled:1".to_string(), 1, "a".to_string());
    assert_eq!(state.lint_work(&"untitled:1".to_string(), true), None);
}

#[test]
fn a_fix_replaces_the_whole_document() {
    assert!(is_countable("a;;\n"));
    assert_eq!(
        fix_edit("a;;\n", Ok(fixed("a;\n"))),
        Some(TextEdit {
            range: Range { start: position(0, 0), end: position(1, 0) },
            new_text: "a;\n".to_string()
        })
    );
    assert!(needs_fix("a;;\n", &Ok(fixed("a;\n"))));
    assert!(!needs_fix("a;\n", &Ok(fixed("a;\n"))));
    assert!(!needs_fix("a;\n", &Err(LintError::new("boom"))));
    assert_eq!(fix_edit("a;\n", Ok(fixed("a;\n"))), None);
    assert_eq!(fix_edit("a;\n", Err(LintError::new("boom"))), None);
}

#[test]
fn the_fix_is_offered_for_open_documents() {
    let mut state = State::new();
    let params = CodeActionParams { uri: "file:///p/a.js".to_string(), only: None };
    assert_eq!(state.code_action(&params), None);
    state.did_open("file:///p/a.js".to_string(), 1, "a".to_string());
    let action = state.code_action(&params).unwrap();
    assert_eq!(action.kind, "source.fixAll.eslint");
    assert!(action.is_preferred);
    assert_eq!(action.command.command, "eslint.applyFixAll");

    // What the action carries is what the command takes.
    let argument = Json::Text(action.command.argument.clone());
    assert_eq!(
        execute_command(&action.command.command, &vec![argument]),
        CommandStep::Fix("file:///p/a.js".to_string())
    );
}

#[test]
fn commands_are_told_apart() {
    assert_eq!(execute_command("other", &Vec::new()), CommandStep::Ignored);
    let invalid = CommandStep::Invalid(
        "eslint.applyFixAll was called without a valid document URI".to_string(),
    );
    assert_eq!(execute_command("eslint.applyFixAll", &Vec::new()), invalid);
    assert_eq!(execute_command("eslint.applyFixAll", &vec![Json::Bool(true)]), invalid);
    assert_eq!(
        execute_command("eslint.applyFixAll", &vec![Json::Text("not a uri".to_string())]),
        invalid
    );
    assert_eq!(
        execute_command("eslint.applyFixAll", &vec![Json::Text("FILE:///p/../a.js".to_string())]),
        CommandStep::Fix("file:///a.js".to_string())
    );
}

#[test]
fn rejected_edits_are_noticed() {
    assert_eq!(edit_notice(Applied::Yes), None);
    let notice = edit_notice(Applied::Rejected).unwrap();
    assert_eq!(notice.severity, Severity::Warning);
    assert_eq!(notice.message, "the client rejected the ESLint fix-all workspace edit");
    let notice = edit_notice(Applied::Failed("gone".to_string())).unwrap();
    assert_eq!(notice.severity, Severity::Error);
    assert_eq!(notice.message, "gone");
}

#[test]
fn the_eslint_server_introduces_itself() {
    let result = initialize_result();
    assert_eq!(result.get("serverInfo").unwrap().get_str("name"), Some("eslint-lsp"));
    assert_eq!(
        result.get("capabilities").unwrap().get("executeCommandProvider"),
        Some(&parse_json(r#"{"commands":["eslint.applyFixAll"]}"#).unwrap())
    );
}
