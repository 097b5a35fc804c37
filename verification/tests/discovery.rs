//! Looking for what serves a file, on a disk in memory.

use std::collections::{BTreeMap, BTreeSet};

use helix_lsps::disk::{
    Answer, Entry, FileHead, FileText, Findings, Listing, NodeReply, Outcome, Probe, RealPath, Step,
    HEAD_LEN,
};
use helix_lsps::oxc;
use helix_lsps::path::FsPath;
use helix_lsps::project::{CommandSpec, SessionKey};
use helix_lsps::tsgo;
use helix_lsps::tsgo::discovery::{
    is_node_shebang, is_supported_typescript_version, node_arch, node_platform, Host,
};
use helix_lsps::json_text::parse_json;

/// A disk in memory, and what is found in the rest of the machine.
struct Disk {
    files: BTreeMap<String, String>,
    dirs: BTreeSet<String>,
    program_dirs: Vec<String>,
    node: NodeReply,
}

impl Disk {
    fn new() -> Disk {
        let mut dirs = BTreeSet::new();
        dirs.insert("/".to_string());
        Disk { files: BTreeMap::new(), dirs, program_dirs: Vec::new(), node: NodeReply::Missing }
    }

    fn dir(&mut self, path: &str) {
        for ancestor in FsPath::parse(path).ancestors() {
            self.dirs.insert(ancestor.to_text());
        }
    }

    fn file(&mut self, path: &str, text: &str) {
        let parent = FsPath::parse(path).parent().unwrap();
        self.dir(&parent.to_text());
        self.files.insert(path.to_string(), text.to_string());
    }

    fn holds(&self, path: &str) -> bool {
        self.files.contains_key(path) || self.dirs.contains(path)
    }

    fn listing(&self, dir: &FsPath) -> Listing {
        let mut entries = Vec::new();
        for path in self.dirs.iter().chain(self.files.keys()) {
            let parsed = FsPath::parse(path);
            if parsed.parent().as_ref() == Some(dir) {
                let is_dir = self.dirs.contains(path);
                entries.push(Entry {
                    name: parsed.file_name().unwrap(),
                    is_dir,
                    leads_to_dir: is_dir,
                });
            }
        }
        Listing { entries }
    }

    fn answer(&self, probe: Probe) -> Answer {
        match probe {
            Probe::Exists(path) => {
                let found = self.holds(&path.to_text());
                Answer::Exists(path, found)
            }
            Probe::IsFile(path) => {
                let found = self.files.contains_key(&path.to_text());
                Answer::IsFile(path, found)
            }
            Probe::IsDir(path) => {
                let found = self.dirs.contains(&path.to_text());
                Answer::IsDir(path, found)
            }
            Probe::ReadText(path) => {
                let text = match self.files.get(&path.to_text()) {
                    Some(text) => FileText::Text(text.clone()),
                    None => FileText::Unreadable("No such file or directory".to_string()),
                };
                Answer::ReadText(path, text)
            }
            Probe::ReadHead(path) => {
                let head = match self.files.get(&path.to_text()) {
                    Some(text) => FileHead::Bytes(text.bytes().take(HEAD_LEN).collect()),
                    None => FileHead::Unreadable,
                };
                Answer::ReadHead(path, head)
            }
            Probe::List(path) => {
                let listing = self.listing(&path);
                Answer::List(path, listing)
            }
            Probe::Canonical(path) => {
                let real = if self.holds(&path.to_text()) {
                    RealPath::Path(path.clone())
                } else {
                    RealPath::Unknown
                };
                Answer::Canonical(path, real)
            }
            Probe::SearchPath => Answer::SearchPath(
                self.program_dirs.iter().map(|dir| FsPath::parse(dir)).collect(),
            ),
            Probe::Node(query) => {
                let reply = match &self.node {
                    NodeReply::Missing => NodeReply::Missing,
                    NodeReply::Broken => NodeReply::Broken,
                    NodeReply::Unresolved(text) => NodeReply::Unresolved(text.clone()),
                    NodeReply::Output(text) => NodeReply::Output(text.clone()),
                    NodeReply::Garbled(text) => NodeReply::Garbled(text.clone()),
                };
                Answer::Node(query, reply)
            }
        }
    }

    /// Answers what is asked until the result is known.
    fn explore<T>(&self, ask: impl Fn(&Findings) -> Step<T>) -> T {
        let mut findings = Findings::new();
        loop {
            match ask(&findings) {
                Step::Known(value) => return value,
                Step::Ask(probe) => findings.record(self.answer(probe)),
            }
        }
    }
}

fn path(text: &str) -> FsPath {
    FsPath::parse(text)
}

fn oxc_context(disk: &Disk, file: &str) -> Outcome<oxc::discovery::ProjectContext> {
    let discovery = oxc::discovery::Discovery { windows: false };
    let file = path(file);
    disk.explore(|findings| discovery.context_for_uri_path(findings, &file))
}

fn found_oxc(disk: &Disk, file: &str) -> oxc::discovery::ProjectContext {
    match oxc_context(disk, file) {
        Outcome::Found(context) => context,
        other => panic!("{other:?}"),
    }
}

fn linux() -> Host {
    Host { windows: false, os: "linux".to_string(), arch: "x86_64".to_string() }
}

fn tsgo_context(disk: &Disk, file: &str) -> Outcome<tsgo::discovery::ProjectContext> {
    let discovery = tsgo::discovery::Discovery { host: linux() };
    let file = path(file);
    disk.explore(|findings| discovery.context_for_uri_path(findings, &file))
}

fn found_tsgo(disk: &Disk, file: &str) -> tsgo::discovery::ProjectContext {
    match tsgo_context(disk, file) {
        Outcome::Found(context) => context,
        other => panic!("{other:?}"),
    }
}

fn ends_with(program: &FsPath, name: &str) -> bool {
    program.file_name().as_deref() == Some(name)
}

#[test]
fn prefers_nearest_package_with_local_oxc_tools() {
    let mut disk = Disk::new();
    disk.dir("/t/workspace/packages/app/src");
    disk.file("/t/workspace/packages/app/package.json", r#"{"name":"app"}"#);
    disk.file("/t/workspace/packages/app/node_modules/.bin/oxlint", "#!/bin/sh\n");
    disk.file("/t/workspace/packages/app/node_modules/.bin/oxfmt", "#!/bin/sh\n");

    let context = found_oxc(&disk, "/t/workspace/packages/app/src/index.ts");

    let package = path("/t/workspace/packages/app");
    assert_eq!(context.key, SessionKey::Project(package.clone()));
    assert_eq!(context.root, Some(package.clone()));
    assert!(ends_with(&context.lint_command.program, "oxlint"));
    assert!(context
        .format_command
        .as_ref()
        .is_some_and(|command| ends_with(&command.program, "oxfmt")));
    assert_eq!(context.lint_command.args, vec!["--lsp"]);
    assert_eq!(context.lint_command.cwd, Some(package));
}

#[test]
fn falls_back_to_global_oxlint_when_no_local_install_exists() {
    let mut disk = Disk::new();
    disk.dir("/t/src");
    disk.file("/t/bin/oxlint", "#!/bin/sh\n");
    disk.file("/t/bin/oxfmt", "#!/bin/sh\n");
    disk.program_dirs = vec!["/t/bin".to_string()];

    let context = found_oxc(&disk, "/t/src/index.ts");

    assert_eq!(context.key, SessionKey::Global);
    assert_eq!(context.lint_command.program, path("/t/bin/oxlint"));
    assert!(context
        .format_command
        .as_ref()
        .is_some_and(|command| ends_with(&command.program, "oxfmt")));
}

#[test]
fn discovery_falls_back_to_package_bin_when_shim_is_missing() {
    let mut disk = Disk::new();
    disk.dir("/t/project/src");
    disk.file("/t/project/package.json", r#"{"name":"fixture"}"#);
    disk.file(
        "/t/project/node_modules/oxlint/package.json",
        r#"{"name":"oxlint","bin":{"oxlint":"bin/oxlint.js"}}"#,
    );
    disk.file("/t/project/node_modules/oxlint/bin/oxlint.js", "console.log('fake');");

    let context = found_oxc(&disk, "/t/project/src/index.ts");

    assert_eq!(context.key, SessionKey::Project(path("/t/project")));
    assert_eq!(context.lint_command.program, path("node"));
    assert_eq!(
        context.lint_command.args[0],
        "/t/project/node_modules/oxlint/bin/oxlint.js"
    );

    let mut disk = Disk::new();
    disk.dir("/t/project/src");
    disk.file("/t/project/package.json", r#"{"name":"fixture"}"#);
    disk.file(
        "/t/project/node_modules/@typescript/native-preview/package.json",
        r#"{"name":"@typescript/native-preview","bin":{"tsgo":"bin/tsgo.js"}}"#,
    );
    disk.file(
        "/t/project/node_modules/@typescript/native-preview/bin/tsgo.js",
        "console.log('fake');",
    );

    let context = found_tsgo(&disk, "/t/project/src/index.ts");

    assert_eq!(context.key, SessionKey::Project(path("/t/project")));
    assert_eq!(context.command.program, path("node"));
    assert_eq!(
        context.command.args[0],
        "/t/project/node_modules/@typescript/native-preview/bin/tsgo.js"
    );
}

#[test]
fn discovery_finds_descendant_workspace_project_for_directory_roots() {
    let manifest = r#"{"name":"workspace","private":true,"workspaces":["packages/*"]}"#;
    let package = path("/t/workspace/packages/app");

    let mut disk = Disk::new();
    disk.dir("/t/workspace/packages/app/src");
    disk.file("/t/workspace/package.json", manifest);
    disk.file("/t/workspace/packages/app/package.json", r#"{"name":"app"}"#);
    disk.file("/t/workspace/packages/app/node_modules/.bin/oxlint", "#!/bin/sh\n");
    disk.file("/t/workspace/packages/app/node_modules/.bin/oxfmt", "#!/bin/sh\n");

    let context = found_oxc(&disk, "/t/workspace");

    assert_eq!(context.key, SessionKey::Project(package.clone()));
    assert_eq!(context.root, Some(package.clone()));

    let mut disk = Disk::new();
    disk.dir("/t/workspace/packages/app/src");
    disk.file("/t/workspace/package.json", manifest);
    disk.file("/t/workspace/packages/app/package.json", r#"{"name":"app"}"#);
    disk.file("/t/workspace/packages/app/node_modules/.bin/tsgo", "#!/bin/sh\n");

    let context = found_tsgo(&disk, "/t/workspace");

    assert_eq!(context.key, SessionKey::Project(package.clone()));
    assert_eq!(context.root, Some(package));
}

#[test]
fn prefers_nearest_package_with_local_tsgo() {
    let mut disk = Disk::new();
    disk.dir("/t/workspace/packages/app/src");
    disk.file("/t/workspace/packages/app/package.json", r#"{"name":"app"}"#);
    disk.file("/t/workspace/packages/app/node_modules/.bin/tsgo", "#!/bin/sh\n");

    let context = found_tsgo(&disk, "/t/workspace/packages/app/src/index.ts");

    let package = path("/t/workspace/packages/app");
    assert_eq!(context.key, SessionKey::Project(package.clone()));
    assert_eq!(context.root, Some(package));
}

#[test]
fn falls_back_to_global_tsgo_when_no_local_install_exists() {
    let mut disk = Disk::new();
    disk.dir("/t/src");
    disk.file("/t/bin/tsgo", "#!/bin/sh\n");
    disk.program_dirs = vec!["/t/bin".to_string()];

    let context = found_tsgo(&disk, "/t/src/index.ts");

    assert_eq!(context.key, SessionKey::Global);
    assert!(ends_with(&context.command.program, "tsgo"));
}

#[test]
fn prefers_typescript_seven_platform_binary_over_bin_shim() {
    let platform = format!(
        "/t/project/node_modules/@typescript/typescript-{}-{}",
        node_platform("linux").unwrap(),
        node_arch("x86_64").unwrap()
    );
    let mut disk = Disk::new();
    disk.dir("/t/project/src");
    disk.file("/t/project/package.json", r#"{"name":"fixture"}"#);
    disk.file(
        "/t/project/node_modules/typescript/package.json",
        r#"{"name":"typescript","version":"7.0.2","bin":{"tsc":"./bin/tsc"}}"#,
    );
    disk.file("/t/project/node_modules/typescript/bin/tsc", "#!/usr/bin/env node\n");
    disk.file(&format!("{platform}/lib/tsc"), "");

    let context = found_tsgo(&disk, "/t/project/src/index.ts");

    assert_eq!(context.key, SessionKey::Project(path("/t/project")));
    assert_eq!(context.command.program, path(&format!("{platform}/lib/tsc")));
    assert_eq!(context.command.args, vec!["--lsp", "--stdio"]);
}

#[test]
fn falls_back_to_typescript_seven_bin_shim_when_platform_package_is_missing() {
    let mut disk = Disk::new();
    disk.dir("/t/project/src");
    disk.file("/t/project/package.json", r#"{"name":"fixture"}"#);
    disk.file(
        "/t/project/node_modules/typescript/package.json",
        r#"{"name":"typescript","version":"7.1.0-dev.20260710.1","bin":{"tsc":"./bin/tsc"}}"#,
    );
    disk.file(
        "/t/project/node_modules/typescript/bin/tsc",
        "#!/usr/bin/env node\nimport \"../lib/tsc.js\";\n",
    );

    let context = found_tsgo(&disk, "/t/project/src/index.ts");

    assert_eq!(context.key, SessionKey::Project(path("/t/project")));
    assert_eq!(context.command.program, path("node"));
    assert_eq!(
        context.command.args,
        vec!["/t/project/node_modules/typescript/bin/tsc", "--lsp", "--stdio"]
    );
}

#[test]
fn ignores_typescript_installations_older_than_seven() {
    let mut disk = Disk::new();
    disk.file("/t/project/package.json", r#"{"name":"fixture"}"#);
    disk.file(
        "/t/project/node_modules/typescript/package.json",
        r#"{"name":"typescript","version":"5.9.2","bin":{"tsc":"./bin/tsc","tsserver":"./bin/tsserver"}}"#,
    );
    disk.file("/t/project/node_modules/typescript/bin/tsc", "#!/usr/bin/env node\n");

    let discovery = tsgo::discovery::Discovery { host: linux() };
    let package = path("/t/project");
    let command: Outcome<CommandSpec> =
        disk.explore(|findings| discovery.resolve_local_command(findings, &package));

    assert_eq!(command, Outcome::Absent);
}

#[test]
fn finds_descendant_project_from_git_workspace_root() {
    let mut disk = Disk::new();
    disk.dir("/t/workspace/.git");
    disk.dir("/t/workspace/apps/app/src");
    disk.file("/t/workspace/apps/app/package.json", r#"{"name":"app"}"#);
    disk.file("/t/workspace/apps/app/node_modules/.bin/tsgo", "#!/bin/sh\n");

    let context = found_tsgo(&disk, "/t/workspace");

    let package = path("/t/workspace/apps/app");
    assert_eq!(context.key, SessionKey::Project(package.clone()));
    assert_eq!(context.root, Some(package));
}

#[test]
fn nothing_installed_is_a_failure_that_names_the_file() {
    let mut disk = Disk::new();
    disk.dir("/t/src");

    assert_eq!(
        oxc_context(&disk, "/t/src/index.ts"),
        Outcome::Failed("no oxlint installation is available for /t/src/index.ts".to_string())
    );
    assert!(matches!(
        tsgo_context(&disk, "/t/src/index.ts"),
        Outcome::Failed(message) if message.contains("no global tsgo")
    ));

    let discovery = oxc::discovery::Discovery { windows: false };
    let file = path("/t/src/index.ts");
    let context = disk.explore(|findings| discovery.maybe_context_for_uri_path(findings, &file));
    assert_eq!(context, Outcome::Absent);
}

#[test]
fn a_nearer_package_without_tools_does_not_hide_a_farther_one() {
    let mut disk = Disk::new();
    disk.dir("/t/root/inner/src");
    disk.file("/t/root/package.json", "{}");
    disk.file("/t/root/node_modules/.bin/oxlint", "");
    disk.file("/t/root/inner/package.json", "{}");

    let context = found_oxc(&disk, "/t/root/inner/src/a.ts");

    assert_eq!(context.key, SessionKey::Project(path("/t/root")));
    assert_eq!(context.format_command, None);
}

#[test]
fn windows_shims_have_a_suffix() {
    let mut disk = Disk::new();
    disk.dir("/t/project/src");
    disk.file("/t/project/package.json", "{}");
    disk.file("/t/project/node_modules/.bin/oxlint.cmd", "");

    let discovery = oxc::discovery::Discovery { windows: true };
    let dir = path("/t/project");
    let command = disk.explore(|findings| {
        discovery.resolve_local_command(findings, &dir, oxc::discovery::Tool::Oxlint)
    });
    assert!(matches!(
        command,
        Outcome::Found(command)
            if command.program == path("/t/project/node_modules/.bin/oxlint.cmd")
    ));
}

#[test]
fn more_answers_do_not_change_a_known_context() {
    let mut disk = Disk::new();
    disk.dir("/t/project/src");
    disk.file("/t/project/package.json", "{}");
    disk.file("/t/project/node_modules/.bin/oxlint", "");
    let discovery = oxc::discovery::Discovery { windows: false };
    let file = path("/t/project/src/a.ts");

    let mut findings = Findings::new();
    let first = loop {
        match discovery.context_for_uri_path(&findings, &file) {
            Step::Known(context) => break context,
            Step::Ask(probe) => findings.record(disk.answer(probe)),
        }
    };
    findings.record(Answer::Exists(path("/elsewhere"), true));
    findings.record(Answer::IsDir(path("/t/project/src/a.ts"), false));

    assert_eq!(discovery.context_for_uri_path(&findings, &file), Step::Known(first));
}

#[test]
fn an_answer_leaves_the_other_answers_alone() {
    let mut findings = Findings::new();
    findings.record(Answer::Exists(path("/a"), true));
    findings.record(Answer::IsFile(path("/a"), false));
    findings.record(Answer::Exists(path("/c"), false));
    assert_eq!(findings.present(path("/a")), Step::Known(true));
    assert_eq!(findings.is_file(path("/a")), Step::Known(false));
    assert_eq!(findings.present(path("/b")), Step::Ask(Probe::Exists(path("/b"))));
    assert_eq!(findings.is_dir(path("/a")), Step::Ask(Probe::IsDir(path("/a"))));
}

#[test]
fn typescript_versions_are_told_by_their_major_number() {
    let version = |text: &str| parse_json(&format!(r#"{{"version":"{text}"}}"#)).unwrap();
    assert!(is_supported_typescript_version(&version("7.0.0")));
    assert!(is_supported_typescript_version(&version("10.1.2")));
    assert!(!is_supported_typescript_version(&version("6.9.9")));
    assert!(!is_supported_typescript_version(&version("next")));
    assert!(!is_supported_typescript_version(&parse_json("{}").unwrap()));
}

#[test]
fn node_scripts_are_told_by_their_first_line() {
    assert!(is_node_shebang(&b"#!/usr/bin/env node\n".to_vec()));
    assert!(!is_node_shebang(&b"#!/bin/sh\nnode\n".to_vec()));
    assert!(!is_node_shebang(&b"node".to_vec()));
}

#[test]
fn platforms_have_their_names_in_node() {
    assert_eq!(node_platform("macos").as_deref(), Some("darwin"));
    assert_eq!(node_platform("windows").as_deref(), Some("win32"));
    assert_eq!(node_platform("plan9"), None);
    assert_eq!(node_arch("aarch64").as_deref(), Some("arm64"));
    assert_eq!(node_arch("mips"), None);
}

#[test]
fn a_launcher_is_preferred_to_a_package() {
    let mut disk = Disk::new();
    disk.dir("/p/src");
    disk.file("/p/package.json", "{}");
    disk.file("/p/node_modules/.bin/oxlint", "");
    disk.file("/p/node_modules/oxlint/package.json", r#"{"bin":"cli.js"}"#);
    disk.file("/p/node_modules/.bin/tsgo", "");
    disk.file("/p/node_modules/typescript/package.json", r#"{"name":"typescript","version":"7.0.0"}"#);
    assert_eq!(
        found_oxc(&disk, "/p/src/a.ts").lint_command.program,
        path("/p/node_modules/.bin/oxlint")
    );
    assert_eq!(
        found_tsgo(&disk, "/p/src/a.ts").command.program,
        path("/p/node_modules/.bin/tsgo")
    );
}

#[test]
fn the_preview_is_preferred_to_typescript() {
    let mut disk = Disk::new();
    disk.dir("/p/src");
    disk.file("/p/package.json", "{}");
    disk.file("/p/node_modules/@typescript/native-preview/package.json", r#"{"bin":"bin/tsgo"}"#);
    disk.file("/p/node_modules/@typescript/native-preview/bin/tsgo", "\u{7f}ELF");
    disk.file(
        "/p/node_modules/typescript/package.json",
        r#"{"name":"typescript","version":"7.0.0","bin":"bin/tsc.js"}"#,
    );
    let context = found_tsgo(&disk, "/p/src/a.ts");
    assert_eq!(
        context.command,
        CommandSpec {
            program: path("/p/node_modules/@typescript/native-preview/bin/tsgo"),
            args: vec!["--lsp".to_string(), "--stdio".to_string()],
            cwd: Some(path("/p")),
        }
    );
}

#[test]
fn node_has_the_last_word_about_a_project() {
    let mut disk = Disk::new();
    disk.dir("/p/src");
    disk.file("/p/package.json", "{}");
    disk.file("/store/oxlint/package.json", r#"{"bin":{"oxlint":"./oxlint","oxfmt":"./oxfmt"}}"#);
    disk.node = NodeReply::Output("/store/oxlint/package.json\n".to_string());
    let context = found_oxc(&disk, "/p/src/a.ts");
    assert_eq!(context.key, SessionKey::Project(path("/p")));
    assert_eq!(context.lint_command.program, path("/store/oxlint/oxlint"));

    disk.node = NodeReply::Broken;
    assert_eq!(
        oxc_context(&disk, "/p/src/a.ts"),
        Outcome::Failed("failed to run node while resolving oxlint from /p".to_string())
    );
    disk.node = NodeReply::Garbled("invalid utf-8".to_string());
    assert_eq!(
        tsgo_context(&disk, "/p/src/a.ts"),
        Outcome::Failed("invalid utf-8".to_string())
    );
}

#[test]
fn a_package_without_the_program_is_a_failure() {
    let mut disk = Disk::new();
    disk.dir("/p/src");
    disk.file("/p/package.json", "{}");
    disk.file("/p/node_modules/oxlint/package.json", "{}");
    assert_eq!(
        oxc_context(&disk, "/p/src/a.ts"),
        Outcome::Failed(
            "package /p/node_modules/oxlint/package.json does not declare a oxlint bin".to_string()
        )
    );
    disk.file("/p/node_modules/oxlint/package.json", "{");
    assert_eq!(
        oxc_context(&disk, "/p/src/a.ts"),
        Outcome::Failed("failed to parse /p/node_modules/oxlint/package.json".to_string())
    );
    assert_eq!(
        oxc_context(&disk, ""),
        Outcome::Failed("cannot determine parent directory for ".to_string())
    );
}
