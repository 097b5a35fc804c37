//! Paths, JSON, parameters, the stand-ins and the installation.

use helix_lsps::fakes::{read_count, session_label_from_cwd, FakeOxfmt, FakeTsgo, Reply};
use helix_lsps::json::Json;
use helix_lsps::json_text::{parse_json, read_json};
use helix_lsps::lsp::{
    new_warning, request_id_from_value, Message, Notification, Request, RequestId, Response,
    METHOD_NOT_FOUND, REQUEST_FAILED,
};
use helix_lsps::params::{find_initialize_root, find_place, find_uri, rewrite_initialize_params};
use helix_lsps::path::FsPath;
use helix_lsps::position::{
    full_document_range, is_countable, len_utf16, wrapped_document_range, Position,
};
use helix_lsps::project::SessionKey;
use helix_lsps::table::Table;
use helix_lsps::text::{decimal_text, lines, parse_u32, parse_u64, split, trim};
use helix_lsps::tsgo::file_watcher::FileStamp;
use helix_lsps::xtask::{
    after_install, ensure_success, first_install, install_all, parse_args, usage, workspace_root,
    CargoRun, InstallStep, XtaskCommand,
};

fn path(text: &str) -> FsPath {
    FsPath::parse(text)
}

fn json(text: &str) -> Json {
    parse_json(text).unwrap()
}

fn strings(list: &[&str]) -> Vec<String> {
    list.iter().map(|text| text.to_string()).collect()
}

fn request(method: &str, params: &str) -> Message {
    Message::Request(Request {
        id: RequestId::Number(1),
        method: method.to_string(),
        params: json(params),
    })
}

#[test]
fn paths_are_taken_apart() {
    let file = path("/a//b/./c.d.ts/");
    assert_eq!(file.to_text(), "/a//b/./c.d.ts/");
    assert_eq!(file.normal().to_text(), "/a/b/c.d.ts");
    assert_eq!(file.parent(), Some(path("/a/b")));
    assert_eq!(file.file_name().as_deref(), Some("c.d.ts"));
    assert_eq!(file.extension().as_deref(), Some("ts"));
    assert_eq!(path("/.git").extension(), None);
    assert_eq!(path("/").parent(), None);
    assert_eq!(path("a").parent(), Some(path("")));
    assert_eq!(path("/a/b").ancestors(), vec![path("/a/b"), path("/a"), path("/")]);
    assert!(path("/a/b").starts_with(&path("/a")));
    assert!(!path("/ab").starts_with(&path("/a")));
    assert_eq!(path("/a").join("../b"), path("/a/../b"));
    assert_eq!(path("/a").join("/b"), path("/b"));
    assert_eq!(path("/x/..").file_name(), None);
}

fn parent_text(text: &str) -> Option<String> {
    path(text).parent().map(|parent| parent.to_text())
}

fn ancestor_texts(text: &str) -> Vec<String> {
    path(text).ancestors().iter().map(|ancestor| ancestor.to_text()).collect()
}

#[test]
fn paths_keep_their_spelling() {
    for text in ["/repo/", "/repo//app/./src/", "./a/.", "a/../b", "", ".", "//"] {
        assert_eq!(path(text).to_text(), text);
    }
    assert_eq!(parent_text("/a/b/").as_deref(), Some("/a"));
    assert_eq!(parent_text("/a//b/c").as_deref(), Some("/a//b"));
    assert_eq!(parent_text("/a/./b").as_deref(), Some("/a"));
    assert_eq!(parent_text("//a").as_deref(), Some("/"));
    assert_eq!(parent_text("./x").as_deref(), Some("."));
    assert_eq!(parent_text("./").as_deref(), Some(""));
    assert_eq!(parent_text("a/..").as_deref(), Some("a"));
    assert_eq!(parent_text("a").as_deref(), Some(""));
    assert_eq!(parent_text("/./"), None);
    assert_eq!(parent_text(""), None);
    assert_eq!(ancestor_texts("/a//b/"), strings(&["/a//b/", "/a", "/"]));
    assert_eq!(path("/repo/").child("x").to_text(), "/repo/x");
    assert_eq!(path("/repo").child("x").to_text(), "/repo/x");
    assert_eq!(path("").child("x").to_text(), "x");
    assert_eq!(path("/repo").join("./bin//x").to_text(), "/repo/./bin//x");
    assert_eq!(path("/repo").join("").to_text(), "/repo/");
    assert_eq!(path("/repo").join("/bin/").to_text(), "/bin/");
    assert_eq!(path("/repo").join("./bin//x").normal().to_text(), "/repo/bin/x");
    assert_eq!(path("./a/./b").normal().to_text(), "./a/b");
}

#[test]
fn spellings_of_a_path_are_the_same_path() {
    let (bare, ended) = (path("/repo/app"), path("/repo//app/./"));
    assert_eq!(bare, ended);
    assert!(!bare.is_spelled_as(&ended));
    assert!(bare.is_spelled_as(&path("/repo/app")));
    assert_eq!(SessionKey::Project(bare.clone()), SessionKey::Project(ended.clone()));
    assert!(ended.starts_with(&path("/repo/")));
    assert_ne!(path("repo"), path("./repo"));
    assert_ne!(path("/repo/../app"), path("/app"));
    let mut table = Table::new();
    table.insert(bare.clone(), FileStamp { len: 1, modified: None });
    table.insert(ended, FileStamp { len: 2, modified: None });
    assert_eq!(table.len(), 1);
    assert_eq!(table.get(&bare), Some(&FileStamp { len: 2, modified: None }));
    assert_eq!(table.key_at(0).to_text(), "/repo/app");
}

#[test]
fn texts_are_taken_apart() {
    assert_eq!(split("a,,b", ','), strings(&["a", "", "b"]));
    assert_eq!(lines("a\r\nb\n\nc"), strings(&["a", "b", "", "c"]));
    assert_eq!(lines("a\n"), strings(&["a"]));
    assert_eq!(trim(" \ta b\n\u{a0}"), "a b");
    assert_eq!(parse_u32("007"), Some(7));
    assert_eq!(parse_u32("+7"), Some(7));
    assert_eq!(parse_u32(""), None);
    assert_eq!(parse_u32("4294967296"), None);
    assert_eq!(parse_u64("18446744073709551615"), Some(u64::MAX));
    assert_eq!(parse_u64("18446744073709551616"), None);
    assert_eq!(decimal_text(0), "0");
    assert_eq!(decimal_text(u64::MAX), "18446744073709551615");
    assert_eq!(parse_u64(&decimal_text(120)), Some(120));
}

#[test]
fn json_is_read_and_written_to() {
    let value = json(r#"{"a":[1,-2,1.5,true,null,"x"],"b":{}}"#);
    match value.get("a").unwrap() {
        Json::Array(items) => {
            assert!(matches!(&items[0], Json::Number(n) if n.integer == Some(1) && n.text == "1"));
            assert!(matches!(&items[1], Json::Number(n) if n.integer == Some(-2)));
            assert!(matches!(&items[2], Json::Number(n) if n.integer == None && n.text == "1.5"));
            assert_eq!(items[3], Json::Bool(true));
            assert_eq!(items[4], Json::Null);
            assert_eq!(items[5].as_str(), Some("x"));
        }
        other => panic!("{other:?}"),
    }
    assert_eq!(parse_json("{"), None);
    assert_eq!(parse_json(""), None);
    assert_eq!(json("{}").with("k", Json::Null).get("k"), Some(&Json::Null));
    assert_eq!(json(r#"{"k":1}"#).with_new("k", Json::Null), json(r#"{"k":1}"#));
    assert_eq!(json("[]").get("k"), None);
    assert!(json("{}").is_object());
}

#[test]
fn what_is_no_json_is_told_with_its_place() {
    assert_eq!(read_json("[1, 2"), Err("EOF while parsing a list at line 1 column 5".to_string()));
    assert_eq!(read_json("true"), Ok(Json::Bool(true)));
    assert_eq!(parse_json("[1, 2"), None);
}

#[test]
fn places_are_found_in_parameters() {
    let by_document = json(r#"{"textDocument":{"uri":"file:///a/b.ts"}}"#);
    assert_eq!(find_uri(&by_document).as_deref(), Some("file:///a/b.ts"));
    let place = find_place(&by_document).unwrap();
    assert_eq!(place.uri, "file:///a/b.ts");
    assert_eq!(place.path, Some(path("/a/b.ts")));
    assert_eq!(find_place(&json(r#"{"query":"x"}"#)), None);
}

#[test]
fn the_root_is_found_and_put_back() {
    let params = json(r#"{"rootUri":"file:///w","rootPath":"/elsewhere","capabilities":{}}"#);
    assert_eq!(find_initialize_root(&params), Some(path("/w")));
    let moved = rewrite_initialize_params(&params, Some(&path("/w/app"))).unwrap();
    assert_eq!(moved.get_str("rootPath"), Some("/w/app"));
    assert_eq!(find_initialize_root(&moved), Some(path("/w/app")));
    assert_eq!(moved.get("capabilities"), Some(&json("{}")));
    assert_eq!(rewrite_initialize_params(&params, None), Ok(params));
}

#[test]
fn the_root_is_passed_on_as_it_was_spelled() {
    let params = json(r#"{"rootUri":"file:///repo/","capabilities":{}}"#);
    let root = find_initialize_root(&params).unwrap();
    assert_eq!(root.to_text(), "/repo/");
    let moved = rewrite_initialize_params(&params, Some(&root)).unwrap();
    assert_eq!(moved.get_str("rootPath"), Some("/repo/"));
    assert_eq!(SessionKey::Project(root).debug_text(), "Project(\"/repo/\")");
}

#[test]
fn request_ids_are_numbers_or_texts() {
    assert_eq!(request_id_from_value(&json("7")), Some(RequestId::Number(7)));
    assert_eq!(request_id_from_value(&json("\"a\"")), Some(RequestId::Text("a".to_string())));
    assert_eq!(request_id_from_value(&json("99999999999")), None);
    assert_eq!(request_id_from_value(&json("null")), None);
}

#[test]
fn warnings_are_logged_to_the_client() {
    let warning = new_warning("careful".to_string());
    assert_eq!(warning.method, "window/logMessage");
    assert_eq!(warning.params.get("type"), Some(&json("2")));
    assert_eq!(warning.params.get_str("message"), Some("careful"));
}

#[test]
fn projects_are_told_apart_in_logs() {
    assert_eq!(SessionKey::Global.debug_text(), "Global");
    assert_eq!(SessionKey::Project(path("/a \"b\"")).debug_text(), "Project(\"/a \\\"b\\\"\")");
}

#[test]
fn positions_are_counted_in_code_units() {
    assert_eq!(len_utf16('a'), 1);
    assert_eq!(len_utf16('é'), 1);
    assert_eq!(len_utf16('🍣'), 2);
    assert_eq!(full_document_range("").end, Position { line: 0, character: 0 });
    assert_eq!(full_document_range("a\nb🍣").end, Position { line: 1, character: 3 });
}

#[test]
fn the_stand_in_for_the_compiler_answers() {
    assert!(FakeTsgo::accepts(&strings(&["--lsp", "--stdio"])));
    assert!(!FakeTsgo::accepts(&strings(&["--lsp"])));
    let mut fake = FakeTsgo {
        label: "a".to_string(),
        init_error: None,
        exit_on_hover: false,
        empty_hover_response: true,
    };
    assert_eq!(
        fake.answer(request("textDocument/hover", "{}")),
        Reply::Send(Message::Response(Response {
            id: RequestId::Number(1),
            result: None,
            error: None
        }))
    );
    fake.exit_on_hover = true;
    assert_eq!(fake.answer(request("textDocument/hover", "{}")), Reply::Stop);
    fake.init_error = Some("no".to_string());
    assert_eq!(
        fake.answer(request("initialize", "{}")),
        Reply::Send(Message::Response(Response::new_err(
            RequestId::Number(1),
            REQUEST_FAILED,
            "no".to_string()
        )))
    );
}

#[test]
fn the_stand_in_for_the_formatter_answers() {
    assert!(FakeOxfmt::accepts(&strings(&["--lsp"])));
    assert!(!FakeOxfmt::accepts(&Vec::new()));
    let fake =
        FakeOxfmt { label: "a".to_string(), counts_initialized: false, init_delay_ms: Some(3) };
    assert!(matches!(fake.answer(request("initialize", "{}")), Reply::SendAfter(3, _)));
    assert_eq!(
        fake.answer(request("textDocument/hover", "{}")),
        Reply::Send(Message::Response(Response::new_err(
            RequestId::Number(1),
            METHOD_NOT_FOUND,
            "fake-oxfmt does not implement textDocument/hover".to_string()
        )))
    );
    let initialized = Message::Notification(Notification {
        method: "initialized".to_string(),
        params: json("{}"),
    });
    assert_eq!(fake.answer(initialized), Reply::Nothing);
    assert_eq!(read_count(Some(" 4\n")), 4);
    assert_eq!(read_count(Some("x")), 0);
    assert_eq!(read_count(None), 0);
    assert_eq!(session_label_from_cwd(&path("/t/project")), "project");
    assert_eq!(session_label_from_cwd(&path("/")), "unknown");
}

#[test]
fn the_servers_are_installed_one_after_the_other() {
    assert_eq!(
        parse_args(strings(&["install", "--debug"])),
        XtaskCommand::Install(strings(&["--debug"]))
    );
    for help in ["-h", "--help", "help"] {
        assert_eq!(parse_args(strings(&[help])), XtaskCommand::Help);
    }
    assert_eq!(
        parse_args(Vec::new()),
        XtaskCommand::Refused("missing xtask command".to_string())
    );
    assert_eq!(
        parse_args(strings(&["x"])),
        XtaskCommand::Refused("unknown xtask command: x".to_string())
    );
    assert!(usage().starts_with("Usage:"));

    let orders = install_all(&path("/w"), &strings(&["--debug"]));
    let names: Vec<&str> = orders.iter().map(|order| order.package.as_str()).collect();
    assert_eq!(names, vec!["eslint-lsp", "prettier-lsp", "tsgo-lsp", "oxc-lsp"]);
    assert_eq!(
        orders[0].args,
        strings(&["install", "--locked", "--path", "eslint-lsp", "--bin", "eslint-lsp", "--debug"])
    );
    assert!(orders.iter().all(|order| order.dir == path("/w")));
    assert_eq!(ensure_success(&CargoRun::Succeeded, &orders[0]), Ok(()));
    assert_eq!(
        ensure_success(&CargoRun::Failed("exit status: 1".to_string()), &orders[0]),
        Err("cargo install failed for eslint-lsp (/w/eslint-lsp/Cargo.toml) with status exit status: 1"
            .to_string())
    );
    assert_eq!(
        ensure_success(&CargoRun::NotStarted("not found".to_string()), &orders[3]),
        Err("failed to spawn cargo install for oxc-lsp: not found".to_string())
    );
    assert_eq!(workspace_root(&path("/w/xtask")), Ok(path("/w")));
    assert_eq!(
        workspace_root(&path("/")),
        Err("xtask manifest directory has no parent".to_string())
    );
}

/// Carries out the installations, where the run of the given number fails.
fn installed(failing: Option<usize>) -> (Vec<String>, Result<(), String>) {
    let orders = install_all(&path("/w"), &Vec::new());
    let mut started = Vec::new();
    let mut step = first_install(&orders);
    loop {
        step = match step {
            InstallStep::Finished(result) => return (started, result),
            InstallStep::Install(number) => {
                started.push(orders[number].package.clone());
                let run = if failing == Some(number) {
                    CargoRun::Failed("exit status: 101".to_string())
                } else {
                    CargoRun::Succeeded
                };
                after_install(&orders, number, &run)
            }
        };
    }
}

#[test]
fn the_first_installation_that_fails_is_the_last() {
    let all = strings(&["eslint-lsp", "prettier-lsp", "tsgo-lsp", "oxc-lsp"]);
    assert_eq!(installed(None), (all.clone(), Ok(())));
    for failing in 0..4 {
        let (started, result) = installed(Some(failing));
        assert_eq!(started, all[..failing + 1].to_vec());
        let name = &all[failing];
        assert_eq!(
            result,
            Err(format!(
                "cargo install failed for {name} (/w/{name}/Cargo.toml) with status exit status: 101"
            ))
        );
    }
    assert_eq!(first_install(&Vec::new()), InstallStep::Finished(Ok(())));
}

#[test]
fn both_servers_count_documents_alike() {
    for text in ["", "a", "a\n", "a\r\nb🍣", "\n\n\u{e9}"] {
        assert!(is_countable(text));
        assert_eq!(full_document_range(text), wrapped_document_range(text));
    }
}

#[test]
fn the_stand_in_for_the_formatter_answers_every_request() {
    let fake = FakeOxfmt { label: "a".to_string(), counts_initialized: true, init_delay_ms: None };
    for method in ["initialize", "shutdown", "textDocument/formatting", "anything"] {
        match fake.answer(request(method, "{}")) {
            Reply::Send(Message::Response(response)) => {
                assert_eq!(response.id, RequestId::Number(1))
            }
            other => panic!("{other:?}"),
        }
    }
}
