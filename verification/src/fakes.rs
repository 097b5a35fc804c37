//! Stand-ins for the tools that the proxies start, for trying the proxies out.

use vstd::prelude::*;
use vstd::string::*;
use crate::json::{json_get, json_get_str, json_int, Json, JsonView};
use crate::lsp::{
    err_response, ok_response, Message, MessageView, Notification, NotificationView, Request,
    RequestView, Response, ResponseView, METHOD_NOT_FOUND, REQUEST_FAILED,
};
use crate::path::{name_of, FsPath, PathView};
use crate::text::{concat2, parse_u64, same_text, texts, trim, trimmed, u64_of};
use crate::views::opt;

verus! {

/// What a stand-in does about a message.
#[derive(Debug, PartialEq, Eq)]
pub enum Reply {
    /// Nothing.
    Nothing,
    /// It sends a message.
    Send(Message),
    /// It waits for so many milliseconds and sends a message.
    SendAfter(u64, Message),
    /// It counts that it was told that the client is initialized.
    CountInitialized,
    /// It ends.
    Stop,
}

/// What a stand-in does about a message.
#[verifier::ext_equal]
pub enum ReplyView {
    Nothing,
    Send(MessageView),
    SendAfter(u64, MessageView),
    CountInitialized,
    Stop,
}

impl View for Reply {
    type V = ReplyView;

    open spec fn view(&self) -> ReplyView {
        match self {
            Reply::Nothing => ReplyView::Nothing,
            Reply::Send(message) => ReplyView::Send(message@),
            Reply::SendAfter(pause, message) => ReplyView::SendAfter(*pause, message@),
            Reply::CountInitialized => ReplyView::CountInitialized,
            Reply::Stop => ReplyView::Stop,
        }
    }
}

/// The label of a stand-in that has been given none: the name of its directory.
pub open spec fn directory_label(cwd: PathView) -> Seq<char> {
    match name_of(cwd) {
        Some(name) => name,
        None => "unknown"@,
    }
}

/// The label of a stand-in that has been given none.
pub fn session_label_from_cwd(cwd: &FsPath) -> (r: String)
    ensures
        r@ == directory_label(cwd@),
{
    match cwd.file_name() {
        Some(name) => name,
        None => "unknown".to_owned(),
    }
}

/// The URI of the document that a message is about, empty where it names none.
pub open spec fn document_uri(params: JsonView) -> Seq<char> {
    match json_get(params, "textDocument"@) {
        Some(document) => match json_get_str(document, "uri"@) {
            Some(uri) => uri,
            None => Seq::empty(),
        },
        None => Seq::empty(),
    }
}

fn find_document_uri(params: &Json) -> (r: String)
    ensures
        r@ == document_uri(params@),
{
    let uri = match params.get("textDocument") {
        Some(document) => document.get_str("uri"),
        None => None,
    };
    match uri {
        Some(uri) => uri.to_owned(),
        None => {
            let empty = String::new();
            proof {
                assert(empty@ =~= Seq::<char>::empty());
            }
            empty
        },
    }
}

/// A position in the first line.
pub open spec fn first_line_position(character: u32) -> JsonView {
    JsonView::Object(seq![("line"@, json_int(0)), ("character"@, json_int(character))])
}

/// A range at the start of the first line.
pub open spec fn first_line_range(end: u32) -> JsonView {
    JsonView::Object(
        seq![("start"@, first_line_position(0)), ("end"@, first_line_position(end))],
    )
}

fn make_first_line_range(end: u32) -> (r: Json)
    ensures
        r@ == first_line_range(end),
{
    let start = Json::object2("line", Json::whole(0), "character", Json::whole(0));
    let stop = Json::object2("line", Json::whole(0), "character", Json::whole(end));
    Json::object2("start", start, "end", stop)
}

/// What a stand-in says of itself: one ability, and its name.
pub open spec fn introduction(ability: Seq<char>, name: Seq<char>) -> JsonView {
    JsonView::Object(
        seq![
            (
                "capabilities"@,
                JsonView::Object(
                    seq![(ability, JsonView::Bool(true)), ("textDocumentSync"@, json_int(1))],
                ),
            ),
            (
                "serverInfo"@,
                JsonView::Object(
                    seq![
                        ("name"@, JsonView::Text(name)),
                        ("version"@, JsonView::Text("0.1.0"@)),
                    ],
                ),
            ),
        ],
    )
}

fn introduce(ability: &str, name: String) -> (r: Json)
    ensures
        r@ == introduction(ability@, name@),
{
    let abilities = Json::object2(
        ability,
        Json::Bool(true),
        "textDocumentSync",
        Json::whole(1),
    );
    let info = Json::object2("name", Json::Text(name), "version", Json::text("0.1.0"));
    Json::object2("capabilities", abilities, "serverInfo", info)
}

/// A stand-in for the compiler.
#[derive(Debug)]
pub struct FakeTsgo {
    pub label: String,
    /// With what it answers `initialize` that it has failed.
    pub init_error: Option<String>,
    /// Whether it ends when it is asked about a place in a document.
    pub exit_on_hover: bool,
    /// Whether it answers questions about a place in a document with nothing.
    pub empty_hover_response: bool,
}

/// A stand-in for the compiler.
#[verifier::ext_equal]
pub struct FakeTsgoView {
    pub label: Seq<char>,
    pub init_error: Option<Seq<char>>,
    pub exit_on_hover: bool,
    pub empty_hover_response: bool,
}

impl View for FakeTsgo {
    type V = FakeTsgoView;

    open spec fn view(&self) -> FakeTsgoView {
        FakeTsgoView {
            label: self.label@,
            init_error: opt(self.init_error),
            exit_on_hover: self.exit_on_hover,
            empty_hover_response: self.empty_hover_response,
        }
    }
}

/// What the stand-in for the compiler says of a place in a document.
pub open spec fn hover_result(label: Seq<char>, uri: Seq<char>) -> JsonView {
    JsonView::Object(
        seq![
            (
                "contents"@,
                JsonView::Object(
                    seq![
                        ("kind"@, JsonView::Text("plaintext"@)),
                        (
                            "value"@,
                            JsonView::Text("session="@ + label + ";uri="@ + uri),
                        ),
                    ],
                ),
            ),
        ],
    )
}

/// The diagnostics that the stand-in for the compiler publishes of a document.
pub open spec fn opened_diagnostics(label: Seq<char>, uri: Seq<char>) -> NotificationView {
    NotificationView {
        method: "textDocument/publishDiagnostics"@,
        params: JsonView::Object(
            seq![
                ("uri"@, JsonView::Text(uri)),
                (
                    "diagnostics"@,
                    JsonView::Array(
                        seq![
                            JsonView::Object(
                                seq![
                                    ("range"@, first_line_range(1)),
                                    ("severity"@, json_int(2)),
                                    ("source"@, JsonView::Text("fake-tsgo"@)),
                                    ("message"@, JsonView::Text("session="@ + label)),
                                ],
                            ),
                        ],
                    ),
                ),
            ],
        ),
    }
}

/// What the stand-in for the compiler does about a request.
pub open spec fn tsgo_request(fake: FakeTsgoView, request: RequestView) -> ReplyView {
    if request.method == "initialize"@ {
        ReplyView::Send(
            MessageView::Response(
                match fake.init_error {
                    Some(message) => err_response(request.id, REQUEST_FAILED, message),
                    None => ok_response(
                        request.id,
                        introduction("hoverProvider"@, "fake-tsgo:"@ + fake.label),
                    ),
                },
            ),
        )
    } else if request.method == "shutdown"@ {
        ReplyView::Send(MessageView::Response(ok_response(request.id, JsonView::Null)))
    } else if request.method == "textDocument/hover"@ {
        if fake.exit_on_hover {
            ReplyView::Stop
        } else if fake.empty_hover_response {
            ReplyView::Send(
                MessageView::Response(
                    ResponseView { id: request.id, result: None, error: None },
                ),
            )
        } else {
            ReplyView::Send(
                MessageView::Response(
                    ok_response(
                        request.id,
                        hover_result(fake.label, document_uri(request.params)),
                    ),
                ),
            )
        }
    } else {
        ReplyView::Nothing
    }
}

/// What the stand-in for the compiler does about a message.
pub open spec fn tsgo_reply(fake: FakeTsgoView, message: MessageView) -> ReplyView {
    match message {
        MessageView::Request(request) => tsgo_request(fake, request),
        MessageView::Notification(notification) => if notification.method == "exit"@ {
            ReplyView::Stop
        } else if notification.method == "textDocument/didOpen"@ {
            ReplyView::Send(
                MessageView::Notification(
                    opened_diagnostics(fake.label, document_uri(notification.params)),
                ),
            )
        } else {
            ReplyView::Nothing
        },
        MessageView::Response(_) => ReplyView::Nothing,
    }
}

impl FakeTsgo {
    /// Whether the stand-in has been started as the compiler is.
    pub fn accepts(args: &Vec<String>) -> (r: bool)
        ensures
            r == (texts(args@) == seq!["--lsp"@, "--stdio"@]),
    {
        let ghost expected = seq!["--lsp"@, "--stdio"@];
        proof {
            assert(texts(args@).len() == args@.len());
        }
        if args.len() != 2 {
            return false;
        }
        proof {
            assert(texts(args@)[0] == args@[0]@);
            assert(texts(args@)[1] == args@[1]@);
            assert(texts(args@) =~= expected <==> args@[0]@ == "--lsp"@ && args@[1]@
                == "--stdio"@);
        }
        same_text(args[0].as_str(), "--lsp") && same_text(args[1].as_str(), "--stdio")
    }

    fn hover(&self, uri: &str) -> (r: Json)
        ensures
            r@ == hover_result(self@.label, uri@),
    {
        let value = concat2("session=", self.label.as_str());
        let value = concat2(value.as_str(), ";uri=");
        let value = concat2(value.as_str(), uri);
        let contents = Json::object2(
            "kind",
            Json::text("plaintext"),
            "value",
            Json::Text(value),
        );
        Json::object1("contents", contents)
    }

    fn diagnostics(&self, uri: String) -> (r: Notification)
        ensures
            r@ == opened_diagnostics(self@.label, uri@),
    {
        let problem = Json::object(
            vec![
                ("range".to_owned(), make_first_line_range(1)),
                ("severity".to_owned(), Json::whole(2)),
                ("source".to_owned(), Json::text("fake-tsgo")),
                (
                    "message".to_owned(),
                    Json::Text(concat2("session=", self.label.as_str())),
                ),
            ],
        );
        let list = Json::array(vec![problem]);
        let params = Json::object2("uri", Json::Text(uri), "diagnostics", list);
        proof {
            assert(problem@->Object_0 =~= seq![
                ("range"@, first_line_range(1)),
                ("severity"@, json_int(2)),
                ("source"@, JsonView::Text("fake-tsgo"@)),
                ("message"@, JsonView::Text("session="@ + self@.label)),
            ]);
            assert(list@->Array_0 =~= seq![problem@]);
        }
        Notification { method: "textDocument/publishDiagnostics".to_owned(), params }
    }

    fn answer_request(&self, request: Request) -> (r: Reply)
        ensures
            r@ == tsgo_request(self@, request@),
    {
        let method = request.method.as_str();
        if same_text(method, "initialize") {
            let response = match &self.init_error {
                Some(message) => Response::new_err(
                    request.id,
                    REQUEST_FAILED,
                    message.clone(),
                ),
                None => Response::new_ok(
                    request.id,
                    introduce(
                        "hoverProvider",
                        concat2("fake-tsgo:", self.label.as_str()),
                    ),
                ),
            };
            return Reply::Send(Message::Response(response));
        }
        if same_text(method, "shutdown") {
            return Reply::Send(Message::Response(Response::new_ok(request.id, Json::Null)));
        }
        if same_text(method, "textDocument/hover") {
            if self.exit_on_hover {
                return Reply::Stop;
            }
            if self.empty_hover_response {
                return Reply::Send(
                    Message::Response(Response { id: request.id, result: None, error: None }),
                );
            }
            let uri = find_document_uri(&request.params);
            let result = self.hover(uri.as_str());
            return Reply::Send(Message::Response(Response::new_ok(request.id, result)));
        }
        Reply::Nothing
    }

    /// What the stand-in does about a message.
    pub fn answer(&self, message: Message) -> (r: Reply)
        ensures
            r@ == tsgo_reply(self@, message@),
    {
        match message {
            Message::Request(request) => self.answer_request(request),
            Message::Notification(notification) => {
                if same_text(notification.method.as_str(), "exit") {
                    return Reply::Stop;
                }
                if same_text(notification.method.as_str(), "textDocument/didOpen") {
                    let uri = find_document_uri(&notification.params);
                    return Reply::Send(Message::Notification(self.diagnostics(uri)));
                }
                Reply::Nothing
            },
            Message::Response(_) => Reply::Nothing,
        }
    }
}

/// A stand-in for the formatter.
#[derive(Debug)]
pub struct FakeOxfmt {
    pub label: String,
    /// Whether it counts that it was told that the client is initialized.
    pub counts_initialized: bool,
    /// How many milliseconds it waits ahead of its answer to `initialize`.
    pub init_delay_ms: Option<u64>,
}

/// A stand-in for the formatter.
#[verifier::ext_equal]
pub struct FakeOxfmtView {
    pub label: Seq<char>,
    pub counts_initialized: bool,
    pub init_delay_ms: Option<u64>,
}

impl View for FakeOxfmt {
    type V = FakeOxfmtView;

    open spec fn view(&self) -> FakeOxfmtView {
        FakeOxfmtView {
            label: self.label@,
            counts_initialized: self.counts_initialized,
            init_delay_ms: self.init_delay_ms,
        }
    }
}

/// The edits with which the stand-in for the formatter formats a document.
pub open spec fn formatting_result(label: Seq<char>, uri: Seq<char>) -> JsonView {
    JsonView::Array(
        seq![
            JsonView::Object(
                seq![
                    ("range"@, first_line_range(0)),
                    (
                        "newText"@,
                        JsonView::Text(
                            "formatted-session="@ + label + ";uri="@ + uri + "\n"@,
                        ),
                    ),
                ],
            ),
        ],
    )
}

/// What the stand-in for the formatter does about a request.
pub open spec fn oxfmt_request(fake: FakeOxfmtView, request: RequestView) -> ReplyView {
    if request.method == "initialize"@ {
        let answer = MessageView::Response(
            ok_response(
                request.id,
                introduction("documentFormattingProvider"@, "fake-oxfmt:"@ + fake.label),
            ),
        );
        match fake.init_delay_ms {
            Some(pause) => ReplyView::SendAfter(pause, answer),
            None => ReplyView::Send(answer),
        }
    } else if request.method == "shutdown"@ {
        ReplyView::Send(MessageView::Response(ok_response(request.id, JsonView::Null)))
    } else if request.method == "textDocument/formatting"@ {
        ReplyView::Send(
            MessageView::Response(
                ok_response(
                    request.id,
                    formatting_result(fake.label, document_uri(request.params)),
                ),
            ),
        )
    } else {
        ReplyView::Send(
            MessageView::Response(
                err_response(
                    request.id,
                    METHOD_NOT_FOUND,
                    "fake-oxfmt does not implement "@ + request.method,
                ),
            ),
        )
    }
}

/// What the stand-in for the formatter does about a message.
pub open spec fn oxfmt_reply(fake: FakeOxfmtView, message: MessageView) -> ReplyView {
    match message {
        MessageView::Request(request) => oxfmt_request(fake, request),
        MessageView::Notification(notification) => if notification.method == "exit"@ {
            ReplyView::Stop
        } else if notification.method == "initialized"@ && fake.counts_initialized {
            ReplyView::CountInitialized
        } else {
            ReplyView::Nothing
        },
        MessageView::Response(_) => ReplyView::Nothing,
    }
}

/// The count that a text holds, nothing where it holds none.
pub open spec fn count_in(text: Option<Seq<char>>) -> u64 {
    match text {
        Some(text) => match u64_of(trimmed(text)) {
            Some(count) => count,
            None => 0,
        },
        None => 0,
    }
}

/// The count that a text holds, nothing where it holds none.
pub fn read_count(text: Option<&str>) -> (r: u64)
    ensures
        r == count_in(
            match text {
                Some(text) => Some(text@),
                None => None,
            },
        ),
{
    match text {
        Some(text) => match parse_u64(trim(text).as_str()) {
            Some(count) => count,
            None => 0,
        },
        None => 0,
    }
}

impl FakeOxfmt {
    /// Whether the stand-in has been started as the formatter is.
    pub fn accepts(args: &Vec<String>) -> (r: bool)
        ensures
            r == (texts(args@) == seq!["--lsp"@]),
    {
        let ghost expected = seq!["--lsp"@];
        proof {
            assert(texts(args@).len() == args@.len());
        }
        if args.len() != 1 {
            return false;
        }
        proof {
            assert(texts(args@)[0] == args@[0]@);
            assert(texts(args@) =~= expected <==> args@[0]@ == "--lsp"@);
        }
        same_text(args[0].as_str(), "--lsp")
    }

    fn edits(&self, uri: &str) -> (r: Json)
        ensures
            r@ == formatting_result(self@.label, uri@),
    {
        let text = concat2("formatted-session=", self.label.as_str());
        let text = concat2(text.as_str(), ";uri=");
        let text = concat2(text.as_str(), uri);
        let text = concat2(text.as_str(), "\n");
        let edit = Json::object2(
            "range",
            make_first_line_range(0),
            "newText",
            Json::Text(text),
        );
        let list = Json::array(vec![edit]);
        proof {
            assert(list@->Array_0 =~= seq![edit@]);
        }
        list
    }

    fn answer_request(&self, request: Request) -> (r: Reply)
        ensures
            r@ == oxfmt_request(self@, request@),
    {
        let method = request.method.as_str();
        if same_text(method, "initialize") {
            let result = introduce(
                "documentFormattingProvider",
                concat2("fake-oxfmt:", self.label.as_str()),
            );
            let answer = Message::Response(Response::new_ok(request.id, result));
            return match self.init_delay_ms {
                Some(pause) => Reply::SendAfter(pause, answer),
                None => Reply::Send(answer),
            };
        }
        if same_text(method, "shutdown") {
            return Reply::Send(Message::Response(Response::new_ok(request.id, Json::Null)));
        }
        if same_text(method, "textDocument/formatting") {
            let uri = find_document_uri(&request.params);
            let result = self.edits(uri.as_str());
            return Reply::Send(Message::Response(Response::new_ok(request.id, result)));
        }
        let message = concat2("fake-oxfmt does not implement ", method);
        Reply::Send(
            Message::Response(Response::new_err(request.id, METHOD_NOT_FOUND, message)),
        )
    }

    /// What the stand-in does about a message.
    pub fn answer(&self, message: Message) -> (r: Reply)
        ensures
            r@ == oxfmt_reply(self@, message@),
    {
        match message {
            Message::Request(request) => self.answer_request(request),
            Message::Notification(notification) => {
                if same_text(notification.method.as_str(), "exit") {
                    return Reply::Stop;
                }
                if same_text(notification.method.as_str(), "initialized")
                    && self.counts_initialized {
                    return Reply::CountInitialized;
                }
                Reply::Nothing
            },
            Message::Response(_) => Reply::Nothing,
        }
    }
}

/// The stand-in for the formatter leaves no request without an answer.
pub proof fn every_request_is_answered(fake: FakeOxfmtView, request: RequestView)
    ensures
        match oxfmt_reply(fake, MessageView::Request(request)) {
            ReplyView::Send(MessageView::Response(response)) => response.id == request.id,
            ReplyView::SendAfter(_, MessageView::Response(response)) => response.id == request.id,
            _ => false,
        },
{
}

} // verus!
