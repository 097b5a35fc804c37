//! What the server makes of what the client and its children say.
//!
//! A step of the proxy either ends, or says what to find out or which child to start, and goes on
//! once that is known.

use vstd::prelude::*;
use crate::disk::{Outcome, OutcomeView};
use crate::hub::{result_view, ClientInitialize, ClientInitializeView, Hub, HubView, SessionView};
use crate::json::{json_get, json_put, json_put_new, Json, JsonView};
use crate::lsp::{
    err_response, normal_response, normalize_child_response, ok_response, request_id_from_value,
    value_request_id, Message, MessageView, Notification, NotificationView, Request, RequestId,
    RequestIdView, RequestView, Response, ResponseView, INVALID_REQUEST, REQUEST_CANCELED,
    REQUEST_FAILED,
};
use crate::oxc::discovery::{
    CommandSpec, CommandView, ContextView, ProjectContext, SessionKey, SessionKeyView,
};
use crate::oxc::session::{
    session_debug, ChildKind, SessionEvent, SessionEventView, SessionId, SessionIdView,
};
use crate::params::{find_initialize_root, find_place, initialize_root, place_in, Place, PlaceView};
use crate::path::{FsPath, PathView};
use crate::table::{holds, lookup, put, put_then_lookup, without, Key};
use crate::text::{begins_with, concat2, same_text, starts_with};
use crate::views::{each, opt};

verus! {

/// What a project is looked for.
#[derive(Debug)]
pub enum Purpose {
    /// To pass on the client's `initialize`.
    Initialize(Request),
    /// To pass on a request.
    Request(Request),
    /// To pass on a notification about the document with this URI.
    Notification(Notification, String),
}

/// What a project is looked for.
#[verifier::ext_equal]
pub enum PurposeView {
    Initialize(RequestView),
    Request(RequestView),
    Notification(NotificationView, Seq<char>),
}

impl View for Purpose {
    type V = PurposeView;

    open spec fn view(&self) -> PurposeView {
        match self {
            Purpose::Initialize(request) => PurposeView::Initialize(request@),
            Purpose::Request(request) => PurposeView::Request(request@),
            Purpose::Notification(notification, uri) => PurposeView::Notification(
                notification@,
                uri@,
            ),
        }
    }
}

/// A child to be started.
#[derive(Debug)]
pub struct SpawnOrder {
    pub id: SessionId,
    pub command: CommandSpec,
    pub generation: u64,
    pub context: ProjectContext,
}

/// A child to be started.
#[verifier::ext_equal]
pub struct SpawnOrderView {
    pub id: SessionIdView,
    pub command: CommandView,
    pub generation: u64,
    pub context: ContextView,
}

impl View for SpawnOrder {
    type V = SpawnOrderView;

    open spec fn view(&self) -> SpawnOrderView {
        SpawnOrderView {
            id: self.id@,
            command: self.command@,
            generation: self.generation,
            context: self.context@,
        }
    }
}

/// How a step goes on.
#[derive(Debug)]
pub enum Next {
    /// It has ended.
    Done,
    /// It has ended, and so does the server.
    Exit,
    /// Find out what serves the path, and go on with that.
    Discover(FsPath, Purpose),
    /// Find out what serves the current directory, and go on with that.
    DiscoverCurrentDir(Purpose),
    /// Start a child, and go on with what came of it.
    Spawn(SpawnOrder, Purpose),
}

/// How a step goes on.
#[verifier::ext_equal]
pub enum NextView {
    Done,
    Exit,
    Discover(PathView, PurposeView),
    DiscoverCurrentDir(PurposeView),
    Spawn(SpawnOrderView, PurposeView),
}

impl View for Next {
    type V = NextView;

    open spec fn view(&self) -> NextView {
        match self {
            Next::Done => NextView::Done,
            Next::Exit => NextView::Exit,
            Next::Discover(path, purpose) => NextView::Discover(path@, purpose@),
            Next::DiscoverCurrentDir(purpose) => NextView::DiscoverCurrentDir(purpose@),
            Next::Spawn(order, purpose) => NextView::Spawn(order@, purpose@),
        }
    }
}

/// The state of the proxy.
pub type ProxyView = HubView<SessionIdView>;

/// How a step that can fail goes on.
pub open spec fn next_view(r: Result<Next, String>) -> Result<NextView, Seq<char>> {
    match r {
        Ok(next) => Ok(next@),
        Err(message) => Err(message@),
    }
}

/// The child of a project that lints.
pub open spec fn lint(project: SessionKeyView) -> SessionIdView {
    SessionIdView { project, kind: ChildKind::Lint }
}

/// The child of a project that formats.
pub open spec fn formatter(project: SessionKeyView) -> SessionIdView {
    SessionIdView { project, kind: ChildKind::Format }
}

/// The state without a child: a project's documents go with the child that lints.
pub open spec fn dropped(s: ProxyView, id: SessionIdView, message: Seq<char>) -> ProxyView {
    let owner = match id.kind {
        ChildKind::Lint => Some(id.project),
        ChildKind::Format => None,
    };
    s.dropped(id, owner, message, true, session_debug(id))
}

/// A notification to a child, which is dropped where that fails.
pub open spec fn notified(
    s: ProxyView,
    id: SessionIdView,
    notification: NotificationView,
    failure: Seq<char>,
) -> ProxyView {
    match s.dispatched(id, MessageView::Notification(notification), true) {
        (t, Ok(_)) => t,
        (t, Err(message)) => dropped(t, id, failure + message),
    }
}

/// A notification to a child, if there is that child.
pub open spec fn notified_if_there(
    s: ProxyView,
    id: SessionIdView,
    notification: NotificationView,
) -> ProxyView {
    if holds(s.sessions, id) {
        notified(s, id, notification, "failed to forward notification to child: "@)
    } else {
        s
    }
}

/// A notification to the children of a project.
pub open spec fn project_notified(
    s: ProxyView,
    project: SessionKeyView,
    notification: NotificationView,
) -> ProxyView {
    notified_if_there(
        notified_if_there(s, lint(project), notification),
        formatter(project),
        notification,
    )
}

/// A notification to each of these children.
pub open spec fn broadcast(
    s: ProxyView,
    ids: Seq<SessionIdView>,
    notification: NotificationView,
) -> ProxyView
    decreases ids.len(),
{
    if ids.len() == 0 {
        s
    } else {
        broadcast(
            notified(s, ids[0], notification, "failed to broadcast notification to child: "@),
            ids.drop_first(),
            notification,
        )
    }
}

/// The children.
pub open spec fn children(s: ProxyView) -> Seq<SessionIdView> {
    s.sessions.map_values(|e: (SessionIdView, SessionView)| e.0)
}

/// Where a request stands among messages.
pub open spec fn queued_at(messages: Seq<MessageView>, id: RequestIdView) -> Option<int>
    decreases messages.len(),
{
    if messages.len() == 0 {
        None
    } else if messages[0] matches MessageView::Request(request) && request.id == id {
        Some(0)
    } else {
        match queued_at(messages.drop_first(), id) {
            Some(i) => Some(i + 1),
            None => None,
        }
    }
}

/// The request that a notification cancels.
pub open spec fn cancelled_request(notification: NotificationView) -> Option<RequestIdView> {
    match json_get(notification.params, "id"@) {
        Some(value) => value_request_id(value),
        None => None,
    }
}

/// A cancellation of a request: one that the child has not got yet is answered at once, and else
/// the child is told.
pub open spec fn cancelled(s: ProxyView, notification: NotificationView) -> (
    ProxyView,
    Result<(), Seq<char>>,
) {
    match cancelled_request(notification) {
        None => (s, Ok(())),
        Some(request) => match lookup(s.client_request_routes, request) {
            None => (s, Ok(())),
            Some(id) => match lookup(s.sessions, id) {
                None => (s, Ok(())),
                Some(session) => match queued_at(session.queued_messages, request) {
                    Some(i) => {
                        let session = SessionView {
                            queued_messages: session.queued_messages.remove(i),
                            ..session
                        };
                        let answer = err_response(
                            request,
                            REQUEST_CANCELED,
                            "request cancelled"@,
                        );
                        (
                            HubView {
                                client_request_routes: without(s.client_request_routes, request),
                                ..s.with_session(id, session)
                            }.to_client(MessageView::Response(answer)),
                            Ok(()),
                        )
                    },
                    None => s.sent(id, session, MessageView::Notification(notification)),
                },
            },
        },
    }
}

/// The answer to a request that nothing serves.
pub open spec fn missing_target(s: ProxyView, request: RequestView) -> ProxyView {
    let result = if request.method == "textDocument/formatting"@ || request.method
        == "textDocument/codeAction"@ {
        JsonView::Array(Seq::empty())
    } else {
        JsonView::Null
    };
    s.to_client(MessageView::Response(ok_response(request.id, result)))
}

/// The child that a request is for.
pub open spec fn request_target(request: RequestView, project: SessionKeyView) -> SessionIdView {
    if request.method == "textDocument/formatting"@ {
        formatter(project)
    } else {
        lint(project)
    }
}

/// A request, passed on to the child of the project, if there is one.
pub open spec fn request_routed(
    s: ProxyView,
    request: RequestView,
    project: Option<SessionKeyView>,
) -> ProxyView {
    match project {
        None => missing_target(s, request),
        Some(project) => {
            let id = request_target(request, project);
            if holds(s.sessions, id) {
                let routed = HubView {
                    client_request_routes: put(s.client_request_routes, request.id, id),
                    ..s
                };
                match routed.dispatched(id, MessageView::Request(request), true) {
                    (t, Ok(_)) => t,
                    (t, Err(message)) => dropped(
                        t,
                        id,
                        "failed to forward request to child: "@ + message,
                    ),
                }
            } else {
                missing_target(s, request)
            }
        },
    }
}

/// A notification about a document, passed on to the children of the project. A document that has
/// been opened belongs to the project from then on.
pub open spec fn notification_routed(
    s: ProxyView,
    notification: NotificationView,
    uri: Seq<char>,
    project: Option<SessionKeyView>,
) -> ProxyView {
    match project {
        None => s,
        Some(project) => if notification.method == "textDocument/didOpen"@ {
            project_notified(
                HubView { documents: put(s.documents, uri, project), ..s },
                project,
                notification,
            )
        } else {
            project_notified(s, project, notification)
        },
    }
}

/// A request, where the document that it is about is known.
pub open spec fn request_at(s: ProxyView, request: RequestView, place: Option<PlaceView>) -> (
    ProxyView,
    NextView,
) {
    match place {
        None => (request_routed(s, request, s.default_project), NextView::Done),
        Some(place) => match lookup(s.documents, place.uri) {
            Some(project) => (request_routed(s, request, Some(project)), NextView::Done),
            None => match place.path {
                None => (request_routed(s, request, None), NextView::Done),
                Some(path) => (s, NextView::Discover(path, PurposeView::Request(request))),
            },
        },
    }
}

/// A notification, where the document that it is about is known.
pub open spec fn notification_at(
    s: ProxyView,
    notification: NotificationView,
    place: Option<PlaceView>,
) -> (ProxyView, NextView) {
    if begins_with(notification.method, "workspace/"@) {
        (broadcast(s, children(s), notification), NextView::Done)
    } else if notification.method == "$/cancelRequest"@ {
        (s, NextView::Done)
    } else {
        match place {
            None => match s.default_project {
                Some(project) => (project_notified(s, project, notification), NextView::Done),
                None => (s, NextView::Done),
            },
            Some(place) => {
                let known = lookup(s.documents, place.uri);
                if notification.method == "textDocument/didClose"@ {
                    let rest = HubView { documents: without(s.documents, place.uri), ..s };
                    match known {
                        Some(project) => (
                            project_notified(rest, project, notification),
                            NextView::Done,
                        ),
                        None => (rest, NextView::Done),
                    }
                } else {
                    match known {
                        Some(project) => (
                            notification_routed(s, notification, place.uri, Some(project)),
                            NextView::Done,
                        ),
                        None => match place.path {
                            None => (s, NextView::Done),
                            Some(path) => (
                                s,
                                NextView::Discover(
                                    path,
                                    PurposeView::Notification(notification, place.uri),
                                ),
                            ),
                        },
                    }
                }
            },
        }
    }
}

/// What the server says of itself where nothing is installed.
pub open spec fn silent_result() -> JsonView {
    JsonView::Object(
        seq![
            ("capabilities"@, JsonView::Object(Seq::empty())),
            ("serverInfo"@, server_info(JsonView::Text("0.1.0"@))),
        ],
    )
}

/// The name and version of the server.
pub open spec fn server_info(version: JsonView) -> JsonView {
    JsonView::Object(seq![("name"@, JsonView::Text("oxc-lsp"@)), ("version"@, version)])
}

/// The version that the result of `initialize` gives.
pub open spec fn server_version(result: JsonView) -> JsonView {
    match json_get(result, "serverInfo"@) {
        Some(JsonView::Object(members)) => match json_get(
            JsonView::Object(members),
            "version"@,
        ) {
            Some(version) => version,
            None => JsonView::Text("0.1.0"@),
        },
        _ => JsonView::Text("0.1.0"@),
    }
}

/// The result of `initialize` as the client gets it: with capabilities, with formatting where there
/// is a child that formats, and under the name of this server.
pub open spec fn client_result(result: JsonView, has_formatter: bool) -> JsonView {
    match result {
        JsonView::Object(_) => {
            let capable = json_put_new(
                result,
                "capabilities"@,
                JsonView::Object(Seq::empty()),
            );
            let formatting = if has_formatter {
                json_put(
                    capable,
                    "capabilities"@,
                    json_put_new(
                        json_get(capable, "capabilities"@)->0,
                        "documentFormattingProvider"@,
                        JsonView::Bool(true),
                    ),
                )
            } else {
                capable
            };
            json_put(formatting, "serverInfo"@, server_info(server_version(formatting)))
        },
        other => other,
    }
}

/// The answer to `initialize` as the client gets it.
pub open spec fn client_initialize_response(response: ResponseView, has_formatter: bool) -> ResponseView {
    match response.result {
        Some(result) => ResponseView {
            result: Some(client_result(result, has_formatter)),
            ..response
        },
        None => response,
    }
}

/// A step that fails for want of a project.
pub open spec fn failed(s: ProxyView, purpose: PurposeView, message: Seq<char>) -> ProxyView {
    match purpose {
        PurposeView::Initialize(request) => s.to_client(
            MessageView::Response(err_response(request.id, REQUEST_FAILED, message)),
        ).warned(message),
        PurposeView::Request(request) => missing_target(
            s.warned("failed to resolve request target: "@ + message),
            request,
        ),
        PurposeView::Notification(_, _) => s.warned(
            "failed to resolve notification target: "@ + message,
        ),
    }
}

/// A step for which nothing is installed.
pub open spec fn untargeted(s: ProxyView, purpose: PurposeView) -> ProxyView {
    match purpose {
        PurposeView::Initialize(request) => s.to_client(
            MessageView::Response(ok_response(request.id, silent_result())),
        ),
        PurposeView::Request(request) => missing_target(s, request),
        PurposeView::Notification(_, _) => s,
    }
}

/// The end of a step: the project's children are there.
pub open spec fn arrived(s: ProxyView, project: SessionKeyView, purpose: PurposeView) -> ProxyView {
    match purpose {
        PurposeView::Initialize(request) => match s.initialize_sent(
            request,
            lint(project),
            project,
            "default lint session disappeared during initialize"@,
        ) {
            (t, Ok(_)) => t,
            (t, Err(message)) => failed(t, purpose, message),
        },
        PurposeView::Request(request) => request_routed(s, request, Some(project)),
        PurposeView::Notification(notification, uri) => notification_routed(
            s,
            notification,
            uri,
            Some(project),
        ),
    }
}

/// A child to be started, with the next number.
pub open spec fn ordered(
    s: ProxyView,
    id: SessionIdView,
    command: CommandView,
    context: ContextView,
    purpose: PurposeView,
) -> (ProxyView, NextView) {
    let generation = (s.session_generation + 1) as u64;
    (
        HubView { session_generation: generation, ..s },
        NextView::Spawn(SpawnOrderView { id, command, generation, context }, purpose),
    )
}

/// The child that formats, to be started if it is missing.
pub open spec fn formatter_wanted(s: ProxyView, context: ContextView, purpose: PurposeView) -> (
    ProxyView,
    NextView,
) {
    match context.format_command {
        Some(command) => if holds(s.sessions, formatter(context.key)) {
            (arrived(s, context.key, purpose), NextView::Done)
        } else {
            ordered(s, formatter(context.key), command, context, purpose)
        },
        None => (arrived(s, context.key, purpose), NextView::Done),
    }
}

/// What serves a path has been found out.
pub open spec fn discovered(
    s: ProxyView,
    outcome: OutcomeView<ContextView>,
    purpose: PurposeView,
) -> (ProxyView, NextView) {
    match outcome {
        OutcomeView::Failed(message) => (failed(s, purpose, message), NextView::Done),
        OutcomeView::Absent => (untargeted(s, purpose), NextView::Done),
        OutcomeView::Found(context) => if holds(s.sessions, lint(context.key)) {
            formatter_wanted(s, context, purpose)
        } else {
            ordered(s, lint(context.key), context.lint_command, context, purpose)
        },
    }
}

/// A child has been started, or not.
pub open spec fn spawned(
    s: ProxyView,
    order: SpawnOrderView,
    purpose: PurposeView,
    result: Result<(), Seq<char>>,
) -> (ProxyView, NextView) {
    let context = order.context;
    match order.id.kind {
        ChildKind::Lint => match result {
            Err(message) => (failed(s, purpose, message), NextView::Done),
            Ok(_) => match s.installed(
                order.id,
                context.root,
                order.generation,
                !(purpose is Initialize),
                "oxc-lsp/init/"@,
            ) {
                (t, Err(message)) => (failed(t, purpose, message), NextView::Done),
                (t, Ok(_)) => formatter_wanted(t, context, purpose),
            },
        },
        ChildKind::Format => {
            let (t, started) = match result {
                Err(message) => (s, Err(message)),
                Ok(_) => s.installed(
                    order.id,
                    context.root,
                    order.generation,
                    true,
                    "oxc-lsp/init/"@,
                ),
            };
            let told = match started {
                Ok(_) => t,
                Err(message) => t.warned("failed to start oxfmt session: "@ + message),
            };
            (arrived(told, context.key, purpose), NextView::Done)
        },
    }
}

/// A message of the client, where the document that it is about and the root that it gives are known.
pub open spec fn message_at(
    s: ProxyView,
    message: MessageView,
    place: Option<PlaceView>,
    root: Option<PathView>,
) -> (ProxyView, Result<NextView, Seq<char>>) {
    match message {
        MessageView::Request(request) => if request.method == "initialize"@ {
            let (t, next) = initialize_at(s, request, root);
            (t, Ok(next))
        } else if request.method == "shutdown"@ {
            (
                HubView { shutdown_requested: true, ..s }.to_client(
                    MessageView::Response(ok_response(request.id, JsonView::Null)),
                ),
                Ok(NextView::Done),
            )
        } else if s.shutdown_requested {
            (
                s.to_client(
                    MessageView::Response(
                        err_response(request.id, INVALID_REQUEST, "server is shutting down"@),
                    ),
                ),
                Ok(NextView::Done),
            )
        } else {
            let (t, next) = request_at(s, request, place);
            (t, Ok(next))
        },
        MessageView::Notification(notification) => if notification.method == "initialized"@ {
            let kept = s.with_initialized(notification);
            match kept.default_project {
                Some(project) => (
                    project_notified(kept, project, notification),
                    Ok(NextView::Done),
                ),
                None => (kept, Ok(NextView::Done)),
            }
        } else if notification.method == "exit"@ {
            (broadcast(s, children(s), notification), Ok(NextView::Exit))
        } else {
            let (t, told) = if notification.method == "$/cancelRequest"@ {
                cancelled(s, notification)
            } else {
                (s, Ok(()))
            };
            match told {
                Err(failure) => (t, Err(failure)),
                Ok(_) => if t.shutdown_requested {
                    (t, Ok(NextView::Done))
                } else {
                    let (u, next) = notification_at(t, notification, place);
                    (u, Ok(next))
                },
            }
        },
        MessageView::Response(response) => match s.answered(response) {
            (t, Ok(_)) => (t, Ok(NextView::Done)),
            (t, Err(failure)) => (t, Err(failure)),
        },
    }
}

/// The client's `initialize`, where the root that it gives is known.
pub open spec fn initialize_at(s: ProxyView, request: RequestView, root: Option<PathView>) -> (
    ProxyView,
    NextView,
) {
    let noted = HubView {
        client_initialize: Some(
            ClientInitializeView { params: request.params, initialized: None },
        ),
        ..s
    };
    match root {
        Some(path) => (noted, NextView::Discover(path, PurposeView::Initialize(request))),
        None => (noted, NextView::DiscoverCurrentDir(PurposeView::Initialize(request))),
    }
}

/// The parameters of a message.
pub open spec fn params_of(message: MessageView) -> JsonView {
    match message {
        MessageView::Request(request) => request.params,
        MessageView::Notification(notification) => notification.params,
        MessageView::Response(_) => JsonView::Null,
    }
}

/// A message of the client.
pub open spec fn client_message(s: ProxyView, message: MessageView) -> (
    ProxyView,
    Result<NextView, Seq<char>>,
) {
    let params = params_of(message);
    message_at(s, message, place_in(params), initialize_root(params))
}

/// What is said of a child that fails to initialize.
pub open spec fn initialize_failure(id: SessionIdView, message: Seq<char>) -> Seq<char> {
    match id.kind {
        ChildKind::Lint => "oxlint initialize failed: "@ + message,
        ChildKind::Format => "oxfmt initialize failed: "@ + message,
    }
}

/// An answer of a child.
pub open spec fn child_response(s: ProxyView, answer: ResponseView) -> (
    ProxyView,
    Result<(), Seq<char>>,
) {
    let response = normal_response(answer);
    match lookup(s.initialize_routes, response.id) {
        None => (
            HubView {
                client_request_routes: without(s.client_request_routes, response.id),
                ..s
            }.to_client(MessageView::Response(response)),
            Ok(()),
        ),
        Some(route) => {
            let id = route.session;
            let rest = HubView {
                initialize_routes: without(s.initialize_routes, response.id),
                ..s
            };
            match lookup(s.sessions, id) {
                None => (rest, Ok(())),
                Some(session) => {
                    let session = SessionView { initialized: response.error is None, ..session };
                    let marked = rest.with_session(id, session);
                    let forwarded = match id.kind {
                        ChildKind::Lint => client_initialize_response(
                            response,
                            holds(s.sessions, formatter(id.project)),
                        ),
                        ChildKind::Format => response,
                    };
                    let told = if route.forward_to_client {
                        marked.to_client(MessageView::Response(forwarded))
                    } else {
                        marked
                    };
                    match response.error {
                        None => told.released(id, session),
                        Some(error) => (
                            dropped(told, id, initialize_failure(id, error.message)),
                            Ok(()),
                        ),
                    }
                },
            }
        },
    }
}

/// Something that happens to a child. What happens to a child that has been replaced is passed over.
pub open spec fn session_event(s: ProxyView, event: SessionEventView) -> (
    ProxyView,
    Result<(), Seq<char>>,
) {
    match event {
        SessionEventView::Message(id, generation, message) => if !s.current(id, generation) {
            (s, Ok(()))
        } else {
            match message {
                MessageView::Request(request) => (
                    s.asked(id, request, "oxc-lsp/client/"@),
                    Ok(()),
                ),
                MessageView::Response(response) => child_response(s, response),
                MessageView::Notification(notification) => (
                    s.to_client(MessageView::Notification(notification)),
                    Ok(()),
                ),
            }
        },
        SessionEventView::Closed(id, generation) => if !s.current(id, generation) {
            (s, Ok(()))
        } else {
            (
                dropped(
                    s,
                    id,
                    match id.kind {
                        ChildKind::Lint => "oxlint child exited unexpectedly"@,
                        ChildKind::Format => "oxfmt child exited unexpectedly"@,
                    },
                ),
                Ok(()),
            )
        },
        SessionEventView::WriterClosed(id, generation) => (s.closed(id, generation), Ok(())),
    }
}

fn lint_session(project: &SessionKey) -> (r: SessionId)
    ensures
        r@ == lint(project@),
{
    SessionId { project: project.clone(), kind: ChildKind::Lint }
}

fn format_session(project: &SessionKey) -> (r: SessionId)
    ensures
        r@ == formatter(project@),
{
    SessionId { project: project.clone(), kind: ChildKind::Format }
}

/// What the server says of itself where nothing is installed.
pub fn silent_initialize_result() -> (r: Json)
    ensures
        r@ == silent_result(),
{
    let capabilities = Json::object(Vec::new());
    proof {
        assert(capabilities@->Object_0 =~= Seq::<(Seq<char>, JsonView)>::empty());
    }
    Json::object2(
        "capabilities",
        capabilities,
        "serverInfo",
        Json::object2(
            "name",
            Json::text("oxc-lsp"),
            "version",
            Json::text("0.1.0"),
        ),
    )
}

/// The answer to `initialize` as the client gets it.
pub fn normalize_initialize_response_for_client(response: Response, has_formatter: bool) -> (r:
    Response)
    ensures
        r@ == client_initialize_response(response@, has_formatter),
{
    let Response { id, result, error } = response;
    let result = match result {
        None => {
            return Response { id, result: None, error };
        },
        Some(result) => result,
    };
    if !result.is_object() {
        return Response { id, result: Some(result), error };
    }
    let ghost given = result@;
    let empty = Json::object(Vec::new());
    proof {
        assert(empty@->Object_0 =~= Seq::<(Seq<char>, JsonView)>::empty());
    }
    let mut result = result.with_new("capabilities", empty);
    proof {
        if json_get(given, "capabilities"@) is None {
            put_then_lookup(
                given->Object_0,
                "capabilities"@,
                JsonView::Object(Seq::empty()),
                "capabilities"@,
            );
        }
    }
    if has_formatter {
        let capabilities = match result.get("capabilities") {
            Some(capabilities) => capabilities.clone(),
            None => Json::Null,
        };
        result = result.with(
            "capabilities",
            capabilities.with_new("documentFormattingProvider", Json::Bool(true)),
        );
    }
    let version = match result.get("serverInfo") {
        Some(info) => if info.is_object() {
            match info.get("version") {
                Some(version) => version.clone(),
                None => Json::text("0.1.0"),
            }
        } else {
            Json::text("0.1.0")
        },
        None => Json::text("0.1.0"),
    };
    let info = Json::object2("name", Json::text("oxc-lsp"), "version", version);
    Response { id, result: Some(result.with("serverInfo", info)), error }
}

/// What stands between the client and the children.
#[derive(Debug)]
pub struct Proxy {
    pub hub: Hub<SessionId>,
}

impl View for Proxy {
    type V = ProxyView;

    open spec fn view(&self) -> ProxyView {
        self.hub@
    }
}

/// Where a request stands among messages.
fn find_queued(messages: &Vec<Message>, id: &RequestId) -> (r: Option<usize>)
    ensures
        match r {
            Some(i) => queued_at(each(messages@), id@) == Some(i as int) && i < messages@.len(),
            None => queued_at(each(messages@), id@) is None,
        },
{
    let ghost all = each(messages@);
    let mut i: usize = 0;
    proof {
        assert(all.skip(0) =~= all);
    }
    while i < messages.len()
        invariant
            i <= messages@.len(),
            all == each(messages@),
            queued_at(all, id@) == (match queued_at(all.skip(i as int), id@) {
                Some(j) => Some(j + i),
                None => None,
            }),
        decreases messages@.len() - i,
    {
        proof {
            assert(all.skip(i as int)[0] == messages@[i as int]@);
            assert(all.skip(i as int).drop_first() =~= all.skip(i + 1));
        }
        if let Message::Request(request) = &messages[i] {
            if request.id.same(id) {
                return Some(i);
            }
        }
        i += 1;
    }
    None
}

impl Proxy {
    /// The proxy at the start.
    pub fn new() -> (r: Proxy)
        ensures
            r@ == HubView::<SessionIdView>::fresh(),
    {
        Proxy { hub: Hub::new() }
    }

    fn drop_session(&mut self, id: &SessionId, message: &str)
        ensures
            final(self)@ == dropped(old(self)@, id@, message@),
    {
        let shown = id.debug_text();
        match id.kind {
            ChildKind::Lint => {
                self.hub.drop_session(id, Some(&id.project), message, true, shown.as_str());
            },
            ChildKind::Format => {
                self.hub.drop_session(id, None, message, true, shown.as_str());
            },
        }
    }

    fn notify(&mut self, id: &SessionId, notification: Notification, failure: &str)
        ensures
            final(self)@ == notified(old(self)@, id@, notification@, failure@),
    {
        match self.hub.dispatch_to_session(id, Message::Notification(notification), true) {
            Ok(()) => {},
            Err(message) => {
                let text = concat2(failure, message.as_str());
                self.drop_session(id, text.as_str());
            },
        }
    }

    /// Sends a notification to the children of a project.
    pub fn dispatch_project_notification(&mut self, project: &SessionKey, notification: Notification)
        ensures
            final(self)@ == project_notified(old(self)@, project@, notification@),
    {
        let id = lint_session(project);
        if self.hub.sessions.contains_key(&id) {
            self.notify(&id, notification.clone(), "failed to forward notification to child: ");
        }
        let id = format_session(project);
        if self.hub.sessions.contains_key(&id) {
            self.notify(&id, notification, "failed to forward notification to child: ");
        }
    }

    /// Sends a notification to every child.
    pub fn broadcast_notification(&mut self, notification: Notification)
        ensures
            final(self)@ == broadcast(old(self)@, children(old(self)@), notification@),
    {
        let mut ids: Vec<SessionId> = Vec::new();
        let mut i: usize = 0;
        while i < self.hub.sessions.len()
            invariant
                i <= self@.sessions.len(),
                self@ == old(self)@,
                each(ids@) == children(old(self)@).take(i as int),
            decreases self@.sessions.len() - i,
        {
            let ghost before = each(ids@);
            ids.push(self.hub.sessions.key_at(i).clone());
            proof {
                assert(each(ids@) =~= before.push(children(old(self)@)[i as int]));
                assert(children(old(self)@).take(i + 1) =~= before.push(
                    children(old(self)@)[i as int],
                ));
            }
            i += 1;
        }
        let ghost all = children(old(self)@);
        proof {
            assert(all.take(i as int) =~= all);
            assert(all.skip(0) =~= all);
        }
        let mut at: usize = 0;
        while at < ids.len()
            invariant
                at <= ids@.len(),
                each(ids@) == all,
                broadcast(self@, all.skip(at as int), notification@) == broadcast(
                    old(self)@,
                    all,
                    notification@,
                ),
            decreases ids@.len() - at,
        {
            proof {
                assert(all.skip(at as int)[0] == ids@[at as int]@);
                assert(all.skip(at as int).drop_first() =~= all.skip(at + 1));
            }
            self.notify(
                &ids[at],
                notification.clone(),
                "failed to broadcast notification to child: ",
            );
            at += 1;
        }
        proof {
            assert(all.skip(at as int).len() == 0);
        }
    }

    fn handle_cancel_notification(&mut self, notification: &Notification) -> (r: Result<
        (),
        String,
    >)
        ensures
            (final(self)@, result_view(r)) == cancelled(old(self)@, notification@),
    {
        let request = match notification.params.get("id") {
            None => {
                return Ok(());
            },
            Some(value) => match request_id_from_value(value) {
                None => {
                    return Ok(());
                },
                Some(request) => request,
            },
        };
        let id = match self.hub.client_request_routes.get(&request) {
            None => {
                return Ok(());
            },
            Some(id) => id.clone(),
        };
        let (open, position) = match self.hub.sessions.get(&id) {
            None => {
                return Ok(());
            },
            Some(session) => (session.open, find_queued(&session.queued_messages, &request)),
        };
        match position {
            Some(i) => {
                match self.hub.sessions.get_mut(&id) {
                    Some(session) => {
                        let ghost queued = each(session.queued_messages@);
                        let _ = session.queued_messages.remove(i);
                        proof {
                            assert(each(session.queued_messages@) =~= queued.remove(i as int));
                        }
                    },
                    None => {},
                }
                let _ = self.hub.client_request_routes.remove(&request);
                self.hub.tell_client(
                    Message::Response(
                        Response::new_err(
                            request,
                            REQUEST_CANCELED,
                            "request cancelled".to_owned(),
                        ),
                    ),
                );
                Ok(())
            },
            None => self.hub.send(&id, open, Message::Notification(notification.clone())),
        }
    }

    fn respond_missing_target(&mut self, request: Request)
        ensures
            final(self)@ == missing_target(old(self)@, request@),
    {
        let method = request.method.as_str();
        let result = if same_text(method, "textDocument/formatting") || same_text(
            method,
            "textDocument/codeAction",
        ) {
            let result = Json::array(Vec::new());
            proof {
                assert(result@->Array_0 =~= Seq::<JsonView>::empty());
            }
            result
        } else {
            Json::Null
        };
        self.hub.tell_client(Message::Response(Response::new_ok(request.id, result)));
    }

    fn route_request(&mut self, request: Request, project: Option<SessionKey>)
        ensures
            final(self)@ == request_routed(old(self)@, request@, opt(project)),
    {
        let project = match project {
            None => {
                self.respond_missing_target(request);
                return;
            },
            Some(project) => project,
        };
        let id = if same_text(request.method.as_str(), "textDocument/formatting") {
            format_session(&project)
        } else {
            lint_session(&project)
        };
        if !self.hub.sessions.contains_key(&id) {
            self.respond_missing_target(request);
            return;
        }
        self.hub.client_request_routes.insert(request.id.clone(), id.clone());
        match self.hub.dispatch_to_session(&id, Message::Request(request), true) {
            Ok(()) => {},
            Err(message) => {
                let text = concat2("failed to forward request to child: ", message.as_str());
                self.drop_session(&id, text.as_str());
            },
        }
    }

    fn route_notification(
        &mut self,
        notification: Notification,
        uri: String,
        project: Option<SessionKey>,
    )
        ensures
            final(self)@ == notification_routed(
                old(self)@,
                notification@,
                uri@,
                opt(project),
            ),
    {
        if let Some(project) = project {
            if same_text(notification.method.as_str(), "textDocument/didOpen") {
                self.hub.documents.insert(uri, project.clone());
            }
            self.dispatch_project_notification(&project, notification);
        }
    }

    fn default_project(&self) -> (r: Option<SessionKey>)
        ensures
            opt(r) == self@.default_project,
    {
        match &self.hub.default_project {
            Some(project) => Some(project.clone()),
            None => None,
        }
    }

    fn document_project(&self, uri: &String) -> (r: Option<SessionKey>)
        ensures
            opt(r) == lookup(self@.documents, uri@),
    {
        match self.hub.documents.get(uri) {
            Some(project) => Some(project.clone()),
            None => None,
        }
    }

    /// Takes a request of the client, where the document that it is about is known.
    pub fn handle_request_at(&mut self, request: Request, place: Option<Place>) -> (r: Next)
        ensures
            (final(self)@, r@) == request_at(old(self)@, request@, opt(place)),
    {
        let place = match place {
            None => {
                let project = self.default_project();
                self.route_request(request, project);
                return Next::Done;
            },
            Some(place) => place,
        };
        match self.document_project(&place.uri) {
            Some(project) => {
                self.route_request(request, Some(project));
                Next::Done
            },
            None => match place.path {
                None => {
                    self.route_request(request, None);
                    Next::Done
                },
                Some(path) => Next::Discover(path, Purpose::Request(request)),
            },
        }
    }

    /// Takes a notification of the client, where the document that it is about is known.
    pub fn handle_notification_at(&mut self, notification: Notification, place: Option<Place>) -> (r:
        Next)
        ensures
            (final(self)@, r@) == notification_at(old(self)@, notification@, opt(place)),
    {
        if starts_with(notification.method.as_str(), "workspace/") {
            self.broadcast_notification(notification);
            return Next::Done;
        }
        if same_text(notification.method.as_str(), "$/cancelRequest") {
            return Next::Done;
        }
        let place = match place {
            None => {
                if let Some(project) = self.default_project() {
                    self.dispatch_project_notification(&project, notification);
                }
                return Next::Done;
            },
            Some(place) => place,
        };
        let known = self.document_project(&place.uri);
        if same_text(notification.method.as_str(), "textDocument/didClose") {
            let _ = self.hub.documents.remove(&place.uri);
            if let Some(project) = known {
                self.dispatch_project_notification(&project, notification);
            }
            return Next::Done;
        }
        match known {
            Some(project) => {
                self.route_notification(notification, place.uri, Some(project));
                Next::Done
            },
            None => match place.path {
                None => Next::Done,
                Some(path) => Next::Discover(
                    path,
                    Purpose::Notification(notification, place.uri),
                ),
            },
        }
    }

    /// Takes the client's `initialize`, where the root that it gives is known.
    pub fn handle_initialize_at(&mut self, request: Request, root: Option<FsPath>) -> (r: Next)
        ensures
            (final(self)@, r@) == initialize_at(old(self)@, request@, opt(root)),
    {
        self.hub.client_initialize = Some(
            ClientInitialize { params: request.params.clone(), initialized: None },
        );
        match root {
            Some(path) => Next::Discover(path, Purpose::Initialize(request)),
            None => Next::DiscoverCurrentDir(Purpose::Initialize(request)),
        }
    }

    /// Takes a message of the client, where the document that it is about and the root that it gives
    /// are known.
    pub fn handle_message_at(
        &mut self,
        message: Message,
        place: Option<Place>,
        root: Option<FsPath>,
    ) -> (r: Result<Next, String>)
        ensures
            (final(self)@, next_view(r)) == message_at(
                old(self)@,
                message@,
                opt(place),
                opt(root),
            ),
    {
        match message {
            Message::Request(request) => {
                if same_text(request.method.as_str(), "initialize") {
                    return Ok(self.handle_initialize_at(request, root));
                }
                if same_text(request.method.as_str(), "shutdown") {
                    self.hub.shutdown_requested = true;
                    self.hub.tell_client(
                        Message::Response(Response::new_ok(request.id, Json::Null)),
                    );
                    return Ok(Next::Done);
                }
                if self.hub.shutdown_requested {
                    self.hub.tell_client(
                        Message::Response(
                            Response::new_err(
                                request.id,
                                INVALID_REQUEST,
                                "server is shutting down".to_owned(),
                            ),
                        ),
                    );
                    return Ok(Next::Done);
                }
                Ok(self.handle_request_at(request, place))
            },
            Message::Notification(notification) => {
                if same_text(notification.method.as_str(), "initialized") {
                    self.hub.store_initialized(notification.clone());
                    if let Some(project) = self.default_project() {
                        self.dispatch_project_notification(&project, notification);
                    }
                    return Ok(Next::Done);
                }
                if same_text(notification.method.as_str(), "exit") {
                    self.broadcast_notification(notification);
                    return Ok(Next::Exit);
                }
                if same_text(notification.method.as_str(), "$/cancelRequest") {
                    match self.handle_cancel_notification(&notification) {
                        Ok(()) => {},
                        Err(message) => {
                            return Err(message);
                        },
                    }
                }
                if self.hub.shutdown_requested {
                    return Ok(Next::Done);
                }
                Ok(self.handle_notification_at(notification, place))
            },
            Message::Response(response) => match self.hub.handle_client_response(response) {
                Ok(()) => Ok(Next::Done),
                Err(message) => Err(message),
            },
        }
    }

    /// Takes a message of the client.
    pub fn handle_client_message(&mut self, message: Message) -> (r: Result<Next, String>)
        ensures
            (final(self)@, next_view(r)) == client_message(old(self)@, message@),
    {
        let (place, root) = match &message {
            Message::Request(request) => (
                find_place(&request.params),
                find_initialize_root(&request.params),
            ),
            Message::Notification(notification) => (
                find_place(&notification.params),
                find_initialize_root(&notification.params),
            ),
            Message::Response(_) => (find_place(&Json::Null), find_initialize_root(&Json::Null)),
        };
        self.handle_message_at(message, place, root)
    }

    fn fail(&mut self, purpose: Purpose, message: String)
        ensures
            final(self)@ == failed(old(self)@, purpose@, message@),
    {
        match purpose {
            Purpose::Initialize(request) => {
                self.hub.tell_client(
                    Message::Response(
                        Response::new_err(request.id, REQUEST_FAILED, message.clone()),
                    ),
                );
                self.hub.log_warning(message);
            },
            Purpose::Request(request) => {
                self.hub.log_warning(
                    concat2("failed to resolve request target: ", message.as_str()),
                );
                self.respond_missing_target(request);
            },
            Purpose::Notification(_, _) => {
                self.hub.log_warning(
                    concat2("failed to resolve notification target: ", message.as_str()),
                );
            },
        }
    }

    fn give_up(&mut self, purpose: Purpose)
        ensures
            final(self)@ == untargeted(old(self)@, purpose@),
    {
        match purpose {
            Purpose::Initialize(request) => {
                self.hub.tell_client(
                    Message::Response(Response::new_ok(request.id, silent_initialize_result())),
                );
            },
            Purpose::Request(request) => {
                self.respond_missing_target(request);
            },
            Purpose::Notification(_, _) => {},
        }
    }

    fn arrive(&mut self, project: SessionKey, purpose: Purpose)
        ensures
            final(self)@ == arrived(old(self)@, project@, purpose@),
    {
        match purpose {
            Purpose::Initialize(request) => {
                let id = lint_session(&project);
                let kept = request.clone();
                match self.hub.send_initialize(
                    request,
                    &id,
                    project,
                    "default lint session disappeared during initialize",
                ) {
                    Ok(()) => {},
                    Err(message) => {
                        self.fail(Purpose::Initialize(kept), message);
                    },
                }
            },
            Purpose::Request(request) => {
                self.route_request(request, Some(project));
            },
            Purpose::Notification(notification, uri) => {
                self.route_notification(notification, uri, Some(project));
            },
        }
    }

    fn order(
        &mut self,
        id: SessionId,
        command: CommandSpec,
        context: ProjectContext,
        purpose: Purpose,
    ) -> (r: Next)
        requires
            old(self)@.session_generation < u64::MAX,
        ensures
            (final(self)@, r@) == ordered(
                old(self)@,
                id@,
                command@,
                context@,
                purpose@,
            ),
    {
        self.hub.session_generation = self.hub.session_generation + 1;
        let generation: u64 = self.hub.session_generation;
        Next::Spawn(SpawnOrder { id, command, generation, context }, purpose)
    }

    fn want_formatter(&mut self, context: ProjectContext, purpose: Purpose) -> (r: Next)
        requires
            old(self)@.session_generation < u64::MAX,
        ensures
            (final(self)@, r@) == formatter_wanted(old(self)@, context@, purpose@),
    {
        let id = format_session(&context.key);
        let command = match &context.format_command {
            Some(command) => command.clone(),
            None => {
                self.arrive(context.key, purpose);
                return Next::Done;
            },
        };
        if self.hub.sessions.contains_key(&id) {
            self.arrive(context.key, purpose);
            return Next::Done;
        }
        self.order(id, command, context, purpose)
    }

    /// Goes on with a step: what serves the path has been found out.
    pub fn context_found(&mut self, outcome: Outcome<ProjectContext>, purpose: Purpose) -> (r: Next)
        requires
            old(self)@.has_room(),
        ensures
            (final(self)@, r@) == discovered(old(self)@, outcome@, purpose@),
    {
        match outcome {
            Outcome::Failed(message) => {
                self.fail(purpose, message);
                Next::Done
            },
            Outcome::Absent => {
                self.give_up(purpose);
                Next::Done
            },
            Outcome::Found(context) => {
                let id = lint_session(&context.key);
                if self.hub.sessions.contains_key(&id) {
                    return self.want_formatter(context, purpose);
                }
                let command = context.lint_command.clone();
                self.order(id, command, context, purpose)
            },
        }
    }

    /// Goes on with a step: the child has been started, or not.
    pub fn session_spawned(
        &mut self,
        order: SpawnOrder,
        purpose: Purpose,
        result: Result<(), String>,
    ) -> (r: Next)
        requires
            old(self)@.has_room(),
        ensures
            (final(self)@, r@) == spawned(
                old(self)@,
                order@,
                purpose@,
                result_view(result),
            ),
    {
        let SpawnOrder { id, command: _, generation, context } = order;
        let root = crate::project::copy_path(&context.root);
        match id.kind {
            ChildKind::Lint => {
                match result {
                    Ok(()) => {},
                    Err(message) => {
                        self.fail(purpose, message);
                        return Next::Done;
                    },
                }
                let later = match &purpose {
                    Purpose::Initialize(_) => false,
                    _ => true,
                };
                match self.hub.install(&id, root, generation, later, "oxc-lsp/init/") {
                    Ok(()) => self.want_formatter(context, purpose),
                    Err(message) => {
                        self.fail(purpose, message);
                        Next::Done
                    },
                }
            },
            ChildKind::Format => {
                let started = match result {
                    Ok(()) => self.hub.install(&id, root, generation, true, "oxc-lsp/init/"),
                    Err(message) => Err(message),
                };
                match started {
                    Ok(()) => {},
                    Err(message) => {
                        self.hub.log_warning(
                            concat2("failed to start oxfmt session: ", message.as_str()),
                        );
                    },
                }
                self.arrive(context.key, purpose);
                Next::Done
            },
        }
    }

    fn handle_child_response(&mut self, response: Response) -> (r: Result<(), String>)
        ensures
            (final(self)@, result_view(r)) == child_response(old(self)@, response@),
    {
        let response = normalize_child_response(response);
        let route = match self.hub.initialize_routes.remove(&response.id) {
            None => {
                let _ = self.hub.client_request_routes.remove(&response.id);
                self.hub.tell_client(Message::Response(response));
                return Ok(());
            },
            Some(route) => route,
        };
        let id = route.session;
        let failure = match &response.error {
            Some(error) => Some(error.message.clone()),
            None => None,
        };
        let has_formatter = self.hub.sessions.contains_key(&format_session(&id.project));
        match self.hub.sessions.get_mut(&id) {
            None => {
                return Ok(());
            },
            Some(session) => {
                session.initialized = failure.is_none();
            },
        }
        if route.forward_to_client {
            let forwarded = match id.kind {
                ChildKind::Lint => normalize_initialize_response_for_client(
                    response,
                    has_formatter,
                ),
                ChildKind::Format => response,
            };
            self.hub.tell_client(Message::Response(forwarded));
        }
        proof {
            let before = old(self)@.sessions;
            let marked = SessionView {
                initialized: failure is None,
                ..lookup(before, id@)->0
            };
            put_then_lookup(before, id@, marked, id@);
            assert(self@.sessions == put(before, id@, marked));
        }
        match failure {
            None => self.hub.release(&id),
            Some(message) => {
                let text = match id.kind {
                    ChildKind::Lint => concat2("oxlint initialize failed: ", message.as_str()),
                    ChildKind::Format => concat2("oxfmt initialize failed: ", message.as_str()),
                };
                self.drop_session(&id, text.as_str());
                Ok(())
            },
        }
    }

    /// Takes something that happens to a child.
    pub fn handle_session_event(&mut self, event: SessionEvent) -> (r: Result<(), String>)
        requires
            old(self)@.has_room(),
        ensures
            (final(self)@, result_view(r)) == session_event(old(self)@, event@),
    {
        match event {
            SessionEvent::Message(id, generation, message) => {
                if !self.hub.session_generation_matches(&id, generation) {
                    return Ok(());
                }
                match message {
                    Message::Request(request) => {
                        self.hub.handle_child_request(&id, request, "oxc-lsp/client/");
                        Ok(())
                    },
                    Message::Response(response) => self.handle_child_response(response),
                    Message::Notification(notification) => {
                        self.hub.tell_client(Message::Notification(notification));
                        Ok(())
                    },
                }
            },
            SessionEvent::Closed(id, generation) => {
                if self.hub.session_generation_matches(&id, generation) {
                    let message = match id.kind {
                        ChildKind::Lint => "oxlint child exited unexpectedly",
                        ChildKind::Format => "oxfmt child exited unexpectedly",
                    };
                    self.drop_session(&id, message);
                }
                Ok(())
            },
            SessionEvent::WriterClosed(id, generation) => {
                self.hub.writer_closed(&id, generation);
                Ok(())
            },
        }
    }
}

} // verus!
