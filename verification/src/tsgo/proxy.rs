//! What the server makes of what the client and its children say.
//!
//! A step of the proxy either ends, or says what to find out or which child to start, and goes on
//! once that is known.

use vstd::prelude::*;
use crate::disk::{Outcome, OutcomeView};
use crate::hub::{
    result_view, Action, ActionView, ClientInitialize, ClientInitializeView, Hub, HubView,
    SessionView,
};
use crate::json::{json_get, json_int, Json, JsonView};
use crate::lsp::{
    err_response, normal_response, normalize_child_response, request_id_from_value,
    value_request_id, Message, MessageView, Notification, NotificationView, Request, RequestIdView,
    RequestView, Response, ResponseView, REQUEST_FAILED, SERVER_ERROR_START,
};
use crate::params::{find_initialize_root, find_place, initialize_root, place_in, Place, PlaceView};
use crate::path::{FsPath, PathView};
use crate::project::key_debug;
use crate::table::{holds, lookup, put, put_then_lookup, without, Ident, Key};
use crate::text::{begins_with, concat2, same_text, starts_with};
use crate::tsgo::discovery::{ContextView, ProjectContext, SessionKey, SessionKeyView};
use crate::tsgo::file_watcher::{ChangeView, WatchedFileChange};
use crate::tsgo::session::{SessionEvent, SessionEventView};
use crate::views::{each, opt};

verus! {

/// What a project is looked for.
#[derive(Debug)]
pub enum Purpose {
    /// To pass on the client's `initialize`.
    Initialize(Request),
    /// To pass on a request.
    Request(Request),
    /// To pass on a notification about the document with this URI.
    Notification(Notification, String),
}

/// What a project is looked for.
#[verifier::ext_equal]
pub enum PurposeView {
    Initialize(RequestView),
    Request(RequestView),
    Notification(NotificationView, Seq<char>),
}

impl View for Purpose {
    type V = PurposeView;

    open spec fn view(&self) -> PurposeView {
        match self {
            Purpose::Initialize(request) => PurposeView::Initialize(request@),
            Purpose::Request(request) => PurposeView::Request(request@),
            Purpose::Notification(notification, uri) => PurposeView::Notification(
                notification@,
                uri@,
            ),
        }
    }
}

/// A child to be started.
#[derive(Debug)]
pub struct SpawnOrder {
    pub context: ProjectContext,
    pub generation: u64,
}

/// A child to be started.
#[verifier::ext_equal]
pub struct SpawnOrderView {
    pub context: ContextView,
    pub generation: u64,
}

impl View for SpawnOrder {
    type V = SpawnOrderView;

    open spec fn view(&self) -> SpawnOrderView {
        SpawnOrderView { context: self.context@, generation: self.generation }
    }
}

/// How a step goes on.
#[derive(Debug)]
pub enum Next {
    /// It has ended.
    Done,
    /// It has ended, and so does the server.
    Exit,
    /// Find out what serves the path, and go on with that.
    Discover(FsPath, Purpose),
    /// Find out what serves the current directory, and go on with that.
    DiscoverCurrentDir(Purpose),
    /// Start a child, and go on with what came of it.
    Spawn(SpawnOrder, Purpose),
}

/// How a step goes on.
#[verifier::ext_equal]
pub enum NextView {
    Done,
    Exit,
    Discover(PathView, PurposeView),
    DiscoverCurrentDir(PurposeView),
    Spawn(SpawnOrderView, PurposeView),
}

impl View for Next {
    type V = NextView;

    open spec fn view(&self) -> NextView {
        match self {
            Next::Done => NextView::Done,
            Next::Exit => NextView::Exit,
            Next::Discover(path, purpose) => NextView::Discover(path@, purpose@),
            Next::DiscoverCurrentDir(purpose) => NextView::DiscoverCurrentDir(purpose@),
            Next::Spawn(order, purpose) => NextView::Spawn(order@, purpose@),
        }
    }
}

/// The state of the proxy.
pub type ProxyView = HubView<SessionKeyView>;

/// A state, and how the step goes on that has led there, or why it has failed.
pub type Turn = (ProxyView, Result<NextView, Seq<char>>);

/// How a step that can fail goes on.
pub open spec fn next_view(r: Result<Next, String>) -> Result<NextView, Seq<char>> {
    match r {
        Ok(next) => Ok(next@),
        Err(message) => Err(message@),
    }
}

/// The end of a step whose last part can fail.
pub open spec fn done(part: (ProxyView, Result<(), Seq<char>>)) -> Turn {
    match part {
        (t, Ok(_)) => (t, Ok(NextView::Done)),
        (t, Err(message)) => (t, Err(message)),
    }
}

/// The state without a child. Its files are looked after no more.
pub open spec fn dropped(
    s: ProxyView,
    key: SessionKeyView,
    message: Seq<char>,
    terminate: bool,
) -> ProxyView {
    s.dropped(key, Some(key), message, terminate, key_debug(key)).doing(ActionView::Unwatch(key))
}

/// That a child has ended.
pub open spec fn exited() -> Seq<char> {
    "tsgo child exited unexpectedly"@
}

/// A part of a step in which something was to be sent to a child. A child that is there, but that is
/// not reached, has ended: it is dropped, so that nothing waits for it any longer.
pub open spec fn or_dropped(key: SessionKeyView, part: (ProxyView, Result<(), Seq<char>>)) -> (
    ProxyView,
    Result<(), Seq<char>>,
) {
    match part.1 {
        Err(_) if holds(part.0.sessions, key) => (dropped(part.0, key, exited(), true), Ok(())),
        _ => part,
    }
}

/// A notification to each of these children that has answered `initialize` and is still reached.
pub open spec fn broadcast(
    s: ProxyView,
    ids: Seq<(SessionKeyView, SessionView)>,
    notification: NotificationView,
) -> ProxyView
    decreases ids.len(),
{
    if ids.len() == 0 {
        s
    } else {
        let rest = broadcast(s, ids.drop_last(), notification);
        let (key, session) = ids.last();
        if session.initialized && session.open {
            rest.doing(ActionView::Child(key, MessageView::Notification(notification)))
        } else {
            rest
        }
    }
}

/// The request that a notification cancels.
pub open spec fn cancelled_request(notification: NotificationView) -> Option<RequestIdView> {
    match json_get(notification.params, "id"@) {
        Some(value) => value_request_id(value),
        None => None,
    }
}

/// A cancellation of a request: the child that the request is waited for from is told.
pub open spec fn cancelled(s: ProxyView, notification: NotificationView) -> ProxyView {
    match cancelled_request(notification) {
        None => s,
        Some(request) => match lookup(s.client_request_routes, request) {
            None => s,
            Some(key) => match lookup(s.sessions, key) {
                None => s,
                Some(session) => or_dropped(
                    key,
                    s.sent(key, session, MessageView::Notification(notification)),
                ).0,
            },
        },
    }
}

/// An answer of the client, passed on to the child that has asked.
pub open spec fn answered(s: ProxyView, response: ResponseView) -> ProxyView {
    match lookup(s.child_request_routes, response.id) {
        None => s,
        Some(route) => or_dropped(route.session, s.answered(response)).0,
    }
}

/// The answer to a request that nothing serves.
pub open spec fn missing_target(s: ProxyView, request: RequestView) -> ProxyView {
    let message = "no tsgo session is available for "@ + request.method;
    s.to_client(
        MessageView::Response(err_response(request.id, SERVER_ERROR_START, message)),
    ).warned(message)
}

/// A request, passed on to the child of the project, if there is one.
pub open spec fn request_routed(
    s: ProxyView,
    request: RequestView,
    target: Option<SessionKeyView>,
) -> Turn {
    match target {
        None => (missing_target(s, request), Ok(NextView::Done)),
        Some(key) => {
            let routed = HubView {
                client_request_routes: put(s.client_request_routes, request.id, key),
                ..s
            };
            done(or_dropped(key, routed.dispatched(key, MessageView::Request(request), false)))
        },
    }
}

/// A notification, passed on to the child of the project, if there is one.
pub open spec fn notification_sent(
    s: ProxyView,
    notification: NotificationView,
    target: Option<SessionKeyView>,
) -> Turn {
    match target {
        None => (s, Ok(NextView::Done)),
        Some(key) => done(
            or_dropped(key, s.dispatched(key, MessageView::Notification(notification), false)),
        ),
    }
}

/// A notification about a document, passed on to the child of the project. A document that has been
/// opened belongs to the project from then on, and one that has been closed to none.
pub open spec fn notification_routed(
    s: ProxyView,
    notification: NotificationView,
    uri: Seq<char>,
    target: Option<SessionKeyView>,
) -> Turn {
    let documents = if notification.method == "textDocument/didClose"@ {
        without(s.documents, uri)
    } else if notification.method == "textDocument/didOpen"@ && target is Some {
        put(s.documents, uri, target->0)
    } else {
        s.documents
    };
    notification_sent(HubView { documents, ..s }, notification, target)
}

/// A request, where the document that it is about is known.
pub open spec fn request_at(s: ProxyView, request: RequestView, place: Option<PlaceView>) -> Turn {
    match place {
        None => request_routed(s, request, s.default_project),
        Some(place) => match lookup(s.documents, place.uri) {
            Some(key) => request_routed(s, request, Some(key)),
            None => match place.path {
                None => request_routed(s, request, s.default_project),
                Some(path) => (s, Ok(NextView::Discover(path, PurposeView::Request(request)))),
            },
        },
    }
}

/// A notification, where the document that it is about is known.
pub open spec fn notification_at(
    s: ProxyView,
    notification: NotificationView,
    place: Option<PlaceView>,
) -> Turn {
    if begins_with(notification.method, "workspace/"@) {
        (broadcast(s, s.sessions, notification), Ok(NextView::Done))
    } else if notification.method == "$/cancelRequest"@ {
        (s, Ok(NextView::Done))
    } else {
        match place {
            None => notification_sent(s, notification, s.default_project),
            Some(place) => match lookup(s.documents, place.uri) {
                Some(key) => notification_routed(s, notification, place.uri, Some(key)),
                None => match place.path {
                    None => notification_routed(s, notification, place.uri, s.default_project),
                    Some(path) => (
                        s,
                        Ok(
                            NextView::Discover(
                                path,
                                PurposeView::Notification(notification, place.uri),
                            ),
                        ),
                    ),
                },
            },
        }
    }
}

/// The client's `initialize`, where the root that it gives is known.
pub open spec fn initialize_at(s: ProxyView, request: RequestView, root: Option<PathView>) -> Turn {
    let noted = HubView {
        client_initialize: Some(
            ClientInitializeView { params: request.params, initialized: None },
        ),
        ..s
    };
    match root {
        Some(path) => (noted, Ok(NextView::Discover(path, PurposeView::Initialize(request)))),
        None => (noted, Ok(NextView::DiscoverCurrentDir(PurposeView::Initialize(request)))),
    }
}

/// A message of the client, where the document that it is about and the root that it gives are known.
pub open spec fn message_at(
    s: ProxyView,
    message: MessageView,
    place: Option<PlaceView>,
    root: Option<PathView>,
) -> Turn {
    match message {
        MessageView::Request(request) => if request.method == "initialize"@ {
            initialize_at(s, request, root)
        } else if request.method == "shutdown"@ {
            request_routed(
                HubView { shutdown_requested: true, ..s },
                request,
                s.default_project,
            )
        } else {
            request_at(s, request, place)
        },
        MessageView::Notification(notification) => if notification.method == "initialized"@ {
            notification_sent(
                s.with_initialized(notification),
                notification,
                s.default_project,
            )
        } else if notification.method == "exit"@ {
            (broadcast(s, s.sessions, notification), Ok(NextView::Exit))
        } else if notification.method == "$/cancelRequest"@ {
            notification_at(cancelled(s, notification), notification, place)
        } else {
            notification_at(s, notification, place)
        },
        MessageView::Response(response) => (answered(s, response), Ok(NextView::Done)),
    }
}

/// The parameters of a message.
pub open spec fn params_of(message: MessageView) -> JsonView {
    match message {
        MessageView::Request(request) => request.params,
        MessageView::Notification(notification) => notification.params,
        MessageView::Response(_) => JsonView::Null,
    }
}

/// A message of the client.
pub open spec fn client_message(s: ProxyView, message: MessageView) -> Turn {
    let params = params_of(message);
    message_at(s, message, place_in(params), initialize_root(params))
}

/// A step that fails for want of a project. The client is told where it is its `initialize`, and it is
/// of no account where a document has been closed.
pub open spec fn failed(s: ProxyView, purpose: PurposeView, message: Seq<char>) -> Turn {
    match purpose {
        PurposeView::Initialize(request) => (
            s.to_client(
                MessageView::Response(err_response(request.id, REQUEST_FAILED, message)),
            ).warned(message),
            Ok(NextView::Done),
        ),
        PurposeView::Request(_) => (s, Err(message)),
        PurposeView::Notification(notification, uri) => if notification.method
            == "textDocument/didClose"@ {
            notification_routed(s, notification, uri, None)
        } else {
            (s, Err(message))
        },
    }
}

/// The end of a step: the project's child is there.
pub open spec fn arrived(s: ProxyView, key: SessionKeyView, purpose: PurposeView) -> Turn {
    match purpose {
        PurposeView::Initialize(request) => match s.initialize_sent(
            request,
            key,
            key,
            "default session disappeared during initialize"@,
        ) {
            (t, Ok(_)) => (t, Ok(NextView::Done)),
            (t, Err(message)) => failed(t, purpose, message),
        },
        PurposeView::Request(request) => request_routed(s, request, Some(key)),
        PurposeView::Notification(notification, uri) => notification_routed(
            s,
            notification,
            uri,
            Some(key),
        ),
    }
}

/// That nothing serves a path.
pub open spec fn nothing_found() -> Seq<char> {
    "no tsgo session is available"@
}

/// What serves a path has been found out.
pub open spec fn discovered(
    s: ProxyView,
    outcome: OutcomeView<ContextView>,
    purpose: PurposeView,
) -> Turn {
    match outcome {
        OutcomeView::Failed(message) => failed(s, purpose, message),
        OutcomeView::Absent => failed(s, purpose, nothing_found()),
        OutcomeView::Found(context) => if holds(s.sessions, context.key) {
            arrived(s, context.key, purpose)
        } else {
            let generation = (s.session_generation + 1) as u64;
            (
                HubView { session_generation: generation, ..s },
                Ok(NextView::Spawn(SpawnOrderView { context, generation }, purpose)),
            )
        },
    }
}

/// A child has been started, or not. Its files are looked after.
pub open spec fn spawned(
    s: ProxyView,
    order: SpawnOrderView,
    purpose: PurposeView,
    result: Result<(), Seq<char>>,
) -> Turn {
    let key = order.context.key;
    match result {
        Err(message) => failed(s, purpose, message),
        Ok(_) => match s.installed(
            key,
            order.context.root,
            order.generation,
            !(purpose is Initialize),
            "tsgo-lsp/init/"@,
        ) {
            (t, Err(message)) => failed(t, purpose, message),
            (t, Ok(_)) => match order.context.root {
                Some(root) => arrived(t.doing(ActionView::Watch(key, root)), key, purpose),
                None => arrived(t, key, purpose),
            },
        },
    }
}

/// An answer of a child.
pub open spec fn child_response(s: ProxyView, answer: ResponseView) -> ProxyView {
    let response = normal_response(answer);
    match lookup(s.initialize_routes, response.id) {
        None => HubView {
            client_request_routes: without(s.client_request_routes, response.id),
            ..s
        }.to_client(MessageView::Response(response)),
        Some(route) => {
            let key = route.session;
            let rest = HubView {
                initialize_routes: without(s.initialize_routes, response.id),
                ..s
            };
            match lookup(s.sessions, key) {
                None => rest,
                Some(session) => {
                    let session = SessionView { initialized: response.error is None, ..session };
                    let marked = rest.with_session(key, session);
                    let told = if route.forward_to_client {
                        marked.to_client(MessageView::Response(response))
                    } else {
                        marked
                    };
                    match response.error {
                        None => or_dropped(key, told.released(key, session)).0,
                        Some(error) => dropped(
                            told,
                            key,
                            "tsgo initialize failed: "@ + error.message,
                            true,
                        ),
                    }
                },
            }
        },
    }
}

/// Something that happens to a child. What happens to a child that has been replaced is passed over.
pub open spec fn session_event(s: ProxyView, event: SessionEventView) -> ProxyView {
    match event {
        SessionEventView::Message(key, generation, message) => if !s.current(key, generation) {
            s
        } else {
            match message {
                MessageView::Request(request) => s.asked(key, request, "tsgo-lsp/client/"@),
                MessageView::Response(response) => child_response(s, response),
                MessageView::Notification(notification) => s.to_client(
                    MessageView::Notification(notification),
                ),
            }
        },
        SessionEventView::Closed(key, generation) => if !s.current(key, generation) {
            s
        } else {
            dropped(s, key, exited(), false)
        },
        SessionEventView::WriterClosed(key, generation) => s.closed(key, generation),
    }
}

/// The changes of files as the protocol has them.
pub open spec fn change_list(changes: Seq<ChangeView>) -> Seq<JsonView> {
    changes.map_values(
        |change: ChangeView|
            JsonView::Object(
                seq![
                    ("uri"@, JsonView::Text(change.uri)),
                    ("type"@, json_int(change.kind.number() as u32)),
                ],
            ),
    )
}

/// The notification of changes of files.
pub open spec fn change_notification(changes: Seq<ChangeView>) -> NotificationView {
    NotificationView {
        method: "workspace/didChangeWatchedFiles"@,
        params: JsonView::Object(seq![("changes"@, JsonView::Array(change_list(changes)))]),
    }
}

/// The changes of the files of a project.
pub open spec fn changes_of(changes: Seq<ChangeView>, key: SessionKeyView) -> Seq<ChangeView> {
    changes.filter(|change: ChangeView| change.session_key.ident() == key.ident())
}

/// The changes of files, passed on to the children of the projects.
pub open spec fn changes_forwarded(
    s: ProxyView,
    keys: Seq<SessionKeyView>,
    changes: Seq<ChangeView>,
) -> ProxyView
    decreases keys.len(),
{
    if keys.len() == 0 {
        s
    } else {
        let rest = changes_forwarded(s, keys.drop_last(), changes);
        let mine = changes_of(changes, keys.last());
        if mine.len() == 0 {
            rest
        } else {
            rest.dispatched(
                keys.last(),
                MessageView::Notification(change_notification(mine)),
                false,
            ).0
        }
    }
}

/// The children.
pub open spec fn children(s: ProxyView) -> Seq<SessionKeyView> {
    s.sessions.map_values(|e: (SessionKeyView, SessionView)| e.0)
}

/// What stands between the client and the children.
#[derive(Debug)]
pub struct Proxy {
    pub hub: Hub<SessionKey>,
}

impl View for Proxy {
    type V = ProxyView;

    open spec fn view(&self) -> ProxyView {
        self.hub@
    }
}

fn finish(result: Result<(), String>) -> (r: Result<Next, String>)
    ensures
        next_view(r) == (match result_view(result) {
            Ok(_) => Ok::<NextView, Seq<char>>(NextView::Done),
            Err(message) => Err(message),
        }),
{
    match result {
        Ok(()) => Ok(Next::Done),
        Err(message) => Err(message),
    }
}

impl Proxy {
    /// The proxy at the start.
    pub fn new() -> (r: Proxy)
        ensures
            r@ == HubView::<SessionKeyView>::fresh(),
    {
        Proxy { hub: Hub::new() }
    }

    fn drop_session(&mut self, key: &SessionKey, message: &str, terminate: bool)
        ensures
            final(self)@ == dropped(old(self)@, key@, message@, terminate),
    {
        let shown = key.debug_text();
        self.hub.drop_session(key, Some(key), message, terminate, shown.as_str());
        self.hub.act(Action::Unwatch(key.clone()));
    }

    fn drop_unreached(&mut self, key: &SessionKey, sent: Result<(), String>) -> (r: Result<
        (),
        String,
    >)
        ensures
            (final(self)@, result_view(r)) == or_dropped(key@, (old(self)@, result_view(sent))),
    {
        match sent {
            Ok(()) => Ok(()),
            Err(message) => {
                if self.hub.sessions.contains_key(key) {
                    self.drop_session(key, "tsgo child exited unexpectedly", true);
                    Ok(())
                } else {
                    Err(message)
                }
            },
        }
    }

    /// Sends a notification to every child that can take it.
    pub fn broadcast_notification(&mut self, notification: Notification)
        ensures
            final(self)@ == broadcast(old(self)@, old(self)@.sessions, notification@),
    {
        let ghost all = old(self)@.sessions;
        let mut i: usize = 0;
        proof {
            assert(all.take(0).len() == 0);
        }
        while i < self.hub.sessions.len()
            invariant
                i <= all.len(),
                all == old(self)@.sessions,
                self@.sessions == all,
                self@ == broadcast(old(self)@, all.take(i as int), notification@),
            decreases all.len() - i,
        {
            proof {
                assert(all.take(i + 1).drop_last() =~= all.take(i as int));
                assert(all.take(i + 1).last() == all[i as int]);
            }
            let key = self.hub.sessions.key_at(i).clone();
            let session = self.hub.sessions.value_at(i);
            if session.initialized && session.open {
                self.hub.act(Action::Child(key, Message::Notification(notification.clone())));
            }
            i += 1;
        }
        proof {
            assert(all.take(i as int) =~= all);
        }
    }

    fn handle_cancel_notification(&mut self, notification: &Notification)
        ensures
            final(self)@ == cancelled(old(self)@, notification@),
    {
        let request = match notification.params.get("id") {
            None => {
                return;
            },
            Some(value) => match request_id_from_value(value) {
                None => {
                    return;
                },
                Some(request) => request,
            },
        };
        let key = match self.hub.client_request_routes.get(&request) {
            None => {
                return;
            },
            Some(key) => key.clone(),
        };
        let open = match self.hub.sessions.get(&key) {
            None => {
                return;
            },
            Some(session) => session.open,
        };
        let sent = self.hub.send(&key, open, Message::Notification(notification.clone()));
        let _ = self.drop_unreached(&key, sent);
    }

    fn handle_client_response(&mut self, response: Response)
        ensures
            final(self)@ == answered(old(self)@, response@),
    {
        let key = match self.hub.child_request_routes.get(&response.id) {
            None => {
                return;
            },
            Some(route) => route.session.clone(),
        };
        let sent = self.hub.handle_client_response(response);
        let _ = self.drop_unreached(&key, sent);
    }

    fn respond_missing_target(&mut self, request: Request)
        ensures
            final(self)@ == missing_target(old(self)@, request@),
    {
        let message = concat2("no tsgo session is available for ", request.method.as_str());
        self.hub.tell_client(
            Message::Response(
                Response::new_err(request.id, SERVER_ERROR_START, message.clone()),
            ),
        );
        self.hub.log_warning(message);
    }

    fn route_request(&mut self, request: Request, target: Option<SessionKey>) -> (r: Result<
        Next,
        String,
    >)
        ensures
            (final(self)@, next_view(r)) == request_routed(old(self)@, request@, opt(target)),
    {
        match target {
            None => {
                self.respond_missing_target(request);
                Ok(Next::Done)
            },
            Some(key) => {
                self.hub.client_request_routes.insert(request.id.clone(), key.clone());
                let sent = self.hub.dispatch_to_session(&key, Message::Request(request), false);
                finish(self.drop_unreached(&key, sent))
            },
        }
    }

    fn send_notification(&mut self, notification: Notification, target: Option<SessionKey>) -> (r:
        Result<Next, String>)
        ensures
            (final(self)@, next_view(r)) == notification_sent(
                old(self)@,
                notification@,
                opt(target),
            ),
    {
        match target {
            None => Ok(Next::Done),
            Some(key) => {
                let sent = self.hub.dispatch_to_session(
                    &key,
                    Message::Notification(notification),
                    false,
                );
                finish(self.drop_unreached(&key, sent))
            },
        }
    }

    fn route_notification(
        &mut self,
        notification: Notification,
        uri: String,
        target: Option<SessionKey>,
    ) -> (r: Result<Next, String>)
        ensures
            (final(self)@, next_view(r)) == notification_routed(
                old(self)@,
                notification@,
                uri@,
                opt(target),
            ),
    {
        if same_text(notification.method.as_str(), "textDocument/didClose") {
            let _ = self.hub.documents.remove(&uri);
        } else if same_text(notification.method.as_str(), "textDocument/didOpen") {
            if let Some(key) = &target {
                self.hub.documents.insert(uri, key.clone());
            }
        }
        self.send_notification(notification, target)
    }

    fn default_session(&self) -> (r: Option<SessionKey>)
        ensures
            opt(r) == self@.default_project,
    {
        match &self.hub.default_project {
            Some(key) => Some(key.clone()),
            None => None,
        }
    }

    fn document_session(&self, uri: &String) -> (r: Option<SessionKey>)
        ensures
            opt(r) == lookup(self@.documents, uri@),
    {
        match self.hub.documents.get(uri) {
            Some(key) => Some(key.clone()),
            None => None,
        }
    }

    /// Takes a request of the client, where the document that it is about is known.
    pub fn handle_request_at(&mut self, request: Request, place: Option<Place>) -> (r: Result<
        Next,
        String,
    >)
        ensures
            (final(self)@, next_view(r)) == request_at(old(self)@, request@, opt(place)),
    {
        let default = self.default_session();
        let place = match place {
            None => {
                return self.route_request(request, default);
            },
            Some(place) => place,
        };
        match self.document_session(&place.uri) {
            Some(key) => self.route_request(request, Some(key)),
            None => match place.path {
                None => self.route_request(request, default),
                Some(path) => Ok(Next::Discover(path, Purpose::Request(request))),
            },
        }
    }

    /// Takes a notification of the client, where the document that it is about is known.
    pub fn handle_notification_at(&mut self, notification: Notification, place: Option<Place>) -> (r:
        Result<Next, String>)
        ensures
            (final(self)@, next_view(r)) == notification_at(
                old(self)@,
                notification@,
                opt(place),
            ),
    {
        if starts_with(notification.method.as_str(), "workspace/") {
            self.broadcast_notification(notification);
            return Ok(Next::Done);
        }
        if same_text(notification.method.as_str(), "$/cancelRequest") {
            return Ok(Next::Done);
        }
        let default = self.default_session();
        let place = match place {
            None => {
                return self.send_notification(notification, default);
            },
            Some(place) => place,
        };
        match self.document_session(&place.uri) {
            Some(key) => self.route_notification(notification, place.uri, Some(key)),
            None => match place.path {
                None => self.route_notification(notification, place.uri, default),
                Some(path) => Ok(
                    Next::Discover(path, Purpose::Notification(notification, place.uri)),
                ),
            },
        }
    }

    /// Takes the client's `initialize`, where the root that it gives is known.
    pub fn handle_initialize_at(&mut self, request: Request, root: Option<FsPath>) -> (r: Result<
        Next,
        String,
    >)
        ensures
            (final(self)@, next_view(r)) == initialize_at(old(self)@, request@, opt(root)),
    {
        self.hub.client_initialize = Some(
            ClientInitialize { params: request.params.clone(), initialized: None },
        );
        match root {
            Some(path) => Ok(Next::Discover(path, Purpose::Initialize(request))),
            None => Ok(Next::DiscoverCurrentDir(Purpose::Initialize(request))),
        }
    }

    /// Takes a message of the client, where the document that it is about and the root that it gives
    /// are known.
    pub fn handle_message_at(
        &mut self,
        message: Message,
        place: Option<Place>,
        root: Option<FsPath>,
    ) -> (r: Result<Next, String>)
        ensures
            (final(self)@, next_view(r)) == message_at(
                old(self)@,
                message@,
                opt(place),
                opt(root),
            ),
    {
        match message {
            Message::Request(request) => {
                if same_text(request.method.as_str(), "initialize") {
                    return self.handle_initialize_at(request, root);
                }
                if same_text(request.method.as_str(), "shutdown") {
                    self.hub.shutdown_requested = true;
                    let target = self.default_session();
                    return self.route_request(request, target);
                }
                self.handle_request_at(request, place)
            },
            Message::Notification(notification) => {
                if same_text(notification.method.as_str(), "initialized") {
                    self.hub.store_initialized(notification.clone());
                    let target = self.default_session();
                    return self.send_notification(notification, target);
                }
                if same_text(notification.method.as_str(), "exit") {
                    self.broadcast_notification(notification);
                    return Ok(Next::Exit);
                }
                if same_text(notification.method.as_str(), "$/cancelRequest") {
                    self.handle_cancel_notification(&notification);
                }
                self.handle_notification_at(notification, place)
            },
            Message::Response(response) => {
                self.handle_client_response(response);
                Ok(Next::Done)
            },
        }
    }

    /// Takes a message of the client.
    pub fn handle_client_message(&mut self, message: Message) -> (r: Result<Next, String>)
        ensures
            (final(self)@, next_view(r)) == client_message(old(self)@, message@),
    {
        let (place, root) = match &message {
            Message::Request(request) => (
                find_place(&request.params),
                find_initialize_root(&request.params),
            ),
            Message::Notification(notification) => (
                find_place(&notification.params),
                find_initialize_root(&notification.params),
            ),
            Message::Response(_) => (find_place(&Json::Null), find_initialize_root(&Json::Null)),
        };
        self.handle_message_at(message, place, root)
    }

    fn fail(&mut self, purpose: Purpose, message: String) -> (r: Result<Next, String>)
        ensures
            (final(self)@, next_view(r)) == failed(old(self)@, purpose@, message@),
    {
        match purpose {
            Purpose::Initialize(request) => {
                self.hub.tell_client(
                    Message::Response(
                        Response::new_err(request.id, REQUEST_FAILED, message.clone()),
                    ),
                );
                self.hub.log_warning(message);
                Ok(Next::Done)
            },
            Purpose::Request(_) => Err(message),
            Purpose::Notification(notification, uri) => {
                if same_text(notification.method.as_str(), "textDocument/didClose") {
                    self.route_notification(notification, uri, None)
                } else {
                    Err(message)
                }
            },
        }
    }

    fn arrive(&mut self, key: SessionKey, purpose: Purpose) -> (r: Result<Next, String>)
        ensures
            (final(self)@, next_view(r)) == arrived(old(self)@, key@, purpose@),
    {
        match purpose {
            Purpose::Initialize(request) => {
                let kept = request.clone();
                let id = key.clone();
                match self.hub.send_initialize(
                    request,
                    &id,
                    key,
                    "default session disappeared during initialize",
                ) {
                    Ok(()) => Ok(Next::Done),
                    Err(message) => self.fail(Purpose::Initialize(kept), message),
                }
            },
            Purpose::Request(request) => self.route_request(request, Some(key)),
            Purpose::Notification(notification, uri) => self.route_notification(
                notification,
                uri,
                Some(key),
            ),
        }
    }

    /// Goes on with a step: what serves the path has been found out.
    pub fn context_found(&mut self, outcome: Outcome<ProjectContext>, purpose: Purpose) -> (r: Result<
        Next,
        String,
    >)
        requires
            old(self)@.has_room(),
        ensures
            (final(self)@, next_view(r)) == discovered(old(self)@, outcome@, purpose@),
    {
        match outcome {
            Outcome::Failed(message) => self.fail(purpose, message),
            Outcome::Absent => self.fail(purpose, "no tsgo session is available".to_owned()),
            Outcome::Found(context) => {
                if self.hub.sessions.contains_key(&context.key) {
                    return self.arrive(context.key, purpose);
                }
                self.hub.session_generation = self.hub.session_generation + 1;
                let generation: u64 = self.hub.session_generation;
                Ok(Next::Spawn(SpawnOrder { context, generation }, purpose))
            },
        }
    }

    /// Goes on with a step: the child has been started, or not.
    pub fn session_spawned(
        &mut self,
        order: SpawnOrder,
        purpose: Purpose,
        result: Result<(), String>,
    ) -> (r: Result<Next, String>)
        requires
            old(self)@.has_room(),
        ensures
            (final(self)@, next_view(r)) == spawned(
                old(self)@,
                order@,
                purpose@,
                result_view(result),
            ),
    {
        match result {
            Ok(()) => {},
            Err(message) => {
                return self.fail(purpose, message);
            },
        }
        let SpawnOrder { context, generation } = order;
        let later = match &purpose {
            Purpose::Initialize(_) => false,
            _ => true,
        };
        let root = crate::project::copy_path(&context.root);
        match self.hub.install(&context.key, root, generation, later, "tsgo-lsp/init/") {
            Ok(()) => {},
            Err(message) => {
                return self.fail(purpose, message);
            },
        }
        if let Some(root) = context.root {
            self.hub.act(Action::Watch(context.key.clone(), root));
        }
        self.arrive(context.key, purpose)
    }

    fn handle_child_response(&mut self, response: Response)
        ensures
            final(self)@ == child_response(old(self)@, response@),
    {
        let response = normalize_child_response(response);
        let route = match self.hub.initialize_routes.remove(&response.id) {
            None => {
                let _ = self.hub.client_request_routes.remove(&response.id);
                self.hub.tell_client(Message::Response(response));
                return;
            },
            Some(route) => route,
        };
        let key = route.session;
        let failure = match &response.error {
            Some(error) => Some(error.message.clone()),
            None => None,
        };
        match self.hub.sessions.get_mut(&key) {
            None => {
                return;
            },
            Some(session) => {
                session.initialized = failure.is_none();
            },
        }
        if route.forward_to_client {
            self.hub.tell_client(Message::Response(response));
        }
        proof {
            let before = old(self)@.sessions;
            let marked = SessionView {
                initialized: failure is None,
                ..lookup(before, key@)->0
            };
            put_then_lookup(before, key@, marked, key@);
            assert(self@.sessions == put(before, key@, marked));
        }
        match failure {
            None => {
                let sent = self.hub.release(&key);
                let _ = self.drop_unreached(&key, sent);
            },
            Some(message) => {
                let text = concat2("tsgo initialize failed: ", message.as_str());
                self.drop_session(&key, text.as_str(), true);
            },
        }
    }

    /// Takes something that happens to a child.
    pub fn handle_session_event(&mut self, event: SessionEvent)
        requires
            old(self)@.has_room(),
        ensures
            final(self)@ == session_event(old(self)@, event@),
    {
        match event {
            SessionEvent::Message(key, generation, message) => {
                if !self.hub.session_generation_matches(&key, generation) {
                    return;
                }
                match message {
                    Message::Request(request) => {
                        self.hub.handle_child_request(&key, request, "tsgo-lsp/client/");
                    },
                    Message::Response(response) => self.handle_child_response(response),
                    Message::Notification(notification) => {
                        self.hub.tell_client(Message::Notification(notification));
                    },
                }
            },
            SessionEvent::Closed(key, generation) => {
                if self.hub.session_generation_matches(&key, generation) {
                    self.drop_session(&key, "tsgo child exited unexpectedly", false);
                }
            },
            SessionEvent::WriterClosed(key, generation) => {
                self.hub.writer_closed(&key, generation);
            },
        }
    }

    /// Takes changes of files, which the children of the projects are told.
    pub fn handle_file_changes(&mut self, changes: &Vec<WatchedFileChange>)
        ensures
            final(self)@ == changes_forwarded(
                old(self)@,
                children(old(self)@),
                each(changes@),
            ),
    {
        let ghost all = children(old(self)@);
        let mut keys: Vec<SessionKey> = Vec::new();
        let mut i: usize = 0;
        while i < self.hub.sessions.len()
            invariant
                i <= self@.sessions.len(),
                self@ == old(self)@,
                all == children(old(self)@),
                each(keys@) == all.take(i as int),
            decreases self@.sessions.len() - i,
        {
            let ghost before = each(keys@);
            keys.push(self.hub.sessions.key_at(i).clone());
            proof {
                assert(each(keys@) =~= before.push(all[i as int]));
                assert(all.take(i + 1) =~= before.push(all[i as int]));
            }
            i += 1;
        }
        proof {
            assert(all.take(i as int) =~= all);
            assert(all.take(0).len() == 0);
        }
        let mut at: usize = 0;
        while at < keys.len()
            invariant
                at <= keys@.len(),
                each(keys@) == all,
                self@ == changes_forwarded(old(self)@, all.take(at as int), each(changes@)),
            decreases keys@.len() - at,
        {
            proof {
                assert(all.take(at + 1).drop_last() =~= all.take(at as int));
                assert(all.take(at + 1).last() == keys@[at as int]@);
            }
            let (list, some) = change_items(changes, &keys[at]);
            if some {
                let notification = Notification {
                    method: "workspace/didChangeWatchedFiles".to_owned(),
                    params: Json::object1("changes", list),
                };
                let _ = self.hub.dispatch_to_session(
                    &keys[at],
                    Message::Notification(notification),
                    false,
                );
            }
            at += 1;
        }
        proof {
            assert(all.take(at as int) =~= all);
        }
    }
}

/// The changes of the files of a project as the protocol has them, and whether there are any.
fn change_items(changes: &Vec<WatchedFileChange>, key: &SessionKey) -> (r: (Json, bool))
    ensures
        r.0@ == JsonView::Array(change_list(changes_of(each(changes@), key@))),
        r.1 == (changes_of(each(changes@), key@).len() > 0),
{
    let ghost all = each(changes@);
    let ghost mine = |change: ChangeView| change.session_key.ident() == key@.ident();
    let mut items: Vec<Json> = Vec::new();
    let mut i: usize = 0;
    proof {
        reveal(Seq::filter);
        assert(crate::json::json_trees(items@) =~= change_list(all.take(0).filter(mine)));
    }
    while i < changes.len()
        invariant
            i <= changes@.len(),
            all == each(changes@),
            mine == (|change: ChangeView| change.session_key.ident() == key@.ident()),
            crate::json::json_trees(items@) == change_list(all.take(i as int).filter(mine)),
        decreases changes@.len() - i,
    {
        let change = &changes[i];
        let ghost before = all.take(i as int).filter(mine);
        let ghost held = crate::json::json_trees(items@);
        proof {
            assert(all.take(i + 1).drop_last() =~= all.take(i as int));
            assert(all.take(i + 1).last() == change@);
            reveal(Seq::filter);
        }
        if change.session_key.same(key) {
            let number: u32 = change.kind.lsp_file_change_type() as u32;
            let item = Json::object2(
                "uri",
                Json::text(change.uri.as_str()),
                "type",
                Json::whole(number),
            );
            let ghost tree = item@;
            items.push(item);
            proof {
                assert(crate::json::json_trees(items@) =~= held.push(tree));
                assert(change_list(before.push(change@)) =~= change_list(before).push(tree));
            }
        }
        i += 1;
    }
    let some = items.len() > 0;
    proof {
        assert(all.take(i as int) =~= all);
        assert(crate::json::json_trees(items@).len() == items@.len());
        assert(changes_of(all, key@) == all.filter(mine));
    }
    (Json::array(items), some)
}

} // verus!
