//! What holds of the proxy whatever happens.

use vstd::prelude::*;
use crate::disk::OutcomeView;
use crate::hub::{ActionView, ChildRouteView, HubView, InitializeRouteView, SessionView};
use crate::hub_laws::{
    awaits_children, dropping_answers_every_request, dropping_leaves_nothing_behind, tidy,
    told_failure,
};
use crate::lsp::{
    err_response, MessageView, NotificationView, RequestIdView, RequestView, ResponseView,
    INVALID_REQUEST, REQUEST_CANCELED,
};
use crate::oxc::discovery::{ContextView, SessionKeyView};
use crate::oxc::proxy::{
    arrived, broadcast, cancelled, cancelled_request, child_response, children,
    client_initialize_response, discovered, dropped, formatter, formatter_wanted,
    initialize_failure, lint, message_at, notification_at, notification_routed, notified,
    notified_if_there, project_notified, queued_at, request_routed, request_target, session_event,
    spawned, NextView, ProxyView, PurposeView, SpawnOrderView,
};
use crate::oxc::session::{session_debug, ChildKind, SessionEventView, SessionIdView};
use crate::params::PlaceView;
use crate::path::PathView;
use crate::table::{
    holds, is_found, lookup, put, put_lookups, same_keys_find_the_same, without, without_lookups,
};

verus! {

/// Whether what is waited for and what is open is served by a child that is there: each request of
/// the client that is not answered waits for one, and each open document and the default project have
/// the child that lints.
pub open spec fn settled(s: ProxyView) -> bool {
    &&& tidy(s)
    &&& awaits_children(s)
    &&& forall|uri: Seq<char>|
        (#[trigger] lookup(s.documents, uri)) matches Some(project) ==> holds(
            s.sessions,
            lint(project),
        )
    &&& s.default_project matches Some(project) ==> holds(s.sessions, lint(project))
}

/// At the start everything is served.
pub proof fn starts_settled()
    ensures
        settled(HubView::<SessionIdView>::fresh()),
{
}

proof fn with_session_keeps(s: ProxyView, id: SessionIdView, session: SessionView)
    requires
        settled(s),
    ensures
        settled(s.with_session(id, session)),
        forall|other: SessionIdView|
            #[trigger] holds(s.sessions, other) ==> holds(
                s.with_session(id, session).sessions,
                other,
            ),
        holds(s.with_session(id, session).sessions, id),
{
    put_lookups(s.sessions, id, session);
}

proof fn dispatched_keeps(s: ProxyView, id: SessionIdView, message: MessageView)
    requires
        settled(s),
    ensures
        settled(s.dispatched(id, message, true).0),
        forall|other: SessionIdView|
            #[trigger] holds(s.sessions, other) ==> holds(
                s.dispatched(id, message, true).0.sessions,
                other,
            ),
{
    if let Some(session) = lookup(s.sessions, id) {
        with_session_keeps(
            s,
            id,
            SessionView {
                queued_messages: session.queued_messages.push(message),
                ..session
            },
        );
    }
}

/// Dropping a child leaves everything served that is left.
pub proof fn dropping_keeps_settled(s: ProxyView, id: SessionIdView, message: Seq<char>)
    requires
        settled(s),
    ensures
        settled(dropped(s, id, message)),
{
    let owner = match id.kind {
        ChildKind::Lint => Some(id.project),
        ChildKind::Format => None,
    };
    dropping_leaves_nothing_behind(s, id, owner, message, true, session_debug(id));
    let t = dropped(s, id, message);
    assert forall|uri: Seq<char>|
        (#[trigger] lookup(t.documents, uri)) matches Some(project) implies holds(
        t.sessions,
        lint(lookup(t.documents, uri)->0),
    ) by {
        let project = lookup(t.documents, uri)->0;
        assert(lookup(s.documents, uri) == Some(project));
        assert(lint(project) != id);
        assert(lookup(t.sessions, lint(project)) == lookup(s.sessions, lint(project)));
    }
    if let Some(project) = t.default_project {
        assert(s.default_project == Some(project));
        assert(lint(project) != id);
        assert(lookup(t.sessions, lint(project)) == lookup(s.sessions, lint(project)));
    }
    assert forall|r: RequestIdView|
        (#[trigger] lookup(t.client_request_routes, r)) matches Some(other) implies holds(
        t.sessions,
        lookup(t.client_request_routes, r)->0,
    ) by {
        let other = lookup(t.client_request_routes, r)->0;
        assert(lookup(s.client_request_routes, r) == Some(other));
        assert(lookup(t.sessions, other) == lookup(s.sessions, other));
    }
}

proof fn notified_keeps(
    s: ProxyView,
    id: SessionIdView,
    notification: NotificationView,
    failure: Seq<char>,
)
    requires
        settled(s),
    ensures
        settled(notified(s, id, notification, failure)),
{
    let message = MessageView::Notification(notification);
    dispatched_keeps(s, id, message);
    if let (t, Err(reason)) = s.dispatched(id, message, true) {
        dropping_keeps_settled(t, id, failure + reason);
    }
}

proof fn project_notified_keeps(
    s: ProxyView,
    project: SessionKeyView,
    notification: NotificationView,
)
    requires
        settled(s),
    ensures
        settled(project_notified(s, project, notification)),
{
    let failure = "failed to forward notification to child: "@;
    if holds(s.sessions, lint(project)) {
        notified_keeps(s, lint(project), notification, failure);
    }
    let t = notified_if_there(s, lint(project), notification);
    if holds(t.sessions, formatter(project)) {
        notified_keeps(t, formatter(project), notification, failure);
    }
}

proof fn broadcast_keeps(s: ProxyView, ids: Seq<SessionIdView>, notification: NotificationView)
    requires
        settled(s),
    ensures
        settled(broadcast(s, ids, notification)),
    decreases ids.len(),
{
    if ids.len() > 0 {
        let failure = "failed to broadcast notification to child: "@;
        notified_keeps(s, ids[0], notification, failure);
        broadcast_keeps(
            notified(s, ids[0], notification, failure),
            ids.drop_first(),
            notification,
        );
    }
}

proof fn request_routed_keeps(s: ProxyView, request: RequestView, project: Option<SessionKeyView>)
    requires
        settled(s),
    ensures
        settled(request_routed(s, request, project)),
{
    if let Some(project) = project {
        let id = request_target(request, project);
        if holds(s.sessions, id) {
            put_lookups(s.client_request_routes, request.id, id);
            let routed = HubView {
                client_request_routes: put(s.client_request_routes, request.id, id),
                ..s
            };
            let message = MessageView::Request(request);
            dispatched_keeps(routed, id, message);
            if let (t, Err(reason)) = routed.dispatched(id, message, true) {
                dropping_keeps_settled(t, id, "failed to forward request to child: "@ + reason);
            }
        }
    }
}

proof fn notification_routed_keeps(
    s: ProxyView,
    notification: NotificationView,
    uri: Seq<char>,
    project: Option<SessionKeyView>,
)
    requires
        settled(s),
        project matches Some(project) ==> holds(s.sessions, lint(project)),
    ensures
        settled(notification_routed(s, notification, uri, project)),
{
    if let Some(project) = project {
        put_lookups(s.documents, uri, project);
        project_notified_keeps(s, project, notification);
        project_notified_keeps(
            HubView { documents: put(s.documents, uri, project), ..s },
            project,
            notification,
        );
    }
}

proof fn arrived_keeps(s: ProxyView, project: SessionKeyView, purpose: PurposeView)
    requires
        settled(s),
        holds(s.sessions, lint(project)),
    ensures
        settled(arrived(s, project, purpose)),
{
    match purpose {
        PurposeView::Initialize(request) => {
            put_lookups(
                s.initialize_routes,
                request.id,
                InitializeRouteView { session: lint(project), forward_to_client: true },
            );
        },
        PurposeView::Request(request) => {
            request_routed_keeps(s, request, Some(project));
        },
        PurposeView::Notification(notification, uri) => {
            notification_routed_keeps(s, notification, uri, Some(project));
        },
    }
}

proof fn formatter_wanted_keeps(s: ProxyView, context: ContextView, purpose: PurposeView)
    requires
        settled(s),
        holds(s.sessions, lint(context.key)),
    ensures
        settled(formatter_wanted(s, context, purpose).0),
{
    arrived_keeps(s, context.key, purpose);
}

proof fn installed_keeps(
    s: ProxyView,
    id: SessionIdView,
    root: Option<PathView>,
    generation: u64,
    send_initialize: bool,
)
    requires
        settled(s),
    ensures
        ({
            let (t, result) = s.installed(id, root, generation, send_initialize, "oxc-lsp/init/"@);
            &&& settled(t)
            &&& forall|other: SessionIdView|
                #[trigger] holds(s.sessions, other) ==> holds(t.sessions, other)
            &&& result is Ok ==> holds(t.sessions, id)
        }),
{
    let init_id = s.next_id("oxc-lsp/init/"@);
    put_lookups(
        s.initialize_routes,
        init_id,
        InitializeRouteView { session: id, forward_to_client: false },
    );
    put_lookups(
        s.sessions,
        id,
        SessionView {
            root,
            generation,
            initialized: false,
            queued_messages: Seq::empty(),
            open: true,
        },
    );
}

/// Going on with what serves a path keeps everything served.
pub proof fn discovery_keeps_settled(
    s: ProxyView,
    outcome: OutcomeView<ContextView>,
    purpose: PurposeView,
)
    requires
        settled(s),
    ensures
        settled(discovered(s, outcome, purpose).0),
{
    if let OutcomeView::Found(context) = outcome {
        if holds(s.sessions, lint(context.key)) {
            formatter_wanted_keeps(s, context, purpose);
        }
    }
}

/// Going on with a child that was to be started keeps everything served. A child that formats is
/// started when the one that lints is there.
pub proof fn spawning_keeps_settled(
    s: ProxyView,
    order: SpawnOrderView,
    purpose: PurposeView,
    result: Result<(), Seq<char>>,
)
    requires
        settled(s),
        order.id.project == order.context.key,
        order.id.kind == ChildKind::Format ==> holds(s.sessions, lint(order.context.key)),
    ensures
        settled(spawned(s, order, purpose, result).0),
{
    let root = order.context.root;
    let key = order.context.key;
    match order.id.kind {
        ChildKind::Lint => {
            let later = !(purpose is Initialize);
            installed_keeps(s, order.id, root, order.generation, later);
            assert(order.id == lint(key));
            if let (t, Ok(_)) = s.installed(
                order.id,
                root,
                order.generation,
                later,
                "oxc-lsp/init/"@,
            ) {
                formatter_wanted_keeps(t, order.context, purpose);
            }
        },
        ChildKind::Format => {
            installed_keeps(s, order.id, root, order.generation, true);
            let (t, started) = match result {
                Err(message) => (s, Err(message)),
                Ok(_) => s.installed(order.id, root, order.generation, true, "oxc-lsp/init/"@),
            };
            let told = match started {
                Ok(_) => t,
                Err(message) => t.warned("failed to start oxfmt session: "@ + message),
            };
            arrived_keeps(told, key, purpose);
        },
    }
}

/// A child that formats is only ordered when the one that lints is there, for the same project.
pub proof fn formatter_is_ordered_second(
    s: ProxyView,
    outcome: OutcomeView<ContextView>,
    order: SpawnOrderView,
    purpose: PurposeView,
    result: Result<(), Seq<char>>,
)
    requires
        order.id.project == order.context.key,
    ensures
        discovered(s, outcome, purpose).1 matches NextView::Spawn(next, _) ==> next.id.project
            == next.context.key && (next.id.kind == ChildKind::Format ==> holds(
            discovered(s, outcome, purpose).0.sessions,
            lint(next.context.key),
        )),
        spawned(s, order, purpose, result).1 matches NextView::Spawn(next, _) ==> next.id.project
            == next.context.key && next.id.kind == ChildKind::Format && holds(
            spawned(s, order, purpose, result).0.sessions,
            lint(next.context.key),
        ),
{
    let later = !(purpose is Initialize);
    put_lookups(
        s.sessions,
        order.id,
        SessionView {
            root: order.context.root,
            generation: order.generation,
            initialized: false,
            queued_messages: Seq::empty(),
            open: true,
        },
    );
}

proof fn cancelled_keeps(s: ProxyView, notification: NotificationView)
    requires
        settled(s),
    ensures
        settled(cancelled(s, notification).0),
{
    if let Some(request) = cancelled_request(notification) {
        without_lookups(s.client_request_routes, request);
        if let Some(id) = lookup(s.client_request_routes, request) {
            if let Some(session) = lookup(s.sessions, id) {
                if let Some(i) = queued_at(session.queued_messages, request) {
                    with_session_keeps(
                        s,
                        id,
                        SessionView {
                            queued_messages: session.queued_messages.remove(i),
                            ..session
                        },
                    );
                }
            }
        }
    }
}

proof fn notification_at_keeps(
    s: ProxyView,
    notification: NotificationView,
    place: Option<PlaceView>,
)
    requires
        settled(s),
    ensures
        settled(notification_at(s, notification, place).0),
{
    broadcast_keeps(s, children(s), notification);
    if let Some(project) = s.default_project {
        project_notified_keeps(s, project, notification);
    }
    if let Some(place) = place {
        without_lookups(s.documents, place.uri);
        let rest = HubView { documents: without(s.documents, place.uri), ..s };
        if let Some(project) = lookup(s.documents, place.uri) {
            project_notified_keeps(rest, project, notification);
            notification_routed_keeps(s, notification, place.uri, Some(project));
        }
    }
}

/// Whatever the client says, everything stays served.
pub proof fn messages_keep_settled(
    s: ProxyView,
    message: MessageView,
    place: Option<PlaceView>,
    root: Option<PathView>,
)
    requires
        settled(s),
    ensures
        settled(message_at(s, message, place, root).0),
{
    match message {
        MessageView::Request(request) => {
            request_routed_keeps(s, request, s.default_project);
            if let Some(place) = place {
                request_routed_keeps(s, request, lookup(s.documents, place.uri));
            }
        },
        MessageView::Notification(notification) => {
            let kept = s.with_initialized(notification);
            if let Some(project) = kept.default_project {
                project_notified_keeps(kept, project, notification);
            }
            broadcast_keeps(s, children(s), notification);
            cancelled_keeps(s, notification);
            notification_at_keeps(s, notification, place);
            notification_at_keeps(cancelled(s, notification).0, notification, place);
        },
        MessageView::Response(response) => {
            without_lookups(s.child_request_routes, response.id);
        },
    }
}

proof fn child_response_keeps(s: ProxyView, answer: ResponseView)
    requires
        settled(s),
    ensures
        settled(child_response(s, answer).0),
{
    let response = crate::lsp::normal_response(answer);
    without_lookups(s.client_request_routes, response.id);
    without_lookups(s.initialize_routes, response.id);
    if let Some(route) = lookup(s.initialize_routes, response.id) {
        let id = route.session;
        let rest = HubView { initialize_routes: without(s.initialize_routes, response.id), ..s };
        if let Some(session) = lookup(s.sessions, id) {
            let session = SessionView { initialized: response.error is None, ..session };
            with_session_keeps(rest, id, session);
            let marked = rest.with_session(id, session);
            let forwarded = match id.kind {
                ChildKind::Lint => crate::oxc::proxy::client_initialize_response(
                    response,
                    holds(s.sessions, formatter(id.project)),
                ),
                ChildKind::Format => response,
            };
            let told = if route.forward_to_client {
                marked.to_client(MessageView::Response(forwarded))
            } else {
                marked
            };
            with_session_keeps(
                told,
                id,
                SessionView { queued_messages: Seq::empty(), ..session },
            );
            if let Some(error) = response.error {
                dropping_keeps_settled(
                    told,
                    id,
                    crate::oxc::proxy::initialize_failure(id, error.message),
                );
            }
        }
    }
}

/// Whatever happens to a child, everything stays served.
pub proof fn events_keep_settled(s: ProxyView, event: SessionEventView)
    requires
        settled(s),
    ensures
        settled(session_event(s, event).0),
{
    match event {
        SessionEventView::Message(id, _, MessageView::Request(request)) => {
            put_lookups(
                s.child_request_routes,
                s.next_id("oxc-lsp/client/"@),
                ChildRouteView { session: id, request: request.id },
            );
        },
        SessionEventView::Message(_, _, MessageView::Response(response)) => {
            child_response_keeps(s, response);
        },
        SessionEventView::Message(_, _, MessageView::Notification(_)) => {},
        SessionEventView::Closed(id, _) => {
            dropping_keeps_settled(
                s,
                id,
                match id.kind {
                    ChildKind::Lint => "oxlint child exited unexpectedly"@,
                    ChildKind::Format => "oxfmt child exited unexpectedly"@,
                },
            );
        },
        SessionEventView::WriterClosed(id, generation) => {
            if let Some(session) = lookup(s.sessions, id) {
                with_session_keeps(s, id, SessionView { open: false, ..session });
            }
        },
    }
}

/// What a child says or how it ends is of no account once another child has taken its place.
pub proof fn replaced_children_are_ignored(s: ProxyView, id: SessionIdView, generation: u64)
    requires
        !s.current(id, generation),
    ensures
        forall|message: MessageView|
            #[trigger] session_event(s, SessionEventView::Message(id, generation, message)) == (
                s,
                Ok::<(), Seq<char>>(()),
            ),
        session_event(s, SessionEventView::Closed(id, generation)) == (s, Ok::<(), Seq<char>>(())),
        session_event(s, SessionEventView::WriterClosed(id, generation)) == (
            s,
            Ok::<(), Seq<char>>(()),
        ),
{
}

/// When a child ends, no request is left hanging: each that waits for it is answered.
pub proof fn no_request_is_left_hanging(s: ProxyView, id: SessionIdView, generation: u64)
    requires
        settled(s),
        s.current(id, generation),
    ensures
        ({
            let (t, _) = session_event(s, SessionEventView::Closed(id, generation));
            let message = match id.kind {
                ChildKind::Lint => "oxlint child exited unexpectedly"@,
                ChildKind::Format => "oxfmt child exited unexpectedly"@,
            };
            &&& forall|r: RequestIdView|
                is_found(lookup(s.client_request_routes, r), id) ==> #[trigger] told_failure(
                    t,
                    r,
                    message,
                )
            &&& forall|r: RequestIdView| !is_found(#[trigger] lookup(t.client_request_routes, r), id)
        }),
{
    let owner = match id.kind {
        ChildKind::Lint => Some(id.project),
        ChildKind::Format => None,
    };
    let message = match id.kind {
        ChildKind::Lint => "oxlint child exited unexpectedly"@,
        ChildKind::Format => "oxfmt child exited unexpectedly"@,
    };
    dropping_leaves_nothing_behind(s, id, owner, message, true, session_debug(id));
    assert forall|r: RequestIdView|
        is_found(lookup(s.client_request_routes, r), id) implies #[trigger] told_failure(
        dropped(s, id, message),
        r,
        message,
    ) by {
        dropping_answers_every_request(s, id, owner, message, true, session_debug(id), r);
    }
}

/// When a child fails to initialize, no request is left hanging: each that waits for it is answered.
pub proof fn no_request_hangs_on_a_child_that_fails(s: ProxyView, answer: ResponseView)
    requires
        settled(s),
        answer.error is Some,
        lookup(s.initialize_routes, answer.id) matches Some(route) && holds(
            s.sessions,
            route.session,
        ),
    ensures
        ({
            let id = lookup(s.initialize_routes, answer.id)->0.session;
            let (t, _) = child_response(s, answer);
            &&& forall|r: RequestIdView|
                is_found(lookup(s.client_request_routes, r), id) ==> #[trigger] told_failure(
                    t,
                    r,
                    initialize_failure(id, answer.error->0.message),
                )
            &&& forall|r: RequestIdView| !is_found(#[trigger] lookup(t.client_request_routes, r), id)
            &&& !holds(t.sessions, id)
        }),
{
    let route = lookup(s.initialize_routes, answer.id)->0;
    let id = route.session;
    let owner = match id.kind {
        ChildKind::Lint => Some(id.project),
        ChildKind::Format => None,
    };
    let session = SessionView { initialized: false, ..lookup(s.sessions, id)->0 };
    let rest = HubView { initialize_routes: without(s.initialize_routes, answer.id), ..s };
    without_lookups(s.initialize_routes, answer.id);
    put_lookups(rest.sessions, id, session);
    let marked = rest.with_session(id, session);
    let forwarded = match id.kind {
        ChildKind::Lint => client_initialize_response(
            answer,
            holds(s.sessions, formatter(id.project)),
        ),
        ChildKind::Format => answer,
    };
    let told = if route.forward_to_client {
        marked.to_client(MessageView::Response(forwarded))
    } else {
        marked
    };
    let message = initialize_failure(id, answer.error->0.message);
    dropping_leaves_nothing_behind(told, id, owner, message, true, session_debug(id));
    assert forall|r: RequestIdView|
        is_found(lookup(s.client_request_routes, r), id) implies #[trigger] told_failure(
        dropped(told, id, message),
        r,
        message,
    ) by {
        dropping_answers_every_request(told, id, owner, message, true, session_debug(id), r);
    }
}

/// Once the client has asked the server to shut down, other requests are refused, and no child is
/// told of them.
pub proof fn requests_are_refused_after_shutdown(
    s: ProxyView,
    request: RequestView,
    place: Option<PlaceView>,
    root: Option<PathView>,
)
    requires
        s.shutdown_requested,
        request.method != "initialize"@,
        request.method != "shutdown"@,
    ensures
        message_at(s, MessageView::Request(request), place, root) == (
            s.to_client(
                MessageView::Response(
                    err_response(request.id, INVALID_REQUEST, "server is shutting down"@),
                ),
            ),
            Ok::<NextView, Seq<char>>(NextView::Done),
        ),
{
}

/// No child is started to tell it that a document has been closed.
pub proof fn closing_starts_nothing(
    s: ProxyView,
    notification: NotificationView,
    place: Option<PlaceView>,
)
    requires
        notification.method == "textDocument/didClose"@,
    ensures
        notification_at(s, notification, place).1 == NextView::Done,
{
}

/// A request that is cancelled before its child has got it never gets there, and is answered.
pub proof fn early_cancellation_is_answered(
    s: ProxyView,
    notification: NotificationView,
    request: RequestIdView,
    id: SessionIdView,
)
    requires
        settled(s),
        cancelled_request(notification) == Some(request),
        is_found(lookup(s.client_request_routes, request), id),
        queued_at(lookup(s.sessions, id)->0.queued_messages, request) is Some,
    ensures
        ({
            let queue = lookup(s.sessions, id)->0.queued_messages;
            let (t, result) = cancelled(s, notification);
            &&& result == Ok::<(), Seq<char>>(())
            &&& t.outbox == s.outbox.push(
                ActionView::Client(
                    MessageView::Response(
                        err_response(request, REQUEST_CANCELED, "request cancelled"@),
                    ),
                ),
            )
            &&& !holds(t.client_request_routes, request)
            &&& lookup(t.sessions, id)->0.queued_messages == queue.remove(
                queued_at(queue, request)->0,
            )
        }),
{
    without_lookups(s.client_request_routes, request);
    let held = lookup(s.client_request_routes, request)->0;
    same_keys_find_the_same(s.sessions, id, held);
    let session = lookup(s.sessions, id)->0;
    let i = queued_at(session.queued_messages, request)->0;
    put_lookups(
        s.sessions,
        held,
        SessionView { queued_messages: session.queued_messages.remove(i), ..session },
    );
}

/// Requests to format go to the child that formats, and all others to the child that lints.
pub proof fn formatting_goes_to_the_formatter(request: RequestView, project: SessionKeyView)
    ensures
        request.method == "textDocument/formatting"@ ==> request_target(request, project) == formatter(
            project,
        ),
        request.method != "textDocument/formatting"@ ==> request_target(request, project) == lint(
            project,
        ),
{
}

/// A document that has been opened in a project stays with it: what comes about it later goes there
/// without a search.
pub proof fn open_documents_stay_with_their_project(
    s: ProxyView,
    request: RequestView,
    place: PlaceView,
    project: SessionKeyView,
)
    requires
        lookup(s.documents, place.uri) == Some(project),
    ensures
        crate::oxc::proxy::request_at(s, request, Some(place)) == (
            request_routed(s, request, Some(project)),
            NextView::Done,
        ),
{
}

} // verus!
