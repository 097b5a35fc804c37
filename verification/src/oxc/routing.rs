//! Where messages go, and what the client is told.

use vstd::prelude::*;
use crate::disk::OutcomeView;
use crate::hub::{send_failure, ActionView, HubView, SessionView};
use crate::hub_laws::{
    delivered, dropping_answers_every_request, dropping_leaves_nothing_behind,
    dropping_tells_the_user, grown, others_stay, sent_stays_sent, since, tidy, told_failure,
};
use crate::json::{json_get, JsonView};
use crate::lsp::{
    err_response, value_request_id, MessageView, NotificationView, RequestIdView, RequestView,
    REQUEST_FAILED,
};
use crate::oxc::discovery::SessionKeyView;
use crate::oxc::proxy::{
    arrived, broadcast, children, client_message, discovered, dropped, formatter, lint,
    missing_target, notified, notified_if_there, project_notified, queued_at, request_routed,
    NextView, ProxyView, PurposeView,
};
use crate::oxc::session::{session_debug, ChildKind, SessionIdView};
use crate::params::{initialize_root, place_in, PlaceView};
use crate::path::PathView;
use crate::table::{holds, lookup, put, put_lookups, without, without_lookups, Ident};
use crate::text::begins_with;

verus! {

/// The child of a project that does the given work.
pub open spec fn child_for(project: SessionKeyView, kind: ChildKind) -> SessionIdView {
    SessionIdView { project, kind }
}

/// Dropping a child leaves all other children as they were, and takes nothing back that was said before.
pub proof fn dropped_leaves_others(s: ProxyView, id: SessionIdView, message: Seq<char>)
    requires
        tidy(s),
    ensures
        tidy(dropped(s, id, message)),
        grown(s, dropped(s, id, message)),
        others_stay(s, dropped(s, id, message), id),
        !holds(dropped(s, id, message).sessions, id),
{
    let owner = match id.kind {
        ChildKind::Lint => Some(id.project),
        ChildKind::Format => None,
    };
    dropping_leaves_nothing_behind(s, id, owner, message, true, session_debug(id));
    dropping_tells_the_user(s, id, owner, message, true, session_debug(id));
}

proof fn notified_delivers(
    s: ProxyView,
    id: SessionIdView,
    notification: NotificationView,
    failure: Seq<char>,
)
    requires
        tidy(s),
    ensures
        ({
            let t = notified(s, id, notification, failure);
            &&& tidy(t)
            &&& grown(s, t)
            &&& others_stay(s, t, id)
            &&& notification.method != "initialized"@ ==> delivered(
                s,
                t,
                id,
                MessageView::Notification(notification),
            )
        }),
{
    let message = MessageView::Notification(notification);
    let t = notified(s, id, notification, failure);
    match lookup(s.sessions, id) {
        None => {
            dropped_leaves_others(s, id, failure + s.dispatched(id, message, true).1->Err_0);
        },
        Some(session) => {
            if session.initialized {
                if session.open {
                    assert(t.outbox.take(s.outbox.len() as int) =~= s.outbox);
                    assert(since(s, t)[0] == ActionView::Child(id, message));
                } else {
                    dropped_leaves_others(
                        s,
                        id,
                        failure + s.dispatched(id, message, true).1->Err_0,
                    );
                }
            } else {
                put_lookups(
                    s.sessions,
                    id,
                    SessionView {
                        queued_messages: session.queued_messages.push(message),
                        ..session
                    },
                );
                assert(t.outbox.take(s.outbox.len() as int) =~= s.outbox);
            }
        },
    }
}

proof fn project_notified_delivers(
    s: ProxyView,
    project: SessionKeyView,
    notification: NotificationView,
    kind: ChildKind,
)
    requires
        tidy(s),
        notification.method != "initialized"@,
    ensures
        delivered(
            s,
            project_notified(s, project, notification),
            child_for(project, kind),
            MessageView::Notification(notification),
        ),
        grown(s, project_notified(s, project, notification)),
        tidy(project_notified(s, project, notification)),
{
    let message = MessageView::Notification(notification);
    let failure = "failed to forward notification to child: "@;
    let one = notified_if_there(s, lint(project), notification);
    let two = notified_if_there(one, formatter(project), notification);
    notified_delivers(s, lint(project), notification, failure);
    notified_delivers(one, formatter(project), notification, failure);
    assert(s.outbox.take(s.outbox.len() as int) =~= s.outbox);
    assert(one.outbox.take(one.outbox.len() as int) =~= one.outbox);
    assert(grown(s, one));
    assert(grown(one, two));
    let id = child_for(project, kind);
    sent_stays_sent(s, one, two, ActionView::Child(id, message));
    assert(lint(project).ident() != formatter(project).ident());
    match kind {
        ChildKind::Lint => {
            assert(delivered(s, one, lint(project), message));
            assert(lookup(two.sessions, lint(project)) == lookup(one.sessions, lint(project)));
        },
        ChildKind::Format => {
            assert(lookup(one.sessions, formatter(project)) == lookup(
                s.sessions,
                formatter(project),
            ));
            assert(delivered(one, two, formatter(project), message));
        },
    }
}

/// Until a shutdown is asked for, a notification that names an open document is on its way to each
/// child of the document's project, the one that lints and the one that formats. Only notifications
/// about the whole workspace, cancellations and the notifications that start and end the server go
/// elsewhere.
pub proof fn notifications_reach_the_children_of_their_document(
    s: ProxyView,
    notification: NotificationView,
    place: PlaceView,
    project: SessionKeyView,
    kind: ChildKind,
)
    requires
        tidy(s),
        !s.shutdown_requested,
        place_in(notification.params) == Some(place),
        lookup(s.documents, place.uri) == Some(project),
        !begins_with(notification.method, "workspace/"@),
        notification.method != "$/cancelRequest"@,
        notification.method != "initialized"@,
        notification.method != "exit"@,
    ensures
        ({
            let (t, result) = client_message(s, MessageView::Notification(notification));
            &&& result == Ok::<NextView, Seq<char>>(NextView::Done)
            &&& grown(s, t)
            &&& delivered(
                s,
                t,
                child_for(project, kind),
                MessageView::Notification(notification),
            )
        }),
{
    put_lookups(s.documents, place.uri, project);
    without_lookups(s.documents, place.uri);
    let opened = HubView { documents: put(s.documents, place.uri, project), ..s };
    let closed = HubView { documents: without(s.documents, place.uri), ..s };
    project_notified_delivers(s, project, notification, kind);
    project_notified_delivers(opened, project, notification, kind);
    project_notified_delivers(closed, project, notification, kind);
}

/// Whether what is sent to a child is lost: it has answered `initialize`, but is reached no more.
pub open spec fn is_lost(s: ProxyView, id: SessionIdView) -> bool {
    lookup(s.sessions, id) matches Some(session) && session.initialized && !session.open
}

proof fn project_notified_keeps_documents(
    s: ProxyView,
    project: SessionKeyView,
    notification: NotificationView,
)
    requires
        tidy(s),
        !is_lost(s, lint(project)),
    ensures
        project_notified(s, project, notification).documents == s.documents,
        project_notified(s, project, notification).default_project == s.default_project,
{
    let failure = "failed to forward notification to child: "@;
    let one = notified_if_there(s, lint(project), notification);
    notified_delivers(s, lint(project), notification, failure);
    let id = formatter(project);
    let message = MessageView::Notification(notification);
    if is_lost(one, id) {
        let told = failure + one.dispatched(id, message, true).1->Err_0;
        dropping_tells_the_user(one, id, None, told, true, session_debug(id));
    }
}

/// A document that has been opened belongs from then on to the project that was found for it, and the
/// project's children are told of it.
pub proof fn opened_documents_belong_to_their_project(
    s: ProxyView,
    project: SessionKeyView,
    notification: NotificationView,
    uri: Seq<char>,
    kind: ChildKind,
)
    requires
        tidy(s),
        notification.method != "initialized"@,
    ensures
        ({
            let t = arrived(s, project, PurposeView::Notification(notification, uri));
            &&& grown(s, t)
            &&& delivered(
                s,
                t,
                child_for(project, kind),
                MessageView::Notification(notification),
            )
            &&& notification.method == "textDocument/didOpen"@ && !is_lost(s, lint(project))
                ==> lookup(t.documents, uri) == Some(project)
            &&& notification.method != "textDocument/didOpen"@ && !is_lost(s, lint(project))
                ==> t.documents == s.documents
        }),
{
    put_lookups(s.documents, uri, project);
    let opened = HubView { documents: put(s.documents, uri, project), ..s };
    project_notified_delivers(s, project, notification, kind);
    project_notified_delivers(opened, project, notification, kind);
    if !is_lost(s, lint(project)) {
        project_notified_keeps_documents(s, project, notification);
        project_notified_keeps_documents(opened, project, notification);
    }
}

/// A document that has been closed belongs to no project any more.
pub proof fn closed_documents_belong_to_no_project(
    s: ProxyView,
    notification: NotificationView,
    place: PlaceView,
)
    requires
        tidy(s),
        !s.shutdown_requested,
        place_in(notification.params) == Some(place),
        notification.method == "textDocument/didClose"@,
        lookup(s.documents, place.uri) matches Some(project) ==> !is_lost(s, lint(project)),
    ensures
        lookup(
            client_message(s, MessageView::Notification(notification)).0.documents,
            place.uri,
        ) is None,
{
    methods_differ();
    without_lookups(s.documents, place.uri);
    let closed = HubView { documents: without(s.documents, place.uri), ..s };
    if let Some(project) = lookup(s.documents, place.uri) {
        project_notified_keeps_documents(closed, project, notification);
    }
}

proof fn methods_differ()
    ensures
        "textDocument/didClose"@ != "initialized"@,
        "textDocument/didClose"@ != "exit"@,
        "textDocument/didClose"@ != "$/cancelRequest"@,
        "textDocument/didClose"@ != "textDocument/didOpen"@,
        !begins_with("textDocument/didClose"@, "workspace/"@),
        "$/cancelRequest"@ != "initialized"@,
        "$/cancelRequest"@ != "exit"@,
        !begins_with("$/cancelRequest"@, "workspace/"@),
        "initialized"@ != "exit"@,
        "initialize"@ != "shutdown"@,
        !begins_with("initialized"@, "workspace/"@),
        !begins_with("exit"@, "workspace/"@),
{
    reveal_strlit("textDocument/didClose");
    reveal_strlit("textDocument/didOpen");
    reveal_strlit("initialized");
    reveal_strlit("initialize");
    reveal_strlit("shutdown");
    reveal_strlit("exit");
    reveal_strlit("$/cancelRequest");
    reveal_strlit("workspace/");
    assert("textDocument/didClose"@.len() == 21 && "textDocument/didOpen"@.len() == 20);
    assert("initialized"@.len() == 11 && "initialize"@.len() == 10 && "shutdown"@.len() == 8
        && "exit"@.len() == 4 && "$/cancelRequest"@.len() == 15 && "workspace/"@.len() == 10);
    assert("workspace/"@[0] == 'w');
    assert("textDocument/didClose"@.subrange(0, 10)[0] == 't');
    assert("$/cancelRequest"@.subrange(0, 10)[0] == '$');
    assert("initialized"@.subrange(0, 10)[0] == 'i');
}

/// What comes about a document that no project has opened is passed on once it is known what serves the
/// document, and until then nothing is sent. Only that it has been closed is passed over.
pub proof fn unknown_documents_are_looked_up(
    s: ProxyView,
    notification: NotificationView,
    place: PlaceView,
    path: PathView,
)
    requires
        !s.shutdown_requested,
        place_in(notification.params) == Some(place),
        lookup(s.documents, place.uri) is None,
        place.path == Some(path),
        !begins_with(notification.method, "workspace/"@),
        notification.method != "$/cancelRequest"@,
        notification.method != "initialized"@,
        notification.method != "exit"@,
        notification.method != "textDocument/didClose"@,
    ensures
        client_message(s, MessageView::Notification(notification)) == (
            s,
            Ok::<NextView, Seq<char>>(
                NextView::Discover(path, PurposeView::Notification(notification, place.uri)),
            ),
        ),
{
}

/// A request about a document that no project has opened is passed on once it is known what serves the
/// document.
pub proof fn requests_about_unknown_documents_are_looked_up(
    s: ProxyView,
    request: RequestView,
    place: PlaceView,
    path: PathView,
)
    requires
        !s.shutdown_requested,
        place_in(request.params) == Some(place),
        lookup(s.documents, place.uri) is None,
        place.path == Some(path),
        request.method != "initialize"@,
        request.method != "shutdown"@,
    ensures
        client_message(s, MessageView::Request(request)) == (
            s,
            Ok::<NextView, Seq<char>>(NextView::Discover(path, PurposeView::Request(request))),
        ),
{
}

/// What names no document is for the default project.
pub proof fn what_names_no_document_is_for_the_default_project(
    s: ProxyView,
    notification: NotificationView,
    project: SessionKeyView,
    kind: ChildKind,
)
    requires
        tidy(s),
        !s.shutdown_requested,
        place_in(notification.params) is None,
        s.default_project == Some(project),
        !begins_with(notification.method, "workspace/"@),
        notification.method != "$/cancelRequest"@,
        notification.method != "initialized"@,
        notification.method != "exit"@,
    ensures
        ({
            let (t, result) = client_message(s, MessageView::Notification(notification));
            &&& result == Ok::<NextView, Seq<char>>(NextView::Done)
            &&& delivered(
                s,
                t,
                child_for(project, kind),
                MessageView::Notification(notification),
            )
        }),
{
    project_notified_delivers(s, project, notification, kind);
}

/// The child that a request is for: the one that formats for requests to format, and else the one that
/// lints.
pub open spec fn serving_child(request: RequestView, project: SessionKeyView) -> SessionIdView {
    child_for(
        project,
        if request.method == "textDocument/formatting"@ {
            ChildKind::Format
        } else {
            ChildKind::Lint
        },
    )
}

/// Whether the client is answered that there is nothing: with a list of none where it asks for a list, and
/// else with `null`.
pub open spec fn answered_with_nothing(s: ProxyView, t: ProxyView, request: RequestView) -> bool {
    &&& t.outbox.len() == s.outbox.len() + 1
    &&& t.outbox.drop_last() == s.outbox
    &&& t.outbox.last() matches ActionView::Client(MessageView::Response(answer))
    &&& answer.id == request.id
    &&& answer.error is None
    &&& answer.result == Some(
        if request.method == "textDocument/formatting"@ || request.method
            == "textDocument/codeAction"@ {
            JsonView::Array(Seq::empty())
        } else {
            JsonView::Null
        },
    )
}

/// Whether a request is served by a project: it is on its way to the child that serves it, and its answer
/// is waited for. Where there is no such child, the client is answered that there is nothing, and where
/// the child is reached no more, that the request has failed.
pub open spec fn is_served(
    s: ProxyView,
    t: ProxyView,
    request: RequestView,
    project: SessionKeyView,
) -> bool {
    let id = serving_child(request, project);
    if !holds(s.sessions, id) {
        answered_with_nothing(s, t, request)
    } else if is_lost(s, id) {
        told_failure(t, request.id, "failed to forward request to child: "@ + send_failure())
            && !holds(t.sessions, id)
    } else {
        delivered(s, t, id, MessageView::Request(request)) && lookup(
            t.client_request_routes,
            request.id,
        ) == Some(id)
    }
}

/// A request that a project serves is passed on, and nothing that was said before is taken back.
pub proof fn request_routed_serves(s: ProxyView, request: RequestView, project: SessionKeyView)
    requires
        tidy(s),
    ensures
        is_served(s, request_routed(s, request, Some(project)), request, project),
        grown(s, request_routed(s, request, Some(project))),
        tidy(request_routed(s, request, Some(project))),
{
    let id = serving_child(request, project);
    let message = MessageView::Request(request);
    let t = request_routed(s, request, Some(project));
    put_lookups(s.client_request_routes, request.id, id);
    let routed = HubView {
        client_request_routes: put(s.client_request_routes, request.id, id),
        ..s
    };
    match lookup(s.sessions, id) {
        None => {
            assert(t.outbox.drop_last() =~= s.outbox);
            assert(t.outbox.take(s.outbox.len() as int) =~= s.outbox);
        },
        Some(session) => {
            if session.initialized {
                if session.open {
                    assert(t.outbox.take(s.outbox.len() as int) =~= s.outbox);
                    assert(since(s, t)[0] == ActionView::Child(id, message));
                } else {
                    let told = "failed to forward request to child: "@ + send_failure();
                    dropped_leaves_others(routed, id, told);
                    let owner = match id.kind {
                        ChildKind::Lint => Some(id.project),
                        ChildKind::Format => None,
                    };
                    dropping_answers_every_request(
                        routed,
                        id,
                        owner,
                        told,
                        true,
                        session_debug(id),
                        request.id,
                    );
                }
            } else {
                put_lookups(
                    s.sessions,
                    id,
                    SessionView {
                        queued_messages: session.queued_messages.push(message),
                        ..session
                    },
                );
                assert(t.outbox.take(s.outbox.len() as int) =~= s.outbox);
            }
        },
    }
}

/// A request that names an open document is served by the document's project, and one that names none by
/// the default project.
pub proof fn requests_are_served_by_their_project(
    s: ProxyView,
    request: RequestView,
    project: SessionKeyView,
)
    requires
        tidy(s),
        !s.shutdown_requested,
        request.method != "initialize"@,
        request.method != "shutdown"@,
        match place_in(request.params) {
            Some(place) => lookup(s.documents, place.uri) == Some(project),
            None => s.default_project == Some(project),
        },
    ensures
        ({
            let (t, result) = client_message(s, MessageView::Request(request));
            &&& result == Ok::<NextView, Seq<char>>(NextView::Done)
            &&& grown(s, t)
            &&& is_served(s, t, request, project)
        }),
{
    request_routed_serves(s, request, project);
}

/// A request for which a project has been found is served by it.
pub proof fn requests_are_served_by_what_was_found(
    s: ProxyView,
    request: RequestView,
    project: SessionKeyView,
)
    requires
        tidy(s),
    ensures
        is_served(
            s,
            arrived(s, project, PurposeView::Request(request)),
            request,
            project,
        ),
{
    request_routed_serves(s, request, project);
}

/// Where nothing can serve a request, the client is answered that there is nothing: for want of a project,
/// for want of a file, and where nothing is installed.
pub proof fn requests_that_nothing_serves_are_answered(s: ProxyView, request: RequestView)
    ensures
        place_in(request.params) is None && s.default_project is None && !s.shutdown_requested
            && request.method != "initialize"@ && request.method != "shutdown"@
            ==> answered_with_nothing(s, client_message(s, MessageView::Request(request)).0, request),
        place_in(request.params) matches Some(place) ==> lookup(s.documents, place.uri) is None
            && place.path is None && !s.shutdown_requested && request.method != "initialize"@
            && request.method != "shutdown"@ ==> answered_with_nothing(
            s,
            client_message(s, MessageView::Request(request)).0,
            request,
        ),
        answered_with_nothing(
            s,
            discovered(s, OutcomeView::Absent, PurposeView::Request(request)).0,
            request,
        ),
{
    let t = missing_target(s, request);
    assert(t.outbox.drop_last() =~= s.outbox);
}

/// Where the search for what serves a request fails, the user is warned and the client is answered that
/// there is nothing.
pub proof fn failed_searches_are_told(s: ProxyView, request: RequestView, message: Seq<char>)
    ensures
        ({
            let (t, next) = discovered(
                s,
                OutcomeView::Failed(message),
                PurposeView::Request(request),
            );
            let warned = s.warned("failed to resolve request target: "@ + message);
            &&& next == NextView::Done
            &&& answered_with_nothing(warned, t, request)
            &&& discovered(s, OutcomeView::Failed(message), PurposeView::Initialize(request)).0
                == s.to_client(
                MessageView::Response(err_response(request.id, REQUEST_FAILED, message)),
            ).warned(message)
        }),
{
    let warned = s.warned("failed to resolve request target: "@ + message);
    let t = missing_target(warned, request);
    assert(t.outbox.drop_last() =~= warned.outbox);
}

proof fn broadcast_delivers(
    s: ProxyView,
    ids: Seq<SessionIdView>,
    notification: NotificationView,
    i: int,
)
    requires
        tidy(s),
        0 <= i < ids.len(),
        notification.method != "initialized"@,
        forall|a: int, b: int|
            0 <= a < b < ids.len() ==> (#[trigger] ids[a]).ident() != (#[trigger] ids[b]).ident(),
    ensures
        grown(s, broadcast(s, ids, notification)),
        delivered(
            s,
            broadcast(s, ids, notification),
            ids[i],
            MessageView::Notification(notification),
        ),
    decreases ids.len(),
{
    let message = MessageView::Notification(notification);
    let failure = "failed to broadcast notification to child: "@;
    let one = notified(s, ids[0], notification, failure);
    let rest = ids.drop_first();
    let t = broadcast(one, rest, notification);
    notified_delivers(s, ids[0], notification, failure);
    assert forall|a: int, b: int| 0 <= a < b < rest.len() implies (#[trigger] rest[a]).ident() != (
    #[trigger] rest[b]).ident() by {
        assert(rest[a] == ids[a + 1] && rest[b] == ids[b + 1]);
    }
    if rest.len() == 0 {
        assert(t.outbox.take(one.outbox.len() as int) =~= one.outbox);
    } else {
        broadcast_delivers(one, rest, notification, if i == 0 { 0 } else { i - 1 });
    }
    assert(grown(one, t));
    sent_stays_sent(s, one, t, ActionView::Child(ids[i], message));
    if i == 0 {
        broadcast_leaves_others(one, rest, notification, ids[0]);
    } else {
        assert(ids[i] == rest[i - 1]);
        assert(lookup(one.sessions, ids[i]) == lookup(s.sessions, ids[i]));
    }
}

proof fn broadcast_leaves_others(
    s: ProxyView,
    ids: Seq<SessionIdView>,
    notification: NotificationView,
    other: SessionIdView,
)
    requires
        tidy(s),
        forall|a: int| 0 <= a < ids.len() ==> (#[trigger] ids[a]).ident() != other.ident(),
    ensures
        lookup(broadcast(s, ids, notification).sessions, other) == lookup(s.sessions, other),
    decreases ids.len(),
{
    if ids.len() > 0 {
        let failure = "failed to broadcast notification to child: "@;
        let one = notified(s, ids[0], notification, failure);
        let rest = ids.drop_first();
        notified_delivers(s, ids[0], notification, failure);
        assert(ids[0].ident() != other.ident());
        assert forall|a: int| 0 <= a < rest.len() implies (#[trigger] rest[a]).ident()
            != other.ident() by {
            assert(rest[a] == ids[a + 1]);
        }
        broadcast_leaves_others(one, rest, notification, other);
    }
}

proof fn children_differ(s: ProxyView)
    requires
        tidy(s),
    ensures
        forall|a: int, b: int|
            0 <= a < b < children(s).len() ==> (#[trigger] children(s)[a]).ident() != (
            #[trigger] children(s)[b]).ident(),
{
    assert forall|a: int, b: int| 0 <= a < b < children(s).len() implies (
    #[trigger] children(s)[a]).ident() != (#[trigger] children(s)[b]).ident() by {
        assert(children(s)[a] == s.sessions[a].0);
        assert(children(s)[b] == s.sessions[b].0);
    }
}

/// What is about the whole workspace reaches all children, of all projects, and so does that the client
/// exits, with which the server ends.
pub proof fn what_concerns_all_reaches_all_children(
    s: ProxyView,
    notification: NotificationView,
    i: int,
)
    requires
        tidy(s),
        0 <= i < s.sessions.len(),
        notification.method == "exit"@ || (begins_with(notification.method, "workspace/"@)
            && !s.shutdown_requested),
    ensures
        ({
            let (t, result) = client_message(s, MessageView::Notification(notification));
            &&& result == Ok::<NextView, Seq<char>>(
                if notification.method == "exit"@ {
                    NextView::Exit
                } else {
                    NextView::Done
                },
            )
            &&& delivered(s, t, s.sessions[i].0, MessageView::Notification(notification))
        }),
{
    methods_differ();
    children_differ(s);
    assert(children(s)[i] == s.sessions[i].0);
    broadcast_delivers(s, children(s), notification, i);
}

/// Once a shutdown has been asked for, notifications go nowhere, but for the one that ends the server.
pub proof fn notifications_go_nowhere_after_shutdown(s: ProxyView, notification: NotificationView)
    requires
        s.shutdown_requested,
        notification.method != "$/cancelRequest"@,
        notification.method != "initialized"@,
        notification.method != "exit"@,
    ensures
        client_message(s, MessageView::Notification(notification)) == (
            s,
            Ok::<NextView, Seq<char>>(NextView::Done),
        ),
{
}

/// A shutdown is granted and noted.
pub proof fn shutdowns_are_granted(s: ProxyView, request: RequestView)
    requires
        request.method == "shutdown"@,
    ensures
        ({
            let (t, result) = client_message(s, MessageView::Request(request));
            &&& result == Ok::<NextView, Seq<char>>(NextView::Done)
            &&& t.shutdown_requested
            &&& t.outbox.len() == s.outbox.len() + 1
            &&& t.outbox.last() matches ActionView::Client(MessageView::Response(answer))
            &&& answer.id == request.id
            &&& answer.error is None
            &&& answer.result == Some(JsonView::Null)
            &&& t.sessions == s.sessions
        }),
{
    methods_differ();
}

/// What the client says of itself is noted, and what serves the root that it gives is looked up, or what
/// serves the current directory where it gives none. Nothing is answered until then.
pub proof fn the_clients_root_is_looked_up(s: ProxyView, request: RequestView)
    requires
        request.method == "initialize"@,
    ensures
        ({
            let (t, result) = client_message(s, MessageView::Request(request));
            &&& t.client_initialize matches Some(state) && state.params == request.params
                && state.initialized is None
            &&& t.outbox == s.outbox
            &&& t.sessions == s.sessions
            &&& result == Ok::<NextView, Seq<char>>(
                match initialize_root(request.params) {
                    Some(path) => NextView::Discover(path, PurposeView::Initialize(request)),
                    None => NextView::DiscoverCurrentDir(PurposeView::Initialize(request)),
                },
            )
        }),
{
}

/// The client's `initialized` is kept for children that are started later, and reaches at once those of the
/// default project that have answered `initialize`.
pub proof fn initialized_is_passed_on(
    s: ProxyView,
    notification: NotificationView,
    project: SessionKeyView,
    kind: ChildKind,
)
    requires
        tidy(s),
        notification.method == "initialized"@,
        s.client_initialize is Some,
        s.default_project == Some(project),
    ensures
        ({
            let id = child_for(project, kind);
            let (t, result) = client_message(s, MessageView::Notification(notification));
            &&& t.kept_initialized() == Some(notification)
            &&& lookup(s.sessions, id) matches Some(session) ==> session.initialized && session.open
                ==> since(s, t).contains(
                ActionView::Child(id, MessageView::Notification(notification)),
            )
        }),
{
    let kept = s.with_initialized(notification);
    let message = MessageView::Notification(notification);
    let failure = "failed to forward notification to child: "@;
    let one = notified_if_there(kept, lint(project), notification);
    let two = notified_if_there(one, formatter(project), notification);
    notified_delivers(kept, lint(project), notification, failure);
    notified_delivers(one, formatter(project), notification, failure);
    assert(kept.outbox.take(kept.outbox.len() as int) =~= kept.outbox);
    assert(one.outbox.take(one.outbox.len() as int) =~= one.outbox);
    let id = child_for(project, kind);
    sent_stays_sent(kept, one, two, ActionView::Child(id, message));
    assert(lint(project).ident() != formatter(project).ident());
    assert(since(s, two) == since(kept, two));
    match kind {
        ChildKind::Lint => {
            if let Some(session) = lookup(s.sessions, id) {
                if session.initialized && session.open {
                    assert(since(kept, one)[0] == ActionView::Child(id, message));
                }
            }
        },
        ChildKind::Format => {
            if let Some(session) = lookup(s.sessions, id) {
                if session.initialized && session.open {
                    assert(lookup(one.sessions, id) == Some(session));
                    assert(since(one, two)[0] == ActionView::Child(id, message));
                }
            }
        },
    }
}

/// The request that is found among messages is the first of its id, and it is found wherever there is one.
pub proof fn kept_requests_are_found(messages: Seq<MessageView>, id: RequestIdView)
    ensures
        match queued_at(messages, id) {
            Some(i) => 0 <= i < messages.len() && is_request(messages[i], id) && forall|j: int|
                0 <= j < i ==> !is_request(#[trigger] messages[j], id),
            None => forall|j: int| 0 <= j < messages.len() ==> !is_request(#[trigger] messages[j], id),
        },
    decreases messages.len(),
{
    if messages.len() > 0 {
        let rest = messages.drop_first();
        kept_requests_are_found(rest, id);
        match queued_at(messages, id) {
            Some(i) => {
                assert forall|j: int| 0 <= j < i implies !is_request(#[trigger] messages[j], id) by {
                    if j > 0 {
                        assert(rest[j - 1] == messages[j]);
                    }
                }
            },
            None => {
                assert forall|j: int| 0 <= j < messages.len() implies !is_request(
                    #[trigger] messages[j],
                    id,
                ) by {
                    if j > 0 {
                        assert(rest[j - 1] == messages[j]);
                    }
                }
            },
        }
    }
}

/// Whether a message is the request of this id.
pub open spec fn is_request(message: MessageView, id: RequestIdView) -> bool {
    message is Request && message->Request_0.id == id
}

/// The child that a request has been sent to is told that it is cancelled; nobody else is.
pub proof fn cancellations_reach_the_child(
    s: ProxyView,
    notification: NotificationView,
    value: JsonView,
    request: RequestIdView,
    id: SessionIdView,
)
    requires
        json_get(notification.params, "id"@) == Some(value),
        value_request_id(value) == Some(request),
        notification.method == "$/cancelRequest"@,
        lookup(s.client_request_routes, request) == Some(id),
        lookup(s.sessions, id) matches Some(session) && session.open && queued_at(
            session.queued_messages,
            request,
        ) is None,
    ensures
        client_message(s, MessageView::Notification(notification)) == (
            s.doing(ActionView::Child(id, MessageView::Notification(notification))),
            Ok::<NextView, Seq<char>>(NextView::Done),
        ),
{
    methods_differ();
}

/// That a request is cancelled which is not waited for is passed over.
pub proof fn stray_cancellations_go_nowhere(s: ProxyView, notification: NotificationView)
    requires
        notification.method == "$/cancelRequest"@,
        match json_get(notification.params, "id"@) {
            None => true,
            Some(value) => match value_request_id(value) {
                None => true,
                Some(request) => lookup(s.client_request_routes, request) is None,
            },
        },
    ensures
        client_message(s, MessageView::Notification(notification)) == (
            s,
            Ok::<NextView, Seq<char>>(NextView::Done),
        ),
{
    methods_differ();
}

/// That a project's children are told of a document takes nothing back that was said before.
pub proof fn arriving_notifications_only_add(
    s: ProxyView,
    project: SessionKeyView,
    notification: NotificationView,
    uri: Seq<char>,
)
    requires
        tidy(s),
    ensures
        grown(s, arrived(s, project, PurposeView::Notification(notification, uri))),
{
    put_lookups(s.documents, uri, project);
    let opened = HubView { documents: put(s.documents, uri, project), ..s };
    project_notified_only_adds(s, project, notification);
    project_notified_only_adds(opened, project, notification);
}

proof fn project_notified_only_adds(
    s: ProxyView,
    project: SessionKeyView,
    notification: NotificationView,
)
    requires
        tidy(s),
    ensures
        grown(s, project_notified(s, project, notification)),
{
    let failure = "failed to forward notification to child: "@;
    let one = notified_if_there(s, lint(project), notification);
    let two = notified_if_there(one, formatter(project), notification);
    notified_delivers(s, lint(project), notification, failure);
    notified_delivers(one, formatter(project), notification, failure);
    assert(s.outbox.take(s.outbox.len() as int) =~= s.outbox);
    assert(one.outbox.take(one.outbox.len() as int) =~= one.outbox);
    sent_stays_sent(
        s,
        one,
        two,
        ActionView::Child(lint(project), MessageView::Notification(notification)),
    );
}

/// What comes about a document that is no file and that no project has opened is passed over, and so is what
/// names no document where there is no default project. That a document is closed which no project has
/// opened is told to nobody.
pub proof fn what_no_project_serves_goes_nowhere(
    s: ProxyView,
    notification: NotificationView,
    place: PlaceView,
)
    requires
        !s.shutdown_requested,
        !begins_with(notification.method, "workspace/"@),
        notification.method != "$/cancelRequest"@,
        notification.method != "initialized"@,
        notification.method != "exit"@,
    ensures
        ({
            let (t, result) = client_message(s, MessageView::Notification(notification));
            let unopened = place_in(notification.params) == Some(place) && lookup(
                s.documents,
                place.uri,
            ) is None;
            &&& unopened && (place.path is None || notification.method == "textDocument/didClose"@)
                ==> result == Ok::<NextView, Seq<char>>(NextView::Done) && t.outbox == s.outbox
                && t.sessions == s.sessions
            &&& place_in(notification.params) is None && s.default_project is None ==> t == s
                && result == Ok::<NextView, Seq<char>>(NextView::Done)
        }),
{
}

} // verus!
