//! Where messages go, and what the client is told.

use vstd::prelude::*;
use crate::disk::OutcomeView;
use crate::hub::{ActionView, HubView, SessionView};
use crate::hub_laws::{
    delivered, dropping_leaves_nothing_behind, dropping_tells_the_user, grown, others_stay, since,
    tidy, told_failure,
};
use crate::json::{json_get, JsonView};
use crate::lsp::{
    err_response, value_request_id, MessageView, NotificationView, RequestIdView, RequestView,
    REQUEST_FAILED,
};
use crate::params::{initialize_root, place_in, PlaceView};
use crate::path::PathView;
use crate::project::key_debug;
use crate::table::{holds, lookup, put, put_lookups, without, without_lookups};
use crate::text::begins_with;
use crate::tsgo::discovery::{ContextView, SessionKeyView};
use crate::tsgo::proxy::{
    arrived, broadcast, client_message, discovered, dropped, exited, notification_routed,
    or_dropped, request_routed, NextView, ProxyView, PurposeView,
};

verus! {

/// Whether what is sent to a child is lost: it has answered `initialize`, but is reached no more.
pub open spec fn is_lost(s: ProxyView, key: SessionKeyView) -> bool {
    lookup(s.sessions, key) matches Some(session) && session.initialized && !session.open
}

/// Dropping a child leaves all other children as they were, and takes nothing back that was said before.
pub proof fn dropped_leaves_others(s: ProxyView, key: SessionKeyView, message: Seq<char>, terminate: bool)
    requires
        tidy(s),
    ensures
        tidy(dropped(s, key, message, terminate)),
        grown(s, dropped(s, key, message, terminate)),
        others_stay(s, dropped(s, key, message, terminate), key),
        !holds(dropped(s, key, message, terminate).sessions, key),
{
    dropping_leaves_nothing_behind(s, key, Some(key), message, terminate, key_debug(key));
    dropping_tells_the_user(s, key, Some(key), message, terminate, key_debug(key));
    let t = s.dropped(key, Some(key), message, terminate, key_debug(key));
    assert(t.doing(ActionView::Unwatch(key)).outbox.take(s.outbox.len() as int) =~= t.outbox.take(
        s.outbox.len() as int,
    ));
}

proof fn sending_delivers(s: ProxyView, key: SessionKeyView, message: MessageView)
    requires
        tidy(s),
        holds(s.sessions, key),
    ensures
        ({
            let (t, result) = or_dropped(key, s.dispatched(key, message, false));
            &&& result == Ok::<(), Seq<char>>(())
            &&& tidy(t)
            &&& grown(s, t)
            &&& others_stay(s, t, key)
            &&& delivered(s, t, key, message)
            &&& !is_lost(s, key) ==> t.documents == s.documents && t.default_project
                == s.default_project && t.client_request_routes == s.client_request_routes
        }),
{
    let session = lookup(s.sessions, key)->0;
    let (t, _) = or_dropped(key, s.dispatched(key, message, false));
    if session.initialized {
        if session.open {
            assert(t.outbox.take(s.outbox.len() as int) =~= s.outbox);
            assert(since(s, t)[0] == ActionView::Child(key, message));
        } else {
            dropped_leaves_others(s, key, exited(), true);
        }
    } else {
        put_lookups(
            s.sessions,
            key,
            SessionView { queued_messages: session.queued_messages.push(message), ..session },
        );
        assert(t.outbox.take(s.outbox.len() as int) =~= s.outbox);
    }
}

proof fn methods_differ()
    ensures
        "$/cancelRequest"@ != "initialized"@,
        "$/cancelRequest"@ != "exit"@,
        !begins_with("$/cancelRequest"@, "workspace/"@),
        "initialized"@ != "exit"@,
        "initialize"@ != "shutdown"@,
        !begins_with("initialized"@, "workspace/"@),
        !begins_with("exit"@, "workspace/"@),
        "textDocument/didClose"@ != "initialized"@,
        "textDocument/didClose"@ != "exit"@,
        "textDocument/didClose"@ != "$/cancelRequest"@,
        "textDocument/didClose"@ != "textDocument/didOpen"@,
        !begins_with("textDocument/didClose"@, "workspace/"@),
{
    reveal_strlit("textDocument/didClose");
    reveal_strlit("textDocument/didOpen");
    reveal_strlit("initialized");
    reveal_strlit("initialize");
    reveal_strlit("shutdown");
    reveal_strlit("exit");
    reveal_strlit("$/cancelRequest");
    reveal_strlit("workspace/");
    assert("textDocument/didClose"@.len() == 21 && "textDocument/didOpen"@.len() == 20);
    assert("initialized"@.len() == 11 && "initialize"@.len() == 10 && "shutdown"@.len() == 8
        && "exit"@.len() == 4 && "$/cancelRequest"@.len() == 15 && "workspace/"@.len() == 10);
    assert("workspace/"@[0] == 'w');
    assert("textDocument/didClose"@.subrange(0, 10)[0] == 't');
    assert("$/cancelRequest"@.subrange(0, 10)[0] == '$');
    assert("initialized"@.subrange(0, 10)[0] == 'i');
}

proof fn routing_delivers(
    s: ProxyView,
    notification: NotificationView,
    uri: Seq<char>,
    key: SessionKeyView,
)
    requires
        tidy(s),
        holds(s.sessions, key),
    ensures
        ({
            let (t, result) = notification_routed(s, notification, uri, Some(key));
            &&& result == Ok::<NextView, Seq<char>>(NextView::Done)
            &&& grown(s, t)
            &&& tidy(t)
            &&& delivered(s, t, key, MessageView::Notification(notification))
            &&& !is_lost(s, key) && notification.method == "textDocument/didOpen"@ ==> lookup(
                t.documents,
                uri,
            ) == Some(key)
            &&& !is_lost(s, key) && notification.method == "textDocument/didClose"@ ==> lookup(
                t.documents,
                uri,
            ) is None
            &&& !is_lost(s, key) && notification.method != "textDocument/didOpen"@
                && notification.method != "textDocument/didClose"@ ==> t.documents == s.documents
        }),
{
    methods_differ();
    put_lookups(s.documents, uri, key);
    without_lookups(s.documents, uri);
    let message = MessageView::Notification(notification);
    sending_delivers(s, key, message);
    sending_delivers(HubView { documents: put(s.documents, uri, key), ..s }, key, message);
    sending_delivers(HubView { documents: without(s.documents, uri), ..s }, key, message);
}

/// A notification that names an open document is on its way to the child of the document's project. Only
/// notifications about the whole workspace, cancellations and the notifications that start and end the
/// server go elsewhere.
pub proof fn notifications_reach_the_child_of_their_document(
    s: ProxyView,
    notification: NotificationView,
    place: PlaceView,
    key: SessionKeyView,
)
    requires
        tidy(s),
        place_in(notification.params) == Some(place),
        lookup(s.documents, place.uri) == Some(key),
        holds(s.sessions, key),
        !begins_with(notification.method, "workspace/"@),
        notification.method != "$/cancelRequest"@,
        notification.method != "initialized"@,
        notification.method != "exit"@,
    ensures
        ({
            let (t, result) = client_message(s, MessageView::Notification(notification));
            &&& result == Ok::<NextView, Seq<char>>(NextView::Done)
            &&& grown(s, t)
            &&& delivered(s, t, key, MessageView::Notification(notification))
            &&& notification.method == "textDocument/didClose"@ && !is_lost(s, key) ==> lookup(
                t.documents,
                place.uri,
            ) is None
        }),
{
    routing_delivers(s, notification, place.uri, key);
}

/// A document that has been opened belongs from then on to the project that was found for it, and the
/// project's child is told of it.
pub proof fn opened_documents_belong_to_their_project(
    s: ProxyView,
    key: SessionKeyView,
    notification: NotificationView,
    uri: Seq<char>,
)
    requires
        tidy(s),
        holds(s.sessions, key),
    ensures
        ({
            let (t, result) = arrived(s, key, PurposeView::Notification(notification, uri));
            &&& result == Ok::<NextView, Seq<char>>(NextView::Done)
            &&& grown(s, t)
            &&& delivered(s, t, key, MessageView::Notification(notification))
            &&& notification.method == "textDocument/didOpen"@ && !is_lost(s, key) ==> lookup(
                t.documents,
                uri,
            ) == Some(key)
        }),
{
    routing_delivers(s, notification, uri, key);
}

/// What comes about a document that no project has opened is passed on once it is known what serves the
/// document, and until then nothing is sent.
pub proof fn unknown_documents_are_looked_up(
    s: ProxyView,
    notification: NotificationView,
    place: PlaceView,
    path: PathView,
)
    requires
        place_in(notification.params) == Some(place),
        lookup(s.documents, place.uri) is None,
        place.path == Some(path),
        !begins_with(notification.method, "workspace/"@),
        notification.method != "$/cancelRequest"@,
        notification.method != "initialized"@,
        notification.method != "exit"@,
    ensures
        client_message(s, MessageView::Notification(notification)) == (
            s,
            Ok::<NextView, Seq<char>>(
                NextView::Discover(path, PurposeView::Notification(notification, place.uri)),
            ),
        ),
{
}

/// A request about a document that no project has opened is passed on once it is known what serves the
/// document.
pub proof fn requests_about_unknown_documents_are_looked_up(
    s: ProxyView,
    request: RequestView,
    place: PlaceView,
    path: PathView,
)
    requires
        place_in(request.params) == Some(place),
        lookup(s.documents, place.uri) is None,
        place.path == Some(path),
        request.method != "initialize"@,
        request.method != "shutdown"@,
    ensures
        client_message(s, MessageView::Request(request)) == (
            s,
            Ok::<NextView, Seq<char>>(NextView::Discover(path, PurposeView::Request(request))),
        ),
{
}

/// What names no document, or one that is no file and that no project has opened, is for the default
/// project.
pub proof fn what_names_no_file_is_for_the_default_project(
    s: ProxyView,
    notification: NotificationView,
    key: SessionKeyView,
)
    requires
        tidy(s),
        match place_in(notification.params) {
            None => true,
            Some(place) => lookup(s.documents, place.uri) is None && place.path is None,
        },
        s.default_project == Some(key),
        holds(s.sessions, key),
        !begins_with(notification.method, "workspace/"@),
        notification.method != "$/cancelRequest"@,
        notification.method != "initialized"@,
        notification.method != "exit"@,
    ensures
        ({
            let (t, result) = client_message(s, MessageView::Notification(notification));
            &&& result == Ok::<NextView, Seq<char>>(NextView::Done)
            &&& delivered(s, t, key, MessageView::Notification(notification))
        }),
{
    sending_delivers(s, key, MessageView::Notification(notification));
    if let Some(place) = place_in(notification.params) {
        routing_delivers(s, notification, place.uri, key);
    }
}

/// Whether a request is served by a project: it is on its way to the project's child, and its answer is
/// waited for. Where the child is reached no more, the client is answered that the request has failed.
pub open spec fn is_served(
    s: ProxyView,
    t: ProxyView,
    request: RequestView,
    key: SessionKeyView,
) -> bool {
    if is_lost(s, key) {
        told_failure(t, request.id, "tsgo child exited unexpectedly"@) && !holds(t.sessions, key)
    } else {
        delivered(s, t, key, MessageView::Request(request)) && lookup(
            t.client_request_routes,
            request.id,
        ) == Some(key)
    }
}

/// A request that a project serves is passed on, and nothing that was said before is taken back.
pub proof fn request_routed_serves(s: ProxyView, request: RequestView, key: SessionKeyView)
    requires
        tidy(s),
        holds(s.sessions, key),
    ensures
        ({
            let (t, result) = request_routed(s, request, Some(key));
            &&& result == Ok::<NextView, Seq<char>>(NextView::Done)
            &&& is_served(s, t, request, key)
            &&& grown(s, t)
            &&& tidy(t)
        }),
{
    put_lookups(s.client_request_routes, request.id, key);
    let routed = HubView {
        client_request_routes: put(s.client_request_routes, request.id, key),
        ..s
    };
    sending_delivers(routed, key, MessageView::Request(request));
    if is_lost(s, key) {
        crate::hub_laws::dropping_answers_every_request(
            routed,
            key,
            Some(key),
            exited(),
            true,
            key_debug(key),
            request.id,
        );
        let u = routed.dropped(key, Some(key), exited(), true, key_debug(key));
        let answer = ActionView::<SessionKeyView>::Client(
            MessageView::Response(err_response(request.id, REQUEST_FAILED, exited())),
        );
        let i = choose|i: int| 0 <= i < u.outbox.len() && u.outbox[i] == answer;
        assert(u.doing(ActionView::Unwatch(key)).outbox[i] == answer);
    }
}

/// A request that names an open document is served by the document's project, and one that names no file by
/// the default project, and so is the request to shut down.
pub proof fn requests_are_served_by_their_project(
    s: ProxyView,
    request: RequestView,
    key: SessionKeyView,
)
    requires
        tidy(s),
        holds(s.sessions, key),
        request.method != "initialize"@,
        request.method == "shutdown"@ ==> s.default_project == Some(key),
        request.method != "shutdown"@ ==> match place_in(request.params) {
            Some(place) => lookup(s.documents, place.uri) == Some(key) || (lookup(
                s.documents,
                place.uri,
            ) is None && place.path is None && s.default_project == Some(key)),
            None => s.default_project == Some(key),
        },
    ensures
        ({
            let (t, result) = client_message(s, MessageView::Request(request));
            &&& result == Ok::<NextView, Seq<char>>(NextView::Done)
            &&& grown(s, t)
            &&& is_served(s, t, request, key)
            &&& request.method == "shutdown"@ ==> t.shutdown_requested
        }),
{
    request_routed_serves(s, request, key);
    request_routed_serves(HubView { shutdown_requested: true, ..s }, request, key);
}

/// A request for which a project has been found is served by it.
pub proof fn requests_are_served_by_what_was_found(
    s: ProxyView,
    request: RequestView,
    context: ContextView,
)
    requires
        tidy(s),
        holds(s.sessions, context.key),
    ensures
        ({
            let (t, result) = discovered(
                s,
                OutcomeView::Found(context),
                PurposeView::Request(request),
            );
            &&& result == Ok::<NextView, Seq<char>>(NextView::Done)
            &&& is_served(s, t, request, context.key)
        }),
{
    request_routed_serves(s, request, context.key);
}

/// Where there is no project to serve a request, the client is answered that there is none, and the user is
/// warned.
pub proof fn requests_that_nothing_serves_are_refused(s: ProxyView, request: RequestView)
    requires
        s.default_project is None,
        request.method != "initialize"@,
        request.method == "shutdown"@ || place_in(request.params) is None,
    ensures
        ({
            let (t, result) = client_message(s, MessageView::Request(request));
            let message = "no tsgo session is available for "@ + request.method;
            &&& result == Ok::<NextView, Seq<char>>(NextView::Done)
            &&& t.outbox.len() == s.outbox.len() + 2
            &&& t.outbox[s.outbox.len() as int] matches ActionView::Client(
                MessageView::Response(answer),
            )
            &&& answer.id == request.id
            &&& answer.result is None
            &&& answer.error matches Some(error) && error.code == -32099 && error.message == message
            &&& t.outbox.last() matches ActionView::Client(MessageView::Notification(told))
            &&& json_get(told.params, "message"@) == Some(JsonView::Text(message))
        }),
{
    crate::lsp_laws::warnings_are_log_messages("no tsgo session is available for "@ + request.method);
}

/// Where the search for what serves a request or a notification fails, that is a failure of the step, and
/// the client's own `initialize` is answered with it.
pub proof fn failed_searches_are_told(
    s: ProxyView,
    request: RequestView,
    notification: NotificationView,
    uri: Seq<char>,
    message: Seq<char>,
)
    ensures
        discovered(s, OutcomeView::Failed(message), PurposeView::Request(request)) == (
            s,
            Err::<NextView, Seq<char>>(message),
        ),
        notification.method != "textDocument/didClose"@ ==> discovered(
            s,
            OutcomeView::Failed(message),
            PurposeView::Notification(notification, uri),
        ) == (s, Err::<NextView, Seq<char>>(message)),
        discovered(s, OutcomeView::Failed(message), PurposeView::Initialize(request)) == (
            s.to_client(
                MessageView::Response(err_response(request.id, REQUEST_FAILED, message)),
            ).warned(message),
            Ok::<NextView, Seq<char>>(NextView::Done),
        ),
{
}

proof fn broadcast_sends(
    s: ProxyView,
    ids: Seq<(SessionKeyView, SessionView)>,
    notification: NotificationView,
)
    ensures
        ({
            let t = broadcast(s, ids, notification);
            &&& grown(s, t)
            &&& t.sessions == s.sessions
            &&& forall|i: int|
                0 <= i < ids.len() && (#[trigger] ids[i]).1.initialized && ids[i].1.open ==> since(
                    s,
                    t,
                ).contains(ActionView::Child(ids[i].0, MessageView::Notification(notification)))
            &&& since(s, t).len() <= ids.len()
        }),
    decreases ids.len(),
{
    let message = MessageView::Notification(notification);
    let t = broadcast(s, ids, notification);
    if ids.len() == 0 {
        assert(t.outbox.take(s.outbox.len() as int) =~= s.outbox);
    } else {
        let shorter = ids.drop_last();
        let rest = broadcast(s, shorter, notification);
        broadcast_sends(s, shorter, notification);
        assert(t.outbox.take(s.outbox.len() as int) =~= rest.outbox.take(s.outbox.len() as int));
        assert forall|i: int|
            0 <= i < ids.len() && (#[trigger] ids[i]).1.initialized && ids[i].1.open implies since(
            s,
            t,
        ).contains(ActionView::Child(ids[i].0, message)) by {
            if i < shorter.len() {
                assert(shorter[i] == ids[i]);
                let before = since(s, rest);
                let k = choose|k: int|
                    0 <= k < before.len() && before[k] == ActionView::Child(ids[i].0, message);
                assert(since(s, t)[k] == before[k]);
            } else {
                assert(since(s, t)[since(s, t).len() - 1] == ActionView::Child(ids[i].0, message));
            }
        }
    }
}

/// What is about the whole workspace reaches all children, of all projects, that have answered
/// `initialize`, and so does that the client exits, with which the server ends.
pub proof fn what_concerns_all_reaches_all_children(
    s: ProxyView,
    notification: NotificationView,
    i: int,
)
    requires
        0 <= i < s.sessions.len(),
        s.sessions[i].1.initialized,
        s.sessions[i].1.open,
        notification.method == "exit"@ || begins_with(notification.method, "workspace/"@),
    ensures
        ({
            let (t, result) = client_message(s, MessageView::Notification(notification));
            &&& result == Ok::<NextView, Seq<char>>(
                if notification.method == "exit"@ {
                    NextView::Exit
                } else {
                    NextView::Done
                },
            )
            &&& grown(s, t)
            &&& since(s, t).contains(
                ActionView::Child(s.sessions[i].0, MessageView::Notification(notification)),
            )
            &&& since(s, t).len() <= s.sessions.len()
        }),
{
    methods_differ();
    broadcast_sends(s, s.sessions, notification);
}

/// What the client says of itself is noted, and what serves the root that it gives is looked up, or what
/// serves the current directory where it gives none. Nothing is answered until then.
pub proof fn the_clients_root_is_looked_up(s: ProxyView, request: RequestView)
    requires
        request.method == "initialize"@,
    ensures
        ({
            let (t, result) = client_message(s, MessageView::Request(request));
            &&& t.client_initialize matches Some(state) && state.params == request.params
                && state.initialized is None
            &&& t.outbox == s.outbox
            &&& t.sessions == s.sessions
            &&& result == Ok::<NextView, Seq<char>>(
                match initialize_root(request.params) {
                    Some(path) => NextView::Discover(path, PurposeView::Initialize(request)),
                    None => NextView::DiscoverCurrentDir(PurposeView::Initialize(request)),
                },
            )
        }),
{
}

/// The client's `initialized` is kept for children that are started later, and is on its way to the child of
/// the default project.
pub proof fn initialized_is_passed_on(
    s: ProxyView,
    notification: NotificationView,
    key: SessionKeyView,
)
    requires
        tidy(s),
        notification.method == "initialized"@,
        s.client_initialize is Some,
        s.default_project == Some(key),
        holds(s.sessions, key),
    ensures
        ({
            let (t, result) = client_message(s, MessageView::Notification(notification));
            &&& result == Ok::<NextView, Seq<char>>(NextView::Done)
            &&& t.kept_initialized() == Some(notification)
            &&& delivered(
                s.with_initialized(notification),
                t,
                key,
                MessageView::Notification(notification),
            )
        }),
{
    sending_delivers(
        s.with_initialized(notification),
        key,
        MessageView::Notification(notification),
    );
}

/// The child that a request has been sent to is told that it is cancelled; nobody else is.
pub proof fn cancellations_reach_the_child(
    s: ProxyView,
    notification: NotificationView,
    value: JsonView,
    request: RequestIdView,
    key: SessionKeyView,
)
    requires
        json_get(notification.params, "id"@) == Some(value),
        value_request_id(value) == Some(request),
        notification.method == "$/cancelRequest"@,
        lookup(s.client_request_routes, request) == Some(key),
        lookup(s.sessions, key) matches Some(session) && session.open,
    ensures
        client_message(s, MessageView::Notification(notification)) == (
            s.doing(ActionView::Child(key, MessageView::Notification(notification))),
            Ok::<NextView, Seq<char>>(NextView::Done),
        ),
{
    methods_differ();
}

/// That a request is cancelled which is not waited for is passed over.
pub proof fn stray_cancellations_go_nowhere(s: ProxyView, notification: NotificationView)
    requires
        notification.method == "$/cancelRequest"@,
        match json_get(notification.params, "id"@) {
            None => true,
            Some(value) => match value_request_id(value) {
                None => true,
                Some(request) => lookup(s.client_request_routes, request) is None,
            },
        },
    ensures
        client_message(s, MessageView::Notification(notification)) == (
            s,
            Ok::<NextView, Seq<char>>(NextView::Done),
        ),
{
    methods_differ();
}

/// What is for the default project is passed over where there is none.
pub proof fn what_no_project_serves_goes_nowhere(s: ProxyView, notification: NotificationView)
    requires
        s.default_project is None,
        place_in(notification.params) is None,
        !begins_with(notification.method, "workspace/"@),
        notification.method != "$/cancelRequest"@,
        notification.method != "initialized"@,
        notification.method != "exit"@,
    ensures
        client_message(s, MessageView::Notification(notification)) == (
            s,
            Ok::<NextView, Seq<char>>(NextView::Done),
        ),
{
}

} // verus!
