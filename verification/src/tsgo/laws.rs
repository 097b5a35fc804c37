//! What holds of the proxy whatever happens.

use vstd::prelude::*;
use crate::disk::OutcomeView;
use crate::hub::{ActionView, ChildRouteView, HubView, InitializeRouteView, SessionView};
use crate::hub_laws::{
    awaits_children, dropping_answers_every_request, dropping_leaves_nothing_behind, tidy,
    told_failure,
};
use crate::lsp::{
    normal_response, MessageView, NotificationView, RequestIdView, RequestView, ResponseView,
};
use crate::params::PlaceView;
use crate::path::PathView;
use crate::project::key_debug;
use crate::table::{
    find, find_is_first, holds, is_found, lookup, put, put_lookups, same_keys_find_the_same,
    without, without_lookups, Ident,
};
use crate::tsgo::discovery::{ContextView, SessionKeyView};
use crate::tsgo::file_watcher::ChangeView;
use crate::tsgo::proxy::{
    arrived, broadcast, cancelled, cancelled_request, change_notification, changes_forwarded,
    changes_of, child_response, children, discovered, dropped, exited, message_at, notification_at,
    notification_routed, notification_sent, or_dropped, request_at, request_routed, session_event,
    spawned, NextView, ProxyView, PurposeView, SpawnOrderView,
};
use crate::tsgo::session::SessionEventView;

verus! {

/// Whether what is waited for and what is open is served by a child that is there: each request of
/// the client that is not answered, each open document and the default project.
pub open spec fn settled(s: ProxyView) -> bool {
    &&& tidy(s)
    &&& awaits_children(s)
    &&& forall|uri: Seq<char>|
        (#[trigger] lookup(s.documents, uri)) matches Some(key) ==> holds(s.sessions, key)
    &&& s.default_project matches Some(key) ==> holds(s.sessions, key)
}

/// At the start everything is served.
pub proof fn starts_settled()
    ensures
        settled(HubView::<SessionKeyView>::fresh()),
{
}

proof fn with_session_keeps(s: ProxyView, key: SessionKeyView, session: SessionView)
    requires
        settled(s),
    ensures
        settled(s.with_session(key, session)),
        forall|other: SessionKeyView|
            #[trigger] holds(s.sessions, other) ==> holds(
                s.with_session(key, session).sessions,
                other,
            ),
        holds(s.with_session(key, session).sessions, key),
{
    put_lookups(s.sessions, key, session);
}

proof fn dispatched_keeps(s: ProxyView, key: SessionKeyView, message: MessageView)
    requires
        settled(s),
    ensures
        settled(s.dispatched(key, message, false).0),
{
    if let Some(session) = lookup(s.sessions, key) {
        with_session_keeps(
            s,
            key,
            SessionView {
                queued_messages: session.queued_messages.push(message),
                ..session
            },
        );
    }
}

/// Dropping a child leaves everything served that is left.
pub proof fn dropping_keeps_settled(
    s: ProxyView,
    key: SessionKeyView,
    message: Seq<char>,
    terminate: bool,
)
    requires
        settled(s),
    ensures
        settled(dropped(s, key, message, terminate)),
{
    dropping_leaves_nothing_behind(s, key, Some(key), message, terminate, key_debug(key));
    let t = dropped(s, key, message, terminate);
    let plain = s.dropped(key, Some(key), message, terminate, key_debug(key));
    assert forall|uri: Seq<char>|
        (#[trigger] lookup(t.documents, uri)) matches Some(other) implies holds(
        t.sessions,
        lookup(t.documents, uri)->0,
    ) by {
        let other = lookup(plain.documents, uri)->0;
        assert(lookup(s.documents, uri) == Some(other));
        assert(lookup(plain.sessions, other) == lookup(s.sessions, other));
    }
    if let Some(other) = plain.default_project {
        assert(lookup(plain.sessions, other) == lookup(s.sessions, other));
    }
    assert forall|r: RequestIdView|
        (#[trigger] lookup(t.client_request_routes, r)) matches Some(other) implies holds(
        t.sessions,
        lookup(t.client_request_routes, r)->0,
    ) by {
        let other = lookup(plain.client_request_routes, r)->0;
        assert(lookup(s.client_request_routes, r) == Some(other));
        assert(lookup(plain.sessions, other) == lookup(s.sessions, other));
    }
}

proof fn or_dropped_keeps(
    s: ProxyView,
    key: SessionKeyView,
    result: Result<(), Seq<char>>,
)
    requires
        settled(s),
    ensures
        settled(or_dropped(key, (s, result)).0),
{
    dropping_keeps_settled(s, key, exited(), true);
}

proof fn broadcast_only_sends(
    s: ProxyView,
    ids: Seq<(SessionKeyView, SessionView)>,
    notification: NotificationView,
)
    ensures
        broadcast(s, ids, notification) == (HubView {
            outbox: broadcast(s, ids, notification).outbox,
            ..s
        }),
    decreases ids.len(),
{
    if ids.len() > 0 {
        broadcast_only_sends(s, ids.drop_last(), notification);
    }
}

proof fn request_routed_keeps(s: ProxyView, request: RequestView, target: Option<SessionKeyView>)
    requires
        settled(s),
        target matches Some(key) ==> holds(s.sessions, key),
    ensures
        settled(request_routed(s, request, target).0),
{
    if let Some(key) = target {
        put_lookups(s.client_request_routes, request.id, key);
        let routed = HubView {
            client_request_routes: put(s.client_request_routes, request.id, key),
            ..s
        };
        let (t, result) = routed.dispatched(key, MessageView::Request(request), false);
        dispatched_keeps(routed, key, MessageView::Request(request));
        or_dropped_keeps(t, key, result);
    }
}

proof fn notification_routed_keeps(
    s: ProxyView,
    notification: NotificationView,
    uri: Seq<char>,
    target: Option<SessionKeyView>,
)
    requires
        settled(s),
        target matches Some(key) ==> holds(s.sessions, key),
    ensures
        settled(notification_routed(s, notification, uri, target).0),
{
    without_lookups(s.documents, uri);
    let documents = if notification.method == "textDocument/didClose"@ {
        without(s.documents, uri)
    } else if notification.method == "textDocument/didOpen"@ && target is Some {
        put(s.documents, uri, target->0)
    } else {
        s.documents
    };
    if let Some(key) = target {
        put_lookups(s.documents, uri, key);
        notification_sent_keeps(HubView { documents, ..s }, notification, target);
    }
}

proof fn notification_sent_keeps(
    s: ProxyView,
    notification: NotificationView,
    target: Option<SessionKeyView>,
)
    requires
        settled(s),
    ensures
        settled(notification_sent(s, notification, target).0),
{
    if let Some(key) = target {
        let message = MessageView::Notification(notification);
        let (t, result) = s.dispatched(key, message, false);
        dispatched_keeps(s, key, message);
        or_dropped_keeps(t, key, result);
    }
}

proof fn arrived_keeps(s: ProxyView, key: SessionKeyView, purpose: PurposeView)
    requires
        settled(s),
        holds(s.sessions, key),
    ensures
        settled(arrived(s, key, purpose).0),
{
    match purpose {
        PurposeView::Initialize(request) => {
            put_lookups(
                s.initialize_routes,
                request.id,
                InitializeRouteView { session: key, forward_to_client: true },
            );
        },
        PurposeView::Request(request) => {
            request_routed_keeps(s, request, Some(key));
        },
        PurposeView::Notification(notification, uri) => {
            notification_routed_keeps(s, notification, uri, Some(key));
        },
    }
}

proof fn failed_keeps(s: ProxyView, purpose: PurposeView, message: Seq<char>)
    requires
        settled(s),
    ensures
        settled(crate::tsgo::proxy::failed(s, purpose, message).0),
{
    if let PurposeView::Notification(notification, uri) = purpose {
        notification_routed_keeps(s, notification, uri, None);
    }
}

/// Going on with what serves a path keeps everything served.
pub proof fn discovery_keeps_settled(
    s: ProxyView,
    outcome: OutcomeView<ContextView>,
    purpose: PurposeView,
)
    requires
        settled(s),
    ensures
        settled(discovered(s, outcome, purpose).0),
{
    match outcome {
        OutcomeView::Failed(message) => {
            failed_keeps(s, purpose, message);
        },
        OutcomeView::Absent => {
            failed_keeps(s, purpose, crate::tsgo::proxy::nothing_found());
        },
        OutcomeView::Found(context) => {
            if holds(s.sessions, context.key) {
                arrived_keeps(s, context.key, purpose);
            }
        },
    }
}

/// Going on with a child that was to be started keeps everything served.
pub proof fn spawning_keeps_settled(
    s: ProxyView,
    order: SpawnOrderView,
    purpose: PurposeView,
    result: Result<(), Seq<char>>,
)
    requires
        settled(s),
    ensures
        settled(spawned(s, order, purpose, result).0),
{
    let key = order.context.key;
    let root = order.context.root;
    let later = !(purpose is Initialize);
    put_lookups(
        s.initialize_routes,
        s.next_id("tsgo-lsp/init/"@),
        InitializeRouteView { session: key, forward_to_client: false },
    );
    put_lookups(
        s.sessions,
        key,
        SessionView {
            root,
            generation: order.generation,
            initialized: false,
            queued_messages: Seq::empty(),
            open: true,
        },
    );
    match result {
        Err(message) => {
            failed_keeps(s, purpose, message);
        },
        Ok(_) => {
            match s.installed(key, root, order.generation, later, "tsgo-lsp/init/"@) {
                (t, Err(message)) => {
                    failed_keeps(t, purpose, message);
                },
                (t, Ok(_)) => {
                    if let Some(dir) = root {
                        arrived_keeps(t.doing(ActionView::Watch(key, dir)), key, purpose);
                    } else {
                        arrived_keeps(t, key, purpose);
                    }
                },
            }
        },
    }
}

proof fn notification_at_keeps(
    s: ProxyView,
    notification: NotificationView,
    place: Option<PlaceView>,
)
    requires
        settled(s),
    ensures
        settled(notification_at(s, notification, place).0),
{
    broadcast_only_sends(s, s.sessions, notification);
    notification_sent_keeps(s, notification, s.default_project);
    if let Some(place) = place {
        notification_routed_keeps(s, notification, place.uri, s.default_project);
        notification_routed_keeps(s, notification, place.uri, lookup(s.documents, place.uri));
    }
}

proof fn cancelled_keeps(s: ProxyView, notification: NotificationView)
    requires
        settled(s),
    ensures
        settled(cancelled(s, notification)),
{
    if let Some(request) = cancelled_request(notification) {
        if let Some(key) = lookup(s.client_request_routes, request) {
            if let Some(session) = lookup(s.sessions, key) {
                let (t, result) = s.sent(key, session, MessageView::Notification(notification));
                or_dropped_keeps(t, key, result);
            }
        }
    }
}

/// Whatever the client says, everything stays served.
pub proof fn messages_keep_settled(
    s: ProxyView,
    message: MessageView,
    place: Option<PlaceView>,
    root: Option<PathView>,
)
    requires
        settled(s),
    ensures
        settled(message_at(s, message, place, root).0),
{
    match message {
        MessageView::Request(request) => {
            request_routed_keeps(s, request, s.default_project);
            request_routed_keeps(
                HubView { shutdown_requested: true, ..s },
                request,
                s.default_project,
            );
            if let Some(place) = place {
                request_routed_keeps(s, request, lookup(s.documents, place.uri));
            }
        },
        MessageView::Notification(notification) => {
            notification_sent_keeps(
                s.with_initialized(notification),
                notification,
                s.default_project,
            );
            broadcast_only_sends(s, s.sessions, notification);
            notification_at_keeps(s, notification, place);
            cancelled_keeps(s, notification);
            notification_at_keeps(cancelled(s, notification), notification, place);
        },
        MessageView::Response(response) => {
            without_lookups(s.child_request_routes, response.id);
            if let Some(route) = lookup(s.child_request_routes, response.id) {
                let (t, result) = s.answered(response);
                or_dropped_keeps(t, route.session, result);
            }
        },
    }
}

proof fn child_response_keeps(s: ProxyView, answer: ResponseView)
    requires
        settled(s),
    ensures
        settled(child_response(s, answer)),
{
    let response = normal_response(answer);
    without_lookups(s.client_request_routes, response.id);
    without_lookups(s.initialize_routes, response.id);
    if let Some(route) = lookup(s.initialize_routes, response.id) {
        let key = route.session;
        let rest = HubView { initialize_routes: without(s.initialize_routes, response.id), ..s };
        if let Some(session) = lookup(s.sessions, key) {
            let session = SessionView { initialized: response.error is None, ..session };
            with_session_keeps(rest, key, session);
            let marked = rest.with_session(key, session);
            let told = if route.forward_to_client {
                marked.to_client(MessageView::Response(response))
            } else {
                marked
            };
            with_session_keeps(
                told,
                key,
                SessionView { queued_messages: Seq::empty(), ..session },
            );
            match response.error {
                Some(error) => {
                    dropping_keeps_settled(
                        told,
                        key,
                        "tsgo initialize failed: "@ + error.message,
                        true,
                    );
                },
                None => {
                    let (t, result) = told.released(key, session);
                    or_dropped_keeps(t, key, result);
                },
            }
        }
    }
}

/// Whatever happens to a child, everything stays served.
pub proof fn events_keep_settled(s: ProxyView, event: SessionEventView)
    requires
        settled(s),
    ensures
        settled(session_event(s, event)),
{
    match event {
        SessionEventView::Message(key, _, MessageView::Request(request)) => {
            put_lookups(
                s.child_request_routes,
                s.next_id("tsgo-lsp/client/"@),
                ChildRouteView { session: key, request: request.id },
            );
        },
        SessionEventView::Message(_, _, MessageView::Response(response)) => {
            child_response_keeps(s, response);
        },
        SessionEventView::Message(_, _, MessageView::Notification(_)) => {},
        SessionEventView::Closed(key, _) => {
            dropping_keeps_settled(s, key, exited(), false);
        },
        SessionEventView::WriterClosed(key, _) => {
            if let Some(session) = lookup(s.sessions, key) {
                with_session_keeps(s, key, SessionView { open: false, ..session });
            }
        },
    }
}

/// Where everything is served, no step fails in which a request is routed at once.
pub proof fn routing_finds_a_child(s: ProxyView, request: RequestView, place: Option<PlaceView>)
    requires
        settled(s),
    ensures
        request_at(s, request, place).1 is Ok,
{
}

/// What a child says or how it ends is of no account once another child has taken its place.
pub proof fn replaced_children_are_ignored(s: ProxyView, key: SessionKeyView, generation: u64)
    requires
        !s.current(key, generation),
    ensures
        forall|message: MessageView|
            #[trigger] session_event(s, SessionEventView::Message(key, generation, message)) == s,
        session_event(s, SessionEventView::Closed(key, generation)) == s,
        session_event(s, SessionEventView::WriterClosed(key, generation)) == s,
{
}

proof fn dropping_leaves_none_hanging(
    s: ProxyView,
    key: SessionKeyView,
    message: Seq<char>,
    terminate: bool,
)
    requires
        settled(s),
    ensures
        ({
            let t = dropped(s, key, message, terminate);
            &&& forall|r: RequestIdView|
                is_found(lookup(s.client_request_routes, r), key) ==> #[trigger] told_failure(
                    t,
                    r,
                    message,
                )
            &&& forall|r: RequestIdView| !is_found(#[trigger] lookup(t.client_request_routes, r), key)
        }),
{
    let t = dropped(s, key, message, terminate);
    let plain = s.dropped(key, Some(key), message, terminate, key_debug(key));
    dropping_leaves_nothing_behind(s, key, Some(key), message, terminate, key_debug(key));
    assert forall|r: RequestIdView|
        is_found(lookup(s.client_request_routes, r), key) implies #[trigger] told_failure(
        t,
        r,
        message,
    ) by {
        dropping_answers_every_request(
            s,
            key,
            Some(key),
            message,
            terminate,
            key_debug(key),
            r,
        );
        let answer = ActionView::<SessionKeyView>::Client(
            MessageView::Response(
                crate::lsp::err_response(r, crate::lsp::REQUEST_FAILED, message),
            ),
        );
        let i = choose|i: int| 0 <= i < plain.outbox.len() && plain.outbox[i] == answer;
        assert(t.outbox[i] == answer);
    }
    assert forall|r: RequestIdView| !is_found(#[trigger] lookup(t.client_request_routes, r), key) by {
        assert(!is_found(lookup(plain.client_request_routes, r), key));
    }
}

/// When a child ends, no request is left hanging: each that waits for it is answered.
pub proof fn no_request_hangs_on_a_child_that_ends(
    s: ProxyView,
    key: SessionKeyView,
    generation: u64,
)
    requires
        settled(s),
        s.current(key, generation),
    ensures
        ({
            let t = session_event(s, SessionEventView::Closed(key, generation));
            &&& forall|r: RequestIdView|
                is_found(lookup(s.client_request_routes, r), key) ==> #[trigger] told_failure(
                    t,
                    r,
                    exited(),
                )
            &&& forall|r: RequestIdView| !is_found(#[trigger] lookup(t.client_request_routes, r), key)
        }),
{
    dropping_leaves_none_hanging(s, key, exited(), false);
}

/// When something that is sent does not reach its child, no request is left hanging: the child is
/// dropped, each request that waits for it is answered, and the server goes on.
pub proof fn no_request_hangs_on_a_child_that_is_not_reached(
    s: ProxyView,
    key: SessionKeyView,
    failure: Seq<char>,
)
    requires
        settled(s),
        holds(s.sessions, key),
    ensures
        ({
            let (t, result) = or_dropped(key, (s, Err(failure)));
            &&& result == Ok::<(), Seq<char>>(())
            &&& forall|r: RequestIdView|
                is_found(lookup(s.client_request_routes, r), key) ==> #[trigger] told_failure(
                    t,
                    r,
                    exited(),
                )
            &&& forall|r: RequestIdView| !is_found(#[trigger] lookup(t.client_request_routes, r), key)
            &&& !holds(t.sessions, key)
        }),
{
    dropping_leaves_none_hanging(s, key, exited(), true);
    dropping_leaves_nothing_behind(s, key, Some(key), exited(), true, key_debug(key));
}

/// Whether a child gets a message: it is sent, or it is kept until the child has answered
/// `initialize`.
pub open spec fn on_its_way(s: ProxyView, key: SessionKeyView, message: MessageView) -> bool {
    ||| s.outbox.contains(ActionView::Child(key, message))
    ||| lookup(s.sessions, key) matches Some(session) && !session.initialized
        && session.queued_messages.contains(message)
}

/// A request for a child that is there is passed on to it, and waits for its answer, or else the child
/// has ended, and the request is answered that it has failed, with all others that waited for the
/// child.
pub proof fn requests_are_passed_on_or_answered(
    s: ProxyView,
    request: RequestView,
    key: SessionKeyView,
)
    requires
        settled(s),
        holds(s.sessions, key),
    ensures
        ({
            let session = lookup(s.sessions, key)->0;
            let (t, next) = request_routed(s, request, Some(key));
            &&& next == Ok::<NextView, Seq<char>>(NextView::Done)
            &&& session.open || !session.initialized ==> on_its_way(
                t,
                key,
                MessageView::Request(request),
            ) && lookup(t.client_request_routes, request.id) == Some(key)
            &&& !session.open && session.initialized ==> {
                &&& told_failure(t, request.id, exited())
                &&& forall|r: RequestIdView|
                    is_found(lookup(s.client_request_routes, r), key) ==> #[trigger] told_failure(
                        t,
                        r,
                        exited(),
                    )
                &&& forall|r: RequestIdView|
                    !is_found(#[trigger] lookup(t.client_request_routes, r), key)
                &&& !holds(t.sessions, key)
            }
        }),
{
    let session = lookup(s.sessions, key)->0;
    let message = MessageView::Request(request);
    let routed = HubView {
        client_request_routes: put(s.client_request_routes, request.id, key),
        ..s
    };
    put_lookups(s.client_request_routes, request.id, key);
    let t = request_routed(s, request, Some(key)).0;
    if !session.initialized {
        let queued = session.queued_messages.push(message);
        put_lookups(s.sessions, key, SessionView { queued_messages: queued, ..session });
        assert(queued[queued.len() - 1] == message);
    } else if session.open {
        assert(t.outbox[t.outbox.len() - 1] == ActionView::Child(key, message));
    } else {
        assert(is_found(lookup(routed.client_request_routes, request.id), key));
        no_request_hangs_on_a_child_that_is_not_reached(
            routed,
            key,
            crate::hub::send_failure(),
        );
        assert forall|r: RequestIdView|
            is_found(lookup(s.client_request_routes, r), key) implies #[trigger] told_failure(
            t,
            r,
            exited(),
        ) by {
            assert(is_found(lookup(routed.client_request_routes, r), key));
        }
    }
}

/// When a child fails to initialize, no request is left hanging: each that waits for it is answered.
pub proof fn no_request_hangs_on_a_child_that_fails(s: ProxyView, answer: ResponseView)
    requires
        settled(s),
        answer.error is Some,
        lookup(s.initialize_routes, answer.id) matches Some(route) && holds(
            s.sessions,
            route.session,
        ),
    ensures
        ({
            let key = lookup(s.initialize_routes, answer.id)->0.session;
            let t = child_response(s, answer);
            &&& forall|r: RequestIdView|
                is_found(lookup(s.client_request_routes, r), key) ==> #[trigger] told_failure(
                    t,
                    r,
                    "tsgo initialize failed: "@ + answer.error->0.message,
                )
            &&& forall|r: RequestIdView| !is_found(#[trigger] lookup(t.client_request_routes, r), key)
            &&& !holds(t.sessions, key)
        }),
{
    let route = lookup(s.initialize_routes, answer.id)->0;
    let key = route.session;
    let session = SessionView { initialized: false, ..lookup(s.sessions, key)->0 };
    let rest = HubView { initialize_routes: without(s.initialize_routes, answer.id), ..s };
    without_lookups(s.initialize_routes, answer.id);
    with_session_keeps(rest, key, session);
    let marked = rest.with_session(key, session);
    let told = if route.forward_to_client {
        marked.to_client(MessageView::Response(answer))
    } else {
        marked
    };
    let message = "tsgo initialize failed: "@ + answer.error->0.message;
    dropping_leaves_none_hanging(told, key, message, true);
    dropping_leaves_nothing_behind(told, key, Some(key), message, true, key_debug(key));
}

/// Whether what is sent to a child goes out at once.
pub open spec fn reached(s: ProxyView, key: SessionKeyView) -> bool {
    lookup(s.sessions, key) matches Some(session) && session.initialized && session.open
}

/// That a project's child is told of the changes of the project's files.
pub open spec fn news_for(changes: Seq<ChangeView>, key: SessionKeyView) -> ActionView<SessionKeyView> {
    ActionView::Child(
        key,
        MessageView::Notification(change_notification(changes_of(changes, key))),
    )
}

/// Whether a child is told of the changes of the files of its own project.
pub open spec fn is_news(changes: Seq<ChangeView>, action: ActionView<SessionKeyView>) -> bool {
    exists|key: SessionKeyView| action == #[trigger] news_for(changes, key)
}

proof fn forwarding_is_exact(s: ProxyView, keys: Seq<SessionKeyView>, changes: Seq<ChangeView>)
    ensures
        ({
            let t = changes_forwarded(s, keys, changes);
            &&& s.outbox.len() <= t.outbox.len()
            &&& t.outbox.take(s.outbox.len() as int) == s.outbox
            &&& forall|i: int|
                s.outbox.len() <= i < t.outbox.len() ==> is_news(changes, #[trigger] t.outbox[i])
            &&& forall|k: SessionKeyView| #[trigger] reached(t, k) == reached(s, k)
            &&& forall|k: SessionKeyView|
                keys.contains(k) && reached(s, k) && changes_of(changes, k).len() > 0
                    ==> t.outbox.contains(#[trigger] news_for(changes, k))
        }),
    decreases keys.len(),
{
    let t = changes_forwarded(s, keys, changes);
    if keys.len() == 0 {
        assert(t.outbox.take(s.outbox.len() as int) =~= s.outbox);
    } else {
        let shorter = keys.drop_last();
        let last = keys.last();
        let rest = changes_forwarded(s, shorter, changes);
        forwarding_is_exact(s, shorter, changes);
        assert(reached(rest, last) == reached(s, last));
        if let Some(session) = lookup(rest.sessions, last) {
            let message = MessageView::Notification(
                change_notification(changes_of(changes, last)),
            );
            put_lookups(
                rest.sessions,
                last,
                SessionView { queued_messages: session.queued_messages.push(message), ..session },
            );
        }
        assert forall|k: SessionKeyView| #[trigger] reached(t, k) == reached(s, k) by {
            assert(reached(rest, k) == reached(s, k));
            if k.ident() == last.ident() {
                same_keys_find_the_same(rest.sessions, k, last);
            }
        }
        if t.outbox.len() > rest.outbox.len() {
            assert(t.outbox == rest.outbox.push(news_for(changes, last)));
        }
        assert(t.outbox.take(rest.outbox.len() as int) =~= rest.outbox);
        assert(t.outbox.take(s.outbox.len() as int) =~= rest.outbox.take(s.outbox.len() as int));
        assert forall|i: int| s.outbox.len() <= i < t.outbox.len() implies is_news(
            changes,
            #[trigger] t.outbox[i],
        ) by {
            if i < rest.outbox.len() {
                assert(t.outbox[i] == rest.outbox[i]);
            } else {
                assert(t.outbox[i] == news_for(changes, last));
            }
        }
        assert forall|k: SessionKeyView|
            keys.contains(k) && reached(s, k) && changes_of(changes, k).len()
                > 0 implies t.outbox.contains(#[trigger] news_for(changes, k)) by {
            let at = keys.index_of(k);
            if at < shorter.len() {
                assert(shorter[at] == k);
                let news = rest.outbox.index_of(news_for(changes, k));
                assert(t.outbox[news] == rest.outbox[news]);
            } else {
                assert(k == last);
                assert(t.outbox == rest.outbox.push(news_for(changes, last)));
                assert(t.outbox[rest.outbox.len() as int] == news_for(changes, k));
            }
        }
    }
}

/// Changes of files reach the child of their project, and each child is told of the files of its own
/// project alone.
pub proof fn changes_reach_their_project(s: ProxyView, key: SessionKeyView, changes: Seq<ChangeView>)
    requires
        reached(s, key),
        changes_of(changes, key).len() > 0,
    ensures
        ({
            let t = changes_forwarded(s, children(s), changes);
            &&& exists|child: SessionKeyView|
                child.ident() == key.ident() && t.outbox.contains(#[trigger] news_for(changes, child))
            &&& t.outbox.take(s.outbox.len() as int) == s.outbox
            &&& forall|i: int|
                s.outbox.len() <= i < t.outbox.len() ==> is_news(changes, #[trigger] t.outbox[i])
        }),
{
    forwarding_is_exact(s, children(s), changes);
    find_is_first(s.sessions, key);
    let at = find(s.sessions, key)->0;
    let child = s.sessions[at].0;
    same_keys_find_the_same(s.sessions, child, key);
    assert(changes_of(changes, child) == changes_of(changes, key)) by {
        assert((|change: ChangeView| change.session_key.ident() == child.ident()) =~= (|
            change: ChangeView,
        | change.session_key.ident() == key.ident()));
    }
    assert(children(s)[at] == child);
    assert(children(s).contains(child));
    let t = changes_forwarded(s, children(s), changes);
    assert(t.outbox.contains(news_for(changes, child)));
}

/// A document that has been opened in a project stays with it: what comes about it later goes there
/// without a search.
pub proof fn open_documents_stay_with_their_project(
    s: ProxyView,
    request: RequestView,
    place: PlaceView,
    key: SessionKeyView,
)
    requires
        lookup(s.documents, place.uri) == Some(key),
    ensures
        request_at(s, request, Some(place)) == request_routed(s, request, Some(key)),
{
}

} // verus!
