//! How children are started, and how what they say reaches the client.

use vstd::prelude::*;
use crate::disk::OutcomeView;
use crate::hub::{deliveries, ActionView, HubView, InitializeRouteView, SessionView};
use crate::hub_laws::{
    a_later_child_is_initialized_with_its_own_root, fresh_session, grown, sent_stays_sent,
    the_clients_initialize_reaches_the_child, tidy,
};
use crate::json::{json_get, JsonView};
use crate::json_laws::{members_are_found_by_name, whole_numbers_have_their_value};
use crate::lsp::{normal_response, MessageView, NotificationView, RequestIdView, RequestView, ResponseView};
use crate::params_laws::rooted_at;
use crate::path::PathView;
use crate::table::{holds, lookup, put, put_lookups, without_lookups, Ident};
use crate::tsgo::discovery::{ContextView, SessionKeyView};
use crate::tsgo::file_watcher::{ChangeView, WatchedFileChangeKind};
use crate::tsgo::proxy::{
    arrived, change_list, change_notification, changes_forwarded, changes_of, child_response,
    client_message, discovered,
    session_event, spawned, NextView, ProxyView, PurposeView, SpawnOrderView,
};
use crate::tsgo::routing::{opened_documents_belong_to_their_project, request_routed_serves};
use crate::tsgo::session::SessionEventView;
use crate::url_text::{directory_url, file_url_text};

verus! {

/// Where a project has been found, its child is started if it is missing, under the next number and for the
/// purpose of the step, and else the step goes on with the child that is there.
pub proof fn missing_children_are_started(s: ProxyView, context: ContextView, purpose: PurposeView)
    requires
        s.has_room(),
    ensures
        ({
            let (t, result) = discovered(s, OutcomeView::Found(context), purpose);
            &&& holds(s.sessions, context.key) ==> (t, result) == arrived(s, context.key, purpose)
            &&& !holds(s.sessions, context.key) ==> {
                &&& t == (HubView { session_generation: t.session_generation, ..s })
                &&& result matches Ok(NextView::Spawn(order, whatever))
                &&& whatever == purpose
                &&& order.context == context
                &&& order.generation == s.session_generation + 1
                &&& t.session_generation == order.generation
            }
        }),
{
}

proof fn arriving_only_adds(s: ProxyView, key: SessionKeyView, purpose: PurposeView)
    requires
        tidy(s),
        holds(s.sessions, key),
    ensures
        grown(s, arrived(s, key, purpose).0),
{
    match purpose {
        PurposeView::Initialize(request) => {
            let t = arrived(s, key, purpose).0;
            assert(t.outbox.take(s.outbox.len() as int) =~= s.outbox);
        },
        PurposeView::Request(request) => {
            request_routed_serves(s, request, key);
        },
        PurposeView::Notification(notification, uri) => {
            opened_documents_belong_to_their_project(s, key, notification, uri);
        },
    }
}

proof fn installing_keeps_tidy(
    s: ProxyView,
    key: SessionKeyView,
    root: Option<PathView>,
    generation: u64,
    send_initialize: bool,
    prefix: Seq<char>,
)
    requires
        tidy(s),
    ensures
        tidy(s.installed(key, root, generation, send_initialize, prefix).0),
{
    put_lookups(s.sessions, key, fresh_session(root, generation));
    put_lookups(
        s.initialize_routes,
        s.next_id(prefix),
        InitializeRouteView { session: key, forward_to_client: false },
    );
}

/// A child that is started once the client has said what it is, is asked to initialize, with the root of
/// its own project in place of the client's, before anything else is sent, and then the project's files
/// are looked after.
pub proof fn later_children_are_initialized_with_their_root(
    s: ProxyView,
    order: SpawnOrderView,
    purpose: PurposeView,
    root: PathView,
)
    requires
        tidy(s),
        s.has_room(),
        s.client_initialize matches Some(state) && state.params is Object,
        order.context.root == Some(root),
        file_url_text(root.text) is Some,
        !(purpose is Initialize),
    ensures
        ({
            let (t, _) = spawned(s, order, purpose, Ok(()));
            let given = s.client_initialize->0.params;
            &&& grown(s, t)
            &&& t.outbox.len() >= s.outbox.len() + 2
            &&& t.outbox[s.outbox.len() as int] matches ActionView::Child(
                to,
                MessageView::Request(asked),
            )
            &&& to == order.context.key
            &&& asked.method == "initialize"@
            &&& asked.id == s.next_id("tsgo-lsp/init/"@)
            &&& rooted_at(asked.params, given, root, directory_url(root)->0)
            &&& t.outbox[s.outbox.len() as int + 1] == ActionView::Watch(order.context.key, root)
        }),
{
    let prefix = "tsgo-lsp/init/"@;
    let key = order.context.key;
    let (t, result) = s.installed(key, Some(root), order.generation, true, prefix);
    a_later_child_is_initialized_with_its_own_root(s, key, root, order.generation, prefix);
    let n = s.outbox.len() as int;
    assert(t.outbox.take(n) =~= t.outbox.drop_last());
    assert(t.outbox[n] == t.outbox.last());
    installing_keeps_tidy(s, key, Some(root), order.generation, true, prefix);
    let watched = t.doing(ActionView::Watch(key, root));
    arriving_only_adds(watched, key, purpose);
    let u = spawned(s, order, purpose, Ok(())).0;
    assert(watched.outbox.take(n) =~= s.outbox);
    assert(grown(s, watched));
    assert(grown(watched, u));
    sent_stays_sent(s, watched, u, t.outbox.last());
    let m = watched.outbox.len() as int;
    assert(u.outbox.take(m)[n] == u.outbox[n]);
    assert(u.outbox.take(m)[n + 1] == u.outbox[n + 1]);
}

/// The child for which the client's own `initialize` is meant gets that, under the client's id and with the
/// root of its project. The project is the default from then on, and its files are looked after.
pub proof fn the_clients_initialize_reaches_the_first_child(
    s: ProxyView,
    order: SpawnOrderView,
    request: RequestView,
    root: PathView,
)
    requires
        order.context.root == Some(root),
        file_url_text(root.text) is Some,
        request.params is Object,
    ensures
        ({
            let (t, result) = spawned(s, order, PurposeView::Initialize(request), Ok(()));
            let key = order.context.key;
            &&& result == Ok::<NextView, Seq<char>>(NextView::Done)
            &&& t.default_project == Some(key)
            &&& t.outbox.len() == s.outbox.len() + 2
            &&& t.outbox[s.outbox.len() as int] == ActionView::Watch(key, root)
            &&& t.outbox.last() matches ActionView::Child(to, MessageView::Request(sent))
            &&& to == key
            &&& sent.id == request.id
            &&& sent.method == request.method
            &&& rooted_at(sent.params, request.params, root, directory_url(root)->0)
            &&& lookup(t.initialize_routes, request.id) == Some(
                InitializeRouteView { session: key, forward_to_client: true },
            )
        }),
{
    let key = order.context.key;
    let fresh = fresh_session(Some(root), order.generation);
    put_lookups(s.sessions, key, fresh);
    let there = s.with_session(key, fresh).doing(ActionView::Watch(key, root));
    the_clients_initialize_reaches_the_child(
        there,
        request,
        key,
        key,
        "default session disappeared during initialize"@,
    );
    let t = spawned(s, order, PurposeView::Initialize(request), Ok(())).0;
    assert(t.outbox.drop_last()[s.outbox.len() as int] == t.outbox[s.outbox.len() as int]);
}

/// A child that could not be started is a failure of the step, which is as if none had been found.
pub proof fn children_that_do_not_start_are_missing(
    s: ProxyView,
    order: SpawnOrderView,
    purpose: PurposeView,
    message: Seq<char>,
)
    ensures
        spawned(s, order, purpose, Err(message)) == discovered(
            s,
            OutcomeView::Failed(message),
            purpose,
        ),
{
}

/// An answer to a request of the client reaches the client, and is waited for no more.
pub proof fn answers_reach_the_client(s: ProxyView, answer: ResponseView)
    requires
        tidy(s),
        lookup(s.initialize_routes, answer.id) is None,
    ensures
        ({
            let t = child_response(s, answer);
            &&& t.outbox == s.outbox.push(
                ActionView::Client(MessageView::Response(normal_response(answer))),
            )
            &&& !holds(t.client_request_routes, answer.id)
            &&& t.sessions == s.sessions
        }),
{
    without_lookups(s.client_request_routes, answer.id);
}

/// A child that has answered `initialize` gets the client's `initialized`, if that has come, and then all
/// that was kept for it. The client gets the answer as it is, just where it has asked.
pub proof fn initialized_children_get_what_was_kept(
    s: ProxyView,
    answer: ResponseView,
    key: SessionKeyView,
    forward: bool,
)
    requires
        tidy(s),
        answer.error is None,
        lookup(s.initialize_routes, answer.id) matches Some(route) && route.session == key
            && route.forward_to_client == forward,
        lookup(s.sessions, key) matches Some(session) && session.open,
    ensures
        ({
            let session = lookup(s.sessions, key)->0;
            let t = child_response(s, answer);
            let first = match s.kept_initialized() {
                Some(notification) => seq![MessageView::Notification(notification)],
                None => Seq::empty(),
            };
            let n: int = if forward {
                1
            } else {
                0
            };
            &&& t.outbox.len() == s.outbox.len() + n + first.len() + session.queued_messages.len()
            &&& t.outbox.skip(s.outbox.len() + n) == deliveries(
                key,
                first + session.queued_messages,
            )
            &&& forward ==> t.outbox[s.outbox.len() as int] == ActionView::<SessionKeyView>::Client(
                MessageView::Response(normal_response(answer)),
            )
            &&& lookup(t.sessions, key) == Some(
                SessionView { initialized: true, queued_messages: Seq::empty(), ..session },
            )
            &&& !holds(t.initialize_routes, answer.id)
        }),
{
    let session = SessionView { initialized: true, ..lookup(s.sessions, key)->0 };
    without_lookups(s.initialize_routes, answer.id);
    put_lookups(s.sessions, key, session);
    let emptied = SessionView { queued_messages: Seq::empty(), ..session };
    let t = child_response(s, answer);
    put_lookups(put(s.sessions, key, session), key, emptied);
    let first = match s.kept_initialized() {
        Some(notification) => seq![MessageView::Notification(notification)],
        None => Seq::empty(),
    };
    let n: int = if forward {
        1
    } else {
        0
    };
    assert(t.outbox.skip(s.outbox.len() + n) =~= deliveries(key, first + session.queued_messages));
}

/// What a child says to the client of its own accord reaches the client as it is, what it asks is asked in
/// the server's name, and what it answers is taken for its answer.
pub proof fn what_children_say_is_taken(
    s: ProxyView,
    key: SessionKeyView,
    generation: u64,
    notification: NotificationView,
    request: RequestView,
    answer: ResponseView,
)
    requires
        s.current(key, generation),
    ensures
        session_event(
            s,
            SessionEventView::Message(key, generation, MessageView::Notification(notification)),
        ) == s.doing(ActionView::Client(MessageView::Notification(notification))),
        session_event(
            s,
            SessionEventView::Message(key, generation, MessageView::Request(request)),
        ) == s.asked(key, request, "tsgo-lsp/client/"@),
        session_event(
            s,
            SessionEventView::Message(key, generation, MessageView::Response(answer)),
        ) == child_response(s, answer),
        lookup(
            session_event(s, SessionEventView::WriterClosed(key, generation)).sessions,
            key,
        ) == Some(SessionView { open: false, ..lookup(s.sessions, key)->0 }),
{
    put_lookups(s.sessions, key, SessionView { open: false, ..lookup(s.sessions, key)->0 });
}

/// When a child ends, it is gone, and its files are looked after no more.
pub proof fn ended_children_are_gone(s: ProxyView, key: SessionKeyView, generation: u64)
    requires
        tidy(s),
        s.current(key, generation),
    ensures
        ({
            let t = session_event(s, SessionEventView::Closed(key, generation));
            &&& !holds(t.sessions, key)
            &&& t.outbox.last() == ActionView::<SessionKeyView>::Unwatch(key)
            &&& !crate::table::is_found(t.default_project, key)
        }),
{
    crate::hub_laws::dropping_leaves_nothing_behind(
        s,
        key,
        Some(key),
        crate::tsgo::proxy::exited(),
        false,
        crate::project::key_debug(key),
    );
}

/// What a child is told of changes is each change, in its order, with the URI of its file and the number
/// that the protocol has for its kind.
pub proof fn changes_are_told_one_by_one(changes: Seq<ChangeView>, i: int)
    requires
        0 <= i < changes.len(),
    ensures
        change_notification(changes).method == "workspace/didChangeWatchedFiles"@,
        json_get(change_notification(changes).params, "changes"@) == Some(
            JsonView::Array(change_list(changes)),
        ),
        change_list(changes).len() == changes.len(),
        json_get(change_list(changes)[i], "uri"@) == Some(JsonView::Text(changes[i].uri)),
        json_get(change_list(changes)[i], "type"@) matches Some(JsonView::Number(kind))
            && kind.integer == Some(
            match changes[i].kind {
                WatchedFileChangeKind::Created => 1i64,
                WatchedFileChangeKind::Changed => 2i64,
                WatchedFileChangeKind::Deleted => 3i64,
            },
        ),
{
    reveal_strlit("uri");
    reveal_strlit("type");
    assert("uri"@.len() == 3 && "type"@.len() == 4);
    members_are_found_by_name(change_notification(changes).params->Object_0, 0);
    let members = change_list(changes)[i]->Object_0;
    members_are_found_by_name(members, 0);
    members_are_found_by_name(members, 1);
    whole_numbers_have_their_value(changes[i].kind.number() as u32);
}

/// The changes of a project are those that were seen for it, in their order.
pub proof fn projects_are_told_of_their_own_changes(
    changes: Seq<ChangeView>,
    key: SessionKeyView,
    change: ChangeView,
)
    ensures
        changes_of(changes, key).contains(change) <==> changes.contains(change)
            && change.session_key.ident() == key.ident(),
{
    broadcast use vstd::seq_lib::group_filter_ensures;

    let mine = |change: ChangeView| change.session_key.ident() == key.ident();
    if changes_of(changes, key).contains(change) {
        changes.lemma_filter_contains_rev(mine, change);
        let i = choose|i: int|
            0 <= i < changes_of(changes, key).len() && changes_of(changes, key)[i] == change;
        assert(mine(changes.filter(mine)[i]));
    }
    if changes.contains(change) && change.session_key.ident() == key.ident() {
        let i = choose|i: int| 0 <= i < changes.len() && changes[i] == change;
        assert(mine(changes[i]));
        assert(changes.filter(mine).contains(changes[i]));
    }
}

/// An answer to `initialize` of a child that is gone is passed over.
pub proof fn answers_of_gone_children_go_nowhere(
    s: ProxyView,
    answer: ResponseView,
    key: SessionKeyView,
)
    requires
        lookup(s.initialize_routes, answer.id) matches Some(route) && route.session == key,
        !holds(s.sessions, key),
    ensures
        child_response(s, answer).outbox == s.outbox,
        child_response(s, answer).sessions == s.sessions,
{
}

/// Where the client's own `initialize` fails, the client gets the failure as the child gave it, and the child is
/// gone.
pub proof fn the_client_is_told_that_initialize_has_failed(
    s: ProxyView,
    answer: ResponseView,
    key: SessionKeyView,
)
    requires
        tidy(s),
        answer.error is Some,
        answer.result is None,
        lookup(s.initialize_routes, answer.id) matches Some(route) && route.session == key
            && route.forward_to_client,
        holds(s.sessions, key),
    ensures
        ({
            let t = child_response(s, answer);
            &&& grown(s, t)
            &&& t.outbox.len() > s.outbox.len()
            &&& t.outbox[s.outbox.len() as int] == ActionView::<SessionKeyView>::Client(
                MessageView::Response(answer),
            )
            &&& !holds(t.sessions, key)
        }),
{
    let session = SessionView { initialized: false, ..lookup(s.sessions, key)->0 };
    without_lookups(s.initialize_routes, answer.id);
    put_lookups(s.sessions, key, session);
    let rest = HubView {
        initialize_routes: crate::table::without(s.initialize_routes, answer.id),
        ..s
    };
    let told = rest.with_session(key, session).to_client(MessageView::Response(answer));
    let message = "tsgo initialize failed: "@ + answer.error->0.message;
    crate::tsgo::routing::dropped_leaves_others(told, key, message, true);
    assert(told.outbox.take(s.outbox.len() as int) =~= s.outbox);
    let t = child_response(s, answer);
    sent_stays_sent(s, told, t, told.outbox.last());
    assert(t.outbox.take(told.outbox.len() as int)[s.outbox.len() as int]
        == t.outbox[s.outbox.len() as int]);
}

/// What the client answers reaches the child that has asked, under the id that the child had given.
pub proof fn the_clients_answers_reach_the_child(
    s: ProxyView,
    answer: ResponseView,
    key: SessionKeyView,
    request: RequestIdView,
)
    requires
        lookup(s.child_request_routes, answer.id) matches Some(route) && route.session == key
            && route.request == request,
        lookup(s.sessions, key) matches Some(session) && session.open,
    ensures
        ({
            let (t, result) = client_message(s, MessageView::Response(answer));
            &&& result == Ok::<NextView, Seq<char>>(NextView::Done)
            &&& t.outbox == s.outbox.push(
                ActionView::Child(
                    key,
                    MessageView::Response(
                        ResponseView { id: request, result: answer.result, error: answer.error },
                    ),
                ),
            )
        }),
{
}

/// Where a child is gone before the client's `initialize` has reached it, the client is answered that it has
/// failed.
pub proof fn initialize_fails_without_a_child(
    s: ProxyView,
    request: RequestView,
    key: SessionKeyView,
)
    requires
        !holds(s.sessions, key),
    ensures
        ({
            let (t, result) = arrived(s, key, PurposeView::Initialize(request));
            &&& result == Ok::<NextView, Seq<char>>(NextView::Done)
            &&& t.outbox.len() == s.outbox.len() + 2
            &&& t.outbox[s.outbox.len() as int] matches ActionView::Client(
                MessageView::Response(answer),
            )
            &&& answer.id == request.id
            &&& answer.result is None
            &&& answer.error matches Some(error)
            &&& error.code == -32803
            &&& error.message == "default session disappeared during initialize"@
        }),
{
}

/// Where nothing is found for a step, the step fails for want of a compiler.
pub proof fn nothing_found_is_a_failure(s: ProxyView, purpose: PurposeView)
    ensures
        discovered(s, OutcomeView::Absent, purpose) == discovered(
            s,
            OutcomeView::Failed("no tsgo session is available"@),
            purpose,
        ),
{
}

/// That a document is closed which nothing serves is no failure: the document belongs to no project, and nobody
/// is told.
pub proof fn closing_never_fails(
    s: ProxyView,
    notification: NotificationView,
    uri: Seq<char>,
    message: Seq<char>,
)
    requires
        tidy(s),
        notification.method == "textDocument/didClose"@,
    ensures
        ({
            let (t, result) = discovered(
                s,
                OutcomeView::Failed(message),
                PurposeView::Notification(notification, uri),
            );
            &&& result == Ok::<NextView, Seq<char>>(NextView::Done)
            &&& lookup(t.documents, uri) is None
            &&& t.outbox == s.outbox
            &&& t.sessions == s.sessions
        }),
{
    without_lookups(s.documents, uri);
}

/// A child that has not answered `initialize` yet is told of the changes of its files once it has: they are kept
/// for it, behind what is kept already.
pub proof fn changes_are_kept_for_children_that_start(
    s: ProxyView,
    keys: Seq<SessionKeyView>,
    changes: Seq<ChangeView>,
    i: int,
)
    requires
        0 <= i < keys.len(),
        forall|a: int, b: int|
            0 <= a < b < keys.len() ==> (#[trigger] keys[a]).ident() != (#[trigger] keys[b]).ident(),
        lookup(s.sessions, keys[i]) matches Some(session) && !session.initialized,
        changes_of(changes, keys[i]).len() > 0,
    ensures
        ({
            let session = lookup(s.sessions, keys[i])->0;
            lookup(changes_forwarded(s, keys, changes).sessions, keys[i]) == Some(
                SessionView {
                    queued_messages: session.queued_messages.push(
                        MessageView::Notification(
                            change_notification(changes_of(changes, keys[i])),
                        ),
                    ),
                    ..session
                },
            )
        }),
    decreases keys.len(),
{
    let shorter = keys.drop_last();
    let rest = changes_forwarded(s, shorter, changes);
    let last = keys.last();
    assert forall|a: int, b: int| 0 <= a < b < shorter.len() implies (#[trigger] shorter[a]).ident()
        != (#[trigger] shorter[b]).ident() by {
        assert(shorter[a] == keys[a] && shorter[b] == keys[b]);
    }
    let message = MessageView::Notification(change_notification(changes_of(changes, last)));
    if let Some(session) = lookup(rest.sessions, last) {
        put_lookups(
            rest.sessions,
            last,
            SessionView { queued_messages: session.queued_messages.push(message), ..session },
        );
    }
    if i < shorter.len() {
        assert(shorter[i] == keys[i]);
        assert(keys[i].ident() != keys[keys.len() - 1].ident());
        changes_are_kept_for_children_that_start(s, shorter, changes, i);
    } else {
        other_children_keep_their_messages(s, shorter, changes, last);
    }
}

proof fn other_children_keep_their_messages(
    s: ProxyView,
    keys: Seq<SessionKeyView>,
    changes: Seq<ChangeView>,
    other: SessionKeyView,
)
    requires
        forall|a: int| 0 <= a < keys.len() ==> (#[trigger] keys[a]).ident() != other.ident(),
    ensures
        lookup(changes_forwarded(s, keys, changes).sessions, other) == lookup(s.sessions, other),
    decreases keys.len(),
{
    if keys.len() > 0 {
        let shorter = keys.drop_last();
        let last = keys.last();
        assert(keys[keys.len() - 1] == last);
        let rest = changes_forwarded(s, shorter, changes);
        assert forall|a: int| 0 <= a < shorter.len() implies (#[trigger] shorter[a]).ident()
            != other.ident() by {
            assert(shorter[a] == keys[a]);
        }
        other_children_keep_their_messages(s, shorter, changes, other);
        let message = MessageView::Notification(change_notification(changes_of(changes, last)));
        if let Some(session) = lookup(rest.sessions, last) {
            put_lookups(
                rest.sessions,
                last,
                SessionView { queued_messages: session.queued_messages.push(message), ..session },
            );
        }
    }
}

} // verus!
